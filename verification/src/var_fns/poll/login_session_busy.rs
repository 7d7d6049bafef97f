//! Whether the session of the daemon is in use.

use vstd::prelude::*;
use crate::vars::value::VarValue;

verus! {

/// What a poll gives for what asking for the idle hint of the session gave: the
/// session is busy when it is not idle. Where the hint could not be had the poll
/// gives nothing, and the last value stays.
pub fn session_busy(idle_hint: Option<bool>) -> (value: Option<VarValue>)
    ensures
        value == match idle_hint {
            Some(idle) => Some(VarValue::Bool(!idle)),
            None => None,
        },
{
    match idle_hint {
        Some(idle) => Some(VarValue::Bool(!idle)),
        None => None,
    }
}

} // verus!
