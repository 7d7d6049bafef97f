//! Whether the seat of the machine is in use.

use vstd::prelude::*;
use crate::vars::value::VarValue;

verus! {

/// The value of the variable for an idle hint of the login manager: the seat is
/// busy when it is not idle.
pub fn busy_from_idle_hint(idle_hint: bool) -> (value: VarValue)
    ensures
        value == VarValue::Bool(!idle_hint),
{
    VarValue::Bool(!idle_hint)
}

} // verus!
