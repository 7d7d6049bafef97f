//! Suspending, and the signals that the system sends around a suspend.

use vstd::prelude::*;
use crate::messages::EngineMsg;

verus! {

/// What to do about a request to suspend.
#[derive(Clone, Copy, Debug, PartialEq, Eq, Structural)]
pub enum SuspendAction {
    /// Test mode: the request is logged, and nothing is suspended.
    LogOnly,
    /// There is no connection to the system bus: the request cannot be made.
    MissingConnection,
    /// The login manager is asked to suspend, without asking the user.
    CallSuspend,
}

/// What to do about a request to suspend: nothing in test mode; else the login
/// manager is asked, if there is a connection to it.
pub fn handle_suspend(test_mode: bool, connected: bool) -> (action: SuspendAction)
    ensures
        action == if test_mode {
            SuspendAction::LogOnly
        } else if connected {
            SuspendAction::CallSuspend
        } else {
            SuspendAction::MissingConnection
        },
{
    if test_mode {
        SuspendAction::LogOnly
    } else if connected {
        SuspendAction::CallSuspend
    } else {
        SuspendAction::MissingConnection
    }
}

/// What the engine is told when the system signals that it prepares for sleep:
/// `true` is the way into suspend, `false` the way out.
pub fn process_prepare_for_sleep(suspending: bool) -> (msg: EngineMsg)
    ensures
        msg == if suspending {
            EngineMsg::SystemIsSuspending
        } else {
            EngineMsg::SystemIsResuming
        },
{
    if suspending {
        EngineMsg::SystemIsSuspending
    } else {
        EngineMsg::SystemIsResuming
    }
}

} // verus!
