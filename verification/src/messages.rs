//! What the engine and the worker say to each other.

use vstd::prelude::*;
use crate::vars::def::{VarDef, VarDefView};
use crate::vars::name::VarName;
use crate::vars::value::VarValue;

verus! {

/// What reaches the engine.
#[derive(Debug, Clone, PartialEq, Eq)]
pub enum EngineMsg {
    /// The poll interval has passed.
    PollVarsTick,
    /// A probe has said whether its variable is of use on this machine.
    ReturnVarIsActive(VarName, bool),
    /// A probe has been polled; `None` when it could not tell.
    ReturnVarPoll(VarName, Option<VarValue>),
    SystemIsResuming,
    SystemIsSuspending,
    Terminate,
}

/// What the engine asks of the worker.
#[derive(Debug, Clone, PartialEq, Eq)]
pub enum WorkerMsg {
    CallVarIsActive(VarName),
    CallVarPoll(VarName),
    LoadPollVarFns(VarDef),
    /// Start the poll ticker; the interval is in milliseconds.
    SpawnPollVarInterval(u64),
    /// Suspend the system; `true` in test mode, where nothing is suspended.
    Suspend(bool),
    Terminate,
    WatchPrepareForSleep,
}

/// `WorkerMsg` as mathematics.
pub enum WorkerMsgView {
    CallVarIsActive(Seq<char>),
    CallVarPoll(Seq<char>),
    LoadPollVarFns(VarDefView),
    SpawnPollVarInterval(u64),
    Suspend(bool),
    Terminate,
    WatchPrepareForSleep,
}

impl View for WorkerMsg {
    type V = WorkerMsgView;

    open spec fn view(&self) -> WorkerMsgView {
        match self {
            WorkerMsg::CallVarIsActive(n) => WorkerMsgView::CallVarIsActive(n@),
            WorkerMsg::CallVarPoll(n) => WorkerMsgView::CallVarPoll(n@),
            WorkerMsg::LoadPollVarFns(d) => WorkerMsgView::LoadPollVarFns(d@),
            WorkerMsg::SpawnPollVarInterval(ms) => WorkerMsgView::SpawnPollVarInterval(*ms),
            WorkerMsg::Suspend(test_mode) => WorkerMsgView::Suspend(*test_mode),
            WorkerMsg::Terminate => WorkerMsgView::Terminate,
            WorkerMsg::WatchPrepareForSleep => WorkerMsgView::WatchPrepareForSleep,
        }
    }
}

/// A run of messages as mathematics.
pub open spec fn msgs_view(msgs: Seq<WorkerMsg>) -> Seq<WorkerMsgView> {
    msgs.map_values(|m: WorkerMsg| m@)
}

} // verus!
