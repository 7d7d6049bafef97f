//! Probes: what stands behind a polled variable.

use vstd::prelude::*;
use crate::params::{ParamValue, Params};
use crate::text::str_eq;
use crate::var_fns::poll::test_const_bool::TestConstBoolFns;
use crate::var_fns::poll::test_inactive::TestInactiveFns;
use crate::var_fns::poll::test_poll_bool::{return_value_fault, return_value_of, TestPollBoolFns};
use crate::vars::def::{BuiltinPollDef, VarDef, VarKind, VarKindView};
use crate::vars::error::VarError;
use crate::vars::value::VarValue;

pub mod poll;

verus! {

/// What a probe can do. A probe may block while it asks the system.
pub trait PollVarFns {
    /// Whether the variable is of use on this machine. It is asked once; a
    /// variable that is of no use is forgotten.
    fn is_active(&mut self) -> bool;

    /// The value of the variable now; none when the probe cannot tell, and the
    /// last value stays.
    fn poll(&mut self) -> Option<VarValue>;
}

/// A probe that asks nothing of the system.
#[derive(Clone, Debug, PartialEq)]
pub enum TestProbe {
    PollBool(TestPollBoolFns),
    Inactive(TestInactiveFns),
    ConstBool(TestConstBoolFns),
}

impl PollVarFns for TestProbe {
    fn is_active(&mut self) -> (active: bool)
        ensures
            *final(self) == *old(self),
            active == !(*old(self) is Inactive),
    {
        match self {
            TestProbe::PollBool(p) => p.is_active(),
            TestProbe::Inactive(p) => p.is_active(),
            TestProbe::ConstBool(p) => p.is_active(),
        }
    }

    fn poll(&mut self) -> (value: Option<VarValue>)
        ensures
            *final(self) == *old(self),
            value == match *old(self) {
                TestProbe::PollBool(p) => Some(VarValue::Bool(p.return_value())),
                TestProbe::Inactive(_) => None,
                TestProbe::ConstBool(p) => Some(VarValue::Bool(p.return_value())),
            },
    {
        match self {
            TestProbe::PollBool(p) => p.poll(),
            TestProbe::Inactive(p) => p.poll(),
            TestProbe::ConstBool(p) => p.poll(),
        }
    }
}

/// How the probe of a polled variable is made: a test probe as it is, a probe of
/// the system by its kind, for the worker to make with its connection.
#[derive(Clone, Debug, PartialEq)]
pub enum ProbePlan {
    /// The idle hint of seat0, inverted.
    LoginSeatBusy,
    /// The idle hint of the session of the daemon, inverted.
    LoginSessionBusy,
    /// Whether sleep is among what the login manager's inhibitors block.
    SleepBlockInhibited,
    /// Whether a modem has a voice call.
    ModemVoiceCallPresent,
    Test(TestProbe),
}

/// Why no probe can be made.
#[derive(Clone, Debug, PartialEq, Eq)]
pub enum ProbeError {
    /// The named variable is not polled.
    NotPollVar(String),
    /// The named variable asks for a built-in probe that there is not; its name follows.
    UnknownBuiltin(String, String),
    /// A parameter of the probe is missing or of the wrong shape.
    Param(VarError),
}

/// There is a built-in probe of this name.
pub open spec fn known_builtin(builtin_name: Seq<char>) -> bool {
    ||| builtin_name == "login_seat_busy"@
    ||| builtin_name == "login_session_busy"@
    ||| builtin_name == "sleep_block_inhibited"@
    ||| builtin_name == "modem_voice_call_present"@
    ||| builtin_name == "test_poll_bool"@
    ||| builtin_name == "test_inactive"@
    ||| builtin_name == "test_const_bool"@
}

/// The plan of the built-in probe `builtin_name` with `params`; none where
/// there is no such probe, or its parameters are not in order.
pub open spec fn plan_of(builtin_name: Seq<char>, params: Map<Seq<char>, ParamValue>) -> Option<
    ProbePlan,
> {
    if builtin_name == "login_seat_busy"@ {
        Some(ProbePlan::LoginSeatBusy)
    } else if builtin_name == "login_session_busy"@ {
        Some(ProbePlan::LoginSessionBusy)
    } else if builtin_name == "sleep_block_inhibited"@ {
        Some(ProbePlan::SleepBlockInhibited)
    } else if builtin_name == "modem_voice_call_present"@ {
        Some(ProbePlan::ModemVoiceCallPresent)
    } else if builtin_name == "test_poll_bool"@ {
        match return_value_of(params) {
            Some(v) => Some(ProbePlan::Test(TestProbe::PollBool(TestPollBoolFns::returning(v)))),
            None => None,
        }
    } else if builtin_name == "test_inactive"@ {
        Some(ProbePlan::Test(TestProbe::Inactive(TestInactiveFns {  })))
    } else if builtin_name == "test_const_bool"@ {
        Some(ProbePlan::Test(TestProbe::ConstBool(TestConstBoolFns::returning(true))))
    } else {
        None
    }
}

/// What making the built-in probe `builtin_name` with `params` for the variable
/// `name` gives.
pub open spec fn plan_made(
    name: Seq<char>,
    builtin_name: Seq<char>,
    params: Map<Seq<char>, ParamValue>,
    r: Result<ProbePlan, ProbeError>,
) -> bool {
    match plan_of(builtin_name, params) {
        Some(plan) => r == Ok::<ProbePlan, ProbeError>(plan),
        None => if known_builtin(builtin_name) {
            r matches Err(ProbeError::Param(e)) && return_value_fault(params, e)
        } else {
            r matches Err(ProbeError::UnknownBuiltin(n, b)) && n@ == name && b@ == builtin_name
        },
    }
}

/// The plan of the built-in probe that `bp_def` asks for, for the variable
/// `name`. A probe that there is not is refused, and so is one whose parameters
/// are missing or of the wrong shape.
pub fn new_builtin_poll_var_fns(name: &str, bp_def: &BuiltinPollDef) -> (r: Result<
    ProbePlan,
    ProbeError,
>)
    requires
        bp_def.params.wf(),
    ensures
        plan_made(name@, bp_def.builtin_name@, bp_def.params@, r),
{
    let builtin = bp_def.builtin_name.as_str();
    if str_eq(builtin, "login_seat_busy") {
        Ok(ProbePlan::LoginSeatBusy)
    } else if str_eq(builtin, "login_session_busy") {
        Ok(ProbePlan::LoginSessionBusy)
    } else if str_eq(builtin, "sleep_block_inhibited") {
        Ok(ProbePlan::SleepBlockInhibited)
    } else if str_eq(builtin, "modem_voice_call_present") {
        Ok(ProbePlan::ModemVoiceCallPresent)
    } else if str_eq(builtin, "test_poll_bool") {
        match TestPollBoolFns::new(&bp_def.params) {
            Ok(p) => Ok(ProbePlan::Test(TestProbe::PollBool(p))),
            Err(e) => Err(ProbeError::Param(e)),
        }
    } else if str_eq(builtin, "test_inactive") {
        Ok(ProbePlan::Test(TestProbe::Inactive(TestInactiveFns::new())))
    } else if str_eq(builtin, "test_const_bool") {
        Ok(ProbePlan::Test(TestProbe::ConstBool(TestConstBoolFns::new())))
    } else {
        Err(ProbeError::UnknownBuiltin(name.to_owned(), bp_def.builtin_name.clone()))
    }
}

/// The plan of the probe of `var_def`. A variable that is not polled has none.
pub fn new_poll_var_fns(var_def: &VarDef) -> (r: Result<ProbePlan, ProbeError>)
    requires
        var_def.kind matches VarKind::BuiltinPoll(d) ==> d.params.wf(),
    ensures
        match var_def@.kind {
            VarKindView::BuiltinPoll { builtin_name, params } => plan_made(
                var_def@.name,
                builtin_name,
                params,
                r,
            ),
            VarKindView::CategoryAny { .. } => r matches Err(ProbeError::NotPollVar(n)) && n@
                == var_def@.name,
        },
{
    match &var_def.kind {
        VarKind::BuiltinPoll(def) => new_builtin_poll_var_fns(var_def.name.as_str(), def),
        _ => Err(ProbeError::NotPollVar(var_def.name.duplicate().into_string())),
    }
}

} // verus!
