//! A probe that always gives the truth value that its parameters name.

use vstd::prelude::*;
use crate::params::{FromParam, ParamValue, Params};
use crate::var_fns::PollVarFns;
use crate::vars::error::VarError;
use crate::vars::params::{param_required, required_value};
use crate::vars::value::VarValue;

verus! {

/// The parameter that names the value.
pub const RETURN_VALUE: &'static str = "return_value";

/// A probe that always gives the truth value that its parameters name.
#[derive(Clone, Copy, Debug, PartialEq, Eq, Structural)]
pub struct TestPollBoolFns {
    return_value: bool,
}

/// The value that the parameters name: the truth value of `return_value`; none
/// where it is missing or no truth value.
pub open spec fn return_value_of(params: Map<Seq<char>, ParamValue>) -> Option<bool> {
    match required_value(params, RETURN_VALUE@) {
        Some(ParamValue::Bool(b)) => Some(b),
        _ => None,
    }
}

/// `e` says what is wrong with the parameter `return_value` of `params`: that
/// it is missing, or that it is no truth value.
pub open spec fn return_value_fault(params: Map<Seq<char>, ParamValue>, e: VarError) -> bool {
    match required_value(params, RETURN_VALUE@) {
        Some(_) => e matches VarError::IncorrectParamType(k) && k@ == RETURN_VALUE@,
        None => e matches VarError::ParamMissing(k) && k@ == RETURN_VALUE@,
    }
}

impl TestPollBoolFns {
    /// The probe that gives `value`.
    pub closed spec fn returning(value: bool) -> TestPollBoolFns {
        TestPollBoolFns { return_value: value }
    }

    /// The value that the probe gives.
    pub closed spec fn return_value(self) -> bool {
        self.return_value
    }

    /// The probe that the parameters ask for.
    pub fn new(params: &Params) -> (r: Result<TestPollBoolFns, VarError>)
        requires
            params.wf(),
        ensures
            match return_value_of(params@) {
                Some(v) => r == Ok::<TestPollBoolFns, VarError>(Self::returning(v)),
                None => r matches Err(e) && return_value_fault(params@, e),
            },
    {
        match param_required::<bool>(params, RETURN_VALUE) {
            Ok(return_value) => Ok(TestPollBoolFns { return_value }),
            Err(e) => Err(e),
        }
    }
}

impl PollVarFns for TestPollBoolFns {
    fn is_active(&mut self) -> (active: bool)
        ensures
            active,
            *final(self) == *old(self),
    {
        true
    }

    fn poll(&mut self) -> (value: Option<VarValue>)
        ensures
            value == Some(VarValue::Bool(old(self).return_value())),
            *final(self) == *old(self),
    {
        Some(VarValue::Bool(self.return_value))
    }
}

} // verus!
