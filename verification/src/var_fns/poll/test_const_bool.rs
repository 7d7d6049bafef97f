//! A probe that always gives `true`.

use vstd::prelude::*;
use crate::var_fns::PollVarFns;
use crate::vars::value::VarValue;

verus! {

/// A probe that always gives the same truth value.
#[derive(Clone, Copy, Debug, PartialEq, Eq, Structural)]
pub struct TestConstBoolFns {
    return_value: bool,
}

impl TestConstBoolFns {
    /// The probe that gives `value`.
    pub closed spec fn returning(value: bool) -> TestConstBoolFns {
        TestConstBoolFns { return_value: value }
    }

    /// The value that the probe gives.
    pub closed spec fn return_value(self) -> bool {
        self.return_value
    }

    /// The probe that gives `true`.
    pub fn new() -> (p: TestConstBoolFns)
        ensures
            p == Self::returning(true),
            p.return_value(),
    {
        TestConstBoolFns { return_value: true }
    }
}

impl PollVarFns for TestConstBoolFns {
    fn is_active(&mut self) -> (active: bool)
        ensures
            active,
            *final(self) == *old(self),
    {
        true
    }

    fn poll(&mut self) -> (value: Option<VarValue>)
        ensures
            value == Some(VarValue::Bool(old(self).return_value())),
            *final(self) == *old(self),
    {
        Some(VarValue::Bool(self.return_value))
    }
}

} // verus!
