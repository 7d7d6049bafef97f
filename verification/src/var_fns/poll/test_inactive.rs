//! A probe of a variable that is of no use.

use vstd::prelude::*;
use crate::var_fns::PollVarFns;
use crate::vars::value::VarValue;

verus! {

/// A probe of a variable that is of no use.
#[derive(Clone, Copy, Debug, PartialEq, Eq, Structural)]
pub struct TestInactiveFns {}

impl TestInactiveFns {
    /// The probe.
    pub fn new() -> (p: TestInactiveFns) {
        TestInactiveFns {  }
    }
}

impl PollVarFns for TestInactiveFns {
    fn is_active(&mut self) -> (active: bool)
        ensures
            !active,
            *final(self) == *old(self),
    {
        false
    }

    fn poll(&mut self) -> (value: Option<VarValue>)
        ensures
            value is None,
            *final(self) == *old(self),
    {
        None
    }
}

} // verus!
