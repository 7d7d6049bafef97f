//! The value of a variable.

use vstd::prelude::*;
use crate::text_map::Replicate;

verus! {

/// What a variable holds. Only truth values are known so far.
#[derive(Debug, Clone, PartialEq, Eq, Structural)]
pub enum VarValue {
    Bool(bool),
}

impl VarValue {
    /// The value as a script would print it.
    pub fn to_string(&self) -> (s: String)
        ensures
            self == VarValue::Bool(true) ==> s@ == "true"@,
            self == VarValue::Bool(false) ==> s@ == "false"@,
    {
        match self {
            VarValue::Bool(true) => "true".to_owned(),
            VarValue::Bool(false) => "false".to_owned(),
        }
    }

    /// Whether the value is the truth value `true`.
    pub fn is_true(&self) -> (b: bool)
        ensures
            b == (*self == VarValue::Bool(true)),
    {
        match self {
            VarValue::Bool(b) => *b,
        }
    }
}

impl Replicate for VarValue {
    fn replicate(&self) -> (r: VarValue) {
        match self {
            VarValue::Bool(b) => VarValue::Bool(*b),
        }
    }
}

} // verus!
