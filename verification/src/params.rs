//! The free-form parameters of a definition, as plain values.

use vstd::prelude::*;
use crate::text_map::{Replicate, TextMap};

verus! {

/// One parameter value. Composite values are carried as text and never read.
#[derive(Debug, Clone, PartialEq, Eq)]
pub enum ParamValue {
    Null,
    Bool(bool),
    Number(String),
    Text(String),
    Opaque(String),
}

impl Replicate for ParamValue {
    fn replicate(&self) -> (r: ParamValue) {
        match self {
            ParamValue::Null => ParamValue::Null,
            ParamValue::Bool(b) => ParamValue::Bool(*b),
            ParamValue::Number(s) => ParamValue::Number(s.clone()),
            ParamValue::Text(s) => ParamValue::Text(s.clone()),
            ParamValue::Opaque(s) => ParamValue::Opaque(s.clone()),
        }
    }
}

/// The parameters of one definition, by key.
pub type Params = TextMap<ParamValue>;

/// A type that a parameter value can be read as.
pub trait FromParam: Sized {
    /// What `value` reads as, if it has the right shape.
    spec fn read(value: ParamValue) -> Option<Self>;

    fn from_param(value: &ParamValue) -> (r: Option<Self>)
        ensures
            r == Self::read(*value),
    ;
}

impl FromParam for bool {
    open spec fn read(value: ParamValue) -> Option<bool> {
        match value {
            ParamValue::Bool(b) => Some(b),
            _ => None,
        }
    }

    fn from_param(value: &ParamValue) -> (r: Option<bool>) {
        match value {
            ParamValue::Bool(b) => Some(*b),
            _ => None,
        }
    }
}

impl FromParam for String {
    open spec fn read(value: ParamValue) -> Option<String> {
        match value {
            ParamValue::Text(s) => Some(s),
            _ => None,
        }
    }

    fn from_param(value: &ParamValue) -> (r: Option<String>) {
        match value {
            ParamValue::Text(s) => Some(s.clone()),
            _ => None,
        }
    }
}

} // verus!
