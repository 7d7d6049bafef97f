//! Reading the parameters of a rule definition.

use vstd::prelude::*;
use crate::params::{FromParam, ParamValue, Params};
use crate::text_map::Replicate;
use crate::rules::error::RuleError;

verus! {

/// What asking `params` for `key` gives: the value, or that it is missing.
pub open spec fn required_value(params: Map<Seq<char>, ParamValue>, key: Seq<char>) -> Option<
    ParamValue,
> {
    if params.contains_key(key) {
        Some(params[key])
    } else {
        None
    }
}

/// The value of `key`, which must be there.
pub fn param_required_value(params: &Params, key: &str) -> (r: Result<ParamValue, RuleError>)
    requires
        params.wf(),
    ensures
        match required_value(params@, key@) {
            Some(v) => r == Ok::<ParamValue, RuleError>(v),
            None => r matches Err(RuleError::ParamMissing(k)) && k@ == key@,
        },
{
    match params.get(key) {
        Some(v) => Ok(v.replicate()),
        None => Err(RuleError::ParamMissing(key.to_owned())),
    }
}

/// The value of `key`, which must be there, read as a `T`.
pub fn param_required<T: FromParam>(params: &Params, key: &str) -> (r: Result<T, RuleError>)
    requires
        params.wf(),
    ensures
        match required_value(params@, key@) {
            Some(v) => match T::read(v) {
                Some(t) => r == Ok::<T, RuleError>(t),
                None => r matches Err(RuleError::IncorrectParamType(k)) && k@ == key@,
            },
            None => r matches Err(RuleError::ParamMissing(k)) && k@ == key@,
        },
{
    match params.get(key) {
        Some(v) => match T::from_param(v) {
            Some(t) => Ok(t),
            None => Err(RuleError::IncorrectParamType(key.to_owned())),
        },
        None => Err(RuleError::ParamMissing(key.to_owned())),
    }
}

} // verus!
