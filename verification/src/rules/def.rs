//! Rule definitions.

use vstd::prelude::*;
use crate::rules::name::RuleName;

verus! {

/// A rule that keeps the device up while its script is true.
#[derive(Clone, Debug, PartialEq, Eq)]
pub struct StayupBoolDef {
    pub value_script: String,
}

/// What a rule does.
#[derive(Clone, Debug, PartialEq, Eq)]
pub enum RuleKind {
    StayupBool(StayupBoolDef),
}

/// A rule definition.
#[derive(Clone, Debug, PartialEq, Eq)]
pub struct RuleDef {
    pub name: RuleName,
    pub kind: RuleKind,
}

/// `RuleDef` as mathematics.
pub struct RuleDefView {
    pub name: Seq<char>,
    pub value_script: Seq<char>,
}

impl View for RuleDef {
    type V = RuleDefView;

    open spec fn view(&self) -> RuleDefView {
        RuleDefView {
            name: self.name@,
            value_script: match self.kind {
                RuleKind::StayupBool(d) => d.value_script@,
            },
        }
    }
}

impl RuleDef {
    /// The name of the rule.
    pub fn name(&self) -> (n: &RuleName)
        ensures
            *n == self.name,
    {
        &self.name
    }

    /// A copy of the definition.
    pub fn duplicate(&self) -> (r: RuleDef)
        ensures
            r == *self,
    {
        match &self.kind {
            RuleKind::StayupBool(d) => RuleDef {
                name: self.name.duplicate(),
                kind: RuleKind::StayupBool(StayupBoolDef { value_script: d.value_script.clone() }),
            },
        }
    }

    /// The script of the rule.
    pub fn value_script(&self) -> (s: &str)
        ensures
            s@ == self@.value_script,
    {
        match &self.kind {
            RuleKind::StayupBool(d) => d.value_script.as_str(),
        }
    }
}

} // verus!
