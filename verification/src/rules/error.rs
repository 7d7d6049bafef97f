//! What can be wrong with a rule definition.

use vstd::prelude::*;
use vstd::std_specs::convert::FromSpecImpl;
use vstd::string::StringExecFns;
use crate::text::{concat3, decimal, decimal_text};

verus! {

/// Why a text is no rule name.
#[derive(Debug, Clone, PartialEq, Eq)]
pub enum RuleNameError {
    Empty,
    TooLong(String, usize),
    DisallowedCharacters(String),
    IncorrectPattern(String),
}


/// Why a rule definition is refused.
#[derive(Debug, Clone, PartialEq, Eq)]
pub enum RuleError {
    /// A required parameter is not there; the key is given.
    ParamMissing(String),
    /// A parameter has the wrong shape; the key is given.
    IncorrectParamType(String),
    /// The name is no rule name.
    IncorrectName(RuleNameError),
    /// Two definitions have this name.
    DuplicateName(String),
    /// The script of the named rule does not compile; the parser's words follow.
    ScriptCompile(String, String),
}

impl From<RuleNameError> for RuleError {
    fn from(e: RuleNameError) -> (r: RuleError) {
        RuleError::IncorrectName(e)
    }
}

impl FromSpecImpl<RuleNameError> for RuleError {
    open spec fn obeys_from_spec() -> bool {
        true
    }

    open spec fn from_spec(e: RuleNameError) -> RuleError {
        RuleError::IncorrectName(e)
    }
}

impl RuleNameError {
    /// What the error says.
    pub open spec fn message(self) -> Seq<char> {
        match self {
            RuleNameError::Empty => "Rule name cannot be empty."@,
            RuleNameError::TooLong(name, max) => "Rule name '"@ + name@
                + "' is too long. Maximum length is "@ + decimal_text(max as nat)
                + " characters."@,
            RuleNameError::DisallowedCharacters(name) => "Rule name '"@ + name@
                + "' contains disallowed charecters. Allowed are \
                   lower case ASCII alphanumerics and underscore.)"@,
            RuleNameError::IncorrectPattern(name) => "Rule name '"@ + name@
                + "' follows an incorrect pattern."@,
        }
    }

    /// The error in words.
    pub fn to_string(&self) -> (s: String)
        ensures
            s@ == self.message(),
    {
        match self {
            RuleNameError::Empty => "Rule name cannot be empty.".to_owned(),
            RuleNameError::TooLong(name, max) => concat3(
                "Rule name '",
                name.as_str(),
                "' is too long. Maximum length is ",
            ).concat(decimal(*max).as_str()).concat(" characters."),
            RuleNameError::DisallowedCharacters(name) => concat3(
                "Rule name '",
                name.as_str(),
                "' contains disallowed charecters. Allowed are \
                 lower case ASCII alphanumerics and underscore.)",
            ),
            RuleNameError::IncorrectPattern(name) => concat3(
                "Rule name '",
                name.as_str(),
                "' follows an incorrect pattern.",
            ),
        }
    }
}

impl RuleError {
    /// What the error says.
    pub open spec fn message(self) -> Seq<char> {
        match self {
            RuleError::ParamMissing(key) => "Rule parameter '"@ + key@ + "' is missing."@,
            RuleError::IncorrectParamType(key) => "Rule parameter '"@ + key@
                + "' is of incorrect data type."@,
            RuleError::IncorrectName(_) => "Incorrect rule name."@,
            RuleError::DuplicateName(name) => "Rule name '"@ + name@ + "' is defined twice."@,
            RuleError::ScriptCompile(name, text) => "Script of rule '"@ + name@
                + "' does not compile: "@ + text@,
        }
    }

    /// The error in words.
    pub fn to_string(&self) -> (s: String)
        ensures
            s@ == self.message(),
    {
        match self {
            RuleError::ParamMissing(key) => concat3(
                "Rule parameter '",
                key.as_str(),
                "' is missing.",
            ),
            RuleError::IncorrectParamType(key) => concat3(
                "Rule parameter '",
                key.as_str(),
                "' is of incorrect data type.",
            ),
            RuleError::IncorrectName(_) => "Incorrect rule name.".to_owned(),
            RuleError::DuplicateName(name) => concat3(
                "Rule name '",
                name.as_str(),
                "' is defined twice.",
            ),
            RuleError::ScriptCompile(name, text) => concat3(
                "Script of rule '",
                name.as_str(),
                "' does not compile: ",
            ).concat(text.as_str()),
        }
    }
}

} // verus!
