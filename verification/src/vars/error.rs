//! What can be wrong with a variable definition.

use vstd::prelude::*;
use vstd::std_specs::convert::FromSpecImpl;
use vstd::string::StringExecFns;
use crate::text::{concat3, decimal, decimal_text};

verus! {

/// Why a text is no variable name.
#[derive(Debug, Clone, PartialEq, Eq)]
pub enum VarNameError {
    Empty,
    TooLong(String, usize),
    DisallowedCharacters(String),
    IncorrectPattern(String),
}


/// Why a var definition is refused.
#[derive(Debug, Clone, PartialEq, Eq)]
pub enum VarError {
    /// A required parameter is not there; the key is given.
    ParamMissing(String),
    /// A parameter has the wrong shape; the key is given.
    IncorrectParamType(String),
    /// The name is no var name.
    IncorrectName(VarNameError),
    /// Two definitions have this name.
    DuplicateName(String),
}

impl From<VarNameError> for VarError {
    fn from(e: VarNameError) -> (r: VarError) {
        VarError::IncorrectName(e)
    }
}

impl FromSpecImpl<VarNameError> for VarError {
    open spec fn obeys_from_spec() -> bool {
        true
    }

    open spec fn from_spec(e: VarNameError) -> VarError {
        VarError::IncorrectName(e)
    }
}

impl VarNameError {
    /// What the error says.
    pub open spec fn message(self) -> Seq<char> {
        match self {
            VarNameError::Empty => "Var name cannot be empty."@,
            VarNameError::TooLong(name, max) => "Var name '"@ + name@
                + "' is too long. Maximum length is "@ + decimal_text(max as nat)
                + " characters."@,
            VarNameError::DisallowedCharacters(name) => "Var name '"@ + name@
                + "' contains disallowed charecters. Allowed are \
                   lower case ASCII alphanumerics, and underscore.)"@,
            VarNameError::IncorrectPattern(name) => "Var name '"@ + name@
                + "' follows an incorrect pattern."@,
        }
    }

    /// The error in words.
    pub fn to_string(&self) -> (s: String)
        ensures
            s@ == self.message(),
    {
        match self {
            VarNameError::Empty => "Var name cannot be empty.".to_owned(),
            VarNameError::TooLong(name, max) => concat3(
                "Var name '",
                name.as_str(),
                "' is too long. Maximum length is ",
            ).concat(decimal(*max).as_str()).concat(" characters."),
            VarNameError::DisallowedCharacters(name) => concat3(
                "Var name '",
                name.as_str(),
                "' contains disallowed charecters. Allowed are \
                 lower case ASCII alphanumerics, and underscore.)",
            ),
            VarNameError::IncorrectPattern(name) => concat3(
                "Var name '",
                name.as_str(),
                "' follows an incorrect pattern.",
            ),
        }
    }
}

impl VarError {
    /// What the error says.
    pub open spec fn message(self) -> Seq<char> {
        match self {
            VarError::ParamMissing(key) => "Var parameter '"@ + key@ + "' is missing."@,
            VarError::IncorrectParamType(key) => "Var parameter '"@ + key@
                + "' is of incorrect data type."@,
            VarError::IncorrectName(_) => "Incorrect var name."@,
            VarError::DuplicateName(name) => "Var name '"@ + name@ + "' is defined twice."@,
        }
    }

    /// The error in words.
    pub fn to_string(&self) -> (s: String)
        ensures
            s@ == self.message(),
    {
        match self {
            VarError::ParamMissing(key) => concat3(
                "Var parameter '",
                key.as_str(),
                "' is missing.",
            ),
            VarError::IncorrectParamType(key) => concat3(
                "Var parameter '",
                key.as_str(),
                "' is of incorrect data type.",
            ),
            VarError::IncorrectName(_) => "Incorrect var name.".to_owned(),
            VarError::DuplicateName(name) => concat3(
                "Var name '",
                name.as_str(),
                "' is defined twice.",
            ),
        }
    }
}

} // verus!
