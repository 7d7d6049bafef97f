//! Variable names: one or more words of lower case ASCII letters and digits,
//! joined by single underscores, at most 40 bytes long.

use vstd::prelude::*;
use vstd::std_specs::convert::{FromSpecImpl, TryFromSpecImpl};
use vstd::utf8::encode_utf8;
use crate::grammar::{charset_ok, check_charset, check_words, words_ok};
use crate::vars::error::VarNameError;

verus! {

/// The most bytes that a variable name may have.
pub const VAR_NAME_MAX_LENGTH: usize = 40;

/// The pattern of a variable name, for bytes that passed `charset_ok`.
pub open spec fn var_pattern_ok(bytes: Seq<u8>) -> bool {
    words_ok(bytes)
}

/// A text is a valid variable name.
pub open spec fn valid_var_name(text: Seq<char>) -> bool {
    let bytes = encode_utf8(text);
    &&& 1 <= bytes.len() <= VAR_NAME_MAX_LENGTH
    &&& charset_ok(bytes)
    &&& var_pattern_ok(bytes)
}

/// What validating `s` as a variable name gives: the first failing test names
/// the error, in the order empty, too long, character set, pattern.
pub open spec fn var_name_verdict(s: String) -> Result<String, VarNameError> {
    let bytes = encode_utf8(s@);
    if bytes.len() < 1 {
        Err(VarNameError::Empty)
    } else if bytes.len() > VAR_NAME_MAX_LENGTH {
        Err(VarNameError::TooLong(s, VAR_NAME_MAX_LENGTH))
    } else if !charset_ok(bytes) {
        Err(VarNameError::DisallowedCharacters(s))
    } else if !var_pattern_ok(bytes) {
        Err(VarNameError::IncorrectPattern(s))
    } else {
        Ok(s)
    }
}

/// The name of a variable.
#[derive(Debug, Clone, Hash, PartialEq, Eq)]
pub struct VarName {
    pub(crate) text: String,
}

impl View for VarName {
    type V = Seq<char>;

    closed spec fn view(&self) -> Seq<char> {
        self.text@
    }
}

impl VarName {
    /// The string that the name holds.
    pub closed spec fn text(self) -> String {
        self.text
    }

    /// The name that holds `text`.
    pub closed spec fn wrap(text: String) -> VarName {
        VarName { text }
    }

    /// Validates `s` and wraps it.
    pub fn new(s: String) -> (r: Result<VarName, VarNameError>)
        ensures
            r is Ok <==> valid_var_name(s@),
            r matches Ok(name) ==> name@ == s@ && name == VarName::wrap(s),
            r matches Ok(_) ==> var_name_verdict(s) == Ok::<String, VarNameError>(s),
            r matches Err(e) ==> var_name_verdict(s) == Err::<String, VarNameError>(e),
    {
        let bytes = s.as_str().as_bytes();
        let len = bytes.len();
        if len < 1 {
            return Err(VarNameError::Empty);
        }
        if len > VAR_NAME_MAX_LENGTH {
            return Err(VarNameError::TooLong(s, VAR_NAME_MAX_LENGTH));
        }
        if !check_charset(bytes) {
            return Err(VarNameError::DisallowedCharacters(s));
        }
        if !check_words(bytes) {
            return Err(VarNameError::IncorrectPattern(s));
        }
        Ok(VarName { text: s })
    }

    /// The name as text.
    pub fn as_str(&self) -> (s: &str)
        ensures
            s@ == self@,
    {
        self.text.as_str()
    }

    /// A copy of the name.
    pub fn duplicate(&self) -> (r: VarName)
        ensures
            r == *self,
    {
        VarName { text: self.text.clone() }
    }

    /// The string that the name holds.
    pub fn into_string(self) -> (s: String)
        ensures
            s@ == self@,
            s == self.text(),
    {
        self.text
    }
}

impl TryFrom<String> for VarName {
    type Error = VarNameError;

    fn try_from(s: String) -> (r: Result<VarName, VarNameError>)
        ensures
            r is Ok <==> valid_var_name(s@),
            r matches Ok(name) ==> name@ == s@,
    {
        VarName::new(s)
    }
}

impl TryFromSpecImpl<String> for VarName {
    open spec fn obeys_try_from_spec() -> bool {
        true
    }

    open spec fn try_from_spec(s: String) -> Result<VarName, VarNameError> {
        match var_name_verdict(s) {
            Ok(text) => Ok(VarName::wrap(text)),
            Err(e) => Err(e),
        }
    }
}

impl From<VarName> for String {
    fn from(name: VarName) -> (s: String) {
        name.text
    }
}

impl FromSpecImpl<VarName> for String {
    open spec fn obeys_from_spec() -> bool {
        true
    }

    open spec fn from_spec(name: VarName) -> String {
        name.text()
    }
}

impl AsRef<str> for VarName {
    fn as_ref(&self) -> (s: &str)
        ensures
            s@ == self@,
    {
        self.text.as_str()
    }
}

} // verus!
