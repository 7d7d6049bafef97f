//! Rule names: words of lower case ASCII letters and digits, joined by single
//! underscores, beginning with a letter, at most 80 bytes long.

use vstd::prelude::*;
use vstd::std_specs::convert::{FromSpecImpl, TryFromSpecImpl};
use vstd::utf8::encode_utf8;
use crate::grammar::{
    charset_ok, check_charset, check_words, is_lower_byte, starts_with_letter, words_ok,
};
use crate::rules::error::RuleNameError;

verus! {

/// The most bytes that a rule name may have.
pub const RULE_NAME_MAX_LENGTH: usize = 80;

/// The pattern of a rule name, for bytes that passed `charset_ok`.
pub open spec fn rule_pattern_ok(bytes: Seq<u8>) -> bool {
    words_ok(bytes) && is_lower_byte(bytes[0])
}

/// A text is a valid rule name.
pub open spec fn valid_rule_name(text: Seq<char>) -> bool {
    let bytes = encode_utf8(text);
    &&& 1 <= bytes.len() <= RULE_NAME_MAX_LENGTH
    &&& charset_ok(bytes)
    &&& rule_pattern_ok(bytes)
}

/// What validating `s` as a rule name gives, in the same order of tests.
pub open spec fn rule_name_verdict(s: String) -> Result<String, RuleNameError> {
    let bytes = encode_utf8(s@);
    if bytes.len() < 1 {
        Err(RuleNameError::Empty)
    } else if bytes.len() > RULE_NAME_MAX_LENGTH {
        Err(RuleNameError::TooLong(s, RULE_NAME_MAX_LENGTH))
    } else if !charset_ok(bytes) {
        Err(RuleNameError::DisallowedCharacters(s))
    } else if !rule_pattern_ok(bytes) {
        Err(RuleNameError::IncorrectPattern(s))
    } else {
        Ok(s)
    }
}

/// The name of a rule.
#[derive(Debug, Clone, Hash, PartialEq, Eq)]
pub struct RuleName {
    pub(crate) text: String,
}

impl View for RuleName {
    type V = Seq<char>;

    closed spec fn view(&self) -> Seq<char> {
        self.text@
    }
}

impl RuleName {
    /// The string that the name holds.
    pub closed spec fn text(self) -> String {
        self.text
    }

    /// The name that holds `text`.
    pub closed spec fn wrap(text: String) -> RuleName {
        RuleName { text }
    }

    /// Validates `s` and wraps it.
    pub fn new(s: String) -> (r: Result<RuleName, RuleNameError>)
        ensures
            r is Ok <==> valid_rule_name(s@),
            r matches Ok(name) ==> name@ == s@ && name == RuleName::wrap(s),
            r matches Ok(_) ==> rule_name_verdict(s) == Ok::<String, RuleNameError>(s),
            r matches Err(e) ==> rule_name_verdict(s) == Err::<String, RuleNameError>(e),
    {
        let bytes = s.as_str().as_bytes();
        let len = bytes.len();
        if len < 1 {
            return Err(RuleNameError::Empty);
        }
        if len > RULE_NAME_MAX_LENGTH {
            return Err(RuleNameError::TooLong(s, RULE_NAME_MAX_LENGTH));
        }
        if !check_charset(bytes) {
            return Err(RuleNameError::DisallowedCharacters(s));
        }
        if !check_words(bytes) || !starts_with_letter(bytes) {
            return Err(RuleNameError::IncorrectPattern(s));
        }
        Ok(RuleName { text: s })
    }

    /// The name as text.
    pub fn as_str(&self) -> (s: &str)
        ensures
            s@ == self@,
    {
        self.text.as_str()
    }

    /// A copy of the name.
    pub fn duplicate(&self) -> (r: RuleName)
        ensures
            r == *self,
    {
        RuleName { text: self.text.clone() }
    }

    /// The string that the name holds.
    pub fn into_string(self) -> (s: String)
        ensures
            s@ == self@,
            s == self.text(),
    {
        self.text
    }
}

impl TryFrom<String> for RuleName {
    type Error = RuleNameError;

    fn try_from(s: String) -> (r: Result<RuleName, RuleNameError>)
        ensures
            r is Ok <==> valid_rule_name(s@),
            r matches Ok(name) ==> name@ == s@,
    {
        RuleName::new(s)
    }
}

impl TryFromSpecImpl<String> for RuleName {
    open spec fn obeys_try_from_spec() -> bool {
        true
    }

    open spec fn try_from_spec(s: String) -> Result<RuleName, RuleNameError> {
        match rule_name_verdict(s) {
            Ok(text) => Ok(RuleName::wrap(text)),
            Err(e) => Err(e),
        }
    }
}

impl From<RuleName> for String {
    fn from(name: RuleName) -> (s: String) {
        name.text
    }
}

impl FromSpecImpl<RuleName> for String {
    open spec fn obeys_from_spec() -> bool {
        true
    }

    open spec fn from_spec(name: RuleName) -> String {
        name.text()
    }
}

impl AsRef<str> for RuleName {
    fn as_ref(&self) -> (s: &str)
        ensures
            s@ == self@,
    {
        self.text.as_str()
    }
}

} // verus!
