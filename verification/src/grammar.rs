//! The byte grammar that variable and rule names share: words of lower case
//! ASCII letters and digits, joined by single underscores.

use vstd::prelude::*;

verus! {

/// Lower case ASCII letter.
pub open spec fn is_lower_byte(b: u8) -> bool {
    0x61 <= b <= 0x7a
}

/// ASCII digit.
pub open spec fn is_digit_byte(b: u8) -> bool {
    0x30 <= b <= 0x39
}

/// The bytes a name may hold: lower case letters, digits and the underscore.
pub open spec fn is_name_byte(b: u8) -> bool {
    is_lower_byte(b) || is_digit_byte(b) || b == 0x5f
}

/// Every byte is a name byte.
pub open spec fn charset_ok(bytes: Seq<u8>) -> bool {
    forall|i: int| 0 <= i < bytes.len() ==> is_name_byte(#[trigger] bytes[i])
}

/// No underscore at either end and no two underscores in a row: together with
/// `charset_ok` this says that the bytes are non-empty words joined by single
/// underscores.
pub open spec fn words_ok(bytes: Seq<u8>) -> bool {
    &&& bytes.len() > 0
    &&& bytes[0] != 0x5f
    &&& bytes[bytes.len() - 1] != 0x5f
    &&& forall|i: int|
        0 <= i < bytes.len() - 1 ==> !(#[trigger] bytes[i] == 0x5f && bytes[i + 1] == 0x5f)
}

/// Whether every byte is a name byte.
pub fn check_charset(bytes: &[u8]) -> (ok: bool)
    ensures
        ok == charset_ok(bytes@),
{
    let mut i: usize = 0;
    while i < bytes.len()
        invariant
            i <= bytes.len(),
            forall|j: int| 0 <= j < i ==> is_name_byte(#[trigger] bytes@[j]),
        decreases bytes.len() - i,
    {
        let b = bytes[i];
        if !((0x61 <= b && b <= 0x7a) || (0x30 <= b && b <= 0x39) || b == 0x5f) {
            return false;
        }
        i += 1;
    }
    true
}

/// Whether the bytes keep their underscores single and inside.
pub fn check_words(bytes: &[u8]) -> (ok: bool)
    ensures
        ok == words_ok(bytes@),
{
    let n = bytes.len();
    if n == 0 {
        return false;
    }
    if bytes[0] == 0x5f || bytes[n - 1] == 0x5f {
        return false;
    }
    let mut i: usize = 0;
    while i < n - 1
        invariant
            n == bytes.len(),
            n > 0,
            i <= n - 1,
            forall|j: int| 0 <= j < i ==> !(#[trigger] bytes@[j] == 0x5f && bytes@[j + 1] == 0x5f),
        decreases n - 1 - i,
    {
        if bytes[i] == 0x5f && bytes[i + 1] == 0x5f {
            return false;
        }
        i += 1;
    }
    true
}

/// Whether the first byte is a lower case letter.
pub fn starts_with_letter(bytes: &[u8]) -> (ok: bool)
    ensures
        ok == (bytes@.len() > 0 && is_lower_byte(bytes@[0])),
{
    bytes.len() > 0 && 0x61 <= bytes[0] && bytes[0] <= 0x7a
}

} // verus!
