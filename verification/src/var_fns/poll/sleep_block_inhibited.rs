//! Whether an inhibitor blocks sleep.

use vstd::prelude::*;
use vstd::utf8::encode_utf8;
use crate::vars::value::VarValue;

verus! {

/// The word `sleep`, byte by byte.
pub open spec fn sleep_word() -> Seq<u8> {
    seq![0x73u8, 0x6c, 0x65, 0x65, 0x70]
}

/// The word `sleep` stands at place `i` as a whole item of a list whose items
/// colons part: the start of the text or a colon is before it, the end of the
/// text or a colon after it.
pub open spec fn sleep_at(bytes: Seq<u8>, i: int) -> bool {
    &&& 0 <= i
    &&& i + 5 <= bytes.len()
    &&& bytes.subrange(i, i + 5) == sleep_word()
    &&& (i == 0 || bytes[i - 1] == 0x3a)
    &&& (i + 5 == bytes.len() || bytes[i + 5] == 0x3a)
}

/// `sleep` is an item of the list.
pub open spec fn sleep_listed(text: Seq<char>) -> bool {
    exists|i: int| #[trigger] sleep_at(encode_utf8(text), i)
}

fn check_sleep_at(bytes: &[u8], i: usize) -> (b: bool)
    requires
        i < bytes.len(),
    ensures
        b == sleep_at(bytes@, i as int),
{
    if bytes.len() - i < 5 {
        return false;
    }
    let word = bytes[i] == 0x73 && bytes[i + 1] == 0x6c && bytes[i + 2] == 0x65 && bytes[i + 3]
        == 0x65 && bytes[i + 4] == 0x70;
    proof {
        let part = bytes@.subrange(i as int, i + 5);
        if word {
            assert(part =~= sleep_word());
        } else {
            assert(part[0] == bytes@[i as int]);
            assert(part[1] == bytes@[i + 1]);
            assert(part[2] == bytes@[i + 2]);
            assert(part[3] == bytes@[i + 3]);
            assert(part[4] == bytes@[i + 4]);
            assert(sleep_word()[0] == 0x73 && sleep_word()[1] == 0x6c && sleep_word()[2] == 0x65
                && sleep_word()[3] == 0x65 && sleep_word()[4] == 0x70);
        }
    }
    let before = i == 0 || bytes[i - 1] == 0x3a;
    let after = i + 5 == bytes.len() || bytes[i + 5] == 0x3a;
    word && before && after
}

/// Whether `sleep` is among the items of `block_inhibited`, a list whose items
/// colons part.
pub fn is_sleep_among_block_inhibited(block_inhibited: &str) -> (b: bool)
    ensures
        b == sleep_listed(block_inhibited@),
{
    let bytes = block_inhibited.as_bytes();
    let mut i: usize = 0;
    while i < bytes.len()
        invariant
            i <= bytes.len(),
            bytes@ == encode_utf8(block_inhibited@),
            forall|j: int| 0 <= j < i ==> !sleep_at(bytes@, j),
        decreases bytes.len() - i,
    {
        if check_sleep_at(bytes, i) {
            return true;
        }
        i += 1;
    }
    proof {
        assert forall|j: int| !sleep_at(bytes@, j) by {
            if j >= bytes.len() {
                assert(!(j + 5 <= bytes@.len()));
            }
        }
    }
    false
}

/// The value of the variable for the list of what the inhibitors block.
pub fn sleep_block_inhibited(block_inhibited: &str) -> (value: VarValue)
    ensures
        value == VarValue::Bool(sleep_listed(block_inhibited@)),
{
    VarValue::Bool(is_sleep_among_block_inhibited(block_inhibited))
}

} // verus!
