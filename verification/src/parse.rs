//! Reading numbers, truth values and lists from text.

use vstd::prelude::*;
use vstd::string::StrSliceExecFns;
use vstd::utf8::encode_utf8;
use crate::text::str_eq;

verus! {

/// Every byte is an ASCII digit.
pub open spec fn all_digits(bytes: Seq<u8>) -> bool {
    forall|i: int| 0 <= i < bytes.len() ==> 0x30 <= #[trigger] bytes[i] <= 0x39
}

/// The number that decimal digits write.
pub open spec fn digits_value(bytes: Seq<u8>) -> nat
    decreases bytes.len(),
{
    if bytes.len() == 0 {
        0
    } else {
        digits_value(bytes.drop_last()) * 10 + (bytes.last() - 0x30) as nat
    }
}

/// The digits of a number text: the text without a plus sign at its front.
pub open spec fn unsigned_part(bytes: Seq<u8>) -> Seq<u8> {
    if bytes.len() > 0 && bytes[0] == 0x2b {
        bytes.skip(1)
    } else {
        bytes
    }
}

/// The number that a text writes: decimal digits, at least one, after at most
/// one plus sign, with a value that a `u64` holds.
pub open spec fn u64_of(text: Seq<char>) -> Option<u64> {
    let digits = unsigned_part(encode_utf8(text));
    if digits.len() > 0 && all_digits(digits) && digits_value(digits) <= u64::MAX {
        Some(digits_value(digits) as u64)
    } else {
        None
    }
}

/// More digits do not write a smaller number.
pub proof fn lemma_digits_grow(bytes: Seq<u8>, i: int)
    requires
        0 <= i <= bytes.len(),
    ensures
        digits_value(bytes.take(i)) <= digits_value(bytes),
    decreases bytes.len() - i,
{
    if i < bytes.len() {
        lemma_digits_grow(bytes, i + 1);
        assert(bytes.take(i + 1).drop_last() =~= bytes.take(i));
    } else {
        assert(bytes.take(i) =~= bytes);
    }
}

/// Reads a `u64` as `str::parse` does: decimal digits after at most one plus sign.
pub fn parse_u64(text: &str) -> (r: Option<u64>)
    ensures
        r == u64_of(text@),
{
    let bytes = text.as_bytes();
    let start: usize = if bytes.len() > 0 && bytes[0] == 0x2b {
        1
    } else {
        0
    };
    let ghost digits = unsigned_part(bytes@);
    assert(digits =~= bytes@.skip(start as int));
    if start == bytes.len() {
        return None;
    }
    let mut acc: u64 = 0;
    let mut i: usize = start;
    assert(digits.take(0) =~= Seq::<u8>::empty());
    while i < bytes.len()
        invariant
            start <= i <= bytes.len(),
            digits == bytes@.skip(start as int),
            digits == unsigned_part(encode_utf8(text@)),
            all_digits(digits.take(i - start)),
            acc == digits_value(digits.take(i - start)),
        decreases bytes.len() - i,
    {
        let b = bytes[i];
        let ghost k = i - start;
        assert(digits[k] == b);
        if b < 0x30 || b > 0x39 {
            return None;
        }
        let d: u64 = (b - 0x30) as u64;
        proof {
            assert(digits.take(k + 1).drop_last() =~= digits.take(k));
            assert(digits.take(k + 1).last() == b);
            assert forall|j: int| 0 <= j < k + 1 implies 0x30 <= #[trigger] digits.take(k + 1)[j]
                <= 0x39 by {
                if j < k {
                    assert(digits.take(k)[j] == digits.take(k + 1)[j]);
                }
            }
        }
        if acc > (u64::MAX - d) / 10 {
            proof {
                lemma_digits_grow(digits, k + 1);
                assert(digits_value(digits.take(k + 1)) == acc * 10 + d);
                assert(acc * 10 + d > u64::MAX) by (nonlinear_arith)
                    requires
                        acc > (u64::MAX - d) / 10,
                        0 <= d <= 9,
                ;
            }
            return None;
        }
        assert(acc * 10 + d <= u64::MAX) by (nonlinear_arith)
            requires
                acc <= (u64::MAX - d) / 10,
                0 <= d <= 9,
        ;
        acc = acc * 10 + d;
        i += 1;
    }
    proof {
        assert(digits.take(digits.len() as int) =~= digits);
    }
    Some(acc)
}

/// The truth value that a text writes: `true` or `false`, nothing else.
pub open spec fn bool_of(text: Seq<char>) -> Option<bool> {
    if text == "true"@ {
        Some(true)
    } else if text == "false"@ {
        Some(false)
    } else {
        None
    }
}

/// Reads a truth value as `str::parse` does.
pub fn parse_bool(text: &str) -> (r: Option<bool>)
    ensures
        r == bool_of(text@),
{
    if str_eq(text, "true") {
        Some(true)
    } else if str_eq(text, "false") {
        Some(false)
    } else {
        None
    }
}

/// The parts joined by commas.
pub open spec fn comma_join(parts: Seq<Seq<char>>) -> Seq<char>
    decreases parts.len(),
{
    if parts.len() == 0 {
        Seq::empty()
    } else if parts.len() == 1 {
        parts[0]
    } else {
        comma_join(parts.drop_last()) + seq![','] + parts.last()
    }
}

/// No part holds a comma.
pub open spec fn comma_free(parts: Seq<Seq<char>>) -> bool {
    forall|i: int, j: int|
        0 <= i < parts.len() && 0 <= j < parts[i].len() ==> #[trigger] parts[i][j] != ','
}

/// The texts of a run of strings.
pub open spec fn part_texts(parts: Seq<String>) -> Seq<Seq<char>> {
    parts.map_values(|p: String| p@)
}

/// Splits a text at its commas, as `str::split` does: the parts hold no comma,
/// and joined by commas they are the text. A text without a comma is one part,
/// the empty text too.
pub fn split_commas(text: &str) -> (parts: Vec<String>)
    ensures
        parts@.len() >= 1,
        comma_free(part_texts(parts@)),
        comma_join(part_texts(parts@)) == text@,
{
    let n = text.unicode_len();
    let mut parts: Vec<String> = Vec::new();
    let mut start: usize = 0;
    let mut i: usize = 0;
    proof {
        assert(text@.subrange(0, 0) =~= text@.take(0));
        assert(part_texts(parts@).push(text@.subrange(0, 0)).len() == 1);
    }
    while i < n
        invariant
            n == text@.len(),
            start <= i <= n,
            comma_free(part_texts(parts@)),
            forall|j: int| start <= j < i ==> text@[j] != ',',
            comma_join(part_texts(parts@).push(text@.subrange(start as int, i as int)))
                == text@.take(i as int),
        decreases n - i,
    {
        let ghost before = part_texts(parts@);
        let ghost piece = text@.subrange(start as int, i as int);
        let c = text.get_char(i);
        if c == ',' {
            parts.push(text.substring_char(start, i).to_owned());
            proof {
                let now = part_texts(parts@);
                assert(now =~= before.push(piece));
                let empty = text@.subrange(i as int + 1, i as int + 1);
                assert(now.push(empty).drop_last() =~= now);
                assert(comma_join(now.push(empty)) =~= text@.take(i as int + 1));
                assert forall|a: int, b: int|
                    0 <= a < now.len() && 0 <= b < now[a].len() implies #[trigger] now[a][b]
                    != ',' by {
                    if a < before.len() {
                        assert(before[a][b] != ',');
                    } else {
                        assert(now[a][b] == text@[start + b]);
                    }
                }
            }
            start = i + 1;
        } else {
            proof {
                let longer = text@.subrange(start as int, i as int + 1);
                assert(longer =~= piece.push(c));
                if before.len() == 0 {
                    assert(before.push(longer)[0] == longer);
                    assert(before.push(piece)[0] == piece);
                    assert(longer =~= text@.take(i as int + 1));
                } else {
                    assert(before.push(longer).drop_last() =~= before);
                    assert(before.push(piece).drop_last() =~= before);
                    let head = comma_join(before) + seq![','];
                    assert(comma_join(before.push(longer)) == head + longer);
                    assert(comma_join(before.push(piece)) == head + piece);
                    assert(head + longer =~= (head + piece).push(c));
                    assert(text@.take(i as int + 1) =~= text@.take(i as int).push(c));
                }
            }
        }
        i += 1;
    }
    let ghost before = part_texts(parts@);
    let ghost piece = text@.subrange(start as int, n as int);
    parts.push(text.substring_char(start, n).to_owned());
    proof {
        let now = part_texts(parts@);
        assert(now =~= before.push(piece));
        assert(text@.take(n as int) =~= text@);
        assert forall|a: int, b: int|
            0 <= a < now.len() && 0 <= b < now[a].len() implies #[trigger] now[a][b] != ',' by {
            if a < before.len() {
                assert(before[a][b] != ',');
            } else {
                assert(now[a][b] == text@[start + b]);
            }
        }
    }
    parts
}

} // verus!
