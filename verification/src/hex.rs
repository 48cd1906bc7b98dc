//! Hexadecimal text: lower-case encoding of bytes, and decoding of text in
//! either case.

use vstd::prelude::*;
use vstd::string::StrSliceExecFns;

verus! {

/// The value of a hexadecimal digit, either case.
pub open spec fn hex_digit_value(c: char) -> Option<u8> {
    if '0' <= c && c <= '9' {
        Some((c as u32 - '0' as u32) as u8)
    } else if 'a' <= c && c <= 'f' {
        Some((c as u32 - 'a' as u32 + 10) as u8)
    } else if 'A' <= c && c <= 'F' {
        Some((c as u32 - 'A' as u32 + 10) as u8)
    } else {
        None
    }
}

/// The lower-case digit for a value below 16.
pub open spec fn lower_hex_digit(v: u8) -> char {
    if v < 10 {
        (('0' as u32) + v as u32) as char
    } else {
        (('a' as u32) + v as u32 - 10) as char
    }
}

/// Lower-case hexadecimal text of `b`: two digits per byte, high half first.
pub open spec fn hex_lower(b: Seq<u8>) -> Seq<char> {
    Seq::new(
        2 * b.len(),
        |i: int|
            if i % 2 == 0 {
                lower_hex_digit(b[i / 2] / 16)
            } else {
                lower_hex_digit(b[i / 2] % 16)
            },
    )
}

/// Every character of `s` is a hexadecimal digit.
pub open spec fn all_hex_digits(s: Seq<char>) -> bool {
    forall|i: int| 0 <= i < s.len() ==> (#[trigger] hex_digit_value(s[i])) is Some
}

/// The bytes that hexadecimal text `s` spells: defined when `s` has an even
/// number of characters, all of them hexadecimal digits of either case.
pub open spec fn hex_decoded(s: Seq<char>) -> Option<Seq<u8>> {
    if s.len() % 2 == 0 && all_hex_digits(s) {
        Some(
            Seq::new(
                s.len() / 2,
                |i: int|
                    (hex_digit_value(s[2 * i]).unwrap() * 16 + hex_digit_value(s[2 * i + 1]).unwrap()) as u8,
            ),
        )
    } else {
        None
    }
}

/// `s` is lower-case hexadecimal text of some bytes.
pub open spec fn is_lower_hex(s: Seq<char>) -> bool {
    exists|b: Seq<u8>| hex_lower(b) == s
}

/// Lower-case hexadecimal text of `b` has two characters per byte, each a
/// digit or one of `a` to `f`; the first of each pair stands for the high
/// four bits and the second for the low four.
pub proof fn law_hex_lower_shape(b: Seq<u8>)
    ensures
        hex_lower(b).len() == 2 * b.len(),
        forall|i: int|
            0 <= i < hex_lower(b).len() ==> ('0' <= #[trigger] hex_lower(b)[i] <= '9') || ('a' <= hex_lower(b)[i]
                <= 'f'),
        forall|i: int|
            0 <= i < b.len() ==> hex_digit_value(#[trigger] hex_lower(b)[2 * i]) == Some((b[i] / 16) as u8)
                && hex_digit_value(hex_lower(b)[2 * i + 1]) == Some((b[i] % 16) as u8),
{
    assert forall|i: int| 0 <= i < hex_lower(b).len() implies ('0' <= #[trigger] hex_lower(b)[i] <= '9') || (
    'a' <= hex_lower(b)[i] <= 'f') by {
        let v: u8 = if i % 2 == 0 { b[i / 2] / 16 } else { b[i / 2] % 16 };
        assert(v < 16);
    }
    assert forall|i: int| 0 <= i < b.len() implies hex_digit_value(#[trigger] hex_lower(b)[2 * i]) == Some(
        (b[i] / 16) as u8,
    ) && hex_digit_value(hex_lower(b)[2 * i + 1]) == Some((b[i] % 16) as u8) by {
        assert((2 * i) / 2 == i);
        assert((2 * i + 1) / 2 == i);
        assert((2 * i) % 2 == 0);
        assert((2 * i + 1) % 2 == 1);
        assert(b[i] / 16 < 16);
        assert(b[i] % 16 < 16);
    }
}

/// Decoding lower-case hexadecimal text gives back the bytes.
pub proof fn lemma_hex_round_trip(b: Seq<u8>)
    ensures
        hex_decoded(hex_lower(b)) == Some(b),
{
    let s = hex_lower(b);
    assert forall|i: int| 0 <= i < s.len() implies (#[trigger] hex_digit_value(s[i])) is Some && hex_digit_value(
        s[i],
    ).unwrap() == (if i % 2 == 0 {
        b[i / 2] / 16
    } else {
        b[i / 2] % 16
    }) by {
        let v = if i % 2 == 0 { b[i / 2] / 16 } else { b[i / 2] % 16 };
        assert(v < 16);
    }
    let d = hex_decoded(s).unwrap();
    assert forall|i: int| 0 <= i < b.len() implies d[i] == b[i] by {
        assert(s[2 * i] == lower_hex_digit(b[(2 * i) / 2] / 16));
        assert((2 * i) / 2 == i);
        assert((2 * i + 1) / 2 == i);
        assert((2 * i) % 2 == 0);
        assert((2 * i + 1) % 2 == 1);
        assert(hex_digit_value(s[2 * i]).unwrap() == b[i] / 16);
        assert(hex_digit_value(s[2 * i + 1]).unwrap() == b[i] % 16);
    }
    assert(d =~= b);
}

/// `String::push`: appends `c` to `s`.
///
/// Claims: the text afterwards is the text before followed by `c`.
#[verifier::external_body]
pub(crate) fn push_char(s: &mut String, c: char)
    ensures
        final(s)@ == old(s)@.push(c),
{
    s.push(c);
}

/// The lower-case digit for a value below 16.
fn lower_digit(v: u8) -> (c: char)
    requires
        v < 16,
    ensures
        c == lower_hex_digit(v),
{
    if v < 10 {
        ((48u8 + v) as char)
    } else {
        ((87u8 + v) as char)
    }
}

/// Lower-case hexadecimal text of `data`.
pub fn hex_encode(data: &[u8]) -> (s: String)
    ensures
        s@ == hex_lower(data@),
{
    let mut s = String::new();
    let mut i: usize = 0;
    while i < data.len()
        invariant
            i <= data@.len(),
            s@ =~= hex_lower(data@.subrange(0, i as int)),
        decreases data@.len() - i,
    {
        let b = data[i];
        let ghost prev = s@;
        push_char(&mut s, lower_digit(b / 16));
        push_char(&mut s, lower_digit(b % 16));
        proof {
            let t = data@.subrange(0, i + 1);
            assert(t.subrange(0, i as int) =~= data@.subrange(0, i as int));
            assert forall|j: int| 0 <= j < 2 * t.len() implies #[trigger] hex_lower(t)[j] == s@[j] by {
                if j < 2 * i {
                    assert(t[j / 2] == data@[j / 2]);
                } else {
                    assert(t[j / 2] == b);
                }
            }
            assert(s@ =~= hex_lower(t));
        }
        i = i + 1;
    }
    proof {
        assert(data@.subrange(0, data@.len() as int) =~= data@);
    }
    s
}

/// The value of a hexadecimal digit, either case.
fn digit_value(c: char) -> (r: Option<u8>)
    ensures
        r == hex_digit_value(c),
{
    if '0' <= c && c <= '9' {
        Some(((c as u32) - ('0' as u32)) as u8)
    } else if 'a' <= c && c <= 'f' {
        Some(((c as u32) - ('a' as u32) + 10) as u8)
    } else if 'A' <= c && c <= 'F' {
        Some(((c as u32) - ('A' as u32) + 10) as u8)
    } else {
        None
    }
}

/// The bytes that hexadecimal text `s` spells; `None` when it has an odd
/// number of characters or a character that is no hexadecimal digit.
pub fn hex_decode(s: &str) -> (r: Option<Vec<u8>>)
    ensures
        match r {
            Some(v) => hex_decoded(s@) == Some(v@),
            None => hex_decoded(s@) is None,
        },
{
    let n = s.unicode_len();
    if n % 2 != 0 {
        return None;
    }
    let mut out: Vec<u8> = Vec::new();
    let mut i: usize = 0;
    while i < n / 2
        invariant
            n == s@.len(),
            n % 2 == 0,
            i <= n / 2,
            out@.len() == i,
            forall|k: int| 0 <= k < 2 * i ==> (#[trigger] hex_digit_value(s@[k])) is Some,
            forall|k: int|
                0 <= k < i ==> #[trigger] out@[k] == (hex_digit_value(s@[2 * k]).unwrap() * 16
                    + hex_digit_value(s@[2 * k + 1]).unwrap()) as u8,
        decreases n / 2 - i,
    {
        let hi = digit_value(s.get_char(2 * i));
        let lo = digit_value(s.get_char(2 * i + 1));
        match (hi, lo) {
            (Some(h), Some(l)) => {
                proof {
                    assert(h < 16 && l < 16);
                }
                out.push(h * 16 + l);
                proof {
                    assert forall|k: int| 0 <= k < 2 * (i + 1) implies (#[trigger] hex_digit_value(s@[k])) is Some by {
                        if k >= 2 * i {
                            assert(k == 2 * i || k == 2 * i + 1);
                        }
                    }
                }
            },
            _ => {
                proof {
                    if hi is None {
                        assert(!all_hex_digits(s@)) by {
                            assert(hex_digit_value(s@[2 * i as int]) is None);
                        }
                    } else {
                        assert(!all_hex_digits(s@)) by {
                            assert(hex_digit_value(s@[2 * i + 1]) is None);
                        }
                    }
                }
                return None;
            },
        }
        i = i + 1;
    }
    proof {
        let d = hex_decoded(s@);
        assert(all_hex_digits(s@)) by {
            assert forall|k: int| 0 <= k < s@.len() implies (#[trigger] hex_digit_value(s@[k])) is Some by {
                assert(k < 2 * i);
            }
        }
        assert(d.unwrap() =~= out@);
    }
    Some(out)
}

} // verus!
