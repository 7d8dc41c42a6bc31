//! Hex-string decoding for byte-valued attributes.

use crate::errors::TestError;
use vstd::arithmetic::div_mod::lemma_fundamental_div_mod_converse;
use vstd::prelude::*;
use vstd::string::StrSliceExecFns;

verus! {

/// The value of one hex digit, case-insensitive; `-1` for any other character.
pub open spec fn hex_val(c: char) -> int {
    if c == '0' {
        0
    } else if c == '1' {
        1
    } else if c == '2' {
        2
    } else if c == '3' {
        3
    } else if c == '4' {
        4
    } else if c == '5' {
        5
    } else if c == '6' {
        6
    } else if c == '7' {
        7
    } else if c == '8' {
        8
    } else if c == '9' {
        9
    } else if c == 'a' || c == 'A' {
        10
    } else if c == 'b' || c == 'B' {
        11
    } else if c == 'c' || c == 'C' {
        12
    } else if c == 'd' || c == 'D' {
        13
    } else if c == 'e' || c == 'E' {
        14
    } else if c == 'f' || c == 'F' {
        15
    } else {
        -1
    }
}

pub open spec fn is_hex_digit(c: char) -> bool {
    hex_val(c) >= 0
}

/// A string `decode_hex` accepts: even length, hex digits throughout.
pub open spec fn valid_hex(s: Seq<char>) -> bool {
    s.len() % 2 == 0 && forall|i: int| 0 <= i < s.len() ==> is_hex_digit(#[trigger] s[i])
}

/// The bytes denoted by a valid hex string, most-significant nibble first.
pub open spec fn hex_decoded(s: Seq<char>) -> Seq<u8>
    decreases s.len(),
{
    if s.len() < 2 {
        Seq::empty()
    } else {
        seq![(hex_val(s[0]) * 16 + hex_val(s[1])) as u8] + hex_decoded(s.skip(2))
    }
}

/// The lowercase hex digit for a nibble value.
pub open spec fn nibble_char(n: int) -> char {
    if n == 0 {
        '0'
    } else if n == 1 {
        '1'
    } else if n == 2 {
        '2'
    } else if n == 3 {
        '3'
    } else if n == 4 {
        '4'
    } else if n == 5 {
        '5'
    } else if n == 6 {
        '6'
    } else if n == 7 {
        '7'
    } else if n == 8 {
        '8'
    } else if n == 9 {
        '9'
    } else if n == 10 {
        'a'
    } else if n == 11 {
        'b'
    } else if n == 12 {
        'c'
    } else if n == 13 {
        'd'
    } else if n == 14 {
        'e'
    } else {
        'f'
    }
}

/// The canonical encoding of a byte sequence: lowercase hex, two digits per
/// byte.
pub open spec fn hex_encoded(b: Seq<u8>) -> Seq<char>
    decreases b.len(),
{
    if b.len() == 0 {
        Seq::empty()
    } else {
        seq![nibble_char(b[0] as int / 16), nibble_char(b[0] as int % 16)] + hex_encoded(
            b.drop_first(),
        )
    }
}

/// Uppercase hex digits folded to lowercase; all other characters unchanged.
pub open spec fn lower_hex_char(c: char) -> char {
    if c == 'A' {
        'a'
    } else if c == 'B' {
        'b'
    } else if c == 'C' {
        'c'
    } else if c == 'D' {
        'd'
    } else if c == 'E' {
        'e'
    } else if c == 'F' {
        'f'
    } else {
        c
    }
}

/// A hex string in its canonical form: every digit lowercase.
pub open spec fn lower_hex(s: Seq<char>) -> Seq<char> {
    s.map_values(|c: char| lower_hex_char(c))
}

/// The value of one hex digit, or `None` for any other character.
pub fn hex_digit_value(c: char) -> (r: Option<u8>)
    ensures
        r is Some <==> is_hex_digit(c),
        r is Some ==> r->0 as int == hex_val(c),
{
    if c == '0' {
        Some(0)
    } else if c == '1' {
        Some(1)
    } else if c == '2' {
        Some(2)
    } else if c == '3' {
        Some(3)
    } else if c == '4' {
        Some(4)
    } else if c == '5' {
        Some(5)
    } else if c == '6' {
        Some(6)
    } else if c == '7' {
        Some(7)
    } else if c == '8' {
        Some(8)
    } else if c == '9' {
        Some(9)
    } else if c == 'a' || c == 'A' {
        Some(10)
    } else if c == 'b' || c == 'B' {
        Some(11)
    } else if c == 'c' || c == 'C' {
        Some(12)
    } else if c == 'd' || c == 'D' {
        Some(13)
    } else if c == 'e' || c == 'E' {
        Some(14)
    } else if c == 'f' || c == 'F' {
        Some(15)
    } else {
        None
    }
}

/// Appending one digit pair to an even-length hex string appends one byte to
/// its decoding.
proof fn lemma_hex_decoded_append_pair(s: Seq<char>, c0: char, c1: char)
    requires
        s.len() % 2 == 0,
    ensures
        hex_decoded(s + seq![c0, c1]) == hex_decoded(s).push(
            (hex_val(c0) * 16 + hex_val(c1)) as u8,
        ),
    decreases s.len(),
{
    let whole = s + seq![c0, c1];
    if s.len() == 0 {
        assert(whole[0] == c0 && whole[1] == c1);
        assert(whole.skip(2) =~= Seq::<char>::empty());
        assert(hex_decoded(whole.skip(2)) =~= Seq::<u8>::empty());
        assert(hex_decoded(whole) =~= hex_decoded(s).push((hex_val(c0) * 16 + hex_val(c1)) as u8));
    } else {
        assert(whole[0] == s[0] && whole[1] == s[1]);
        assert(whole.skip(2) =~= s.skip(2) + seq![c0, c1]);
        lemma_hex_decoded_append_pair(s.skip(2), c0, c1);
        assert(hex_decoded(whole) =~= hex_decoded(s).push((hex_val(c0) * 16 + hex_val(c1)) as u8));
    }
}

/// Decode a string of hex digits into a sequence of bytes. The input must
/// have an even number of case-insensitive digits; anything else is
/// [`TestError::MalformedHex`].
pub fn from_hex(hex_str: &str) -> (r: Result<Vec<u8>, TestError>)
    ensures
        r is Ok <==> valid_hex(hex_str@),
        r is Ok ==> r->Ok_0@ == hex_decoded(hex_str@),
        r is Err ==> r == Err::<Vec<u8>, TestError>(TestError::MalformedHex),
{
    let len = hex_str.unicode_len();
    if len % 2 != 0 {
        return Err(TestError::MalformedHex);
    }
    let mut result: Vec<u8> = Vec::new();
    let mut i: usize = 0;
    proof {
        assert(hex_str@.take(0) =~= Seq::<char>::empty());
    }
    while i < len
        invariant
            i <= len,
            i % 2 == 0,
            len % 2 == 0,
            len == hex_str@.len(),
            forall|j: int| 0 <= j < i ==> is_hex_digit(#[trigger] hex_str@[j]),
            result@ == hex_decoded(hex_str@.take(i as int)),
        decreases len - i,
    {
        let hi = match hex_digit_value(hex_str.get_char(i)) {
            Some(v) => v,
            None => {
                return Err(TestError::MalformedHex);
            },
        };
        let lo = match hex_digit_value(hex_str.get_char(i + 1)) {
            Some(v) => v,
            None => {
                return Err(TestError::MalformedHex);
            },
        };
        result.push(hi * 16 + lo);
        proof {
            lemma_hex_decoded_append_pair(
                hex_str@.take(i as int),
                hex_str@[i as int],
                hex_str@[i as int + 1],
            );
            assert(hex_str@.take(i as int + 2) =~= hex_str@.take(i as int) + seq![
                hex_str@[i as int],
                hex_str@[i as int + 1],
            ]);
        }
        i = i + 2;
    }
    proof {
        assert(hex_str@.take(len as int) =~= hex_str@);
    }
    Ok(result)
}

/// Decoding inverts encoding: every byte sequence survives a round trip
/// through its canonical lowercase hex form.
pub proof fn lemma_hex_decode_of_encode(b: Seq<u8>)
    ensures
        valid_hex(hex_encoded(b)),
        hex_decoded(hex_encoded(b)) == b,
    decreases b.len(),
{
    if b.len() == 0 {
        assert(hex_decoded(hex_encoded(b)) =~= b);
    } else {
        let hi = b[0] / 16;
        let lo = b[0] % 16;
        let tail = hex_encoded(b.drop_first());
        let e = hex_encoded(b);
        lemma_hex_decode_of_encode(b.drop_first());
        assert(e =~= seq![nibble_char(hi as int), nibble_char(lo as int)] + tail);
        assert forall|i: int| 0 <= i < e.len() implies is_hex_digit(#[trigger] e[i]) by {
            if i >= 2 {
                assert(e[i] == tail[i - 2]);
            }
        }
        assert(e.skip(2) =~= tail);
        assert(hex_val(e[0]) == hi as int && hex_val(e[1]) == lo as int);
        assert(hi * 16 + lo == b[0]) by {
            lemma_fundamental_div_mod_converse(b[0] as int, 16, b[0] as int / 16, b[0] as int % 16);
        }
        assert(hex_decoded(e) =~= b);
    }
}

/// Encoding inverts decoding up to digit case: re-encoding the bytes of a
/// valid hex string reproduces the string's canonical lowercase form.
pub proof fn lemma_hex_encode_of_decode(s: Seq<char>)
    requires
        valid_hex(s),
    ensures
        hex_encoded(hex_decoded(s)) == lower_hex(s),
    decreases s.len(),
{
    if s.len() == 0 {
        assert(hex_encoded(hex_decoded(s)) =~= lower_hex(s));
    } else {
        let hi = hex_val(s[0]);
        let lo = hex_val(s[1]);
        let v = (hi * 16 + lo) as u8;
        assert(v as int == hi * 16 + lo);
        assert(v / 16 == hi && v % 16 == lo) by {
            lemma_fundamental_div_mod_converse(v as int, 16, hi, lo);
        }
        let rest = s.skip(2);
        assert(valid_hex(rest)) by {
            assert forall|i: int| 0 <= i < rest.len() implies is_hex_digit(#[trigger] rest[i]) by {
                assert(rest[i] == s[i + 2]);
            }
        }
        lemma_hex_encode_of_decode(rest);
        let d = hex_decoded(s);
        assert(d == seq![v] + hex_decoded(rest));
        assert(d.len() > 0 && d[0] == v);
        assert(d.drop_first() =~= hex_decoded(rest));
        assert(nibble_char(hi) == lower_hex_char(s[0]));
        assert(nibble_char(lo) == lower_hex_char(s[1]));
        assert(hex_encoded(d) =~= lower_hex(s));
    }
}

} // verus!
