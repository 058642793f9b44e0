//! Lower-case hexadecimal text for keys, hashes and signatures.
use vstd::prelude::*;
use vstd::string::StringSliceAdditionalSpecFns;
use vstd::utf8::{encode_utf8, is_ascii_chars, is_ascii_chars_encode_utf8, is_char_boundary};

use crate::text::{owned, string_of};

verus! {

/// Lower-case hex digit for `n < 16`.
pub open spec fn hex_digit(n: u8) -> char {
    if n < 10 {
        (n + 48) as char
    } else {
        (n + 87) as char
    }
}

/// Two lower-case hex digits per byte, most significant first.
pub open spec fn hex_encode(bytes: Seq<u8>) -> Seq<char> {
    Seq::new(
        2 * bytes.len(),
        |i: int|
            if i % 2 == 0 {
                hex_digit(bytes[i / 2] / 16)
            } else {
                hex_digit(bytes[i / 2] % 16)
            },
    )
}

/// Value of one ASCII hex digit, either case.
pub open spec fn digit_value(c: u8) -> Option<u8> {
    if 48 <= c <= 57 {
        Some((c - 48) as u8)
    } else if 97 <= c <= 102 {
        Some((c - 87) as u8)
    } else if 65 <= c <= 70 {
        Some((c - 55) as u8)
    } else {
        None
    }
}

/// Value of a two-byte field read in base 16 as an unsigned byte: two hex
/// digits, or a `+` sign followed by one.
pub open spec fn pair_value(a: u8, b: u8) -> Option<u8> {
    if a == 43 {
        digit_value(b)
    } else {
        match (digit_value(a), digit_value(b)) {
            (Some(x), Some(y)) => Some((16 * x + y) as u8),
            _ => None,
        }
    }
}

/// Value of the `k`-th two-byte field of `b`.
pub open spec fn pair_at(b: Seq<u8>, k: int) -> Option<u8> {
    pair_value(b[2 * k], b[2 * k + 1])
}

/// Every two-byte field of `b` has a value.
pub open spec fn pairs_valid(b: Seq<u8>) -> bool {
    forall|k: int| 0 <= k < b.len() / 2 ==> (#[trigger] pair_at(b, k)) is Some
}

/// The bytes that the fields of `b` stand for.
pub open spec fn decoded(b: Seq<u8>) -> Seq<u8> {
    Seq::new(b.len() / 2, |k: int| pair_at(b, k).unwrap())
}

/// Field `k` is the first without a value.
pub open spec fn first_bad_pair(b: Seq<u8>, k: int) -> bool {
    &&& 0 <= k < b.len() / 2
    &&& pair_at(b, k) is None
    &&& forall|j: int| 0 <= j < k ==> (#[trigger] pair_at(b, j)) is Some
}

/// Decoding reads the string two bytes at a time and stops at the first
/// field without a value; it cannot read a field that splits a character.
pub open spec fn decode_splits_char(b: Seq<u8>) -> bool {
    &&& b.len() % 2 == 0
    &&& exists|k: int|
        first_bad_pair(b, k) && !(is_char_boundary(b, 2 * k) && is_char_boundary(
            b,
            2 * k + 2,
        ))
}

fn hex_digit_exec(n: u8) -> (c: char)
    requires
        n < 16,
    ensures
        c == hex_digit(n),
{
    if n < 10 {
        (n + 48) as char
    } else {
        (n + 87) as char
    }
}

/// Lower-case hex text of `bytes`.
pub fn encode(bytes: &[u8]) -> (r: String)
    ensures
        r@ == hex_encode(bytes@),
{
    let mut out: Vec<char> = Vec::new();
    let mut i: usize = 0;
    while i < bytes.len()
        invariant
            i <= bytes@.len(),
            out@ == hex_encode(bytes@.take(i as int)),
        decreases bytes@.len() - i,
    {
        let b = bytes[i];
        out.push(hex_digit_exec(b / 16));
        out.push(hex_digit_exec(b % 16));
        i = i + 1;
        proof {
            assert(out@ =~= hex_encode(bytes@.take(i as int)));
        }
    }
    proof {
        assert(bytes@.take(bytes@.len() as int) =~= bytes@);
    }
    string_of(out.as_slice())
}

fn digit_value_exec(c: u8) -> (r: Option<u8>)
    ensures
        r == digit_value(c),
{
    if 48 <= c && c <= 57 {
        Some(c - 48)
    } else if 97 <= c && c <= 102 {
        Some(c - 87)
    } else if 65 <= c && c <= 70 {
        Some(c - 55)
    } else {
        None
    }
}

fn pair_value_exec(a: u8, b: u8) -> (r: Option<u8>)
    ensures
        r == pair_value(a, b),
{
    if a == 43 {
        digit_value_exec(b)
    } else {
        match (digit_value_exec(a), digit_value_exec(b)) {
            (Some(x), Some(y)) => Some(16 * x + y),
            _ => None,
        }
    }
}

/// Bytes of hex text `s`: an error for an odd byte length, and for a field
/// that is not a base-16 byte.
pub fn decode(s: &str) -> (r: Result<Vec<u8>, String>)
    requires
        !decode_splits_char(s.spec_bytes()),
    ensures
        r is Ok <==> s.spec_bytes().len() % 2 == 0 && pairs_valid(s.spec_bytes()),
        match r {
            Ok(v) => v@ == decoded(s.spec_bytes()),
            Err(e) => if s.spec_bytes().len() % 2 != 0 {
                e@ == "odd length hex"@
            } else {
                e@ == "invalid digit found in string"@
            },
        },
{
    let b = s.as_bytes();
    if b.len() % 2 != 0 {
        return Err(owned("odd length hex"));
    }
    let len = b.len();
    let n = len / 2;
    let mut out: Vec<u8> = Vec::new();
    let mut k: usize = 0;
    while k < n
        invariant
            b@ == s.spec_bytes(),
            len == b@.len(),
            n == len / 2,
            len % 2 == 0,
            k <= n,
            out@.len() == k,
            forall|j: int| 0 <= j < k ==> (#[trigger] pair_at(b@, j)) is Some,
            forall|j: int| 0 <= j < k ==> out@[j] == pair_at(b@, j).unwrap(),
        decreases n - k,
    {
        assert(2 * k + 1 < len);
        match pair_value_exec(b[2 * k], b[2 * k + 1]) {
            Some(v) => {
                out.push(v);
            },
            None => {
                assert(pair_at(b@, k as int) is None);
                return Err(owned("invalid digit found in string"));
            },
        }
        k = k + 1;
    }
    proof {
        assert(out@ =~= decoded(b@));
    }
    Ok(out)
}

proof fn lemma_digit_round_trip(n: u8)
    requires
        n < 16,
    ensures
        digit_value(hex_digit(n) as u8) == Some(n),
        hex_digit(n) as u8 != 43,
{
}

/// Decoding hex text undoes encoding: the text of any bytes is ASCII of even
/// length, every field has a value, and the values are the bytes.
pub proof fn hex_round_trip(bytes: Seq<u8>)
    ensures
        encode_utf8(hex_encode(bytes)).len() % 2 == 0,
        pairs_valid(encode_utf8(hex_encode(bytes))),
        decoded(encode_utf8(hex_encode(bytes))) == bytes,
        !decode_splits_char(encode_utf8(hex_encode(bytes))),
{
    let s = hex_encode(bytes);
    assert(is_ascii_chars(s)) by {
        assert forall|i: int| 0 <= i < s.len() implies (s[i] as u32) < 128 by {
            if i % 2 == 0 {
                assert(bytes[i / 2] / 16 < 16);
            } else {
                assert(bytes[i / 2] % 16 < 16);
            }
        }
    }
    is_ascii_chars_encode_utf8(s);
    let b = encode_utf8(s);
    assert(b.len() == 2 * bytes.len());
    assert forall|k: int| 0 <= k < b.len() / 2 implies #[trigger] pair_at(b, k) == Some(
        bytes[k],
    ) by {
        let x = bytes[k];
        assert((2 * k) / 2 == k);
        assert((2 * k + 1) / 2 == k);
        assert((2 * k) % 2 == 0);
        assert((2 * k + 1) % 2 == 1);
        lemma_digit_round_trip(x / 16);
        lemma_digit_round_trip(x % 16);
        assert(b[2 * k] == s[2 * k] as u8);
        assert(b[2 * k + 1] == s[2 * k + 1] as u8);
        assert(16 * (x / 16) + x % 16 == x);
    }
    assert(decoded(b) =~= bytes);
    assert(!decode_splits_char(b)) by {
        if decode_splits_char(b) {
            let k = choose|k: int|
                first_bad_pair(b, k) && !(is_char_boundary(b, 2 * k) && is_char_boundary(
                    b,
                    2 * k + 2,
                ));
            assert(pair_at(b, k) == Some(bytes[k]));
        }
    }
}

/// A lower-case ASCII hex digit.
pub open spec fn is_lower_hex_char(c: char) -> bool {
    ('0' <= c && c <= '9') || ('a' <= c && c <= 'f')
}

/// Hex text has two lower-case hex digits per byte.
pub proof fn lemma_hex_encode_shape(bytes: Seq<u8>)
    ensures
        hex_encode(bytes).len() == 2 * bytes.len(),
        forall|i: int|
            0 <= i < hex_encode(bytes).len() ==> is_lower_hex_char(#[trigger] hex_encode(bytes)[i]),
{
    assert forall|i: int| 0 <= i < hex_encode(bytes).len() implies is_lower_hex_char(
        #[trigger] hex_encode(bytes)[i],
    ) by {
        assert(bytes[i / 2] / 16 < 16);
        assert(bytes[i / 2] % 16 < 16);
    }
}

/// An ASCII hex digit, either case.
pub open spec fn is_hex_char(c: char) -> bool {
    ('0' <= c && c <= '9') || ('a' <= c && c <= 'f') || ('A' <= c && c <= 'F')
}

/// ASCII lower case of a character (others stay as they are).
pub open spec fn ascii_lower(c: char) -> char {
    if 'A' <= c && c <= 'Z' {
        ((c as u32) + 32) as char
    } else {
        c
    }
}

proof fn lemma_digit_of_hex_char(c: char)
    requires
        is_hex_char(c),
    ensures
        digit_value(c as u8) matches Some(d) && d < 16 && hex_digit(d) == ascii_lower(c),
        c as u8 != 43,
        (c as u32) < 128,
{
}

/// Encoding what even-length hex text decodes to gives the text back in
/// lower case.
pub proof fn hex_decode_then_encode(s: Seq<char>)
    requires
        s.len() % 2 == 0,
        forall|i: int| 0 <= i < s.len() ==> is_hex_char(#[trigger] s[i]),
    ensures
        pairs_valid(encode_utf8(s)),
        !decode_splits_char(encode_utf8(s)),
        hex_encode(decoded(encode_utf8(s))) == s.map_values(|c: char| ascii_lower(c)),
{
    assert(is_ascii_chars(s)) by {
        assert forall|i: int| 0 <= i < s.len() implies '\0' <= #[trigger] s[i] <= '\u{7f}' by {
            lemma_digit_of_hex_char(s[i]);
        }
    }
    is_ascii_chars_encode_utf8(s);
    let b = encode_utf8(s);
    assert(b.len() == s.len());
    assert forall|k: int| 0 <= k < b.len() / 2 implies #[trigger] pair_at(b, k) == Some(
        (16 * digit_value(b[2 * k]).unwrap() + digit_value(b[2 * k + 1]).unwrap()) as u8,
    ) && digit_value(b[2 * k]).unwrap() < 16 && digit_value(b[2 * k + 1]).unwrap() < 16 by {
        lemma_digit_of_hex_char(s[2 * k]);
        lemma_digit_of_hex_char(s[2 * k + 1]);
        assert(b[2 * k] == s[2 * k] as u8);
        assert(b[2 * k + 1] == s[2 * k + 1] as u8);
    }
    let d = decoded(b);
    let e = hex_encode(d);
    let m = s.map_values(|c: char| ascii_lower(c));
    assert forall|i: int| 0 <= i < e.len() implies e[i] == m[i] by {
        let k = i / 2;
        let x = digit_value(b[2 * k]).unwrap();
        let y = digit_value(b[2 * k + 1]).unwrap();
        lemma_digit_of_hex_char(s[2 * k]);
        lemma_digit_of_hex_char(s[2 * k + 1]);
        assert(b[2 * k] == s[2 * k] as u8);
        assert(b[2 * k + 1] == s[2 * k + 1] as u8);
        assert(0 <= k < b.len() / 2);
        assert(pair_at(b, k) == Some((16 * x + y) as u8));
        assert(d[k] == (16 * x + y) as u8);
        assert(d[k] / 16 == x && d[k] % 16 == y) by (nonlinear_arith)
            requires
                d[k] == (16 * x + y) as u8,
                x < 16,
                y < 16,
        ;
        if i % 2 == 0 {
            assert(i == 2 * k);
        } else {
            assert(i == 2 * k + 1);
        }
    }
    assert(e =~= m);
    assert(!decode_splits_char(b)) by {
        if decode_splits_char(b) {
            let k = choose|k: int|
                first_bad_pair(b, k) && !(is_char_boundary(b, 2 * k) && is_char_boundary(
                    b,
                    2 * k + 2,
                ));
            assert(pair_at(b, k) is Some);
        }
    }
}

/// Whether decoding `s` would read a field that splits a character, so
/// that callers can refuse such text before decoding it.
pub fn decode_would_split_char(s: &str) -> (r: bool)
    ensures
        r == decode_splits_char(s.spec_bytes()),
{
    let b = s.as_bytes();
    let len = b.len();
    if len % 2 != 0 {
        return false;
    }
    let n = len / 2;
    let mut k: usize = 0;
    while k < n
        invariant
            b@ == s.spec_bytes(),
            len == b@.len(),
            n == len / 2,
            len % 2 == 0,
            k <= n,
            forall|j: int| 0 <= j < k ==> (#[trigger] pair_at(b@, j)) is Some,
        decreases n - k,
    {
        assert(2 * k + 1 < len);
        if pair_value_exec(b[2 * k], b[2 * k + 1]).is_none() {
            assert(first_bad_pair(b@, k as int));
            let ok = s.is_char_boundary(2 * k) && s.is_char_boundary(2 * k + 2);
            proof {
                if decode_splits_char(b@) {
                    let j = choose|j: int|
                        first_bad_pair(b@, j) && !(is_char_boundary(b@, 2 * j)
                            && is_char_boundary(b@, 2 * j + 2));
                    if j < k {
                        assert(pair_at(b@, j) is Some);
                    } else if j > k {
                        assert(pair_at(b@, k as int) is Some);
                    }
                }
            }
            return !ok;
        }
        k = k + 1;
    }
    proof {
        if decode_splits_char(b@) {
            let j = choose|j: int|
                first_bad_pair(b@, j) && !(is_char_boundary(b@, 2 * j) && is_char_boundary(
                    b@,
                    2 * j + 2,
                ));
            assert(pair_at(b@, j) is Some);
        }
    }
    false
}

} // verus!
