//! Base64: URL-safe without padding, as invite links carry their payload,
//! and the standard padded alphabet of uploads.
use base64::engine::general_purpose::{STANDARD, URL_SAFE_NO_PAD};
use base64::Engine;
use vstd::prelude::*;

use crate::text::is_ws;

verus! {

/// Symbol of a 6-bit value in the URL-safe alphabet.
pub open spec fn b64_symbol(n: int) -> char {
    if n < 26 {
        (n + 65) as char
    } else if n < 52 {
        (n + 71) as char
    } else if n < 62 {
        (n - 4) as char
    } else if n == 62 {
        '-'
    } else {
        '_'
    }
}

/// URL-safe base64 text of `b` without padding: each group of three bytes
/// becomes four symbols; a final group of one or two bytes becomes two or
/// three symbols, its unused low bits zero.
pub open spec fn b64_encode(b: Seq<u8>) -> Seq<char>
    decreases b.len(),
{
    let x = b[0] as int;
    let y = b[1] as int;
    let z = b[2] as int;
    if b.len() == 0 {
        Seq::<char>::empty()
    } else if b.len() == 1 {
        seq![b64_symbol(x / 4), b64_symbol((x % 4) * 16)]
    } else if b.len() == 2 {
        seq![b64_symbol(x / 4), b64_symbol((x % 4) * 16 + y / 16), b64_symbol((y % 16) * 4)]
    } else {
        seq![
            b64_symbol(x / 4),
            b64_symbol((x % 4) * 16 + y / 16),
            b64_symbol((y % 16) * 4 + z / 64),
            b64_symbol(z % 64),
        ] + b64_encode(b.skip(3))
    }
}

/// What decoding URL-safe unpadded base64 text gives: the bytes, or the
/// text of the decoding error.
pub uninterp spec fn b64_decode(text: Seq<u8>) -> Result<Seq<u8>, Seq<char>>;

/// Encode with `URL_SAFE_NO_PAD` (`base64::Engine::encode`).
#[verifier::external_body]
pub(crate) fn b64_encode_bytes(bytes: &[u8]) -> (r: String)
    ensures
        r@ == b64_encode(bytes@),
{
    URL_SAFE_NO_PAD.encode(bytes)
}

/// Decode with `URL_SAFE_NO_PAD` (`base64::Engine::decode`); text that
/// encoding produced decodes back to the bytes it came from.
#[verifier::external_body]
pub(crate) fn b64_decode_bytes(text: &[u8]) -> (r: Result<Vec<u8>, String>)
    ensures
        r matches Ok(v) ==> (b64_decode(text@) matches Ok(w) && w == v@),
        r matches Err(e) ==> (b64_decode(text@) matches Err(m) && m == e@),
        forall|b: Seq<u8>|
            text@ == vstd::utf8::encode_utf8(#[trigger] b64_encode(b)) ==> decodes_to(r, b),
{
    match URL_SAFE_NO_PAD.decode(text) {
        Ok(v) => Ok(v),
        Err(e) => Err(e.to_string()),
    }
}

/// A decoding result that holds exactly `b`.
pub open spec fn decodes_to(r: Result<Vec<u8>, String>, b: Seq<u8>) -> bool {
    r matches Ok(v) && v@ == b
}

/// What decoding standard padded base64 text gives: the bytes, or the
/// text of the decoding error.
pub uninterp spec fn b64_standard_decode(text: Seq<u8>) -> Result<Seq<u8>, Seq<char>>;

/// Decode with the `STANDARD` engine (`base64::Engine::decode`).
#[verifier::external_body]
pub(crate) fn b64_standard_decode_bytes(text: &[u8]) -> (r: Result<Vec<u8>, String>)
    ensures
        r matches Ok(v) ==> (b64_standard_decode(text@) matches Ok(w) && w == v@),
        r matches Err(e) ==> (b64_standard_decode(text@) matches Err(m) && m == e@),
{
    match STANDARD.decode(text) {
        Ok(v) => Ok(v),
        Err(e) => Err(e.to_string()),
    }
}

proof fn lemma_symbol_not_ws(n: int)
    requires
        0 <= n < 64,
    ensures
        !is_ws(b64_symbol(n)),
{
}

/// Base64 text holds no whitespace.
pub proof fn lemma_b64_no_ws(b: Seq<u8>)
    ensures
        forall|i: int| 0 <= i < b64_encode(b).len() ==> !is_ws(#[trigger] b64_encode(b)[i]),
    decreases b.len(),
{
    let e = b64_encode(b);
    if b.len() == 0 {
    } else {
        let x = b[0] as int;
        let y = b[1] as int;
        let z = b[2] as int;
        lemma_symbol_not_ws(x / 4);
        lemma_symbol_not_ws((x % 4) * 16);
        lemma_symbol_not_ws((x % 4) * 16 + y / 16);
        lemma_symbol_not_ws((y % 16) * 4);
        lemma_symbol_not_ws((y % 16) * 4 + z / 64);
        lemma_symbol_not_ws(z % 64);
        if b.len() >= 3 {
            lemma_b64_no_ws(b.skip(3));
            let rest = b64_encode(b.skip(3));
            assert forall|i: int| 0 <= i < e.len() implies !is_ws(#[trigger] e[i]) by {
                if i >= 4 {
                    assert(e[i] == rest[i - 4]);
                }
            }
        }
    }
}

} // verus!
