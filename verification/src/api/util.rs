//! Helpers of the local HTTP API: blob content types, size limits, and the
//! normalisation of settings patches.
use vstd::prelude::*;

use vstd::string::StringSliceAdditionalSpecFns;

use crate::base64url::{b64_standard_decode, b64_standard_decode_bytes};
use crate::text::{chars_of, concat2, concat3, decimal, decimal_string, trim, trim_seq, views};

verus! {

broadcast use crate::text::group_views;

/// Largest image accepted in a post or profile upload: 2 MiB.
pub const MAX_BLOB_BYTES: usize = 2 * 1024 * 1024;

/// Whether `p` occurs in `d` at offset `at`.
pub open spec fn bytes_at(d: Seq<u8>, at: int, p: Seq<u8>) -> bool {
    0 <= at && at + p.len() <= d.len() && d.subrange(at, at + p.len()) == p
}

fn bytes_at_exec(d: &[u8], at: usize, p: &Vec<u8>) -> (r: bool)
    ensures
        r == bytes_at(d@, at as int, p@),
{
    if at > d.len() || p.len() > d.len() - at {
        return false;
    }
    let n = d.len();
    let mut k: usize = 0;
    while k < p.len()
        invariant
            n == d@.len(),
            at + p@.len() <= d@.len(),
            k <= p@.len(),
            forall|t: int| 0 <= t < k ==> d@[at + t] == p@[t],
        decreases p@.len() - k,
    {
        assert(at + k < n);
        if d[at + k] != p[k] {
            proof {
                assert(d@.subrange(at as int, at + p@.len())[k as int] != p@[k as int]);
            }
            return false;
        }
        k = k + 1;
    }
    proof {
        assert(d@.subrange(at as int, at + p@.len()) =~= p@);
    }
    true
}

/// Media type of a blob, sniffed from its first bytes.
pub open spec fn blob_mime(d: Seq<u8>) -> Seq<char> {
    if bytes_at(d, 0, seq![0xFFu8, 0xD8u8, 0xFFu8]) {
        "image/jpeg"@
    } else if bytes_at(d, 0, seq![0x89u8, 0x50u8, 0x4Eu8, 0x47u8]) {
        "image/png"@
    } else if bytes_at(d, 0, seq![0x47u8, 0x49u8, 0x46u8, 0x38u8, 0x37u8, 0x61u8]) || bytes_at(
        d,
        0,
        seq![0x47u8, 0x49u8, 0x46u8, 0x38u8, 0x39u8, 0x61u8],
    ) {
        "image/gif"@
    } else if d.len() >= 12 && bytes_at(d, 0, seq![0x52u8, 0x49u8, 0x46u8, 0x46u8]) && bytes_at(
        d,
        8,
        seq![0x57u8, 0x45u8, 0x42u8, 0x50u8],
    ) {
        "image/webp"@
    } else if d.len() >= 12 && bytes_at(d, 4, seq![0x66u8, 0x74u8, 0x79u8, 0x70u8]) {
        "video/mp4"@
    } else {
        "application/octet-stream"@
    }
}

/// Content type served for a stored blob (JPEG, PNG, GIF, WebP, MP4, or
/// generic bytes).
pub fn blob_content_type(data: &[u8]) -> (r: &'static str)
    ensures
        r@ == blob_mime(data@),
{
    let jpeg: Vec<u8> = vec![0xFFu8, 0xD8u8, 0xFFu8];
    let png: Vec<u8> = vec![0x89u8, 0x50u8, 0x4Eu8, 0x47u8];
    let gif7: Vec<u8> = vec![0x47u8, 0x49u8, 0x46u8, 0x38u8, 0x37u8, 0x61u8];
    let gif9: Vec<u8> = vec![0x47u8, 0x49u8, 0x46u8, 0x38u8, 0x39u8, 0x61u8];
    let riff: Vec<u8> = vec![0x52u8, 0x49u8, 0x46u8, 0x46u8];
    let webp: Vec<u8> = vec![0x57u8, 0x45u8, 0x42u8, 0x50u8];
    let ftyp: Vec<u8> = vec![0x66u8, 0x74u8, 0x79u8, 0x70u8];
    if bytes_at_exec(data, 0, &jpeg) {
        "image/jpeg"
    } else if bytes_at_exec(data, 0, &png) {
        "image/png"
    } else if bytes_at_exec(data, 0, &gif7) || bytes_at_exec(data, 0, &gif9) {
        "image/gif"
    } else if data.len() >= 12 && bytes_at_exec(data, 0, &riff) && bytes_at_exec(data, 8, &webp) {
        "image/webp"
    } else if data.len() >= 12 && bytes_at_exec(data, 4, &ftyp) {
        "video/mp4"
    } else {
        "application/octet-stream"
    }
}

/// Message when an uploaded image is too large.
pub open spec fn blob_too_large_msg() -> Seq<char> {
    "image exceeds "@ + decimal((MAX_BLOB_BYTES / 1048576usize) as nat) + " MB limit"@
}

pub fn blob_too_large_message() -> (r: String)
    ensures
        r@ == blob_too_large_msg(),
{
    let mb = decimal_string(MAX_BLOB_BYTES / (1024 * 1024));
    concat3("image exceeds ", mb.as_str(), " MB limit")
}

/// A settings text field as patched: absent stays absent; blank clears it;
/// otherwise its trimmed text.
pub open spec fn text_patch(value: Option<Seq<char>>) -> Option<Option<Seq<char>>> {
    match value {
        None => None,
        Some(v) => if trim_seq(v).len() == 0 {
            Some(None)
        } else {
            Some(Some(trim_seq(v)))
        },
    }
}

pub fn normalize_text_patch(value: Option<&str>) -> (r: Option<Option<String>>)
    ensures
        text_patch(
            match value {
                Some(v) => Some(v@),
                None => None,
            },
        ) == match r {
            None => None,
            Some(None) => Some(None),
            Some(Some(s)) => Some(Some(s@)),
        },
{
    match value {
        None => None,
        Some(v) => {
            let t = trim(v);
            if chars_of(t.as_str()).len() == 0 {
                Some(None)
            } else {
                Some(Some(t))
            }
        },
    }
}

/// A relay list as patched: trimmed entries, blanks dropped.
pub open spec fn relay_patch(list: Seq<Seq<char>>) -> Seq<Seq<char>>
    decreases list.len(),
{
    if list.len() == 0 {
        Seq::<Seq<char>>::empty()
    } else {
        let rest = relay_patch(list.drop_last());
        let t = trim_seq(list.last());
        if t.len() > 0 {
            rest.push(t)
        } else {
            rest
        }
    }
}

pub fn normalize_relay_patch(list: &[String]) -> (r: Vec<String>)
    ensures
        views(r@) == relay_patch(views(list@)),
{
    let mut out: Vec<String> = Vec::new();
    let mut i: usize = 0;
    proof {
        assert(views(list@).take(0) =~= Seq::<Seq<char>>::empty());
    }
    while i < list.len()
        invariant
            i <= list@.len(),
            views(out@) == relay_patch(views(list@).take(i as int)),
        decreases list@.len() - i,
    {
        proof {
            assert(views(list@).take(i + 1).drop_last() =~= views(list@).take(i as int));
            assert(views(list@).take(i + 1).last() == list@[i as int]@);
        }
        let t = trim(list[i].as_str());
        if chars_of(t.as_str()).len() > 0 {
            let ghost before = out@;
            out.push(t);
            proof {
                assert(views(out@) =~= views(before).push(trim_seq(list@[i as int]@)));
            }
        }
        i = i + 1;
    }
    proof {
        assert(views(list@).take(list@.len() as int) =~= views(list@));
    }
    out
}

/// Listen port used by `POST /p2p/start`: the requested port when it is
/// positive, else the default.
pub fn start_listen_port(requested: Option<u16>, default_port: u16) -> (r: u16)
    ensures
        r == match requested {
            Some(p) if p > 0 => p,
            _ => default_port,
        },
{
    match requested {
        Some(p) if p > 0 => p,
        _ => default_port,
    }
}

/// Bytes of a standard base64 upload, or the message for a bad one.
pub fn base64_decode(input: &str) -> (r: Result<Vec<u8>, String>)
    ensures
        match b64_standard_decode(input.spec_bytes()) {
            Ok(b) => r matches Ok(v) && v@ == b,
            Err(m) => r matches Err(e) && e@ == "invalid base64: "@ + m,
        },
{
    match b64_standard_decode_bytes(input.as_bytes()) {
        Ok(v) => Ok(v),
        Err(e) => Err(concat2("invalid base64: ", e.as_str())),
    }
}

} // verus!
