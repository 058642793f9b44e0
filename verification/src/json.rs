//! Compact JSON text of the records the core signs and shares, framed the
//! way `serde_json` writes a struct: fields in declaration order, no spaces.
//! Each string is quoted and escaped by `serde_json` itself.
use vstd::prelude::*;

use crate::text::{decimal, views};

verus! {

broadcast use crate::text::group_views;

/// The JSON string `serde_json` writes for a text: quoted, with its escapes.
pub uninterp spec fn json_str(s: Seq<char>) -> Seq<char>;

/// `serde_json::to_string` of a string slice. Claimed: it succeeds (writing
/// a `str` into memory has no failing step) and gives the named
/// `json_str` of the text.
#[verifier::external_body]
fn quoted(s: &str) -> (r: Result<String, String>)
    ensures
        r is Ok,
        r matches Ok(t) ==> t@ == json_str(s@),
{
    match serde_json::to_string(s) {
        Ok(t) => Ok(t),
        Err(e) => Err(e.to_string()),
    }
}

/// A JSON string, or `null`.
pub open spec fn json_opt_str(o: Option<Seq<char>>) -> Seq<char> {
    match o {
        Some(s) => json_str(s),
        None => "null"@,
    }
}

/// The comma-separated JSON strings of a list, without brackets.
pub open spec fn json_str_items(v: Seq<Seq<char>>) -> Seq<char>
    decreases v.len(),
{
    if v.len() == 0 {
        Seq::<char>::empty()
    } else if v.len() == 1 {
        json_str(v[0])
    } else {
        json_str_items(v.drop_last()) + seq![','] + json_str(v.last())
    }
}

/// A JSON array of strings.
pub open spec fn json_str_list(v: Seq<Seq<char>>) -> Seq<char> {
    seq!['['] + json_str_items(v) + seq![']']
}

/// The comma-separated decimal numbers of some bytes, without brackets.
pub open spec fn json_byte_items(b: Seq<u8>) -> Seq<char>
    decreases b.len(),
{
    if b.len() == 0 {
        Seq::<char>::empty()
    } else if b.len() == 1 {
        decimal(b[0] as nat)
    } else {
        json_byte_items(b.drop_last()) + seq![','] + decimal(b.last() as nat)
    }
}

/// A JSON array of byte values.
pub open spec fn json_byte_list(b: Seq<u8>) -> Seq<char> {
    seq!['['] + json_byte_items(b) + seq![']']
}

/// Append the JSON string of `s`.
pub fn push_json_str(out: &mut Vec<char>, s: &str)
    ensures
        final(out)@ == old(out)@ + json_str(s@),
{
    match quoted(s) {
        Ok(t) => push_raw(out, t.as_str()),
        Err(_) => {},
    }
}

/// Append the characters of `s` as they are.
pub fn push_raw(out: &mut Vec<char>, s: &str)
    ensures
        final(out)@ == old(out)@ + s@,
{
    let chars = crate::text::chars_of(s);
    let ghost start = out@;
    let mut i: usize = 0;
    while i < chars.len()
        invariant
            chars@ == s@,
            i <= chars@.len(),
            out@ == start + chars@.take(i as int),
        decreases chars@.len() - i,
    {
        out.push(chars[i]);
        i = i + 1;
        proof {
            assert(out@ =~= start + chars@.take(i as int));
        }
    }
    proof {
        assert(chars@.take(chars@.len() as int) =~= chars@);
    }
}

/// Append the JSON string of `o`, or `null`.
pub fn push_json_opt_str(out: &mut Vec<char>, o: &Option<String>)
    ensures
        final(out)@ == old(out)@ + json_opt_str(crate::text::opt_view(*o)),
{
    match o {
        Some(s) => push_json_str(out, s.as_str()),
        None => push_raw(out, "null"),
    }
}

/// Append a JSON array of the strings of `v`.
pub fn push_json_str_list(out: &mut Vec<char>, v: &[String])
    ensures
        final(out)@ == old(out)@ + json_str_list(views(v@)),
{
    let ghost start = out@;
    out.push('[');
    let mut i: usize = 0;
    while i < v.len()
        invariant
            i <= v@.len(),
            out@ == start + seq!['['] + json_str_items(views(v@).take(i as int)),
        decreases v@.len() - i,
    {
        proof {
            assert(views(v@).take(i + 1).drop_last() =~= views(v@).take(i as int));
        }
        if i > 0 {
            out.push(',');
        }
        push_json_str(out, v[i].as_str());
        i = i + 1;
        proof {
            assert(out@ =~= start + seq!['['] + json_str_items(views(v@).take(i as int)));
        }
    }
    out.push(']');
    proof {
        assert(views(v@).take(v@.len() as int) =~= views(v@));
        assert(out@ =~= start + json_str_list(views(v@)));
    }
}

/// Append a JSON array of the values of `b`.
pub fn push_json_byte_list(out: &mut Vec<char>, b: &[u8])
    ensures
        final(out)@ == old(out)@ + json_byte_list(b@),
{
    let ghost start = out@;
    out.push('[');
    let mut i: usize = 0;
    while i < b.len()
        invariant
            i <= b@.len(),
            out@ == start + seq!['['] + json_byte_items(b@.take(i as int)),
        decreases b@.len() - i,
    {
        proof {
            assert(b@.take(i + 1).drop_last() =~= b@.take(i as int));
        }
        if i > 0 {
            out.push(',');
        }
        let d = crate::text::decimal_string(b[i] as usize);
        push_raw(out, d.as_str());
        i = i + 1;
        proof {
            assert(out@ =~= start + seq!['['] + json_byte_items(b@.take(i as int)));
        }
    }
    out.push(']');
    proof {
        assert(b@.take(b@.len() as int) =~= b@);
        assert(out@ =~= start + json_byte_list(b@));
    }
}

} // verus!
