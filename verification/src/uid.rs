//! Random unique ids for content and invites.
use uuid::Uuid;
use vstd::prelude::*;

verus! {

/// A lower-case hex digit.
pub open spec fn is_hex_lower(c: char) -> bool {
    ('0' <= c && c <= '9') || ('a' <= c && c <= 'f')
}

/// The hyphenated lower-case text of a version-4, RFC 4122 UUID:
/// `xxxxxxxx-xxxx-4xxx-Nxxx-xxxxxxxxxxxx` with `N` one of `8`, `9`, `a`, `b`.
pub open spec fn is_uuid_v4_text(s: Seq<char>) -> bool {
    &&& s.len() == 36
    &&& forall|i: int|
        0 <= i < 36 ==> if i == 8 || i == 13 || i == 18 || i == 23 {
            s[i] == '-'
        } else {
            is_hex_lower(#[trigger] s[i])
        }
    &&& s[14] == '4'
    &&& (s[19] == '8' || s[19] == '9' || s[19] == 'a' || s[19] == 'b')
}

/// A fresh random id (`Uuid::new_v4`, in its hyphenated text). Which id
/// comes out is chance; its shape is fixed.
#[verifier::external_body]
pub(crate) fn new_uuid_v4() -> (r: String)
    ensures
        is_uuid_v4_text(r@),
{
    Uuid::new_v4().to_string()
}

} // verus!
