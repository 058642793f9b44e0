//! Character-level string helpers used by the relay, invite and status logic.
//!
//! Strings are handled as sequences of `char`: their view is `Seq<char>`.
use vstd::prelude::*;
use vstd::utf8::encode_utf8;

verus! {

/// The characters of `s`, in order (std `str::chars`).
#[verifier::external_body]
pub(crate) fn chars_of(s: &str) -> (v: Vec<char>)
    ensures
        v@ == s@,
{
    s.chars().collect()
}

/// A `String` made of the given characters (std `FromIterator<char>`).
#[verifier::external_body]
pub(crate) fn string_of(v: &[char]) -> (s: String)
    ensures
        s@ == v@,
{
    v.iter().collect()
}

/// An owned copy of a string slice.
pub fn owned(s: &str) -> (r: String)
    ensures
        r@ == s@,
{
    s.to_owned()
}

/// Whitespace as `char::is_whitespace` defines it (Unicode `White_Space`).
pub open spec fn is_ws(c: char) -> bool {
    ||| ('\u{9}' <= c && c <= '\u{d}')
    ||| c == ' '
    ||| c == '\u{85}'
    ||| c == '\u{a0}'
    ||| c == '\u{1680}'
    ||| ('\u{2000}' <= c && c <= '\u{200a}')
    ||| c == '\u{2028}'
    ||| c == '\u{2029}'
    ||| c == '\u{202f}'
    ||| c == '\u{205f}'
    ||| c == '\u{3000}'
}

pub fn is_whitespace(c: char) -> (b: bool)
    ensures
        b == is_ws(c),
{
    ('\u{9}' <= c && c <= '\u{d}') || c == ' ' || c == '\u{85}' || c == '\u{a0}' || c
        == '\u{1680}' || ('\u{2000}' <= c && c <= '\u{200a}') || c == '\u{2028}' || c
        == '\u{2029}' || c == '\u{202f}' || c == '\u{205f}' || c == '\u{3000}'
}

/// Index of the first non-whitespace character at or after `i` (or `s.len()`).
pub open spec fn skip_ws(s: Seq<char>, i: int) -> int
    decreases s.len() - i,
{
    if 0 <= i < s.len() && is_ws(s[i]) {
        skip_ws(s, i + 1)
    } else {
        i
    }
}

/// End of `s[lo..j]` once trailing whitespace is dropped.
pub open spec fn back_ws(s: Seq<char>, lo: int, j: int) -> int
    decreases j - lo,
{
    if lo < j && j <= s.len() && is_ws(s[j - 1]) {
        back_ws(s, lo, j - 1)
    } else {
        j
    }
}

/// `s` without leading and trailing whitespace (std `str::trim`).
pub open spec fn trim_seq(s: Seq<char>) -> Seq<char> {
    let lo = skip_ws(s, 0);
    s.subrange(lo, back_ws(s, lo, s.len() as int))
}

pub proof fn lemma_skip_ws_bounds(s: Seq<char>, i: int)
    requires
        0 <= i <= s.len(),
    ensures
        i <= skip_ws(s, i) <= s.len(),
        forall|k: int| i <= k < skip_ws(s, i) ==> is_ws(#[trigger] s[k]),
        skip_ws(s, i) < s.len() ==> !is_ws(s[skip_ws(s, i)]),
    decreases s.len() - i,
{
    if i < s.len() && is_ws(s[i]) {
        lemma_skip_ws_bounds(s, i + 1);
    }
}

pub proof fn lemma_back_ws_bounds(s: Seq<char>, lo: int, j: int)
    requires
        0 <= lo <= j <= s.len(),
    ensures
        lo <= back_ws(s, lo, j) <= j,
        forall|k: int| back_ws(s, lo, j) <= k < j ==> is_ws(#[trigger] s[k]),
        back_ws(s, lo, j) > lo ==> !is_ws(s[back_ws(s, lo, j) - 1]),
    decreases j - lo,
{
    if lo < j && is_ws(s[j - 1]) {
        lemma_back_ws_bounds(s, lo, j - 1);
    }
}

/// Trimmed copy of a character sequence.
pub fn trim_chars(s: &Vec<char>) -> (r: Vec<char>)
    ensures
        r@ == trim_seq(s@),
{
    let n = s.len();
    let mut lo: usize = 0;
    while lo < n && is_whitespace(s[lo])
        invariant
            n == s@.len(),
            lo <= n,
            skip_ws(s@, lo as int) == skip_ws(s@, 0),
        decreases n - lo,
    {
        lo = lo + 1;
    }
    let mut hi: usize = n;
    while hi > lo && is_whitespace(s[hi - 1])
        invariant
            n == s@.len(),
            lo <= hi <= n,
            lo as int == skip_ws(s@, 0),
            back_ws(s@, lo as int, hi as int) == back_ws(s@, lo as int, n as int),
        decreases hi - lo,
    {
        hi = hi - 1;
    }
    let mut r: Vec<char> = Vec::new();
    let mut k: usize = lo;
    while k < hi
        invariant
            n == s@.len(),
            lo <= k <= hi <= n,
            r@ == s@.subrange(lo as int, k as int),
        decreases hi - k,
    {
        r.push(s[k]);
        k = k + 1;
        proof {
            assert(r@ =~= s@.subrange(lo as int, k as int));
        }
    }
    r
}

/// Trimmed owned copy of a string slice (std `str::trim` then `to_string`).
pub fn trim(s: &str) -> (r: String)
    ensures
        r@ == trim_seq(s@),
{
    let v = chars_of(s);
    let t = trim_chars(&v);
    string_of(t.as_slice())
}

/// Whether `s` starts with `p`.
pub open spec fn has_prefix(s: Seq<char>, p: Seq<char>) -> bool {
    p.len() <= s.len() && s.subrange(0, p.len() as int) == p
}

/// Whether `n` occurs in `s` starting at index `i`.
pub open spec fn occurs_at(s: Seq<char>, n: Seq<char>, i: int) -> bool {
    0 <= i && i + n.len() <= s.len() && s.subrange(i, i + n.len()) == n
}

/// Whether `n` occurs anywhere in `s` (std `str::contains`).
pub open spec fn contains_seq(s: Seq<char>, n: Seq<char>) -> bool {
    exists|i: int| occurs_at(s, n, i)
}

pub fn occurs_at_exec(s: &Vec<char>, n: &Vec<char>, i: usize) -> (b: bool)
    ensures
        b == occurs_at(s@, n@, i as int),
{
    if n.len() > s.len() || i > s.len() - n.len() {
        return false;
    }
    let mut k: usize = 0;
    while k < n.len()
        invariant
            i + n@.len() <= s@.len(),
            k <= n@.len(),
            forall|t: int| 0 <= t < k ==> s@[i + t] == n@[t],
        decreases n@.len() - k,
    {
        assert(i + k < s.len());
        if s[i + k] != n[k] {
            proof {
                assert(s@.subrange(i as int, i + n@.len())[k as int] != n@[k as int]);
            }
            return false;
        }
        k = k + 1;
    }
    proof {
        assert(s@.subrange(i as int, i + n@.len()) =~= n@);
    }
    true
}

/// Whether `s` starts with `p` (std `str::starts_with`).
pub fn starts_with(s: &Vec<char>, p: &Vec<char>) -> (b: bool)
    ensures
        b == has_prefix(s@, p@),
{
    occurs_at_exec(s, p, 0)
}

/// First index at which `n` occurs in `s` (std `str::find`).
pub fn find(s: &Vec<char>, n: &Vec<char>) -> (r: Option<usize>)
    ensures
        match r {
            Some(i) => occurs_at(s@, n@, i as int) && forall|j: int|
                0 <= j < i ==> !occurs_at(s@, n@, j),
            None => !contains_seq(s@, n@),
        },
{
    if n.len() > s.len() {
        assert forall|j: int| !occurs_at(s@, n@, j) by {}
        return None;
    }
    let last = s.len() - n.len();
    let mut i: usize = 0;
    loop
        invariant
            last + n@.len() == s@.len(),
            i <= last,
            forall|j: int| 0 <= j < i ==> !occurs_at(s@, n@, j),
        ensures
            forall|j: int| 0 <= j <= last ==> !occurs_at(s@, n@, j),
        decreases last - i,
    {
        if occurs_at_exec(s, n, i) {
            return Some(i);
        }
        if i == last {
            break;
        }
        i = i + 1;
    }
    assert forall|j: int| !occurs_at(s@, n@, j) by {
        if 0 <= j <= last {
        }
    }
    None
}

/// Whether `n` occurs in `s` (std `str::contains`).
pub fn contains(s: &Vec<char>, n: &Vec<char>) -> (b: bool)
    ensures
        b == contains_seq(s@, n@),
{
    match find(s, n) {
        Some(_) => true,
        None => false,
    }
}

/// Whether two strings hold the same characters.
pub fn chars_equal(a: &Vec<char>, b: &Vec<char>) -> (r: bool)
    ensures
        r == (a@ == b@),
{
    if a.len() != b.len() {
        return false;
    }
    let r = occurs_at_exec(a, b, 0);
    proof {
        assert(a@.subrange(0, b@.len() as int) =~= a@);
    }
    r
}

/// Whether two string slices are equal (std `PartialEq for str`).
pub fn str_eq(a: &str, b: &str) -> (r: bool)
    ensures
        r == (a@ == b@),
{
    let va = chars_of(a);
    let vb = chars_of(b);
    chars_equal(&va, &vb)
}

/// The first `n` characters of `s` (std `chars().take(n).collect()`).
pub open spec fn take_chars(s: Seq<char>, n: nat) -> Seq<char> {
    if n < s.len() {
        s.subrange(0, n as int)
    } else {
        s
    }
}

pub fn take_prefix(s: &str, n: usize) -> (r: String)
    ensures
        r@ == take_chars(s@, n as nat),
{
    let v = chars_of(s);
    if n >= v.len() {
        return string_of(v.as_slice());
    }
    let mut out: Vec<char> = Vec::new();
    let mut i: usize = 0;
    while i < n
        invariant
            n < v@.len(),
            i <= n,
            out@ == v@.subrange(0, i as int),
        decreases n - i,
    {
        out.push(v[i]);
        i = i + 1;
        proof {
            assert(out@ =~= v@.subrange(0, i as int));
        }
    }
    string_of(out.as_slice())
}

/// The ASCII decimal digit for `d < 10`.
pub open spec fn digit_char(d: nat) -> char {
    if d == 0 {
        '0'
    } else if d == 1 {
        '1'
    } else if d == 2 {
        '2'
    } else if d == 3 {
        '3'
    } else if d == 4 {
        '4'
    } else if d == 5 {
        '5'
    } else if d == 6 {
        '6'
    } else if d == 7 {
        '7'
    } else if d == 8 {
        '8'
    } else {
        '9'
    }
}

/// Decimal rendering of a natural number, as `{}` formats integers.
pub open spec fn decimal(n: nat) -> Seq<char>
    decreases n,
{
    if n < 10 {
        seq![digit_char(n)]
    } else {
        decimal(n / 10).push(digit_char(n % 10))
    }
}

fn digit_exec(d: usize) -> (c: char)
    requires
        d < 10,
    ensures
        c == digit_char(d as nat),
{
    if d == 0 {
        '0'
    } else if d == 1 {
        '1'
    } else if d == 2 {
        '2'
    } else if d == 3 {
        '3'
    } else if d == 4 {
        '4'
    } else if d == 5 {
        '5'
    } else if d == 6 {
        '6'
    } else if d == 7 {
        '7'
    } else if d == 8 {
        '8'
    } else {
        '9'
    }
}

fn decimal_chars(n: usize) -> (r: Vec<char>)
    ensures
        r@ == decimal(n as nat),
    decreases n,
{
    if n < 10 {
        let mut v: Vec<char> = Vec::new();
        v.push(digit_exec(n));
        proof {
            assert(v@ =~= seq![digit_char(n as nat)]);
        }
        v
    } else {
        let mut v = decimal_chars(n / 10);
        v.push(digit_exec(n % 10));
        v
    }
}

/// Decimal rendering of `n` (as `format!("{n}")` writes it).
pub fn decimal_string(n: usize) -> (r: String)
    ensures
        r@ == decimal(n as nat),
{
    let v = decimal_chars(n);
    string_of(v.as_slice())
}

/// Concatenation of two string slices into a new `String`.
pub fn concat2(a: &str, b: &str) -> (r: String)
    ensures
        r@ == a@ + b@,
{
    let mut s = a.to_owned();
    s.append(b);
    s
}

/// Concatenation of three string slices into a new `String`.
pub fn concat3(a: &str, b: &str, c: &str) -> (r: String)
    ensures
        r@ == a@ + b@ + c@,
{
    let mut s = a.to_owned();
    s.append(b);
    s.append(c);
    s
}

/// The characters of an optional string.
pub open spec fn opt_view(o: Option<String>) -> Option<Seq<char>> {
    match o {
        Some(s) => Some(s@),
        None => None,
    }
}

/// The characters of each string, in order.
pub open spec fn views(v: Seq<String>) -> Seq<Seq<char>> {
    v.map_values(|x: String| x@)
}

pub broadcast proof fn lemma_views_index(v: Seq<String>, k: int)
    requires
        0 <= k < v.len(),
    ensures
        #[trigger] views(v)[k] == v[k]@,
{
}

pub broadcast proof fn lemma_views_len(v: Seq<String>)
    ensures
        #[trigger] views(v).len() == v.len(),
{
}

pub broadcast group group_views {
    lemma_views_index,
    lemma_views_len,
}

/// Pieces of `s` between occurrences of any character of `seps`
/// (std `str::split` with a set of separator characters; empty pieces kept).
pub open spec fn split_seq(s: Seq<char>, seps: Seq<char>) -> Seq<Seq<char>>
    decreases s.len(),
{
    if s.len() == 0 {
        seq![Seq::<char>::empty()]
    } else {
        let rest = split_seq(s.drop_last(), seps);
        if seps.contains(s.last()) {
            rest.push(Seq::<char>::empty())
        } else {
            rest.update(rest.len() - 1, rest.last().push(s.last()))
        }
    }
}

pub proof fn lemma_split_nonempty(s: Seq<char>, seps: Seq<char>)
    ensures
        split_seq(s, seps).len() >= 1,
    decreases s.len(),
{
    if s.len() > 0 {
        lemma_split_nonempty(s.drop_last(), seps);
    }
}

fn is_sep(c: char, seps: &Vec<char>) -> (b: bool)
    ensures
        b == seps@.contains(c),
{
    let mut i: usize = 0;
    while i < seps.len()
        invariant
            i <= seps@.len(),
            forall|k: int| 0 <= k < i ==> seps@[k] != c,
        decreases seps@.len() - i,
    {
        if seps[i] == c {
            return true;
        }
        i = i + 1;
    }
    false
}

/// Split `s` at every character of `seps`.
pub fn split_chars(s: &str, seps: &Vec<char>) -> (r: Vec<String>)
    ensures
        views(r@) == split_seq(s@, seps@),
{
    let v = chars_of(s);
    let mut pieces: Vec<String> = Vec::new();
    let mut cur: Vec<char> = Vec::new();
    let mut i: usize = 0;
    proof {
        assert(v@.take(0) =~= Seq::<char>::empty());
        assert(views(pieces@).push(cur@) =~= seq![Seq::<char>::empty()]);
    }
    while i < v.len()
        invariant
            i <= v@.len(),
            v@ == s@,
            views(pieces@).push(cur@) == split_seq(v@.take(i as int), seps@),
        decreases v@.len() - i,
    {
        let c = v[i];
        proof {
            assert(v@.take(i + 1).drop_last() =~= v@.take(i as int));
            assert(v@.take(i + 1).last() == c);
        }
        if is_sep(c, seps) {
            let done = string_of(cur.as_slice());
            pieces.push(done);
            cur = Vec::new();
            proof {
                assert(views(pieces@).push(cur@) =~= split_seq(v@.take(i as int), seps@).push(
                    Seq::<char>::empty(),
                ));
            }
        } else {
            cur.push(c);
            proof {
                let prev = split_seq(v@.take(i as int), seps@);
                assert(views(pieces@).push(cur@) =~= prev.update(
                    prev.len() - 1,
                    prev.last().push(c),
                ));
            }
        }
        i = i + 1;
    }
    let last = string_of(cur.as_slice());
    pieces.push(last);
    proof {
        assert(v@.take(v@.len() as int) =~= v@);
        assert(views(pieces@) =~= split_seq(v@, seps@));
    }
    pieces
}

/// A copy of a list of strings.
pub fn copy_strings(list: &[String]) -> (r: Vec<String>)
    ensures
        views(r@) == views(list@),
{
    let mut out: Vec<String> = Vec::new();
    let mut i: usize = 0;
    while i < list.len()
        invariant
            i <= list@.len(),
            out@.len() == i,
            forall|k: int| 0 <= k < i ==> (#[trigger] out@[k])@ == list@[k]@,
        decreases list@.len() - i,
    {
        out.push(list[i].clone());
        i = i + 1;
    }
    assert(views(out@) =~= views(list@));
    out
}

/// First index at which `n` occurs in `s` (meaningful when it occurs).
pub open spec fn first_occurrence(s: Seq<char>, n: Seq<char>) -> int {
    choose|i: int| occurs_at(s, n, i) && forall|j: int| 0 <= j < i ==> !occurs_at(s, n, j)
}

/// An occurrence with none before it is the first occurrence.
pub proof fn lemma_first_occurrence(s: Seq<char>, n: Seq<char>, i: int)
    requires
        occurs_at(s, n, i),
        forall|j: int| 0 <= j < i ==> !occurs_at(s, n, j),
    ensures
        first_occurrence(s, n) == i,
{
    let k = first_occurrence(s, n);
    assert(occurs_at(s, n, k) && forall|j: int| 0 <= j < k ==> !occurs_at(s, n, j));
    if k < i {
        assert(!occurs_at(s, n, k));
    }
    if i < k {
        assert(!occurs_at(s, n, i));
    }
}

/// The characters of `v` from index `start` on.
pub fn chars_from(v: &Vec<char>, start: usize) -> (r: String)
    requires
        start <= v@.len(),
    ensures
        r@ == v@.skip(start as int),
{
    let mut out: Vec<char> = Vec::new();
    let mut i: usize = start;
    while i < v.len()
        invariant
            start <= i <= v@.len(),
            out@ == v@.subrange(start as int, i as int),
        decreases v@.len() - i,
    {
        out.push(v[i]);
        i = i + 1;
        proof {
            assert(out@ =~= v@.subrange(start as int, i as int));
        }
    }
    assert(out@ =~= v@.skip(start as int));
    string_of(out.as_slice())
}

/// UTF-8 bytes of some characters.
pub fn utf8_bytes(chars: &Vec<char>) -> (r: Vec<u8>)
    ensures
        r@ == encode_utf8(chars@),
{
    let s = string_of(chars.as_slice());
    let b = s.as_str().as_bytes();
    let mut out: Vec<u8> = Vec::new();
    let mut i: usize = 0;
    while i < b.len()
        invariant
            i <= b@.len(),
            out@ == b@.take(i as int),
        decreases b@.len() - i,
    {
        out.push(b[i]);
        i = i + 1;
        proof {
            assert(out@ =~= b@.take(i as int));
        }
    }
    proof {
        assert(b@.take(b@.len() as int) =~= b@);
    }
    out
}

/// Trimming text that starts with `lead` and ends with `body`, where `body`
/// begins and ends with non-whitespace, drops only `lead`'s leading
/// whitespace.
pub proof fn lemma_trim_before_body(lead: Seq<char>, body: Seq<char>)
    requires
        body.len() > 0,
        !is_ws(body[0]),
        !is_ws(body.last()),
    ensures
        trim_seq(lead + body) == lead.skip(skip_ws(lead, 0)) + body,
        0 <= skip_ws(lead, 0) <= lead.len(),
        skip_ws(lead, 0) < lead.len() ==> !is_ws(lead[skip_ws(lead, 0)]),
{
    let s = lead + body;
    lemma_skip_prefix(lead, body, 0);
    lemma_skip_ws_bounds(lead, 0);
    let lo = skip_ws(s, 0);
    assert(back_ws(s, lo, s.len() as int) == s.len());
    assert(s.subrange(lo, s.len() as int) =~= lead.skip(lo) + body);
}

proof fn lemma_skip_prefix(lead: Seq<char>, body: Seq<char>, i: int)
    requires
        0 <= i <= lead.len(),
        body.len() > 0,
        !is_ws(body[0]),
    ensures
        skip_ws(lead + body, i) == skip_ws(lead, i),
    decreases lead.len() - i,
{
    let s = lead + body;
    if i < lead.len() {
        assert(s[i] == lead[i]);
        if is_ws(lead[i]) {
            lemma_skip_prefix(lead, body, i + 1);
        }
    } else {
        assert(s[i] == body[0]);
    }
}

} // verus!
