//! The libp2p listen port: default and environment override.
use vstd::prelude::*;

use crate::text::chars_of;

verus! {

/// Default libp2p TCP listen port when `INERTIA_P2P_LISTEN_PORT` is unset.
pub const DEFAULT_P2P_LISTEN_PORT: u16 = 4784;

/// Value of a decimal digit character.
pub open spec fn digit_value(c: char) -> int {
    c as int - '0' as int
}

pub open spec fn is_digit(c: char) -> bool {
    '0' <= c && c <= '9'
}

/// Value of a string of decimal digits.
pub open spec fn decimal_value(s: Seq<char>) -> int
    decreases s.len(),
{
    if s.len() == 0 {
        0
    } else {
        decimal_value(s.drop_last()) * 10 + digit_value(s.last())
    }
}

/// The digits of an unsigned number: the text without a leading `+`.
pub open spec fn unsigned_digits(s: Seq<char>) -> Seq<char> {
    if s.len() > 1 && s[0] == '+' {
        s.drop_first()
    } else {
        s
    }
}

/// Whether every character is a decimal digit.
pub open spec fn all_digits(s: Seq<char>) -> bool {
    forall|i: int| 0 <= i < s.len() ==> is_digit(#[trigger] s[i])
}

/// What `str::parse::<u16>` accepts: an optional `+` then at least one
/// decimal digit, with a value that fits in 16 bits.
pub open spec fn parse_u16(s: Seq<char>) -> Option<u16> {
    let digits = unsigned_digits(s);
    if digits.len() > 0 && all_digits(digits) && decimal_value(digits) <= 65535 {
        Some(decimal_value(digits) as u16)
    } else {
        None
    }
}

proof fn lemma_decimal_nonneg(s: Seq<char>)
    requires
        forall|i: int| 0 <= i < s.len() ==> is_digit(#[trigger] s[i]),
    ensures
        decimal_value(s) >= 0,
    decreases s.len(),
{
    if s.len() > 0 {
        lemma_decimal_nonneg(s.drop_last());
    }
}

fn parse_port(s: &str) -> (r: Option<u16>)
    ensures
        r == parse_u16(s@),
{
    let v = chars_of(s);
    let start: usize = if v.len() > 1 && v[0] == '+' {
        1
    } else {
        0
    };
    let ghost digits = unsigned_digits(v@);
    proof {
        assert(digits =~= v@.subrange(start as int, v@.len() as int));
    }
    if start >= v.len() {
        return None;
    }
    // Saturated value of the digits seen so far.
    let mut acc: u32 = 0;
    let mut i: usize = start;
    proof {
        assert(v@.subrange(start as int, start as int) =~= Seq::<char>::empty());
    }
    while i < v.len()
        invariant
            start <= i <= v@.len(),
            v@ == s@,
            start == 0 || start == 1,
            digits == unsigned_digits(v@),
            digits == v@.subrange(start as int, v@.len() as int),
            forall|k: int| start <= k < i ==> is_digit(#[trigger] v@[k]),
            acc as int == if decimal_value(v@.subrange(start as int, i as int)) > 65535 {
                65536
            } else {
                decimal_value(v@.subrange(start as int, i as int))
            },
        decreases v@.len() - i,
    {
        let c = v[i];
        if !('0' <= c && c <= '9') {
            proof {
                assert(digits[i - start] == c);
            }
            return None;
        }
        let d: u32 = (c as u32) - ('0' as u32);
        let ghost pre = v@.subrange(start as int, i as int);
        proof {
            assert(v@.subrange(start as int, i + 1).drop_last() =~= pre);
            assert(v@.subrange(start as int, i + 1).last() == c);
            assert forall|k: int| 0 <= k < pre.len() implies is_digit(#[trigger] pre[k]) by {
                assert(pre[k] == v@[start + k]);
            }
            lemma_decimal_nonneg(pre);
        }
        let next: u32 = acc * 10 + d;
        acc = if next > 65535 {
            65536
        } else {
            next
        };
        i = i + 1;
    }
    proof {
        assert forall|k: int| 0 <= k < digits.len() implies is_digit(#[trigger] digits[k]) by {
            assert(digits[k] == v@[start + k]);
        }
        assert(v@.subrange(start as int, i as int) =~= digits);
    }
    if acc > 65535 {
        None
    } else {
        Some(acc as u16)
    }
}

/// The listen port the environment asks for: a positive 16-bit number.
pub open spec fn env_listen_port(env_value: Option<Seq<char>>) -> Option<u16> {
    match env_value {
        Some(v) => match parse_u16(v) {
            Some(p) if p > 0 => Some(p),
            _ => None,
        },
        None => None,
    }
}

/// Port requested by the environment variable's value, if any.
pub fn p2p_listen_port_from_env(env_value: Option<&str>) -> (r: Option<u16>)
    ensures
        r == env_listen_port(
            match env_value {
                Some(v) => Some(v@),
                None => None,
            },
        ),
{
    match env_value {
        Some(v) => match parse_port(v) {
            Some(p) if p > 0 => Some(p),
            _ => None,
        },
        None => None,
    }
}

/// Listen port: the environment's `INERTIA_P2P_LISTEN_PORT` value when it
/// names a positive port, else the default.
pub fn default_p2p_listen_port(env_value: Option<&str>) -> (r: u16)
    ensures
        r == match env_listen_port(
            match env_value {
                Some(v) => Some(v@),
                None => None,
            },
        ) {
            Some(p) => p,
            None => DEFAULT_P2P_LISTEN_PORT,
        },
{
    match p2p_listen_port_from_env(env_value) {
        Some(p) => p,
        None => DEFAULT_P2P_LISTEN_PORT,
    }
}

} // verus!
