//! Percent-decoding of URL paths and parsing of `application/x-www-form-urlencoded`
//! query strings, with last-wins lookup of a single parameter.
use vstd::prelude::*;

use crate::bytes_util::{
    bytes_eq, check_hex_digit, find_byte, first_pos, hex_digit_val, hex_val,
    is_hex_digit, slice_to_vec,
};

verus! {

pub const PERCENT: u8 = 37;
pub const PLUS: u8 = 43;
pub const SPACE: u8 = 32;
pub const AMPERSAND: u8 = 38;
pub const EQUALS_SIGN: u8 = 61;

/// The percent-decoding of `s`: `%XY` with two hexadecimal digits becomes one
/// byte; with `plus_space` set, `+` becomes a space; every other byte stays.
pub open spec fn pd_from(s: Seq<u8>, plus_space: bool) -> Seq<u8>
    decreases s.len(),
{
    if s.len() == 0 {
        Seq::empty()
    } else if s[0] == PERCENT && s.len() >= 3 && is_hex_digit(s[1]) && is_hex_digit(
        s[2],
    ) {
        seq![(hex_val(s[1]) * 16 + hex_val(s[2])) as u8] + pd_from(s.skip(3), plus_space)
    } else if plus_space && s[0] == PLUS {
        seq![SPACE] + pd_from(s.skip(1), plus_space)
    } else {
        seq![s[0]] + pd_from(s.skip(1), plus_space)
    }
}

/// Percent-decodes `s`; with `plus_space` also maps `+` to a space, as in
/// form-encoded query strings.
pub fn percent_decode(s: &[u8], plus_space: bool) -> (r: Vec<u8>)
    ensures
        r@ == pd_from(s@, plus_space),
{
    let mut out: Vec<u8> = Vec::new();
    let n: usize = s.len();
    let mut i: usize = 0;
    proof {
        assert(s@.skip(0) =~= s@);
        assert(out@ + pd_from(s@, plus_space) =~= pd_from(s@, plus_space));
    }
    while i < s.len()
        invariant
            0 <= i <= s@.len(),
            n as int == s@.len(),
            pd_from(s@, plus_space) == out@ + pd_from(s@.skip(i as int), plus_space),
        decreases s@.len() - i,
    {
        let ghost t = s@.skip(i as int);
        proof {
            assert(t.len() == s@.len() - i);
            assert(t[0] == s@[i as int]);
            if t.len() >= 3 {
                assert(t[1] == s@[i + 1]);
                assert(t[2] == s@[i + 2]);
            }
        }
        if s[i] == PERCENT && n - i > 2 && check_hex_digit(s[i + 1])
            && check_hex_digit(s[i + 2]) {
            let b: u8 = hex_digit_val(s[i + 1]) * 16 + hex_digit_val(s[i + 2]);
            proof {
                assert(t.skip(3) =~= s@.skip(i + 3));
                assert(pd_from(t, plus_space) == seq![b] + pd_from(
                    s@.skip(i + 3),
                    plus_space,
                ));
                assert(out@ + pd_from(t, plus_space) =~= (out@ + seq![b]) + pd_from(
                    s@.skip(i + 3),
                    plus_space,
                ));
            }
            out.push(b);
            i += 3;
        } else {
            let b: u8 = if plus_space && s[i] == PLUS {
                SPACE
            } else {
                s[i]
            };
            proof {
                assert(t.skip(1) =~= s@.skip(i + 1));
                assert(pd_from(t, plus_space) == seq![b] + pd_from(
                    s@.skip(i + 1),
                    plus_space,
                ));
                assert(out@ + pd_from(t, plus_space) =~= (out@ + seq![b]) + pd_from(
                    s@.skip(i + 1),
                    plus_space,
                ));
            }
            out.push(b);
            i += 1;
        }
    }
    proof {
        assert(s@.skip(s@.len() as int) =~= Seq::<u8>::empty());
        assert(out@ =~= out@ + Seq::<u8>::empty());
    }
    out
}

/// The decoded value carried by one `key=value` pair when its decoded key is
/// `key`; a pair without `=` carries the empty value; an empty pair carries
/// nothing.
pub open spec fn pair_value(seg: Seq<u8>, key: Seq<u8>) -> Option<Seq<u8>> {
    if seg.len() == 0 {
        None
    } else {
        match first_pos(seg, EQUALS_SIGN) {
            Some(e) => if pd_from(seg.take(e), true) == key {
                Some(pd_from(seg.skip(e + 1), true))
            } else {
                None
            },
            None => if pd_from(seg, true) == key {
                Some(Seq::<u8>::empty())
            } else {
                None
            },
        }
    }
}

/// The value of the last pair of the query string `q` whose decoded key is
/// `key`, as a mapping built left to right would hold it.
#[verifier::opaque]
pub open spec fn lookup_query(q: Seq<u8>, key: Seq<u8>) -> Option<Seq<u8>>
    decreases q.len(),
{
    if first_pos(q, AMPERSAND) is Some && 0 <= first_pos(q, AMPERSAND)->Some_0
        < q.len() {
        let i = first_pos(q, AMPERSAND)->Some_0;
        match lookup_query(q.skip(i + 1), key) {
            Some(v) => Some(v),
            None => pair_value(q.take(i), key),
        }
    } else {
        pair_value(q, key)
    }
}

/// Looks one pair up: the decoded value if the pair's decoded key is `key`.
fn match_pair(seg: &[u8], key: &[u8]) -> (r: Option<Vec<u8>>)
    ensures
        match r {
            Some(v) => pair_value(seg@, key@) == Some(v@),
            None => pair_value(seg@, key@) is None,
        },
{
    if seg.len() == 0 {
        return None;
    }
    match find_byte(seg, EQUALS_SIGN) {
        Some(e) => {
            proof {
                crate::range::lemma_first_pos_is(seg@, EQUALS_SIGN, e as int);
            }
            let kpart = slice_to_vec(seg, 0, e);
            assert(kpart@ =~= seg@.take(e as int));
            let kd = percent_decode(kpart.as_slice(), true);
            if bytes_eq(kd.as_slice(), key) {
                let vpart = slice_to_vec(seg, e + 1, seg.len());
                assert(vpart@ =~= seg@.skip(e + 1));
                Some(percent_decode(vpart.as_slice(), true))
            } else {
                None
            }
        },
        None => {
            proof {
                assert(first_pos(seg@, EQUALS_SIGN) is None);
            }
            let kd = percent_decode(seg, true);
            if bytes_eq(kd.as_slice(), key) {
                Some(Vec::new())
            } else {
                None
            }
        },
    }
}

/// The decoded value of query parameter `key` in the raw query string `q`,
/// the last occurrence winning, as the dispatcher consumes `seek`, `trans`
/// and `q`.
pub fn query_param(q: &[u8], key: &[u8]) -> (r: Option<Vec<u8>>)
    ensures
        match r {
            Some(v) => lookup_query(q@, key@) == Some(v@),
            None => lookup_query(q@, key@) is None,
        },
    decreases q@.len(),
{
    proof {
        reveal(lookup_query);
    }
    let n: usize = q.len();
    match find_byte(q, AMPERSAND) {
        Some(i) => {
            proof {
                crate::range::lemma_first_pos_is(q@, AMPERSAND, i as int);
            }
            let rest = slice_to_vec(q, i + 1, n);
            assert(rest@ =~= q@.skip(i + 1));
            match query_param(rest.as_slice(), key) {
                Some(v) => Some(v),
                None => {
                    let head = slice_to_vec(q, 0, i);
                    assert(head@ =~= q@.take(i as int));
                    match_pair(head.as_slice(), key)
                },
            }
        },
        None => {
            proof {
                assert(first_pos(q@, AMPERSAND) is None);
            }
            match_pair(q, key)
        },
    }
}

} // verus!
