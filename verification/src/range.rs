//! Range planner: parses an HTTP `Range` header value into a validated single
//! byte range, or a rejection that the dispatcher turns into a 400 or 501
//! response. Only the `bytes` unit and exactly one range are supported.
use vstd::prelude::*;

use crate::bytes_util::{digit_val, find_byte, first_pos, is_digit, slice_to_vec};

verus! {

pub const COMMA: u8 = 44;
pub const DASH: u8 = 45;
pub const EQUALS: u8 = 61;

/// An inclusive byte range; `end == None` means "to the end of the file".
#[derive(Clone, Copy, Debug, PartialEq, Eq)]
pub struct ByteRange {
    pub start: u64,
    pub end: Option<u64>,
}

/// Outcome of planning a `Range` header.
#[derive(Clone, Copy, Debug, PartialEq, Eq)]
pub enum RangePlan {
    /// Exactly one well-formed bytes range.
    Single(ByteRange),
    /// The header named no range at all.
    EmptyRanges,
    /// The header named more than one range.
    MultipleRanges,
    /// The header used a unit other than `bytes`.
    NotBytesUnit,
    /// The header could not be read as a byte range.
    Invalid,
}

/// First index at or after 0 whose byte differs from `b`, if any.
pub open spec fn first_not(s: Seq<u8>, b: u8) -> Option<int> {
    if exists|i: int| 0 <= i < s.len() && s[i] != b {
        Some(choose|i: int| 0 <= i < s.len() && s[i] != b && forall|j: int|
            0 <= j < i ==> s[j] == b)
    } else {
        None
    }
}

pub proof fn lemma_first_not_is(s: Seq<u8>, b: u8, i: int)
    requires
        0 <= i < s.len(),
        s[i] != b,
        forall|j: int| 0 <= j < i ==> s[j] == b,
    ensures
        first_not(s, b) == Some(i),
{
    assert(0 <= i < s.len() && s[i] != b && forall|j: int| 0 <= j < i ==> s[j] == b);
    let c = choose|c: int|
        0 <= c < s.len() && s[c] != b && forall|j: int| 0 <= j < c ==> s[j] == b;
    if c < i {
        assert(s[c] == b);
    } else if c > i {
        assert(s[i] == b);
    }
}

pub proof fn lemma_first_pos_is(s: Seq<u8>, b: u8, i: int)
    requires
        0 <= i < s.len(),
        s[i] == b,
        forall|j: int| 0 <= j < i ==> s[j] != b,
    ensures
        first_pos(s, b) == Some(i),
{
    assert(0 <= i < s.len() && s[i] == b && forall|j: int| 0 <= j < i ==> s[j] != b);
    let c = choose|c: int|
        0 <= c < s.len() && s[c] == b && forall|j: int| 0 <= j < c ==> s[j] != b;
    if c < i {
        assert(s[c] != b);
    } else if c > i {
        assert(s[i] != b);
    }
}

/// Every byte of `s` is a comma (vacuously true of the empty sequence): the
/// header names no range at all.
pub open spec fn all_commas(s: Seq<u8>) -> bool {
    forall|i: int| 0 <= i < s.len() ==> s[i] == COMMA
}

/// Two non-empty comma-separated segments exist.
pub open spec fn multi_segments(s: Seq<u8>) -> bool {
    exists|i: int, k: int, j: int|
        0 <= i < k < j < s.len() && s[i] != COMMA && s[k] == COMMA && s[j] != COMMA
}

/// The single non-empty comma-separated segment of `s`; meaningful when
/// `!all_commas(s) && !multi_segments(s)`.
pub open spec fn single_segment(s: Seq<u8>) -> Seq<u8> {
    let a = first_not(s, COMMA)->Some_0;
    match first_pos(s.skip(a), COMMA) {
        Some(k) => s.subrange(a, a + k),
        None => s.subrange(a, s.len() as int),
    }
}

/// `s` is one or more ASCII decimal digits.
pub open spec fn is_digits(s: Seq<u8>) -> bool {
    s.len() > 0 && forall|i: int| 0 <= i < s.len() ==> is_digit(s[i])
}

/// The number written by the digits of `s`, most significant first.
pub open spec fn digits_val(s: Seq<u8>) -> nat
    decreases s.len(),
{
    if s.len() == 0 {
        0
    } else {
        digits_val(s.drop_last()) * 10 + digit_val(s.last())
    }
}

/// A longer digit string never writes a smaller number.
pub proof fn lemma_digits_val_prefix(s: Seq<u8>, i: int)
    requires
        0 <= i <= s.len(),
    ensures
        digits_val(s.take(i)) <= digits_val(s),
    decreases s.len(),
{
    if i == s.len() {
        assert(s.take(i) =~= s);
    } else {
        lemma_digits_val_prefix(s.drop_last(), i);
        assert(s.drop_last().take(i) =~= s.take(i));
    }
}

/// The parsed `start`/`end` pair of one range segment, as unbounded numbers;
/// `None` when the segment is not `digits '-' [digits]`.
pub open spec fn parse_segment(seg: Seq<u8>) -> Option<(nat, Option<nat>)> {
    match first_pos(seg, DASH) {
        None => None,
        Some(d) => {
            let sp = seg.take(d);
            let ep = seg.skip(d + 1);
            if !is_digits(sp) {
                None
            } else if ep.len() == 0 {
                Some((digits_val(sp), None))
            } else if is_digits(ep) {
                Some((digits_val(sp), Some(digits_val(ep))))
            } else {
                None
            }
        },
    }
}

/// What the range planner decides for the raw header value `h`.
#[verifier::opaque]
pub open spec fn range_plan_spec(h: Seq<u8>) -> RangePlan {
    match first_pos(h, EQUALS) {
        None => RangePlan::Invalid,
        Some(e) => {
            let unit = h.take(e);
            let rs = h.skip(e + 1);
            if unit != seq![98u8, 121u8, 116u8, 101u8, 115u8] {
                RangePlan::NotBytesUnit
            } else if all_commas(rs) {
                RangePlan::EmptyRanges
            } else if multi_segments(rs) {
                RangePlan::MultipleRanges
            } else {
                match parse_segment(single_segment(rs)) {
                    None => RangePlan::Invalid,
                    Some((st, en)) => if st <= u64::MAX && (en matches Some(v) ==> v
                        <= u64::MAX) {
                        RangePlan::Single(
                            ByteRange {
                                start: st as u64,
                                end: match en {
                                    Some(v) => Some(v as u64),
                                    None => None,
                                },
                            },
                        )
                    } else {
                        RangePlan::Invalid
                    },
                }
            }
        },
    }
}

/// Reads one or more decimal digits as a `u64`; `None` on a non-digit or on
/// a value over `u64::MAX`.
pub fn parse_u64_digits(s: &[u8]) -> (r: Option<u64>)
    ensures
        match r {
            Some(v) => is_digits(s@) && v as nat == digits_val(s@),
            None => !is_digits(s@) || digits_val(s@) > u64::MAX,
        },
{
    if s.len() == 0 {
        return None;
    }
    let mut val: u64 = 0;
    let mut i: usize = 0;
    while i < s.len()
        invariant
            0 < s@.len(),
            0 <= i <= s@.len(),
            forall|j: int| 0 <= j < i ==> is_digit(s@[j]),
            val as nat == digits_val(s@.take(i as int)),
        decreases s@.len() - i,
    {
        let c = s[i];
        if !(48 <= c && c <= 57) {
            return None;
        }
        let d: u64 = (c - 48) as u64;
        if val > (u64::MAX - d) / 10 {
            proof {
                assert(s@.take(i + 1).drop_last() =~= s@.take(i as int));
                assert(s@.take(i + 1).last() == s@[i as int]);
                assert(digits_val(s@.take(i + 1)) == val as nat * 10 + d);
                assert(val as nat * 10 + d > u64::MAX);
                lemma_digits_val_prefix(s@, i + 1);
            }
            return None;
        }
        proof {
            assert(s@.take(i + 1).drop_last() =~= s@.take(i as int));
            assert(s@.take(i + 1).last() == s@[i as int]);
        }
        val = val * 10 + d;
        i += 1;
    }
    proof {
        assert(s@.take(s@.len() as int) =~= s@);
    }
    Some(val)
}

/// Parses one range segment (`start-end` or `start-`) into a `ByteRange`.
fn parse_one_segment(seg: &[u8]) -> (r: Option<ByteRange>)
    ensures
        match r {
            Some(br) => parse_segment(seg@) matches Some((st, en)) && st <= u64::MAX
                && br.start as nat == st && (match (br.end, en) {
                (Some(b), Some(n)) => n <= u64::MAX && b as nat == n,
                (None, None) => true,
                _ => false,
            }),
            None => parse_segment(seg@) matches Some((st, en)) ==> (st > u64::MAX || (
            en matches Some(v) && v > u64::MAX)),
        },
{
    let n: usize = seg.len();
    let d = match find_byte(seg, DASH) {
        Some(d) => d,
        None => {
            proof {
                assert(first_pos(seg@, DASH) is None);
            }
            return None;
        },
    };
    proof {
        lemma_first_pos_is(seg@, DASH, d as int);
    }
    let sp = slice_to_vec(seg, 0, d);
    assert(sp@ =~= seg@.take(d as int));
    let st = match parse_u64_digits(sp.as_slice()) {
        Some(v) => v,
        None => {
            return None;
        },
    };
    if d + 1 == seg.len() {
        assert(seg@.skip(d + 1).len() == 0);
        return Some(ByteRange { start: st, end: None });
    }
    let ep = slice_to_vec(seg, d + 1, seg.len());
    assert(ep@ =~= seg@.skip(d + 1));
    let en = match parse_u64_digits(ep.as_slice()) {
        Some(v) => v,
        None => {
            return None;
        },
    };
    Some(ByteRange { start: st, end: Some(en) })
}

/// Plans the response to a raw `Range` header value: exactly one `bytes`
/// range is accepted; no range, several ranges, another unit, or a malformed
/// range are each rejected distinctly.
pub fn parse_range_header(h: &[u8]) -> (r: RangePlan)
    ensures
        r == range_plan_spec(h@),
{
    proof {
        reveal(range_plan_spec);
    }
    let e = match find_byte(h, EQUALS) {
        Some(e) => e,
        None => {
            proof {
                assert(first_pos(h@, EQUALS) is None);
            }
            return RangePlan::Invalid;
        },
    };
    proof {
        lemma_first_pos_is(h@, EQUALS, e as int);
    }
    let unit = slice_to_vec(h, 0, e);
    assert(unit@ =~= h@.take(e as int));
    let bytes_word: [u8; 5] = [98, 121, 116, 101, 115];
    assert(bytes_word@ =~= seq![98u8, 121u8, 116u8, 101u8, 115u8]);
    if !crate::bytes_util::bytes_eq(unit.as_slice(), bytes_word.as_slice()) {
        return RangePlan::NotBytesUnit;
    }
    let rs = slice_to_vec(h, e + 1, h.len());
    assert(rs@ =~= h@.skip(e + 1));
    parse_range_list(rs.as_slice())
}

/// Plans the comma-separated range list that follows `bytes=`.
fn parse_range_list(rs: &[u8]) -> (r: RangePlan)
    ensures
        r == (if all_commas(rs@) {
            RangePlan::EmptyRanges
        } else if multi_segments(rs@) {
            RangePlan::MultipleRanges
        } else {
            match parse_segment(single_segment(rs@)) {
                None => RangePlan::Invalid,
                Some((st, en)) => if st <= u64::MAX && (en matches Some(v) ==> v
                    <= u64::MAX) {
                    RangePlan::Single(
                        ByteRange {
                            start: st as u64,
                            end: match en {
                                Some(v) => Some(v as u64),
                                None => None,
                            },
                        },
                    )
                } else {
                    RangePlan::Invalid
                },
            }
        }),
{
    // first byte that is not a comma
    let mut a: usize = 0;
    while a < rs.len() && rs[a] == COMMA
        invariant
            0 <= a <= rs@.len(),
            forall|j: int| 0 <= j < a ==> rs@[j] == COMMA,
        decreases rs@.len() - a,
    {
        a += 1;
    }
    if a == rs.len() {
        assert(all_commas(rs@));
        return RangePlan::EmptyRanges;
    }
    proof {
        lemma_first_not_is(rs@, COMMA, a as int);
        assert(!all_commas(rs@));
    }
    // first comma after the segment start, if any
    let mut k: usize = a;
    while k < rs.len() && rs[k] != COMMA
        invariant
            0 <= a <= k <= rs@.len(),
            a < rs@.len(),
            rs@[a as int] != COMMA,
            forall|j: int| 0 <= j < a ==> rs@[j] == COMMA,
            forall|j: int| a <= j < k ==> rs@[j] != COMMA,
        decreases rs@.len() - k,
    {
        k += 1;
    }
    // any later non-comma byte makes a second segment
    let mut j: usize = k;
    while j < rs.len()
        invariant
            0 <= a <= k <= j <= rs@.len(),
            a < rs@.len(),
            rs@[a as int] != COMMA,
            k < rs@.len() ==> rs@[k as int] == COMMA,
            forall|t: int| 0 <= t < a ==> rs@[t] == COMMA,
            forall|t: int| a <= t < k ==> rs@[t] != COMMA,
            forall|t: int| k <= t < j ==> rs@[t] == COMMA,
        decreases rs@.len() - j,
    {
        if rs[j] != COMMA {
            proof {
                assert(rs@[a as int] != COMMA && rs@[k as int] == COMMA && rs@[
                    j as int] != COMMA);
                assert(multi_segments(rs@));
            }
            return RangePlan::MultipleRanges;
        }
        j += 1;
    }
    proof {
        lemma_first_not_is(rs@, COMMA, a as int);
        let sk = rs@.skip(a as int);
        if k < rs.len() {
            assert(sk[k - a] == rs@[k as int]);
            assert(forall|t: int| 0 <= t < k - a ==> sk[t] == rs@[t + a] && sk[t]
                != COMMA);
            lemma_first_pos_is(sk, COMMA, k - a as int);
            assert(single_segment(rs@) == rs@.subrange(a as int, k as int));
        } else {
            assert(forall|t: int| 0 <= t < sk.len() ==> sk[t] == rs@[t + a] && sk[t]
                != COMMA);
            assert(first_pos(sk, COMMA) is None);
            assert(single_segment(rs@) == rs@.subrange(a as int, rs@.len() as int));
        }
        if multi_segments(rs@) {
            let (i2, k2, j2) = choose|i2: int, k2: int, j2: int|
                0 <= i2 < k2 < j2 < rs@.len() && rs@[i2] != COMMA && rs@[k2]
                    == COMMA && rs@[j2] != COMMA;
            assert(i2 >= a);
            assert(k2 >= k);
            assert(rs@[j2] == COMMA);
        }
        assert(!multi_segments(rs@));
    }
    let seg = slice_to_vec(rs, a, k);
    assert(seg@ =~= single_segment(rs@));
    match parse_one_segment(seg.as_slice()) {
        Some(br) => RangePlan::Single(br),
        None => RangePlan::Invalid,
    }
}

} // verus!
