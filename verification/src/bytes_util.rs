//! Small verified helpers on byte slices: equality, prefix tests, searching,
//! and digit classification. The rest of the crate treats URL paths, query
//! strings and header values as byte sequences.
use vstd::prelude::*;

verus! {

pub const SLASH: u8 = 47;

/// True iff the two byte sequences hold the same bytes.
pub fn bytes_eq(a: &[u8], b: &[u8]) -> (r: bool)
    ensures
        r == (a@ == b@),
{
    if a.len() != b.len() {
        assert(a@.len() != b@.len());
        return false;
    }
    let mut i: usize = 0;
    while i < a.len()
        invariant
            0 <= i <= a@.len(),
            a@.len() == b@.len(),
            forall|j: int| 0 <= j < i ==> a@[j] == b@[j],
        decreases a@.len() - i,
    {
        if a[i] != b[i] {
            return false;
        }
        i += 1;
    }
    assert(a@ =~= b@);
    true
}

/// True iff `p` is a prefix of `a`.
pub open spec fn is_prefix_of(p: Seq<u8>, a: Seq<u8>) -> bool {
    p.len() <= a.len() && a.subrange(0, p.len() as int) == p
}

/// True iff `a` starts with the bytes of `p`.
pub fn starts_with(a: &[u8], p: &[u8]) -> (r: bool)
    ensures
        r == is_prefix_of(p@, a@),
{
    if p.len() > a.len() {
        return false;
    }
    let mut i: usize = 0;
    while i < p.len()
        invariant
            0 <= i <= p@.len(),
            p@.len() <= a@.len(),
            forall|j: int| 0 <= j < i ==> a@[j] == p@[j],
        decreases p@.len() - i,
    {
        if a[i] != p[i] {
            assert(a@.subrange(0, p@.len() as int)[i as int] != p@[i as int]);
            return false;
        }
        i += 1;
    }
    assert(a@.subrange(0, p@.len() as int) =~= p@);
    true
}

/// Copies `a[from..to]` into a fresh vector.
pub fn slice_to_vec(a: &[u8], from: usize, to: usize) -> (r: Vec<u8>)
    requires
        from <= to <= a@.len(),
    ensures
        r@ == a@.subrange(from as int, to as int),
{
    let mut r: Vec<u8> = Vec::new();
    let mut i: usize = from;
    while i < to
        invariant
            from <= i <= to <= a@.len(),
            r@ == a@.subrange(from as int, i as int),
        decreases to - i,
    {
        r.push(a[i]);
        assert(r@ =~= a@.subrange(from as int, i + 1 as int));
        i += 1;
    }
    r
}

/// Position of the first occurrence of `b` in `a`, if any.
pub open spec fn first_pos(a: Seq<u8>, b: u8) -> Option<int> {
    if exists|i: int| 0 <= i < a.len() && a[i] == b {
        Some(choose|i: int| 0 <= i < a.len() && a[i] == b && forall|j: int|
            0 <= j < i ==> a[j] != b)
    } else {
        None
    }
}

/// Finds the first occurrence of byte `b` in `a`.
pub fn find_byte(a: &[u8], b: u8) -> (r: Option<usize>)
    ensures
        match r {
            Some(i) => 0 <= i < a@.len() && a@[i as int] == b && forall|j: int|
                0 <= j < i ==> a@[j] != b,
            None => forall|j: int| 0 <= j < a@.len() ==> a@[j] != b,
        },
{
    let mut i: usize = 0;
    while i < a.len()
        invariant
            0 <= i <= a@.len(),
            forall|j: int| 0 <= j < i ==> a@[j] != b,
        decreases a@.len() - i,
    {
        if a[i] == b {
            return Some(i);
        }
        i += 1;
    }
    None
}

/// True iff `c` is an ASCII decimal digit.
pub open spec fn is_digit(c: u8) -> bool {
    48 <= c <= 57
}

/// The numeric value of an ASCII decimal digit.
pub open spec fn digit_val(c: u8) -> nat
    recommends
        is_digit(c),
{
    (c - 48) as nat
}

/// True iff `c` is an ASCII hexadecimal digit.
pub open spec fn is_hex_digit(c: u8) -> bool {
    is_digit(c) || (97 <= c <= 102) || (65 <= c <= 70)
}

/// The numeric value of an ASCII hexadecimal digit.
pub open spec fn hex_val(c: u8) -> nat
    recommends
        is_hex_digit(c),
{
    if is_digit(c) {
        (c - 48) as nat
    } else if 97 <= c <= 102 {
        (c - 97 + 10) as nat
    } else {
        (c - 65 + 10) as nat
    }
}

/// Executable hexadecimal digit test.
pub fn check_hex_digit(c: u8) -> (r: bool)
    ensures
        r == is_hex_digit(c),
{
    (48 <= c && c <= 57) || (97 <= c && c <= 102) || (65 <= c && c <= 70)
}

/// Executable hexadecimal digit value.
pub fn hex_digit_val(c: u8) -> (r: u8)
    requires
        is_hex_digit(c),
    ensures
        r as nat == hex_val(c),
        r < 16,
{
    if 48 <= c && c <= 57 {
        c - 48
    } else if 97 <= c && c <= 102 {
        c - 97 + 10
    } else {
        c - 65 + 10
    }
}

} // verus!
