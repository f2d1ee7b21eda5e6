//! Square sets held in a `u64`, one bit per square.
use vstd::prelude::*;

verus! {

/// Whether square `i` belongs to the set `m`.
pub open spec fn member(m: u64, i: int) -> bool {
    0 <= i < 64 && (m >> (i as u64)) & 1u64 == 1u64
}

/// The set holding square `i` alone; empty when `i` is off the board.
pub open spec fn bit(i: int) -> u64 {
    if 0 <= i < 64 {
        1u64 << (i as u64)
    } else {
        0u64
    }
}

/// Number of squares below `n` that belong to `m`.
pub open spec fn count_below(m: u64, n: int) -> int
    decreases n,
{
    if n <= 0 {
        0
    } else {
        count_below(m, n - 1) + if member(m, n - 1) {
            1int
        } else {
            0int
        }
    }
}

/// Number of squares in `m`.
pub open spec fn count(m: u64) -> int {
    count_below(m, 64)
}

pub broadcast proof fn lemma_member_or(a: u64, b: u64, i: int)
    ensures
        #[trigger] member(a | b, i) == (member(a, i) || member(b, i)),
{
    if 0 <= i < 64 {
        let s = i as u64;
        assert(((a | b) >> s) & 1u64 == 1u64 <==> ((a >> s) & 1u64 == 1u64 || (b >> s) & 1u64
            == 1u64)) by (bit_vector);
    }
}

pub broadcast proof fn lemma_member_and(a: u64, b: u64, i: int)
    ensures
        #[trigger] member(a & b, i) == (member(a, i) && member(b, i)),
{
    if 0 <= i < 64 {
        let s = i as u64;
        assert(((a & b) >> s) & 1u64 == 1u64 <==> ((a >> s) & 1u64 == 1u64 && (b >> s) & 1u64
            == 1u64)) by (bit_vector);
    }
}

pub broadcast proof fn lemma_member_not(a: u64, i: int)
    ensures
        #[trigger] member(!a, i) == (0 <= i < 64 && !member(a, i)),
{
    if 0 <= i < 64 {
        let s = i as u64;
        assert(((!a) >> s) & 1u64 == 1u64 <==> !((a >> s) & 1u64 == 1u64)) by (bit_vector)
            requires
                s < 64,
        ;
    }
}

pub broadcast proof fn lemma_member_bit(k: int, i: int)
    ensures
        #[trigger] member(bit(k), i) == (0 <= k < 64 && i == k && 0 <= i < 64),
{
    if 0 <= i < 64 && 0 <= k < 64 {
        let s = i as u64;
        let t = k as u64;
        assert(((1u64 << t) >> s) & 1u64 == 1u64 <==> s == t) by (bit_vector)
            requires
                s < 64,
                t < 64,
        ;
    } else if 0 <= i < 64 {
        let s = i as u64;
        assert((0u64 >> s) & 1u64 == 0u64) by (bit_vector);
    }
}

pub broadcast proof fn lemma_member_zero(i: int)
    ensures
        !#[trigger] member(0u64, i),
{
    if 0 <= i < 64 {
        let s = i as u64;
        assert((0u64 >> s) & 1u64 == 0u64) by (bit_vector);
    }
}

pub proof fn lemma_or_assoc(a: u64, b: u64, c: u64)
    by (bit_vector)
    ensures
        (a | b) | c == a | (b | c),
{
}

pub proof fn lemma_or_zero(a: u64)
    by (bit_vector)
    ensures
        a | 0u64 == a,
        0u64 | a == a,
{
}

/// A square set equal to `bit(s)` names `s` alone.
pub proof fn lemma_bit_unique(s: int, t: int)
    requires
        0 <= s < 64,
        0 <= t < 64,
        bit(s) == bit(t),
    ensures
        s == t,
{
    lemma_member_bit(s, s);
    lemma_member_bit(t, s);
}

/// A mask holds between 0 and `n` squares below `n`.
pub proof fn lemma_count_bounds(m: u64, n: int)
    requires
        0 <= n,
    ensures
        0 <= count_below(m, n) <= n,
    decreases n,
{
    if n > 0 {
        lemma_count_bounds(m, n - 1);
    }
}

pub broadcast group group_bits {
    lemma_member_or,
    lemma_member_and,
    lemma_member_not,
    lemma_member_bit,
    lemma_member_zero,
}

/// Whether square `i` belongs to `m`.
pub fn test_bit(m: u64, i: u64) -> (r: bool)
    requires
        i < 64,
    ensures
        r == member(m, i as int),
{
    (m >> i) & 1 == 1
}

/// The set holding square `i` alone.
pub fn single(i: u64) -> (r: u64)
    requires
        i < 64,
    ensures
        r == bit(i as int),
{
    1u64 << i
}

} // verus!
