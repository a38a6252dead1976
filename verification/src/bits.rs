//! Counting the set bits of a 64-bit word.

use vstd::prelude::*;

verus! {

/// Exactly one bit of `x` is set.
pub open spec fn single_bit(x: u64) -> bool {
    x != 0 && x & ((x - 1) as u64) == 0
}

/// Bit `i` of `x` is set.
pub open spec fn bit_at(x: u64, i: u64) -> bool {
    (x >> i) & 1 == 1
}

/// The number of set bits among the `n` lowest bits of `x`.
pub open spec fn count_below(x: u64, n: u64) -> nat
    decreases n,
{
    if n == 0 {
        0
    } else {
        count_below(x, (n - 1) as u64) + if bit_at(x, (n - 1) as u64) {
            1nat
        } else {
            0nat
        }
    }
}

/// The number of set bits of `x`.
pub open spec fn popcount(x: u64) -> nat {
    count_below(x, 64)
}

/// The word whose `n` lowest bits are set.
pub open spec fn low_mask(n: u64) -> u64 {
    if n >= 64 {
        u64::MAX
    } else {
        ((1u64 << n) - 1) as u64
    }
}

proof fn lemma_bits_zero(n: u64)
    by (bit_vector)
    requires
        n < 64,
    ensures
        !bit_at(0, n),
{
}

proof fn lemma_count_zero(n: u64)
    requires
        n <= 64,
    ensures
        count_below(0, n) == 0,
    decreases n,
{
    if n > 0 {
        lemma_count_zero((n - 1) as u64);
        lemma_bits_zero((n - 1) as u64);
    }
}

proof fn lemma_count_bound(x: u64, n: u64)
    requires
        n <= 64,
    ensures
        count_below(x, n) <= n,
    decreases n,
{
    if n > 0 {
        lemma_count_bound(x, (n - 1) as u64);
    }
}

/// No word has more than sixty-four set bits, and the word 0 has none.
pub proof fn lemma_popcount_bound(x: u64)
    ensures
        popcount(x) <= 64,
        popcount(0) == 0,
{
    lemma_count_bound(x, 64);
    lemma_count_zero(64);
}

proof fn lemma_bits_add(x: u64, m: u64, n: u64)
    by (bit_vector)
    requires
        single_bit(m),
        m & x == 0,
        n < 64,
    ensures
        bit_at(x | m, n) == (bit_at(x, n) || bit_at(m, n)),
        bit_at(m, n) ==> !bit_at(x, n),
        bit_at(m, n) ==> m & low_mask(n) == 0,
        (m & low_mask((n + 1) as u64) != 0) == (bit_at(m, n) || m & low_mask(n) != 0),
        m & low_mask(0) == 0,
        m & low_mask(64) != 0,
{
}

proof fn lemma_count_add(x: u64, m: u64, n: u64)
    requires
        single_bit(m),
        m & x == 0,
        n <= 64,
    ensures
        count_below(x | m, n) == count_below(x, n) + if m & low_mask(n) != 0 {
            1nat
        } else {
            0nat
        },
    decreases n,
{
    if n == 0 {
        lemma_bits_add(x, m, 0);
    } else {
        lemma_count_add(x, m, (n - 1) as u64);
        lemma_bits_add(x, m, (n - 1) as u64);
    }
}

/// Setting one more bit raises the count by one.
pub proof fn lemma_popcount_add(x: u64, m: u64)
    requires
        single_bit(m),
        m & x == 0,
    ensures
        popcount(x | m) == popcount(x) + 1,
{
    lemma_count_add(x, m, 64);
    lemma_bits_add(x, m, 0);
}

proof fn lemma_bits_clear_lowest(v: u64, n: u64)
    by (bit_vector)
    requires
        v != 0,
        n < 64,
    ensures
        bit_at(v & ((v - 1) as u64), n) == (bit_at(v, n) && v & low_mask(n) != 0),
        (v & low_mask((n + 1) as u64) != 0) == (bit_at(v, n) || v & low_mask(n) != 0),
        v & low_mask(0) == 0,
        v & low_mask(64) != 0,
        v & ((v - 1) as u64) < v,
{
}

proof fn lemma_count_clear_lowest(v: u64, n: u64)
    requires
        v != 0,
        n <= 64,
    ensures
        count_below(v, n) == count_below(v & ((v - 1) as u64), n) + if v & low_mask(n) != 0 {
            1nat
        } else {
            0nat
        },
    decreases n,
{
    if n == 0 {
        lemma_bits_clear_lowest(v, 0);
    } else {
        lemma_count_clear_lowest(v, (n - 1) as u64);
        lemma_bits_clear_lowest(v, (n - 1) as u64);
    }
}

/// `v & (v - 1)` is `v` without its lowest set bit: one bit less, and a
/// smaller word.
pub proof fn lemma_popcount_clear_lowest(v: u64)
    requires
        v != 0,
    ensures
        popcount(v) == popcount(v & ((v - 1) as u64)) + 1,
        v & ((v - 1) as u64) < v,
{
    lemma_count_clear_lowest(v, 64);
    lemma_bits_clear_lowest(v, 0);
}

proof fn lemma_bits_subset(x: u64, y: u64, n: u64)
    by (bit_vector)
    requires
        x & !y == 0,
        n < 64,
    ensures
        bit_at(x, n) ==> bit_at(y, n),
        bit_at(y ^ x, n) == (bit_at(y, n) && !bit_at(x, n)),
        (x & low_mask((n + 1) as u64) == y & low_mask((n + 1) as u64)) == (x & low_mask(n) == y
            & low_mask(n) && bit_at(x, n) == bit_at(y, n)),
        x & low_mask(0) == y & low_mask(0),
        (x & low_mask(64) == y & low_mask(64)) == (x == y),
{
}

proof fn lemma_count_subset(x: u64, y: u64, n: u64)
    requires
        x & !y == 0,
        n <= 64,
    ensures
        count_below(y ^ x, n) + count_below(x, n) == count_below(y, n),
        x & low_mask(n) != y & low_mask(n) ==> count_below(x, n) < count_below(y, n),
    decreases n,
{
    if n == 0 {
        lemma_bits_subset(x, y, 0);
    } else {
        lemma_count_subset(x, y, (n - 1) as u64);
        lemma_bits_subset(x, y, (n - 1) as u64);
    }
}

/// A part `x` of `y` has as many bits less than `y` as `y ^ x` has bits,
/// and as many as `y` only if it is `y`.
pub proof fn lemma_popcount_subset(x: u64, y: u64)
    requires
        x & !y == 0,
    ensures
        popcount(y ^ x) + popcount(x) == popcount(y),
        popcount(x) <= popcount(y),
        popcount(x) == popcount(y) <==> x == y,
{
    lemma_count_subset(x, y, 64);
    lemma_bits_subset(x, y, 0);
}

} // verus!
