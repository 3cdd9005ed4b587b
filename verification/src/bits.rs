//! Facts about single bits of a `u64`, the representation of every board in this crate.
use vstd::prelude::*;

verus! {

/// Bit `i` of `v` is set.
pub open spec fn bit_set(v: u64, i: u64) -> bool {
    (v >> i) & 1u64 == 1u64
}

proof fn lemma_bits_basic(a: u64, b: u64, i: u64)
    requires
        i < 64,
    ensures
        bit_set(a | b, i) == (bit_set(a, i) || bit_set(b, i)),
        bit_set(a & b, i) == (bit_set(a, i) && bit_set(b, i)),
        bit_set(a ^ b, i) == (bit_set(a, i) != bit_set(b, i)),
        bit_set(a & !b, i) == (bit_set(a, i) && !bit_set(b, i)),
        bit_set(!a, i) == !bit_set(a, i),
        !bit_set(0u64, i),
        bit_set(0xffff_ffff_ffff_ffffu64, i),
{
    assert(
        bit_set(a | b, i) == (bit_set(a, i) || bit_set(b, i))
        && bit_set(a & b, i) == (bit_set(a, i) && bit_set(b, i))
        && bit_set(a ^ b, i) == (bit_set(a, i) != bit_set(b, i))
        && bit_set(a & !b, i) == (bit_set(a, i) && !bit_set(b, i))
        && bit_set(!a, i) == !bit_set(a, i)
        && !bit_set(0u64, i)
        && bit_set(0xffff_ffff_ffff_ffffu64, i)
    ) by (bit_vector)
        requires
            i < 64,
    ;
}

/// How `|` acts on one bit.
pub broadcast proof fn lemma_bit_or(a: u64, b: u64, i: u64)
    requires
        i < 64,
    ensures
        #[trigger] bit_set(a | b, i) == (bit_set(a, i) || bit_set(b, i)),
{
    lemma_bits_basic(a, b, i);
}

/// How `&` acts on one bit.
pub broadcast proof fn lemma_bit_and(a: u64, b: u64, i: u64)
    requires
        i < 64,
    ensures
        #[trigger] bit_set(a & b, i) == (bit_set(a, i) && bit_set(b, i)),
{
    lemma_bits_basic(a, b, i);
}

/// How `^` acts on one bit.
pub broadcast proof fn lemma_bit_xor(a: u64, b: u64, i: u64)
    requires
        i < 64,
    ensures
        #[trigger] bit_set(a ^ b, i) == (bit_set(a, i) != bit_set(b, i)),
{
    lemma_bits_basic(a, b, i);
}

/// How `!` acts on one bit.
pub broadcast proof fn lemma_bit_not(a: u64, i: u64)
    requires
        i < 64,
    ensures
        #[trigger] bit_set(!a, i) == !bit_set(a, i),
{
    lemma_bits_basic(a, a, i);
}

/// No bit of 0 is set.
pub broadcast proof fn lemma_bit_zero(i: u64)
    ensures
        !#[trigger] bit_set(0u64, i),
{
    if i < 64 {
        lemma_bits_basic(0, 0, i);
    } else {
        assert(!bit_set(0u64, i)) by (bit_vector);
    }
}

/// Every bit of `u64::MAX` below 64 is set.
pub broadcast proof fn lemma_bit_full(i: u64)
    requires
        i < 64,
    ensures
        #[trigger] bit_set(0xffff_ffff_ffff_ffffu64, i),
{
    lemma_bits_basic(0, 0, i);
}

/// `1 << j` has exactly bit `j` set.
pub broadcast proof fn lemma_single_bit(j: u64, i: u64)
    requires
        i < 64,
        j < 64,
    ensures
        #[trigger] bit_set(1u64 << j, i) == (i == j),
{
    assert(bit_set(1u64 << j, i) == (i == j)) by (bit_vector)
        requires
            i < 64,
            j < 64,
    ;
}

/// No bit at or above 64 is set.
pub broadcast proof fn lemma_bit_high(v: u64, i: u64)
    requires
        i >= 64,
    ensures
        !#[trigger] bit_set(v, i),
{
    assert(!bit_set(v, i)) by (bit_vector)
        requires
            i >= 64,
    ;
}

proof fn lemma_nonzero_has_bit_aux(a: u64, hi: u64) -> (i: u64)
    requires
        a != 0,
        hi <= 64,
        a >> hi == 0,
    ensures
        i < hi,
        bit_set(a, i),
    decreases hi,
{
    assert(hi != 0 && (a & 1 == 1 || ((a >> 1) != 0 && (a >> 1) >> ((hi - 1) as u64) == 0)))
        by (bit_vector)
        requires
            a != 0,
            hi <= 64,
            a >> hi == 0,
    ;
    if a & 1 == 1 {
        assert(bit_set(a, 0)) by (bit_vector)
            requires
                a & 1 == 1,
        ;
        0
    } else {
        let j = lemma_nonzero_has_bit_aux(a >> 1, (hi - 1) as u64);
        assert(bit_set(a, (j + 1) as u64)) by (bit_vector)
            requires
                bit_set(a >> 1, j),
                j < 63,
        ;
        (j + 1) as u64
    }
}

/// A nonzero word has a set bit below 64.
pub proof fn lemma_nonzero_has_bit(a: u64) -> (i: u64)
    requires
        a != 0,
    ensures
        i < 64,
        bit_set(a, i),
{
    assert(a >> 64u64 == 0) by (bit_vector);
    lemma_nonzero_has_bit_aux(a, 64)
}

/// Two words that agree on every bit are equal.
pub proof fn lemma_bits_ext(a: u64, b: u64)
    requires
        forall|i: u64| i < 64 ==> bit_set(a, i) == bit_set(b, i),
    ensures
        a == b,
{
    if a != b {
        assert(a ^ b != 0) by (bit_vector)
            requires
                a != b,
        ;
        let i = lemma_nonzero_has_bit(a ^ b);
        lemma_bits_basic(a, b, i);
    }
}

pub broadcast group group_bits {
    lemma_bit_or,
    lemma_bit_and,
    lemma_bit_xor,
    lemma_bit_not,
    lemma_bit_zero,
    lemma_bit_full,
    lemma_single_bit,
    lemma_bit_high,
}

} // verus!
