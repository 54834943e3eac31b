//! Bits of a 64-bit word, and what the bitwise operations do to each of
//! them.

use vstd::prelude::*;

verus! {

/// Whether bit `i` of `word` is set.
pub open spec fn bit_at(word: u64, i: u64) -> bool {
    word & (1u64 << i) != 0
}

pub proof fn lemma_bit_of_zero(i: u64)
    by (bit_vector)
    requires
        i < 64,
    ensures
        !bit_at(0u64, i),
{
}

pub proof fn lemma_bit_after_set(word: u64, s: u64, i: u64)
    by (bit_vector)
    requires
        s < 64,
        i < 64,
    ensures
        bit_at(word | (1u64 << s), i) == (bit_at(word, i) || i == s),
{
}

pub proof fn lemma_bit_after_clear(word: u64, s: u64, i: u64)
    by (bit_vector)
    requires
        s < 64,
        i < 64,
    ensures
        bit_at(word & !(1u64 << s), i) == (bit_at(word, i) && i != s),
{
}

pub proof fn lemma_bit_of_or(a: u64, b: u64, i: u64)
    by (bit_vector)
    requires
        i < 64,
    ensures
        bit_at(a | b, i) == (bit_at(a, i) || bit_at(b, i)),
{
}

pub proof fn lemma_bit_of_and(a: u64, b: u64, i: u64)
    by (bit_vector)
    requires
        i < 64,
    ensures
        bit_at(a & b, i) == (bit_at(a, i) && bit_at(b, i)),
{
}

pub proof fn lemma_bit_of_union(a: u64, b: u64, c: u64, d: u64, e: u64, f: u64, i: u64)
    by (bit_vector)
    requires
        i < 64,
    ensures
        bit_at(a | b | c | d | e | f, i) == (bit_at(a, i) || bit_at(b, i) || bit_at(c, i)
            || bit_at(d, i) || bit_at(e, i) || bit_at(f, i)),
{
}

} // verus!
