use vstd::prelude::*;

verus! {

/// Bit `i` of the word `w` (bit 0 is the least significant one).
pub open spec fn bit_of(w: u32, i: u32) -> bool {
    (w >> i) & 1u32 == 1u32
}

/// Setting bit `b` of `x` sets that bit and leaves every other one alone.
pub proof fn lemma_set_bit(x: u32, b: u32, c: u32)
    requires
        b < 32,
        c < 32,
    ensures
        bit_of(x | (1u32 << b), c) == (c == b || bit_of(x, c)),
{
    assert(bit_of(x | (1u32 << b), c) == (c == b || bit_of(x, c))) by (bit_vector)
        requires
            b < 32,
            c < 32,
    ;
}

/// Flipping bit `b` of `x` changes that bit and leaves every other one alone.
pub proof fn lemma_flip_bit(x: u32, b: u32, c: u32)
    requires
        b < 32,
        c < 32,
    ensures
        bit_of(x ^ (1u32 << b), c) == (bit_of(x, c) != (c == b)),
{
    assert(bit_of(x ^ (1u32 << b), c) == (bit_of(x, c) != (c == b))) by (bit_vector)
        requires
            b < 32,
            c < 32,
    ;
}

/// Two words that agree on bits `n` to 31 agree once shifted right by `n`.
proof fn lemma_high_bits_agree(a: u32, b: u32, n: u32)
    requires
        n < 32,
        forall|i: u32| n <= i < 32 ==> bit_of(a, i) == bit_of(b, i),
    ensures
        a >> n == b >> n,
    decreases 32 - n,
{
    assert(bit_of(a, n) == bit_of(b, n));
    if n == 31 {
        assert(bit_of(a, 31) == bit_of(b, 31) ==> a >> 31u32 == b >> 31u32) by (bit_vector);
    } else {
        lemma_high_bits_agree(a, b, (n + 1) as u32);
        let m = (n + 1) as u32;
        assert((n < 31 && m == n + 1 && a >> m == b >> m && bit_of(a, n) == bit_of(b, n)) ==> a
            >> n == b >> n) by (bit_vector);
    }
}

/// Two words that agree on all 32 bits are the same word.
pub proof fn lemma_bits_determine_word(a: u32, b: u32)
    requires
        forall|i: u32| i < 32 ==> bit_of(a, i) == bit_of(b, i),
    ensures
        a == b,
{
    lemma_high_bits_agree(a, b, 0);
    assert(a >> 0u32 == a && b >> 0u32 == b) by (bit_vector);
}

} // verus!
