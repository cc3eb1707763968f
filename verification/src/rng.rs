//! The 16-bit pseudorandom subsystem: a triple-xorshift mixer, seeding from a
//! scanned memory window plus analog noise, and the running noise remix.

use vstd::prelude::*;

verus! {

/// One xorshift step on a 16-bit word: `x ^= x<<7; x ^= x>>9; x ^= x<<8`.
pub open spec fn spec_xorshift16(x: u16) -> u16 {
    ((x ^ (x << 7)) ^ ((x ^ (x << 7)) >> 9)) ^ (((x ^ (x << 7)) ^ ((x ^ (x << 7)) >> 9)) << 8)
}

/// Three xorshift steps in a row: the single PRNG advance used everywhere.
pub open spec fn spec_txs16(x: u16) -> u16 {
    spec_xorshift16(spec_xorshift16(spec_xorshift16(x)))
}

/// One xorshift step; the exact shift amounts and their order are what make
/// the generated state stream reproducible.
pub fn xorshift16(x: u16) -> (r: u16)
    ensures
        r == spec_xorshift16(x),
{
    let mut x = x;
    x ^= x << 7;
    x ^= x >> 9;
    x ^= x << 8;
    x
}

/// Triple xorshift mix.
pub fn txs16(x: u16) -> (r: u16)
    ensures
        r == spec_txs16(x),
{
    let mut x = x;
    x = xorshift16(x);
    x = xorshift16(x);
    x = xorshift16(x);
    x
}

/// Advance the PRNG by one step.
pub fn next_rand(rand: u16) -> (r: u16)
    ensures
        r == spec_txs16(rand),
{
    txs16(rand)
}

/// The seed folded from a scanned memory window: starting from zero, each
/// word folds in as `seed * 97 + word`, wrapping modulo 2^16.
pub open spec fn spec_seed_fold(words: Seq<u16>) -> u16
    decreases words.len(),
{
    if words.len() == 0 {
        0u16
    } else {
        vstd::wrapping::u16_specs::wrapping_add(
            vstd::wrapping::u16_specs::wrapping_mul(spec_seed_fold(words.drop_last()), 97),
            words.last(),
        )
    }
}

/// The initial PRNG state built from a memory window and three analog noise
/// draws: the folded seed XORed with the triple mix of each draw.
pub open spec fn spec_init_rand(words: Seq<u16>, n0: u16, n1: u16, n2: u16) -> u16 {
    spec_seed_fold(words) ^ spec_txs16(n0) ^ spec_txs16(n1) ^ spec_txs16(n2)
}

/// Seed the PRNG. `words` is the boot-time contents of a fixed memory
/// window, read by the caller that owns the hardware; `n0`, `n1`, `n2` are
/// three independent analog samples, in the order they were drawn.
pub fn init_rand(words: &[u16], n0: u16, n1: u16, n2: u16) -> (r: u16)
    ensures
        r == spec_init_rand(words@, n0, n1, n2),
{
    let mut seed: u16 = 0;
    let mut i: usize = 0;
    while i < words.len()
        invariant
            i <= words@.len(),
            seed == spec_seed_fold(words@.take(i as int)),
        decreases words@.len() - i,
    {
        let w = words[i];
        seed = seed.wrapping_mul(97).wrapping_add(w);
        proof {
            assert(words@.take(i + 1).drop_last() =~= words@.take(i as int));
            assert(words@.take(i + 1).last() == words@[i as int]);
        }
        i += 1;
    }
    proof {
        assert(words@.take(words@.len() as int) =~= words@);
    }
    seed ^ txs16(n0) ^ txs16(n1) ^ txs16(n2)
}

/// The running remix: fold four bits of fresh analog noise into the state,
/// then advance with the triple mix.
pub open spec fn spec_update_rand(rand: u16, noise: u16) -> u16 {
    spec_txs16(rand ^ (spec_txs16(noise) & 0x0f))
}

/// Remix the PRNG state with one fresh analog sample `noise`.
pub fn update_rand(rand: u16, noise: u16) -> (r: u16)
    ensures
        r == spec_update_rand(rand, noise),
{
    txs16(rand ^ (txs16(noise) & 0x0f))
}

/// No two distinct 16-bit values are mixed to the same output, so one
/// xorshift step permutes the 16-bit words (a bijection on a finite set).
pub proof fn lemma_xorshift16_injective(a: u16, b: u16)
    ensures
        spec_xorshift16(a) == spec_xorshift16(b) ==> a == b,
{
    assert(spec_xorshift16(a) == spec_xorshift16(b) ==> a == b) by (bit_vector);
}

} // verus!
