//! A small multiplicative hasher for the glyph and icon caches.

use std::collections::HashMap;
use std::hash::{BuildHasherDefault, Hasher};
use vstd::prelude::*;

verus! {

/// Multiplier applied after every word is folded into the state.
pub const SEED: u64 = 0x517cc1b727220a95;

/// The state rotated left by five bits.
pub open spec fn rotl5(x: u64) -> u64 {
    (x << 5u64) | (x >> 59u64)
}

/// One folding step: rotate the state, xor in the word, multiply by `SEED`
/// modulo 2^64.
pub open spec fn mix_spec(state: u64, word: u64) -> u64 {
    (((rotl5(state) ^ word) as nat * SEED as nat) % 0x1_0000_0000_0000_0000nat) as u64
}

/// The eight bytes of `b` starting at `i`, read least significant first.
pub open spec fn le_u64_at(b: Seq<u8>, i: int) -> u64 {
    (b[i] + b[i + 1] * 0x100 + b[i + 2] * 0x1_0000 + b[i + 3] * 0x100_0000 + b[i + 4] * 0x1_0000_0000
        + b[i + 5] * 0x100_0000_0000 + b[i + 6] * 0x1_0000_0000_0000 + b[i + 7]
        * 0x100_0000_0000_0000) as u64
}

/// The four bytes of `b` starting at `i`, read least significant first.
pub open spec fn le_u32_at(b: Seq<u8>, i: int) -> u64 {
    (b[i] + b[i + 1] * 0x100 + b[i + 2] * 0x1_0000 + b[i + 3] * 0x100_0000) as u64
}

/// Folds each byte of `b` into the state, one step per byte.
pub open spec fn absorb_singles(state: u64, b: Seq<u8>) -> u64
    decreases b.len(),
{
    if b.len() == 0 {
        state
    } else {
        absorb_singles(mix_spec(state, b[0] as u64), b.drop_first())
    }
}

/// Folds a byte string into the state: eight-byte words while at least
/// eight bytes remain, then one four-byte word if at least four remain,
/// then the remaining bytes one at a time.
pub open spec fn absorb(state: u64, b: Seq<u8>) -> u64
    decreases b.len(),
{
    if b.len() >= 8 {
        absorb(mix_spec(state, le_u64_at(b, 0)), b.skip(8))
    } else if b.len() >= 4 {
        absorb_singles(mix_spec(state, le_u32_at(b, 0)), b.skip(4))
    } else {
        absorb_singles(state, b)
    }
}

/// Computes one folding step.
fn mix(state: u64, word: u64) -> (r: u64)
    ensures
        r == mix_spec(state, word),
{
    let rotated = (state << 5u64) | (state >> 59u64);
    (rotated ^ word).wrapping_mul(SEED)
}

/// A hasher whose state is a single word; the default hasher starts at zero.
pub struct FastHasher(u64);

impl FastHasher {
    /// The current state, which is also the value `finish` reports.
    pub closed spec fn state(self) -> u64 {
        self.0
    }
}

impl Hasher for FastHasher {
    fn write(&mut self, bytes: &[u8])
        ensures
            final(self).state() == absorb(old(self).state(), bytes@),
    {
        let n = bytes.len();
        let mut i: usize = 0;
        assert(bytes@.skip(0) =~= bytes@);
        while n - i >= 8
            invariant
                i <= n,
                n == bytes@.len(),
                absorb(self.0, bytes@.skip(i as int)) == absorb(old(self).0, bytes@),
            decreases n - i,
        {
            let word: u64 = (bytes[i] as u64) + (bytes[i + 1] as u64) * 0x100 + (bytes[i + 2] as u64)
                * 0x1_0000 + (bytes[i + 3] as u64) * 0x100_0000 + (bytes[i + 4] as u64) * 0x1_0000_0000
                + (bytes[i + 5] as u64) * 0x100_0000_0000 + (bytes[i + 6] as u64) * 0x1_0000_0000_0000
                + (bytes[i + 7] as u64) * 0x100_0000_0000_0000;
            proof {
                let rest = bytes@.skip(i as int);
                assert(rest.skip(8) =~= bytes@.skip(i + 8));
                assert(le_u64_at(rest, 0) == le_u64_at(bytes@, i as int));
            }
            self.0 = mix(self.0, word);
            i = i + 8;
        }
        if n - i >= 4 {
            let word: u64 = (bytes[i] as u64) + (bytes[i + 1] as u64) * 0x100 + (bytes[i + 2] as u64)
                * 0x1_0000 + (bytes[i + 3] as u64) * 0x100_0000;
            proof {
                let rest = bytes@.skip(i as int);
                assert(rest.skip(4) =~= bytes@.skip(i + 4));
                assert(le_u32_at(rest, 0) == le_u32_at(bytes@, i as int));
            }
            self.0 = mix(self.0, word);
            i = i + 4;
        }
        while i < n
            invariant
                i <= n,
                n == bytes@.len(),
                absorb_singles(self.0, bytes@.skip(i as int)) == absorb(old(self).0, bytes@),
            decreases n - i,
        {
            proof {
                let rest = bytes@.skip(i as int);
                assert(rest.drop_first() =~= bytes@.skip(i + 1));
            }
            self.0 = mix(self.0, bytes[i] as u64);
            i = i + 1;
        }
        proof {
            assert(bytes@.skip(n as int) =~= Seq::<u8>::empty());
        }
    }

    fn write_u8(&mut self, i: u8)
        ensures
            final(self).state() == mix_spec(old(self).state(), i as u64),
    {
        self.0 = mix(self.0, i as u64);
    }

    fn write_u32(&mut self, i: u32)
        ensures
            final(self).state() == mix_spec(old(self).state(), i as u64),
    {
        self.0 = mix(self.0, i as u64);
    }

    fn write_u64(&mut self, i: u64)
        ensures
            final(self).state() == mix_spec(old(self).state(), i),
    {
        self.0 = mix(self.0, i);
    }

    fn write_usize(&mut self, i: usize)
        ensures
            final(self).state() == mix_spec(old(self).state(), i as u64),
    {
        self.0 = mix(self.0, i as u64);
    }

    fn finish(&self) -> (r: u64)
        ensures
            r == self.state(),
    {
        self.0
    }
}

impl Default for FastHasher {
    fn default() -> (r: Self)
        ensures
            r.state() == 0,
    {
        FastHasher(0)
    }
}

/// Writing a single byte folds it exactly as `write_u8` does.
pub proof fn law_byte_write_matches_write_u8(state: u64, b: u8)
    ensures
        absorb(state, seq![b]) == mix_spec(state, b as u64),
{
    reveal_with_fuel(absorb_singles, 2);
    assert(seq![b].drop_first() =~= Seq::<u8>::empty());
}

/// Writing four bytes folds them as `write_u32` folds their little-endian value.
pub proof fn law_word_write_matches_write_u32(state: u64, b: Seq<u8>)
    requires
        b.len() == 4,
    ensures
        absorb(state, b) == mix_spec(state, le_u32_at(b, 0)),
{
    assert(b.skip(4) =~= Seq::<u8>::empty());
}

/// Writing eight bytes folds them as `write_u64` folds their little-endian value.
pub proof fn law_word_write_matches_write_u64(state: u64, b: Seq<u8>)
    requires
        b.len() == 8,
    ensures
        absorb(state, b) == mix_spec(state, le_u64_at(b, 0)),
{
    assert(b.skip(8) =~= Seq::<u8>::empty());
    reveal_with_fuel(absorb, 2);
}

/// Multiplying by `SEED` modulo 2^64 is undone by multiplying by its inverse.
proof fn lemma_seed_is_invertible(x: int)
    requires
        0 <= x < 0x1_0000_0000_0000_0000,
    ensures
        ((x * (SEED as int)) % 0x1_0000_0000_0000_0000) * 0x2040003d780970bd % 0x1_0000_0000_0000_0000 == x,
{
    let m: int = 0x1_0000_0000_0000_0000;
    let s: int = SEED as int;
    let inv: int = 0x2040003d780970bd;
    vstd::arithmetic::div_mod::lemma_mul_mod_noop_left(x * s, inv, m);
    vstd::arithmetic::mul::lemma_mul_is_associative(x, s, inv);
    vstd::arithmetic::div_mod::lemma_mul_mod_noop_right(x, s * inv, m);
    assert((s * inv) % m == 1);
    vstd::arithmetic::div_mod::lemma_small_mod(x as nat, m as nat);
}

/// From one state, distinct words lead to distinct states.
pub proof fn law_mix_separates_words(state: u64, w1: u64, w2: u64)
    requires
        w1 != w2,
    ensures
        mix_spec(state, w1) != mix_spec(state, w2),
{
    let r = rotl5(state);
    let a = r ^ w1;
    let b = r ^ w2;
    assert(a != b) by (bit_vector)
        requires
            a == r ^ w1,
            b == r ^ w2,
            w1 != w2,
    ;
    let m: int = 0x1_0000_0000_0000_0000;
    lemma_seed_is_invertible(a as int);
    lemma_seed_is_invertible(b as int);
    assert((a as nat * SEED as nat) % (m as nat) < m);
    assert((b as nat * SEED as nat) % (m as nat) < m);
}

/// From distinct states, one word leads to distinct states.
pub proof fn law_mix_separates_states(s1: u64, s2: u64, w: u64)
    requires
        s1 != s2,
    ensures
        mix_spec(s1, w) != mix_spec(s2, w),
{
    let r1 = rotl5(s1);
    let r2 = rotl5(s2);
    assert(r1 != r2) by (bit_vector)
        requires
            r1 == (s1 << 5u64) | (s1 >> 59u64),
            r2 == (s2 << 5u64) | (s2 >> 59u64),
            s1 != s2,
    ;
    let a = r1 ^ w;
    let b = r2 ^ w;
    assert(a != b) by (bit_vector)
        requires
            a == r1 ^ w,
            b == r2 ^ w,
            r1 != r2,
    ;
    let m: int = 0x1_0000_0000_0000_0000;
    lemma_seed_is_invertible(a as int);
    lemma_seed_is_invertible(b as int);
    assert((a as nat * SEED as nat) % (m as nat) < m);
    assert((b as nat * SEED as nat) % (m as nat) < m);
}

proof fn lemma_singles_separate_states(s1: u64, s2: u64, b: Seq<u8>)
    requires
        s1 != s2,
    ensures
        absorb_singles(s1, b) != absorb_singles(s2, b),
    decreases b.len(),
{
    if b.len() > 0 {
        law_mix_separates_states(s1, s2, b[0] as u64);
        lemma_singles_separate_states(mix_spec(s1, b[0] as u64), mix_spec(s2, b[0] as u64), b.drop_first());
    }
}

/// From distinct states, the same byte string leads to distinct states.
pub proof fn law_absorb_separates_states(s1: u64, s2: u64, b: Seq<u8>)
    requires
        s1 != s2,
    ensures
        absorb(s1, b) != absorb(s2, b),
    decreases b.len(),
{
    if b.len() >= 8 {
        law_mix_separates_states(s1, s2, le_u64_at(b, 0));
        law_absorb_separates_states(mix_spec(s1, le_u64_at(b, 0)), mix_spec(s2, le_u64_at(b, 0)), b.skip(8));
    } else if b.len() >= 4 {
        law_mix_separates_states(s1, s2, le_u32_at(b, 0));
        lemma_singles_separate_states(mix_spec(s1, le_u32_at(b, 0)), mix_spec(s2, le_u32_at(b, 0)), b.skip(4));
    } else {
        lemma_singles_separate_states(s1, s2, b);
    }
}

/// One call on a hasher: `write` of a byte string, or a word written by
/// `write_u8`, `write_u32`, `write_u64` or `write_usize` (widened to 64 bits).
pub enum HashWrite {
    Bytes(Seq<u8>),
    Word(u64),
}

/// The state after one call, as the write methods' contracts give it.
pub open spec fn apply_write(state: u64, w: HashWrite) -> u64 {
    match w {
        HashWrite::Bytes(b) => absorb(state, b),
        HashWrite::Word(x) => mix_spec(state, x),
    }
}

/// The state after a sequence of calls, first call first.
pub open spec fn apply_writes(state: u64, ws: Seq<HashWrite>) -> u64
    decreases ws.len(),
{
    if ws.len() == 0 {
        state
    } else {
        apply_writes(apply_write(state, ws[0]), ws.drop_first())
    }
}

/// Hashers that start from the default state and receive the same calls
/// finish with the same value.
pub proof fn law_equal_writes_hash_equal(ws1: Seq<HashWrite>, ws2: Seq<HashWrite>)
    requires
        ws1 == ws2,
    ensures
        apply_writes(0, ws1) == apply_writes(0, ws2),
{
}

proof fn lemma_writes_separate_states(s1: u64, s2: u64, ws: Seq<HashWrite>)
    requires
        s1 != s2,
    ensures
        apply_writes(s1, ws) != apply_writes(s2, ws),
    decreases ws.len(),
{
    if ws.len() > 0 {
        match ws[0] {
            HashWrite::Bytes(b) => law_absorb_separates_states(s1, s2, b),
            HashWrite::Word(x) => law_mix_separates_states(s1, s2, x),
        }
        lemma_writes_separate_states(apply_write(s1, ws[0]), apply_write(s2, ws[0]), ws.drop_first());
    }
}

proof fn lemma_writes_concat(s: u64, a: Seq<HashWrite>, b: Seq<HashWrite>)
    ensures
        apply_writes(s, a + b) == apply_writes(apply_writes(s, a), b),
    decreases a.len(),
{
    if a.len() > 0 {
        assert((a + b).drop_first() =~= a.drop_first() + b);
        assert((a + b)[0] == a[0]);
        lemma_writes_concat(apply_write(s, a[0]), a.drop_first(), b);
    } else {
        assert(a + b =~= b);
    }
}

/// Two hashers that start from the default state and receive the same
/// calls, except that one word differs, finish with different values.
pub proof fn law_differing_word_separates(prefix: Seq<HashWrite>, w1: u64, w2: u64, suffix: Seq<HashWrite>)
    requires
        w1 != w2,
    ensures
        apply_writes(0, prefix + seq![HashWrite::Word(w1)] + suffix) != apply_writes(
            0,
            prefix + seq![HashWrite::Word(w2)] + suffix,
        ),
{
    let s = apply_writes(0, prefix);
    lemma_writes_concat(0, prefix + seq![HashWrite::Word(w1)], suffix);
    lemma_writes_concat(0, prefix + seq![HashWrite::Word(w2)], suffix);
    lemma_writes_concat(0, prefix, seq![HashWrite::Word(w1)]);
    lemma_writes_concat(0, prefix, seq![HashWrite::Word(w2)]);
    reveal_with_fuel(apply_writes, 2);
    assert(seq![HashWrite::Word(w1)].drop_first() =~= Seq::<HashWrite>::empty());
    assert(seq![HashWrite::Word(w2)].drop_first() =~= Seq::<HashWrite>::empty());
    law_mix_separates_words(s, w1, w2);
    lemma_writes_separate_states(mix_spec(s, w1), mix_spec(s, w2), suffix);
}

/// A hash map keyed through `FastHasher`.
pub type FastMap<K, V> = HashMap<K, V, BuildHasherDefault<FastHasher>>;

} // verus!
