//! Expansion of a caller-supplied seed into the eight words that key the
//! pseudorandom generator.

use vstd::prelude::*;

verus! {

/// Number of 32-bit words in an expanded seed.
pub const SEED_WORDS: usize = 8;

/// Byte `i` of the seed once it is padded with zeros (or cut) to 32 bytes.
pub open spec fn padded_byte(v: Seq<u8>, i: int) -> nat {
    if 0 <= i < v.len() {
        v[i] as nat
    } else {
        0
    }
}

/// Word `k` of the expanded seed: bytes `4k .. 4k+4`, least significant first.
pub open spec fn seed_word(v: Seq<u8>, k: int) -> nat {
    padded_byte(v, 4 * k) + 256 * padded_byte(v, 4 * k + 1) + 65536 * padded_byte(v, 4 * k + 2)
        + 16777216 * padded_byte(v, 4 * k + 3)
}

/// The expanded seed: eight little-endian words over the zero-padded bytes.
pub open spec fn expand_seed(v: Seq<u8>) -> Seq<u32> {
    Seq::new(8, |k: int| seed_word(v, k) as u32)
}

fn byte_or_zero(v: &[u8], i: usize) -> (r: u32)
    ensures
        r as nat == padded_byte(v@, i as int),
        r < 256,
{
    if i < v.len() {
        v[i] as u32
    } else {
        0
    }
}

/// Packs the first 32 bytes of `v`, padded with zeros, into eight
/// little-endian 32-bit words. Bytes past the 32nd are ignored; an empty
/// seed gives eight zero words.
pub fn as_u32_seed(v: &[u8]) -> (r: Vec<u32>)
    ensures
        r@ == expand_seed(v@),
        r@.len() == SEED_WORDS,
        forall|k: int| 0 <= k < 8 ==> r@[k] as nat == #[trigger] seed_word(v@, k),
{
    let mut r: Vec<u32> = Vec::new();
    let mut k: usize = 0;
    while k < SEED_WORDS
        invariant
            k <= SEED_WORDS,
            r@.len() == k,
            forall|t: int| 0 <= t < k ==> r@[t] as nat == #[trigger] seed_word(v@, t),
        decreases SEED_WORDS - k,
    {
        let b0: u32 = byte_or_zero(v, 4 * k);
        let b1: u32 = byte_or_zero(v, 4 * k + 1);
        let b2: u32 = byte_or_zero(v, 4 * k + 2);
        let b3: u32 = byte_or_zero(v, 4 * k + 3);
        let w: u32 = b0 + 256 * b1 + 65536 * b2 + 16777216 * b3;
        r.push(w);
        k = k + 1;
    }
    assert(r@ =~= expand_seed(v@));
    r
}

} // verus!
