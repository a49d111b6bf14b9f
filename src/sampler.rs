//! The deterministic sampler: a ChaCha stream keyed by the expanded seed,
//! read as uniform draws from a half-open range.

use vstd::prelude::*;

verus! {

/// The draws that a ChaCha generator keyed by `seed` gives, one after the
/// other, from the range `[0, total)`: `count` of them.
pub uninterp spec fn chacha_coins(seed: Seq<u32>, total: u64, count: nat) -> Seq<u64>;

/// Relies on rand's `ChaChaRng::from_seed` (the key is the seed words, filled
/// with zeros to eight), `Range::new(0, total)` (which panics unless
/// `0 < total`) and `IndependentSample::ind_sample`, called `count` times in
/// turn: each draw lies in `[0, total)`, and the stream depends on the seed,
/// the range and the number of draws alone.
#[verifier::external_body]
pub(crate) fn draw_coins(seed: &Vec<u32>, total: u64, count: usize) -> (r: Vec<u64>)
    requires
        0 < total,
    ensures
        r@ == chacha_coins(seed@, total, count as nat),
        r@.len() == count,
        forall|i: int| 0 <= i < r@.len() ==> #[trigger] r@[i] < total,
{
    let mut rng: rand::ChaChaRng = rand::SeedableRng::from_seed(&seed[..]);
    let range = rand::distributions::Range::new(0u64, total);
    (0..count).map(|_| rand::distributions::IndependentSample::ind_sample(&range, &mut rng)).collect()
}

} // verus!
