//! Proposer assignment: each slot's draw picks the stakeholder whose
//! cumulative-stake range holds it, the snapshot being walked in its given
//! order.

use vstd::prelude::*;
use ethereum_types::Address;
use crate::seed::{as_u32_seed, expand_seed};
use crate::sampler::{chacha_coins, draw_coins};

verus! {

broadcast use vstd::seq_lib::group_to_multiset_ensures;

#[verifier::external_type_specification]
#[verifier::external_body]
pub struct ExAddress(ethereum_types::H160);

/// Why no schedule could be computed for an epoch.
#[derive(Debug, Clone, Copy, PartialEq, Eq, Structural)]
pub enum FtsError {
    /// The declared total stake is zero.
    DegenerateStake,
    /// A draw lies past the sum of the snapshot's stakes: the declared total
    /// does not match the snapshot.
    InvariantViolation,
}

/// Sum of the stakes of the first `j` entries of the snapshot.
pub open spec fn stake_prefix(b: Seq<(Address, u64)>, j: int) -> int
    decreases j,
{
    if j <= 0 || b.len() < j {
        0
    } else {
        stake_prefix(b, j - 1) + b[j - 1].1
    }
}

/// Sum of all the stakes of the snapshot.
pub open spec fn stake_sum(b: Seq<(Address, u64)>) -> int {
    stake_prefix(b, b.len() as int)
}

/// The first entry at or after `j` whose cumulative range ends past `c`, or
/// the snapshot's length if there is none.
pub open spec fn owner_from(b: Seq<(Address, u64)>, c: int, j: int) -> int
    decreases b.len() - j,
{
    if j < 0 || j >= b.len() {
        b.len() as int
    } else if c < stake_prefix(b, j + 1) {
        j
    } else {
        owner_from(b, c, j + 1)
    }
}

/// Index of the entry whose cumulative range `[prefix(j), prefix(j+1))` holds
/// the coin `c`.
pub open spec fn owner_index(b: Seq<(Address, u64)>, c: int) -> int {
    owner_from(b, c, 0)
}

/// The schedule that the draws `coins` give over the snapshot `b`, slot by
/// slot, or the error that stops it.
pub open spec fn schedule_of(b: Seq<(Address, u64)>, coins: Seq<u64>, total: u64) -> Result<
    Seq<Address>,
    FtsError,
> {
    if total == 0 {
        Err(FtsError::DegenerateStake)
    } else if exists|i: int| 0 <= i < coins.len() && coins[i] >= stake_sum(b) {
        Err(FtsError::InvariantViolation)
    } else {
        Ok(Seq::new(coins.len(), |i: int| b[owner_index(b, coins[i] as int)].0))
    }
}

/// The schedule for an epoch of `blocks` slots: one draw per slot from the
/// sampler keyed by the expanded seed, in slot order.
pub open spec fn proposer_schedule(
    seed: Seq<u8>,
    b: Seq<(Address, u64)>,
    blocks: nat,
    total: u64,
) -> Result<Seq<Address>, FtsError> {
    schedule_of(b, chacha_coins(expand_seed(seed), total, blocks), total)
}

/// A computed schedule seen as a sequence.
pub open spec fn schedule_view(r: Result<Vec<Address>, FtsError>) -> Result<Seq<Address>, FtsError> {
    match r {
        Ok(v) => Ok(v@),
        Err(e) => Err(e),
    }
}

/// Draws compare by coin first, then by slot.
pub open spec fn draw_le(a: (u64, usize), b: (u64, usize)) -> bool {
    a.0 < b.0 || (a.0 == b.0 && a.1 <= b.1)
}

/// Slot `x` appears among the draws with its own coin.
spec fn slot_drawn(draws: Seq<(u64, usize)>, coins: Seq<u64>, x: int) -> bool {
    exists|t: int| 0 <= t < draws.len() && #[trigger] draws[t] == (coins[x], x as usize)
}

/// Relies on `slice::sort`: the items come out as a permutation of those that
/// went in, in ascending order, tuples of integers comparing lexicographically.
#[verifier::external_body]
fn sort_draws(v: &mut Vec<(u64, usize)>)
    ensures
        final(v)@.to_multiset() == old(v)@.to_multiset(),
        final(v)@.len() == old(v)@.len(),
        forall|i: int, j: int|
            0 <= i < j < final(v)@.len() ==> draw_le(#[trigger] final(v)@[i], #[trigger] final(v)@[j]),
{
    v.sort()
}

proof fn lemma_prefix_mono(b: Seq<(Address, u64)>, i: int, k: int)
    requires
        0 <= i <= k <= b.len(),
    ensures
        stake_prefix(b, i) <= stake_prefix(b, k),
    decreases k - i,
{
    if i < k {
        lemma_prefix_mono(b, i, k - 1);
    }
}

proof fn lemma_prefix_bound(b: Seq<(Address, u64)>, j: int)
    requires
        0 <= j <= b.len(),
    ensures
        0 <= stake_prefix(b, j) <= j * 18446744073709551615,
    decreases j,
{
    if j > 0 {
        lemma_prefix_bound(b, j - 1);
    }
}

/// The owner found from `k` on, for a coin past the first `k` ranges, is the
/// entry whose range holds the coin, or the length when the coin is past all.
proof fn lemma_owner_from_range(b: Seq<(Address, u64)>, c: int, k: int)
    requires
        0 <= k <= b.len(),
        stake_prefix(b, k) <= c,
    ensures
        k <= owner_from(b, c, k) <= b.len(),
        owner_from(b, c, k) < b.len() ==> stake_prefix(b, owner_from(b, c, k)) <= c < stake_prefix(
            b,
            owner_from(b, c, k) + 1,
        ),
        owner_from(b, c, k) == b.len() ==> stake_sum(b) <= c,
    decreases b.len() - k,
{
    if k < b.len() && c >= stake_prefix(b, k + 1) {
        lemma_owner_from_range(b, c, k + 1);
    }
}

/// The owner of a coin lies in range of it.
pub(crate) proof fn lemma_owner_range(b: Seq<(Address, u64)>, c: int)
    requires
        0 <= c,
    ensures
        0 <= owner_index(b, c) <= b.len(),
        owner_index(b, c) < b.len() ==> stake_prefix(b, owner_index(b, c)) <= c < stake_prefix(
            b,
            owner_index(b, c) + 1,
        ),
        c < stake_sum(b) ==> owner_index(b, c) < b.len(),
{
    lemma_owner_from_range(b, c, 0);
}

/// A coin in the range of entry `j` is owned by `j`.
pub(crate) proof fn lemma_owner_is(b: Seq<(Address, u64)>, c: int, j: int)
    requires
        0 <= j < b.len(),
        stake_prefix(b, j) <= c < stake_prefix(b, j + 1),
    ensures
        owner_index(b, c) == j,
{
    lemma_prefix_mono(b, 0, j);
    lemma_owner_range(b, c);
    let o = owner_index(b, c);
    if o < j {
        lemma_prefix_mono(b, o + 1, j);
    } else if o > j {
        lemma_prefix_mono(b, j + 1, o);
    }
}

/// Assigns each slot's draw to a stakeholder. The draws are sorted by coin,
/// ties kept in slot order, and merged with the cumulative stake of the
/// snapshot walked in its given order; the slots are then put back in order.
pub fn assign_proposers(
    epoch_balances: &[(Address, u64)],
    coins: &Vec<u64>,
    total_coins: u64,
) -> (r: Result<Vec<Address>, FtsError>)
    ensures
        schedule_view(r) == schedule_of(epoch_balances@, coins@, total_coins),
{
    if total_coins == 0 {
        return Err(FtsError::DegenerateStake);
    }
    let ghost b = epoch_balances@;
    let n: usize = coins.len();
    let mut draws: Vec<(u64, usize)> = Vec::new();
    let mut i: usize = 0;
    while i < n
        invariant
            i <= n,
            n == coins@.len(),
            draws@.len() == i,
            forall|t: int| 0 <= t < i ==> #[trigger] draws@[t] == (coins@[t], t as usize),
        decreases n - i,
    {
        draws.push((coins[i], i));
        i = i + 1;
    }
    let ghost unsorted = draws@;
    sort_draws(&mut draws);
    assert forall|t: int| 0 <= t < n implies (#[trigger] draws@[t]).1 < n && draws@[t].0
        == coins@[draws@[t].1 as int] by {
        assert(draws@.contains(draws@[t]));
        assert(unsorted.to_multiset().count(draws@[t]) > 0);
        assert(unsorted.contains(draws@[t]));
    }
    assert forall|s: int| 0 <= s < n implies #[trigger] slot_drawn(draws@, coins@, s) by {
        assert(unsorted[s] == (coins@[s], s as usize));
        assert(unsorted.contains(unsorted[s]));
        assert(draws@.to_multiset().count(unsorted[s]) > 0);
        assert(draws@.contains(unsorted[s]));
    }

    let mut owners: Vec<usize> = Vec::new();
    let mut i: usize = 0;
    while i < n
        invariant
            i <= n,
            owners@.len() == i,
        decreases n - i,
    {
        owners.push(0);
        i = i + 1;
    }

    let m: usize = epoch_balances.len();
    let mut cum: u128 = 0;
    let mut k: usize = 0;
    let mut j: usize = 0;
    while j < m
        invariant
            b == epoch_balances@,
            m == b.len(),
            n == coins@.len(),
            j <= m,
            k <= n,
            owners@.len() == n,
            draws@.len() == n,
            cum as int == stake_prefix(b, j as int),
            forall|t: int|
                0 <= t < n ==> (#[trigger] draws@[t]).1 < n && draws@[t].0 == coins@[draws@[t].1 as int],
            forall|t: int, u: int| 0 <= t < u < n ==> draw_le(#[trigger] draws@[t], #[trigger] draws@[u]),
            forall|t: int| 0 <= t < k ==> (#[trigger] draws@[t]).0 < stake_prefix(b, j as int),
            forall|t: int| k <= t < n ==> (#[trigger] draws@[t]).0 >= stake_prefix(b, j as int),
            forall|t: int|
                0 <= t < k ==> owners@[(#[trigger] draws@[t]).1 as int] == owner_index(
                    b,
                    draws@[t].0 as int,
                ),
        decreases m - j,
    {
        proof {
            lemma_prefix_bound(b, j + 1);
            lemma_prefix_mono(b, j as int, j + 1);
        }
        cum = cum + epoch_balances[j].1 as u128;
        while k < n && (draws[k].0 as u128) < cum
            invariant
                b == epoch_balances@,
                m == b.len(),
                n == coins@.len(),
                j < m,
                k <= n,
                owners@.len() == n,
                draws@.len() == n,
                cum as int == stake_prefix(b, j + 1),
                stake_prefix(b, j as int) <= stake_prefix(b, j + 1),
                forall|t: int|
                    0 <= t < n ==> (#[trigger] draws@[t]).1 < n && draws@[t].0 == coins@[draws@[t].1 as int],
                forall|t: int, u: int| 0 <= t < u < n ==> draw_le(#[trigger] draws@[t], #[trigger] draws@[u]),
                forall|t: int| 0 <= t < k ==> (#[trigger] draws@[t]).0 < stake_prefix(b, j + 1),
                forall|t: int| k <= t < n ==> (#[trigger] draws@[t]).0 >= stake_prefix(b, j as int),
                forall|t: int|
                    0 <= t < k ==> owners@[(#[trigger] draws@[t]).1 as int] == owner_index(
                        b,
                        draws@[t].0 as int,
                    ),
            decreases n - k,
        {
            let c: u64 = draws[k].0;
            let s: usize = draws[k].1;
            proof {
                lemma_owner_is(b, c as int, j as int);
            }
            owners.set(s, j);
            k = k + 1;
        }
        assert forall|t: int| k <= t < n implies (#[trigger] draws@[t]).0 >= stake_prefix(
            b,
            j + 1,
        ) by {
            if k < t {
                assert(draw_le(draws@[k as int], draws@[t]));
            }
        }
        j = j + 1;
    }
    if k < n {
        assert(coins@[draws@[k as int].1 as int] >= stake_sum(b));
        return Err(FtsError::InvariantViolation);
    }
    let mut result: Vec<Address> = Vec::new();
    let mut s: usize = 0;
    while s < n
        invariant
            b == epoch_balances@,
            m == b.len(),
            n == coins@.len(),
            k == n,
            s <= n,
            owners@.len() == n,
            draws@.len() == n,
            result@.len() == s,
            forall|t: int| 0 <= t < n ==> (#[trigger] draws@[t]).0 < stake_sum(b),
            forall|t: int|
                0 <= t < n ==> owners@[(#[trigger] draws@[t]).1 as int] == owner_index(
                    b,
                    draws@[t].0 as int,
                ),
            forall|x: int| 0 <= x < n ==> #[trigger] slot_drawn(draws@, coins@, x),
            forall|x: int|
                0 <= x < s ==> #[trigger] result@[x] == b[owner_index(b, coins@[x] as int)].0,
        decreases n - s,
    {
        proof {
            assert(slot_drawn(draws@, coins@, s as int));

            lemma_owner_range(b, coins@[s as int] as int);
        }
        let o: usize = owners[s];
        result.push(epoch_balances[o].0);
        s = s + 1;
    }
    proof {
        assert forall|x: int| 0 <= x < n implies coins@[x] < stake_sum(b) by {
            assert(slot_drawn(draws@, coins@, x));
        }
        assert(result@ =~= Seq::new(n as nat, |x: int| b[owner_index(b, coins@[x] as int)].0));
    }
    Ok(result)
}

/// Computes the proposer of every slot of an epoch of `epoch_blocks` slots:
/// the seed is expanded, one coin per slot is drawn from `[0, total_coins)`
/// in slot order, and the coins are assigned over the snapshot's cumulative
/// stake ranges.
pub fn follow_the_satoshi(
    seed: &[u8],
    epoch_balances: &[(Address, u64)],
    epoch_blocks: u64,
    total_coins: u64,
) -> (r: Result<Vec<Address>, FtsError>)
    requires
        epoch_blocks <= usize::MAX,
    ensures
        schedule_view(r) == proposer_schedule(
            seed@,
            epoch_balances@,
            epoch_blocks as nat,
            total_coins,
        ),
        total_coins == 0 <==> r == Err::<Vec<Address>, FtsError>(FtsError::DegenerateStake),
        0 < total_coins <= stake_sum(epoch_balances@) ==> r is Ok,
        r matches Ok(v) ==> v@.len() == epoch_blocks,
{
    if total_coins == 0 {
        return Err(FtsError::DegenerateStake);
    }
    let seed_words = as_u32_seed(seed);
    let coins = draw_coins(&seed_words, total_coins, epoch_blocks as usize);
    assign_proposers(epoch_balances, &coins, total_coins)
}

} // verus!
