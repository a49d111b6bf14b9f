//! Laws that every proposer schedule obeys, stated over the models of
//! `follow_the_satoshi` and `assign_proposers`.

use vstd::prelude::*;
use ethereum_types::Address;
use crate::schedule::{
    FtsError,
    lemma_owner_is,
    lemma_owner_range,
    owner_index,
    proposer_schedule,
    schedule_of,
    stake_prefix,
    stake_sum,
};

verus! {

/// A schedule, when there is one, has one entry per draw, so one per slot.
pub proof fn lemma_schedule_length(b: Seq<(Address, u64)>, coins: Seq<u64>, total: u64)
    ensures
        schedule_of(b, coins, total) matches Ok(v) ==> v.len() == coins.len(),
{
}

/// The schedule is a function of the seed, the snapshot, the number of slots
/// and the total stake: equal inputs give equal outcomes.
pub proof fn lemma_schedule_deterministic(
    seed1: Seq<u8>,
    b1: Seq<(Address, u64)>,
    blocks1: nat,
    total1: u64,
    seed2: Seq<u8>,
    b2: Seq<(Address, u64)>,
    blocks2: nat,
    total2: u64,
)
    requires
        seed1 == seed2,
        b1 == b2,
        blocks1 == blocks2,
        total1 == total2,
    ensures
        proposer_schedule(seed1, b1, blocks1, total1) == proposer_schedule(seed2, b2, blocks2, total2),
{
}

/// With a single stakeholder that holds the whole stake, every slot goes to
/// it, whatever the draws in `[0, stake)` are.
pub proof fn lemma_single_stakeholder(a: Address, stake: u64, coins: Seq<u64>)
    requires
        0 < stake,
        forall|i: int| 0 <= i < coins.len() ==> #[trigger] coins[i] < stake,
    ensures
        schedule_of(seq![(a, stake)], coins, stake) == Ok::<Seq<Address>, FtsError>(
            Seq::new(coins.len(), |i: int| a),
        ),
{
    let b = seq![(a, stake)];
    assert(stake_prefix(b, 0) == 0);
    assert(stake_prefix(b, 1) == stake);
    assert(stake_sum(b) == stake);
    assert forall|i: int| 0 <= i < coins.len() implies owner_index(b, #[trigger] coins[i] as int)
        == 0 by {
        lemma_owner_is(b, coins[i] as int, 0);
    }
    assert(schedule_of(b, coins, stake) matches Ok(v) && v =~= Seq::new(coins.len(), |i: int| a));
}

/// An entry with no stake owns no draw; when its address is held by no other
/// entry, it appears nowhere in the schedule.
pub proof fn lemma_zero_stake_never_selected(
    b: Seq<(Address, u64)>,
    coins: Seq<u64>,
    total: u64,
    j: int,
)
    requires
        0 <= j < b.len(),
        b[j].1 == 0,
    ensures
        forall|i: int| 0 <= i < coins.len() ==> owner_index(b, #[trigger] coins[i] as int) != j,
        (forall|k: int| 0 <= k < b.len() && k != j ==> #[trigger] b[k].0 != b[j].0) ==> (schedule_of(
            b,
            coins,
            total,
        ) matches Ok(v) ==> forall|i: int| 0 <= i < v.len() ==> #[trigger] v[i] != b[j].0),
{
    assert(stake_prefix(b, j + 1) == stake_prefix(b, j));
    assert forall|i: int| 0 <= i < coins.len() implies owner_index(b, #[trigger] coins[i] as int)
        != j by {
        lemma_owner_range(b, coins[i] as int);
    }
    if forall|k: int| 0 <= k < b.len() && k != j ==> #[trigger] b[k].0 != b[j].0 {
        if schedule_of(b, coins, total) is Ok {
            assert forall|i: int| 0 <= i < coins.len() implies #[trigger] schedule_of(
                b,
                coins,
                total,
            )->Ok_0[i] != b[j].0 by {
                lemma_owner_range(b, coins[i] as int);
            }
        }
    }
}

/// A declared total stake of zero always fails, for any seed, snapshot and
/// number of slots, zero slots included.
pub proof fn lemma_zero_total_fails(seed: Seq<u8>, b: Seq<(Address, u64)>, blocks: nat)
    ensures
        proposer_schedule(seed, b, blocks, 0) == Err::<Seq<Address>, FtsError>(
            FtsError::DegenerateStake,
        ),
{
}

proof fn lemma_prefix_remove(b: Seq<(Address, u64)>, i: int, j: int)
    requires
        0 <= i < b.len(),
        0 <= j < b.len(),
    ensures
        stake_prefix(b.remove(i), j) == if j <= i {
            stake_prefix(b, j)
        } else {
            stake_prefix(b, j + 1) - b[i].1
        },
    decreases j,
{
    if j > 0 {
        lemma_prefix_remove(b, i, j - 1);
        let r = b.remove(i);
        assert(stake_prefix(r, j) == stake_prefix(r, j - 1) + r[j - 1].1);
        if j - 1 < i {
            assert(r[j - 1] == b[j - 1]);
        } else {
            assert(r[j - 1] == b[j]);
            assert(stake_prefix(b, j + 1) == stake_prefix(b, j) + b[j].1);
            assert(stake_prefix(b, j) == stake_prefix(b, j - 1) + b[j - 1].1);
        }
    }
}

proof fn lemma_sum_remove(b: Seq<(Address, u64)>, i: int)
    requires
        0 <= i < b.len(),
    ensures
        stake_sum(b.remove(i)) == stake_sum(b) - b[i].1,
{
    lemma_prefix_remove(b, i, b.len() - 1);
}

/// Entries that are the same up to order have the same stake sum.
pub proof fn lemma_sum_of_reordered(b1: Seq<(Address, u64)>, b2: Seq<(Address, u64)>)
    requires
        b1.to_multiset() == b2.to_multiset(),
    ensures
        stake_sum(b1) == stake_sum(b2),
    decreases b1.len(),
{
    broadcast use vstd::seq_lib::group_to_multiset_ensures;

    if b1.len() == 0 {
        assert(b2.to_multiset().len() == 0);
    } else {
        let last = b1.len() - 1;
        let x = b1[last];
        assert(b1.contains(x));
        assert(b2.to_multiset().count(x) > 0);
        assert(b2.contains(x));
        let i = choose|i: int| 0 <= i < b2.len() && b2[i] == x;
        lemma_sum_remove(b1, last);
        lemma_sum_remove(b2, i);
        assert(b1.remove(last).to_multiset() == b1.to_multiset().remove(x));
        assert(b2.remove(i).to_multiset() == b2.to_multiset().remove(x));
        lemma_sum_of_reordered(b1.remove(last), b2.remove(i));
    }
}

/// Presenting the same entries in another order changes which entry owns
/// which cumulative range, never whether a schedule exists or its length: the
/// two orders fail alike or both give one entry per draw.
pub proof fn lemma_reordered_snapshot(
    b1: Seq<(Address, u64)>,
    b2: Seq<(Address, u64)>,
    coins: Seq<u64>,
    total: u64,
)
    requires
        b1.to_multiset() == b2.to_multiset(),
    ensures
        schedule_of(b1, coins, total) is Ok <==> schedule_of(b2, coins, total) is Ok,
        schedule_of(b1, coins, total) is Err ==> schedule_of(b1, coins, total) == schedule_of(
            b2,
            coins,
            total,
        ),
        schedule_of(b1, coins, total) matches Ok(v) ==> v.len() == coins.len(),
        schedule_of(b2, coins, total) matches Ok(v) ==> v.len() == coins.len(),
{
    lemma_sum_of_reordered(b1, b2);
}

} // verus!
