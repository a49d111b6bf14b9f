use ethereum_types::Address;
use gelt_fts::schedule::{assign_proposers, follow_the_satoshi, FtsError};
use gelt_fts::seed::as_u32_seed;

fn aaa() -> Address {
    Address::repeat_byte(0xaa)
}

fn bbb() -> Address {
    Address::repeat_byte(0xbb)
}

#[test]
fn one_stakeholder_is_always_the_proposer() {
    let address = Address::from_low_u64_be(5);
    let balances = vec![(address, 10u64)];
    let seed = [1u8, 2u8, 3u8];

    let result = follow_the_satoshi(&seed, &balances, 3, 10).unwrap();
    assert_eq!(result, vec![address, address, address]);
}

#[test]
fn two_stakeholders_equal_stake() {
    let (aaa, bbb) = (aaa(), bbb());
    let balances = vec![(aaa, 50u64), (bbb, 50u64)];
    let seed = [1u8, 2u8, 3u8];

    let result = follow_the_satoshi(&seed, &balances, 10, 100).unwrap();
    assert_eq!(result, [aaa, bbb, bbb, bbb, aaa, bbb, aaa, aaa, aaa, aaa]);
}

#[test]
fn two_stakeholders_skewed_stake() {
    let (aaa, bbb) = (aaa(), bbb());
    let balances = vec![(aaa, 80u64), (bbb, 20u64)];
    let seed = [1u8, 2u8, 3u8];

    let result = follow_the_satoshi(&seed, &balances, 25, 100).unwrap();
    assert_eq!(
        result,
        [
            aaa, aaa, aaa, aaa, aaa, aaa, aaa, aaa, aaa, aaa, aaa, aaa, aaa, aaa, aaa, aaa, aaa,
            aaa, aaa, bbb, aaa, aaa, aaa, bbb, aaa
        ]
    );
}

#[test]
fn as_u32_seed_pads_to_32() {
    let v = vec![1, 2, 3, 4, 5, 6];
    let result = as_u32_seed(&v);
    let expected = vec![67305985, 1541, 0, 0, 0, 0, 0, 0];
    assert_eq!(result, &expected[..]);
}

#[test]
fn seed_expansion_in_hex() {
    let result = as_u32_seed(&[1, 2, 3, 4, 5, 6]);
    assert_eq!(result, vec![0x04030201, 0x00000605, 0, 0, 0, 0, 0, 0]);
}

#[test]
fn empty_seed_expands_to_zero_words() {
    assert_eq!(as_u32_seed(&[]), vec![0u32; 8]);
}

#[test]
fn seed_past_32_bytes_is_cut() {
    let mut v: Vec<u8> = (0u8..32).collect();
    let short = as_u32_seed(&v);
    v.extend_from_slice(&[0xff, 0xee, 0xdd]);
    let long = as_u32_seed(&v);
    assert_eq!(short, long);
    assert_eq!(long[0], 0x03020100);
    assert_eq!(long[7], 0x1f1e1d1c);
}

#[test]
fn single_stakeholder_takes_every_slot_for_any_seed() {
    let a = aaa();
    for seed in [vec![], vec![0u8], vec![9u8, 8, 7, 6, 5], vec![0xffu8; 40]] {
        let result = follow_the_satoshi(&seed, &[(a, 10)], 3, 10).unwrap();
        assert_eq!(result, vec![a, a, a]);
    }
}

#[test]
fn schedule_has_one_entry_per_slot() {
    let balances = vec![(aaa(), 30u64), (bbb(), 70u64)];
    for slots in [0u64, 1, 7, 64] {
        let result = follow_the_satoshi(&[4, 2], &balances, slots, 100).unwrap();
        assert_eq!(result.len() as u64, slots);
    }
}

#[test]
fn repeated_calls_give_the_same_schedule() {
    let balances = vec![(aaa(), 13u64), (bbb(), 29u64), (Address::from_low_u64_be(7), 58u64)];
    let first = follow_the_satoshi(&[5, 6, 7, 8], &balances, 40, 100);
    let second = follow_the_satoshi(&[5, 6, 7, 8], &balances, 40, 100);
    assert_eq!(first, second);
}

#[test]
fn zero_stake_is_never_selected() {
    let zero = Address::from_low_u64_be(1);
    let balances = vec![(aaa(), 40u64), (zero, 0u64), (bbb(), 60u64)];
    for seed in [vec![1u8, 2, 3], vec![3u8, 2, 1], vec![]] {
        let result = follow_the_satoshi(&seed, &balances, 50, 100).unwrap();
        assert!(!result.contains(&zero));
    }
}

#[test]
fn zero_total_stake_is_degenerate() {
    let balances = vec![(aaa(), 10u64)];
    assert_eq!(follow_the_satoshi(&[1, 2, 3], &balances, 3, 0), Err(FtsError::DegenerateStake));
    assert_eq!(follow_the_satoshi(&[1, 2, 3], &balances, 0, 0), Err(FtsError::DegenerateStake));
    assert_eq!(assign_proposers(&balances, &vec![], 0), Err(FtsError::DegenerateStake));
}

#[test]
fn total_past_snapshot_sum_is_an_invariant_violation() {
    let balances = vec![(aaa(), 10u64), (bbb(), 10u64)];
    assert_eq!(
        assign_proposers(&balances, &vec![3, 25, 12], 30),
        Err(FtsError::InvariantViolation)
    );
    assert_eq!(assign_proposers(&balances, &vec![20], 30), Err(FtsError::InvariantViolation));
}

#[test]
fn draws_pick_cumulative_ranges() {
    let (a, b, c) = (aaa(), bbb(), Address::from_low_u64_be(3));
    let balances = vec![(a, 10u64), (b, 0u64), (c, 5u64)];
    let result = assign_proposers(&balances, &vec![14, 0, 10, 9, 10, 3], 15).unwrap();
    assert_eq!(result, vec![c, a, c, a, c, a]);
}

#[test]
fn equal_draws_keep_slot_order() {
    let (a, b) = (aaa(), bbb());
    let balances = vec![(a, 1u64), (b, 1u64)];
    let result = assign_proposers(&balances, &vec![1, 0, 1, 0], 2).unwrap();
    assert_eq!(result, vec![b, a, b, a]);
}

#[test]
fn reordered_snapshot_keeps_length_but_may_change_schedule() {
    let (a, b) = (aaa(), bbb());
    let coins = vec![10u64, 60, 95, 0];
    let first = assign_proposers(&[(a, 50), (b, 50)], &coins, 100).unwrap();
    let second = assign_proposers(&[(b, 50), (a, 50)], &coins, 100).unwrap();
    assert_eq!(first.len(), second.len());
    assert_eq!(first, vec![a, b, b, a]);
    assert_eq!(second, vec![b, a, a, b]);
    assert_ne!(first, second);
}
