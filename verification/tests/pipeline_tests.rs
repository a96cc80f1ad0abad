use packscan::accuracy::AccuracyCounters;
use packscan::blocks::{epoch_of, Attestation, AttestationData, Block};
use packscan::classify::{grouping_ok, is_sorted_desc};
use packscan::participation::{ParticipationKey, ParticipationTracker};
use packscan::pipeline::process_block;
use packscan::scoring::{score_block, Score};
use packscan::update::commit_block;

fn att(slot: u64, index: u64, bits: Vec<bool>) -> Attestation {
    Attestation { data: AttestationData { slot, index }, aggregation_bits: bits }
}

fn key(slot: u64, index: u64, bit: u64) -> ParticipationKey {
    ParticipationKey { slot, index, bit }
}

#[test]
fn epoch_of_divides_by_epoch_length() {
    assert_eq!(epoch_of(0), 0);
    assert_eq!(epoch_of(31), 0);
    assert_eq!(epoch_of(32), 1);
    assert_eq!(epoch_of(95), 2);
}

#[test]
fn roll_by_one_shifts_current_into_previous() {
    let mut t = ParticipationTracker::new();
    t.current.insert(key(3, 1, 7));
    t.roll(1);
    assert_eq!(t.epoch_cursor, 1);
    assert!(t.previous.contains(&key(3, 1, 7)));
    assert!(!t.current.contains(&key(3, 1, 7)));
}

#[test]
fn roll_by_more_than_one_clears_both_sets() {
    let mut t = ParticipationTracker::new();
    t.previous.insert(key(1, 0, 0));
    t.current.insert(key(2, 0, 0));
    t.roll(2);
    assert_eq!(t.epoch_cursor, 2);
    assert!(!t.previous.contains(&key(1, 0, 0)));
    assert!(!t.previous.contains(&key(2, 0, 0)));
    assert!(!t.current.contains(&key(2, 0, 0)));
}

#[test]
fn roll_to_same_epoch_changes_nothing() {
    let mut t = ParticipationTracker::new();
    t.roll(4);
    t.previous.insert(key(1, 0, 0));
    t.current.insert(key(2, 0, 0));
    t.roll(4);
    assert_eq!(t.epoch_cursor, 4);
    assert!(t.previous.contains(&key(1, 0, 0)));
    assert!(t.current.contains(&key(2, 0, 0)));
}

#[test]
fn roll_to_smaller_epoch_keeps_sets() {
    let mut t = ParticipationTracker::new();
    t.roll(4);
    t.previous.insert(key(1, 0, 0));
    t.current.insert(key(2, 0, 0));
    t.roll(3);
    assert_eq!(t.epoch_cursor, 3);
    assert!(t.previous.contains(&key(1, 0, 0)));
    assert!(t.current.contains(&key(2, 0, 0)));
}

#[test]
fn unseen_bits_all_count() {
    let t = ParticipationTracker::new();
    let block = Block {
        slot: 10,
        graffiti: String::new(),
        attestations: vec![att(9, 0, vec![true, true, true])],
    };
    let scores = score_block(&t, &block);
    assert_eq!(scores, vec![Score { new_participants: 3, delay: 1 }]);
}

#[test]
fn seen_bits_do_not_count() {
    let mut t = ParticipationTracker::new();
    t.current.insert(key(9, 0, 0));
    let block = Block {
        slot: 10,
        graffiti: String::new(),
        attestations: vec![att(9, 0, vec![true, true, false])],
    };
    let scores = score_block(&t, &block);
    assert_eq!(scores, vec![Score { new_participants: 1, delay: 1 }]);
}

#[test]
fn previous_epoch_attestation_scored_against_previous_set() {
    let mut t = ParticipationTracker::new();
    t.roll(1);
    // Attested slot 31 falls in epoch 0, one before the cursor.
    t.previous.insert(key(31, 0, 0));
    let block = Block {
        slot: 33,
        graffiti: String::new(),
        attestations: vec![att(31, 0, vec![true, true])],
    };
    let scores = score_block(&t, &block);
    assert_eq!(scores, vec![Score { new_participants: 1, delay: 2 }]);
}

#[test]
fn rescoring_unmodified_state_is_identical() {
    let mut t = ParticipationTracker::new();
    t.current.insert(key(8, 2, 1));
    let block = Block {
        slot: 10,
        graffiti: String::new(),
        attestations: vec![att(8, 2, vec![true, true, true]), att(9, 0, vec![false, true])],
    };
    let first = score_block(&t, &block);
    let second = score_block(&t, &block);
    assert_eq!(first, second);
}

#[test]
fn grouping_allows_pairs() {
    let atts = vec![
        att(9, 0, vec![true]),
        att(9, 0, vec![false]),
        att(9, 1, vec![true]),
    ];
    assert!(grouping_ok(&atts));
}

#[test]
fn grouping_rejects_triples() {
    let atts = vec![
        att(9, 0, vec![true]),
        att(9, 0, vec![false]),
        att(9, 0, vec![true]),
        att(9, 1, vec![true]),
    ];
    assert!(!grouping_ok(&atts));
}

fn whole(n: u64) -> Score {
    Score { new_participants: n, delay: 1 }
}

#[test]
fn ordering_accepts_non_increasing_with_ties() {
    let scores = vec![whole(3), whole(2), whole(2), whole(1)];
    assert!(is_sorted_desc(&scores));
}

#[test]
fn ordering_rejects_an_increase() {
    let scores = vec![whole(1), whole(2)];
    assert!(!is_sorted_desc(&scores));
}

#[test]
fn ordering_holds_vacuously_for_short_sequences() {
    assert!(is_sorted_desc(&vec![]));
    assert!(is_sorted_desc(&vec![whole(7)]));
}

#[test]
fn ordering_compares_exact_ratios() {
    // 1/1 >= 1/2 but not the other way round, and 2/4 ties with 1/2.
    let one = Score { new_participants: 1, delay: 1 };
    let half = Score { new_participants: 1, delay: 2 };
    let half_again = Score { new_participants: 2, delay: 4 };
    assert!(is_sorted_desc(&vec![one, half]));
    assert!(!is_sorted_desc(&vec![half, one]));
    assert!(is_sorted_desc(&vec![half, half_again]));
    assert!(is_sorted_desc(&vec![half_again, half]));
}

#[test]
fn timely_boundary_is_committed() {
    let mut t = ParticipationTracker::new();
    // Delay of exactly the threshold: five slots.
    let block = Block {
        slot: 10,
        graffiti: String::new(),
        attestations: vec![att(5, 0, vec![true])],
    };
    commit_block(&mut t, &block);
    assert!(t.current.contains(&key(5, 0, 0)));
}

#[test]
fn past_the_boundary_nothing_is_committed() {
    let mut t = ParticipationTracker::new();
    // Delay of threshold plus one: six slots.
    let block = Block {
        slot: 11,
        graffiti: String::new(),
        attestations: vec![att(5, 0, vec![true])],
    };
    commit_block(&mut t, &block);
    assert!(!t.current.contains(&key(5, 0, 0)));
    assert!(!t.previous.contains(&key(5, 0, 0)));
}

#[test]
fn commit_routes_previous_epoch_keys_to_previous_set() {
    let mut t = ParticipationTracker::new();
    t.roll(1);
    let block = Block {
        slot: 33,
        graffiti: String::new(),
        attestations: vec![att(31, 4, vec![false, true]), att(32, 0, vec![true])],
    };
    commit_block(&mut t, &block);
    assert!(t.previous.contains(&key(31, 4, 1)));
    assert!(t.current.contains(&key(32, 0, 0)));
}

#[test]
fn commit_skips_unset_bits() {
    let mut t = ParticipationTracker::new();
    let block = Block {
        slot: 10,
        graffiti: String::new(),
        attestations: vec![att(9, 0, vec![false, true])],
    };
    commit_block(&mut t, &block);
    assert!(!t.current.contains(&key(9, 0, 0)));
    assert!(t.current.contains(&key(9, 0, 1)));
}

#[test]
fn counters_route_by_proxy_and_verdict() {
    let mut c = AccuracyCounters::new();
    c.record(true, true);
    c.record(true, false);
    c.record(false, true);
    c.record(false, false);
    c.record(false, false);
    assert_eq!(c.yes_lodestar_ok, 1);
    assert_eq!(c.yes_lodestar_bad, 1);
    assert_eq!(c.not_lodestar_bad, 1);
    assert_eq!(c.not_lodestar_ok, 2);
}

#[test]
fn matching_block_with_a_pair_counts_as_agreement() {
    let mut t = ParticipationTracker::new();
    let mut c = AccuracyCounters::new();
    // Two attestations share one data payload (group of two) and earn the
    // same score, so both predicates hold.
    let block = Block {
        slot: 10,
        graffiti: String::from("Lodestar rocks"),
        attestations: vec![att(8, 0, vec![true, false]), att(8, 0, vec![false, true])],
    };
    let rep = process_block(&mut t, &mut c, &block);
    assert!(rep.grouping_ok);
    assert!(rep.ordering_ok);
    assert!(rep.algorithm_verdict);
    assert!(rep.graffiti_proxy);
    assert_eq!(rep.scores, vec![
        Score { new_participants: 1, delay: 2 },
        Score { new_participants: 1, delay: 2 },
    ]);
    assert_eq!(c.yes_lodestar_ok, 1);
    assert_eq!(c.yes_lodestar_bad, 0);
    assert_eq!(c.not_lodestar_ok, 0);
    assert_eq!(c.not_lodestar_bad, 0);
}

#[test]
fn triple_group_fails_the_verdict_whatever_the_scores() {
    let mut t = ParticipationTracker::new();
    let mut c = AccuracyCounters::new();
    let block = Block {
        slot: 10,
        graffiti: String::from("anything"),
        attestations: vec![
            att(9, 0, vec![true, true, true]),
            att(9, 0, vec![true, true]),
            att(9, 0, vec![true]),
        ],
    };
    let rep = process_block(&mut t, &mut c, &block);
    assert!(!rep.grouping_ok);
    assert!(rep.ordering_ok);
    assert!(!rep.algorithm_verdict);
    assert!(!rep.graffiti_proxy);
    assert_eq!(c.not_lodestar_ok, 1);
}

#[test]
fn scoring_sees_the_state_before_the_commit() {
    let mut t = ParticipationTracker::new();
    let mut c = AccuracyCounters::new();
    let block = Block {
        slot: 10,
        graffiti: String::new(),
        attestations: vec![att(9, 0, vec![true])],
    };
    let first = process_block(&mut t, &mut c, &block);
    assert_eq!(first.scores, vec![Score { new_participants: 1, delay: 1 }]);
    // The same block again: its participant is now already credited.
    let second = process_block(&mut t, &mut c, &block);
    assert_eq!(second.scores, vec![Score { new_participants: 0, delay: 1 }]);
}

#[test]
fn process_block_rolls_before_scoring() {
    let mut t = ParticipationTracker::new();
    let mut c = AccuracyCounters::new();
    let epoch0 = Block {
        slot: 10,
        graffiti: String::new(),
        attestations: vec![att(9, 0, vec![true])],
    };
    process_block(&mut t, &mut c, &epoch0);
    assert!(t.current.contains(&key(9, 0, 0)));
    // Two epochs later the credit from epoch zero is stale and discarded.
    let epoch2 = Block { slot: 65, graffiti: String::new(), attestations: vec![] };
    process_block(&mut t, &mut c, &epoch2);
    assert_eq!(t.epoch_cursor, 2);
    assert!(!t.current.contains(&key(9, 0, 0)));
    assert!(!t.previous.contains(&key(9, 0, 0)));
}
