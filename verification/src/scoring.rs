//! Per-attestation novelty scores against the pre-block participation state.

use vstd::prelude::*;

use crate::blocks::{epoch_of_spec, Attestation, AttestationData, Block};
use crate::participation::{ParticipationKey, ParticipationSet, ParticipationTracker, TrackerView};

verus! {

/// The novelty score of one attestation: the number of asserted participants
/// not yet credited in the relevant participation set, divided by the
/// inclusion delay in slots. The quotient is kept exact as a rational with a
/// positive denominator instead of being evaluated.
#[derive(Clone, Copy, PartialEq, Eq, Structural, Debug)]
pub struct Score {
    /// Set bits whose participation key was absent from the relevant set.
    pub new_participants: u64,
    /// Inclusion delay: block slot minus attested slot, at least one.
    pub delay: u64,
}

impl Score {
    /// A score's denominator is an inclusion delay, which the protocol keeps
    /// at one slot or more.
    pub open spec fn wf(self) -> bool {
        self.delay >= 1
    }
}

/// The participation key of bit position `i` of an attestation's bitset.
pub open spec fn key_at(data: AttestationData, i: int) -> ParticipationKey {
    ParticipationKey { slot: data.slot, index: data.index, bit: i as u64 }
}

/// The participation set an attestation is judged against: the current set
/// when the attested slot falls in the cursor's epoch, the previous set
/// otherwise.
pub open spec fn relevant_set(t: TrackerView, data: AttestationData) -> Set<ParticipationKey> {
    if epoch_of_spec(data.slot) == t.cursor {
        t.current
    } else {
        t.previous
    }
}

/// How many of the first `n` bits are set and carry a key absent from `pset`.
pub open spec fn count_not_seen(
    bits: Seq<bool>,
    data: AttestationData,
    pset: Set<ParticipationKey>,
    n: int,
) -> nat
    decreases n,
{
    if n <= 0 {
        0
    } else {
        count_not_seen(bits, data, pset, n - 1) + (if bits[n - 1] && !pset.contains(
            key_at(data, n - 1),
        ) {
            1nat
        } else {
            0nat
        })
    }
}

/// The count over a prefix never exceeds the prefix length.
pub proof fn lemma_count_not_seen_bound(
    bits: Seq<bool>,
    data: AttestationData,
    pset: Set<ParticipationKey>,
    n: int,
)
    ensures
        count_not_seen(bits, data, pset, n) <= (if n <= 0 {
            0int
        } else {
            n
        }),
    decreases n,
{
    if n > 0 {
        lemma_count_not_seen_bound(bits, data, pset, n - 1);
    }
}

/// How many of the first `n` bits are set at all.
pub open spec fn count_true(bits: Seq<bool>, n: int) -> nat
    decreases n,
{
    if n <= 0 {
        0
    } else {
        count_true(bits, n - 1) + (if bits[n - 1] {
            1nat
        } else {
            0nat
        })
    }
}

/// When none of the set bits' keys are in the participation set, the
/// not-seen count equals the plain number of set bits.
pub proof fn lemma_count_all_unseen(
    bits: Seq<bool>,
    data: AttestationData,
    pset: Set<ParticipationKey>,
    n: int,
)
    requires
        forall|i: int| 0 <= i < n && bits[i] ==> !pset.contains(key_at(data, i)),
    ensures
        count_not_seen(bits, data, pset, n) == count_true(bits, n),
    decreases n,
{
    if n > 0 {
        lemma_count_all_unseen(bits, data, pset, n - 1);
    }
}

/// The score one attestation earns against the given participation state.
pub open spec fn score_of(t: TrackerView, block_slot: u64, att: Attestation) -> Score
    recommends
        att.data.slot < block_slot,
{
    Score {
        new_participants: count_not_seen(
            att.aggregation_bits@,
            att.data,
            relevant_set(t, att.data),
            att.aggregation_bits@.len() as int,
        ) as u64,
        delay: (block_slot - att.data.slot) as u64,
    }
}

/// The scores of a block's attestations, in the order they were packed.
pub open spec fn scores_of(t: TrackerView, block: Block) -> Seq<Score> {
    block.attestations@.map(|i: int, a: Attestation| score_of(t, block.slot, a))
}

/// Counts the set bits of an attestation's bitset whose participation key is
/// absent from the given set.
pub fn not_seen_participants(att: &Attestation, pset: &ParticipationSet) -> (n: u64)
    ensures
        n == count_not_seen(
            att.aggregation_bits@,
            att.data,
            pset@,
            att.aggregation_bits@.len() as int,
        ),
{
    let mut n: u64 = 0;
    let mut i: usize = 0;
    while i < att.aggregation_bits.len()
        invariant
            i <= att.aggregation_bits@.len(),
            n == count_not_seen(att.aggregation_bits@, att.data, pset@, i as int),
            n <= i,
        decreases att.aggregation_bits@.len() - i,
    {
        if att.aggregation_bits[i] {
            let k = ParticipationKey { slot: att.data.slot, index: att.data.index, bit: i as u64 };
            if !pset.contains(&k) {
                n += 1;
            }
        }
        i += 1;
    }
    n
}

/// Scores every attestation of a block against the pre-block participation
/// state. Reads the tracker only; scoring never mutates participation.
pub fn score_block(t: &ParticipationTracker, block: &Block) -> (scores: Vec<Score>)
    requires
        block.delays_positive(),
    ensures
        scores@ == scores_of(t@, *block),
        forall|i: int| 0 <= i < scores@.len() ==> (#[trigger] scores@[i]).wf(),
{
    let mut scores: Vec<Score> = Vec::new();
    let mut j: usize = 0;
    while j < block.attestations.len()
        invariant
            j <= block.attestations@.len(),
            block.delays_positive(),
            scores@ == scores_of(t@, *block).take(j as int),
            forall|i: int| 0 <= i < scores@.len() ==> (#[trigger] scores@[i]).wf(),
        decreases block.attestations@.len() - j,
    {
        let att = &block.attestations[j];
        let not_seen =if crate::blocks::epoch_of(att.data.slot) == t.epoch_cursor {
            not_seen_participants(att, &t.current)
        } else {
            not_seen_participants(att, &t.previous)
        };
        proof {
            lemma_count_not_seen_bound(
                att.aggregation_bits@,
                att.data,
                relevant_set(t@, att.data),
                att.aggregation_bits@.len() as int,
            );
        }
        let s = Score { new_participants: not_seen, delay: block.slot - att.data.slot };
        scores.push(s);
        proof {
            assert(s == score_of(t@, block.slot, block.attestations@[j as int]));
            assert(scores@ =~= scores_of(t@, *block).take(j + 1));
        }
        j += 1;
    }
    proof {
        assert(scores@ =~= scores_of(t@, *block));
    }
    scores
}

/// Re-scoring the same block against the same, unmodified participation
/// state yields identical scores: the score sequence is a function of the
/// state and the block alone.
pub proof fn lemma_scoring_idempotent(t: TrackerView, block: Block, s1: Seq<Score>, s2: Seq<Score>)
    requires
        s1 == scores_of(t, block),
        s2 == scores_of(t, block),
    ensures
        s1 == s2,
{
}

} // verus!
