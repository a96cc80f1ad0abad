//! The per-block step of the analysis: roll the participation state to the
//! block's epoch, score the attestations against the pre-block state, apply
//! the two structural predicates and the graffiti proxy, commit timely
//! participation, and update the agreement counters.

use vstd::prelude::*;

use crate::accuracy::{has_headroom, record_spec, AccuracyCounters};
use crate::blocks::{epoch_of, epoch_of_spec, Block};
use crate::classify::{
    algorithm_verdict, grouping_ok, grouping_ok_spec, is_sorted_desc, sorted_desc,
};
use crate::graffiti::{contains_seq, is_lodestar_graffiti, lodestar_token, lower_of};
use crate::participation::{roll_spec, ParticipationTracker};
use crate::scoring::{score_block, scores_of, Score};
use crate::update::{commit_block, commit_spec};

verus! {

/// What one processed block yields: the two structural predicates, their
/// combined verdict, the graffiti proxy, and the raw score sequence in block
/// order.
#[derive(Debug)]
pub struct BlockReport {
    pub grouping_ok: bool,
    pub ordering_ok: bool,
    pub algorithm_verdict: bool,
    pub graffiti_proxy: bool,
    pub scores: Vec<Score>,
}

/// Processes one block against the rolling state: the tracker is first
/// rolled to the block's epoch, the scores are taken against that pre-block
/// state, the verdicts are formed, and only then is timely participation
/// committed and the matching counter bumped.
pub fn process_block(
    t: &mut ParticipationTracker,
    counters: &mut AccuracyCounters,
    block: &Block,
) -> (rep: BlockReport)
    requires
        block.delays_positive(),
        has_headroom(*old(counters)),
    ensures
        ({
            let rolled = roll_spec(old(t)@, epoch_of_spec(block.slot));
            &&& rep.scores@ == scores_of(rolled, *block)
            &&& rep.grouping_ok == grouping_ok_spec(block.attestations@)
            &&& rep.ordering_ok == sorted_desc(rep.scores@)
            &&& rep.algorithm_verdict == algorithm_verdict(rep.grouping_ok, rep.ordering_ok)
            &&& rep.graffiti_proxy == contains_seq(lower_of(block.graffiti@), lodestar_token())
            &&& final(t)@ == commit_spec(rolled, *block)
            &&& *final(counters) == record_spec(
                *old(counters),
                rep.graffiti_proxy,
                rep.algorithm_verdict,
            )
        }),
{
    let block_epoch = epoch_of(block.slot);
    t.roll(block_epoch);
    let scores = score_block(t, block);
    let grouping = grouping_ok(&block.attestations);
    let ordering = is_sorted_desc(&scores);
    let verdict = grouping && ordering;
    let proxy = is_lodestar_graffiti(block.graffiti.as_str());
    commit_block(t, block);
    counters.record(proxy, verdict);
    BlockReport {
        grouping_ok: grouping,
        ordering_ok: ordering,
        algorithm_verdict: verdict,
        graffiti_proxy: proxy,
        scores,
    }
}

} // verus!
