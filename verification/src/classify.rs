//! The two structural predicates over a block's attestations and scores, and
//! their combination into the packing-algorithm verdict.

use vstd::prelude::*;

use crate::blocks::{Attestation, AttestationData};
use crate::scoring::Score;

verus! {

/// The packing algorithm under test never puts more than this many
/// attestations with an identical data payload into one block.
pub const MAX_ATTESTATIONS_PER_GROUP: usize = 2;

/// How many of the first `n` attestations carry exactly this data payload.
pub open spec fn count_matching(atts: Seq<Attestation>, d: AttestationData, n: int) -> nat
    decreases n,
{
    if n <= 0 {
        0
    } else {
        count_matching(atts, d, n - 1) + (if atts[n - 1].data == d {
            1nat
        } else {
            0nat
        })
    }
}

/// The size of the group an attestation's data payload forms in the block.
pub open spec fn group_count(atts: Seq<Attestation>, d: AttestationData) -> nat {
    count_matching(atts, d, atts.len() as int)
}

/// The grouping predicate: no data payload is shared by more attestations
/// than the packing algorithm would group together.
pub open spec fn grouping_ok_spec(atts: Seq<Attestation>) -> bool {
    forall|i: int|
        0 <= i < atts.len() ==> group_count(atts, #[trigger] atts[i].data)
            <= MAX_ATTESTATIONS_PER_GROUP
}

/// Counts the attestations among the first `n` whose data equals `d`.
fn count_group(atts: &Vec<Attestation>, d: &AttestationData) -> (c: usize)
    ensures
        c == group_count(atts@, *d),
{
    let mut c: usize = 0;
    let mut i: usize = 0;
    while i < atts.len()
        invariant
            i <= atts@.len(),
            c == count_matching(atts@, *d, i as int),
            c <= i,
        decreases atts@.len() - i,
    {
        if atts[i].data == *d {
            c += 1;
        }
        i += 1;
    }
    c
}

/// Decides the grouping predicate for a block's attestations.
pub fn grouping_ok(atts: &Vec<Attestation>) -> (r: bool)
    ensures
        r == grouping_ok_spec(atts@),
{
    let mut i: usize = 0;
    while i < atts.len()
        invariant
            i <= atts@.len(),
            forall|j: int|
                0 <= j < i ==> group_count(atts@, #[trigger] atts@[j].data)
                    <= MAX_ATTESTATIONS_PER_GROUP,
        decreases atts@.len() - i,
    {
        let c = count_group(atts, &atts[i].data);
        if c > MAX_ATTESTATIONS_PER_GROUP {
            return false;
        }
        i += 1;
    }
    true
}

/// The grouping predicate fails exactly when some data payload is shared by
/// three or more attestations of the block.
pub proof fn lemma_grouping_violation(atts: Seq<Attestation>)
    ensures
        !grouping_ok_spec(atts) <==> exists|i: int|
            0 <= i < atts.len() && group_count(atts, #[trigger] atts[i].data) >= 3,
{
}

/// Exact comparison of two scores as rationals: with positive denominators,
/// `a.new_participants / a.delay >= b.new_participants / b.delay` holds
/// exactly when the cross products are so ordered.
pub open spec fn score_ge(a: Score, b: Score) -> bool {
    a.new_participants * b.delay >= b.new_participants * a.delay
}

/// Decides `score_ge` on concrete scores. The cross products of two 64-bit
/// values always fit in 128 bits.
pub fn score_ge_exec(a: &Score, b: &Score) -> (r: bool)
    ensures
        r == score_ge(*a, *b),
{
    proof {
        assert((a.new_participants as int) * (b.delay as int) <= (u64::MAX as int) * (
        u64::MAX as int) && (b.new_participants as int) * (a.delay as int) <= (u64::MAX as int) * (
        u64::MAX as int)) by (nonlinear_arith)
            requires
                a.new_participants <= u64::MAX,
                b.new_participants <= u64::MAX,
                a.delay <= u64::MAX,
                b.delay <= u64::MAX,
        ;
    }
    let lhs: u128 = (a.new_participants as u128) * (b.delay as u128);
    let rhs: u128 = (b.new_participants as u128) * (a.delay as u128);
    lhs >= rhs
}

/// The ordering predicate: the scores, in the attestations' block order,
/// never increase from one to the next. Empty and single-element sequences
/// satisfy it vacuously.
pub open spec fn sorted_desc(scores: Seq<Score>) -> bool {
    forall|i: int| 0 <= i && i + 1 < scores.len() ==> score_ge(#[trigger] scores[i], scores[i + 1])
}

/// Decides the ordering predicate for a score sequence.
pub fn is_sorted_desc(scores: &Vec<Score>) -> (r: bool)
    ensures
        r == sorted_desc(scores@),
{
    if scores.len() == 0 {
        return true;
    }
    let n = scores.len();
    let mut i: usize = 0;
    while i < n - 1
        invariant
            n == scores@.len(),
            1 <= n,
            i < n,
            forall|j: int| 0 <= j && j + 1 <= i ==> score_ge(#[trigger] scores@[j], scores@[j + 1]),
        decreases scores@.len() - i,
    {
        if !score_ge_exec(&scores[i], &scores[i + 1]) {
            return false;
        }
        i += 1;
    }
    true
}

/// Both structural predicates must hold for a block to be classified as
/// built by the client whose packing pattern is being looked for.
pub open spec fn algorithm_verdict(grouping: bool, ordering: bool) -> bool {
    grouping && ordering
}

} // verus!
