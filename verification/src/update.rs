//! Committing newly observed timely attesters into the rolling participation
//! state, after a block has been scored.

use vstd::prelude::*;

use crate::blocks::{epoch_of, epoch_of_spec, Attestation, AttestationData, Block};
use crate::participation::{ParticipationKey, ParticipationSet, ParticipationTracker, TrackerView};
use crate::scoring::key_at;

verus! {

/// Only attestations included within this many slots of the attested slot are
/// credited as participation. A deliberately approximate proxy for the
/// protocol's timely-source rule, not the exact consensus bound.
pub const TIMELY_SOURCE_THRESHOLD: u64 = 5;

/// Whether an attestation was included in time to count as a timely source.
/// The boundary is inclusive: a delay equal to the threshold still counts.
pub open spec fn is_timely(block_slot: u64, data: AttestationData) -> bool
    recommends
        data.slot < block_slot,
{
    block_slot - data.slot <= TIMELY_SOURCE_THRESHOLD
}

/// Every participation key asserted by an attestation's set bits.
pub open spec fn att_keys(att: Attestation) -> Set<ParticipationKey> {
    Set::new(
        |k: ParticipationKey|
            exists|i: int|
                0 <= i < att.aggregation_bits@.len() && att.aggregation_bits@[i] && k == key_at(
                    att.data,
                    i,
                ),
    )
}

/// The keys asserted by the first `m` bits of an attestation's bitset.
spec fn att_keys_prefix(att: Attestation, m: int) -> Set<ParticipationKey> {
    Set::new(
        |k: ParticipationKey|
            exists|i: int|
                0 <= i < m && att.aggregation_bits@[i] && k == key_at(att.data, i),
    )
}

/// Whether attestation `j` of the block commits key `k` into the set chosen
/// by `to_current`: it must be timely, its attested epoch must match the
/// cursor's epoch exactly when `to_current` says so, and one of its set bits
/// must carry the key.
pub open spec fn attests_key(
    block: Block,
    cursor: u64,
    to_current: bool,
    j: int,
    k: ParticipationKey,
) -> bool {
    let att = block.attestations@[j];
    &&& is_timely(block.slot, att.data)
    &&& (epoch_of_spec(att.data.slot) == cursor) == to_current
    &&& att_keys(att).contains(k)
}

/// The keys the first `n` attestations of the block commit into the set
/// chosen by `to_current`.
pub open spec fn committed_prefix(block: Block, cursor: u64, to_current: bool, n: int) -> Set<
    ParticipationKey,
> {
    Set::new(
        |k: ParticipationKey|
            exists|j: int| 0 <= j < n && attests_key(block, cursor, to_current, j, k),
    )
}

/// All keys the block commits into the set chosen by `to_current`.
pub open spec fn committed_keys(block: Block, cursor: u64, to_current: bool) -> Set<
    ParticipationKey,
> {
    committed_prefix(block, cursor, to_current, block.attestations@.len() as int)
}

/// What committing a block does to the participation state: both sets grow by
/// exactly the keys of the block's timely attestations, routed by whether the
/// attested epoch matches the cursor; the cursor itself is untouched.
pub open spec fn commit_spec(t: TrackerView, block: Block) -> TrackerView {
    TrackerView {
        previous: t.previous + committed_keys(block, t.cursor, false),
        current: t.current + committed_keys(block, t.cursor, true),
        cursor: t.cursor,
    }
}

/// Inserts every key asserted by the attestation's set bits into the set.
fn commit_attestation(pset: &mut ParticipationSet, att: &Attestation)
    ensures
        final(pset)@ == old(pset)@ + att_keys(*att),
{
    let mut i: usize = 0;
    while i < att.aggregation_bits.len()
        invariant
            i <= att.aggregation_bits@.len(),
            pset@ == old(pset)@ + att_keys_prefix(*att, i as int),
        decreases att.aggregation_bits@.len() - i,
    {
        let ghost pre = pset@;
        if att.aggregation_bits[i] {
            let k = ParticipationKey { slot: att.data.slot, index: att.data.index, bit: i as u64 };
            pset.insert(k);
            proof {
                assert(k == key_at(att.data, i as int));
                assert forall|x: ParticipationKey|
                    att_keys_prefix(*att, i + 1).contains(x) <==> (att_keys_prefix(
                        *att,
                        i as int,
                    ).contains(x) || x == k) by {
                    if att_keys_prefix(*att, i + 1).contains(x) && x != k {
                        let ii = choose|ii: int|
                            0 <= ii < i + 1 && att.aggregation_bits@[ii] && x == key_at(
                                att.data,
                                ii,
                            );
                        assert(ii < i);
                        assert(att_keys_prefix(*att, i as int).contains(x));
                    }
                }
                assert(pset@ =~= old(pset)@ + att_keys_prefix(*att, i + 1));
            }
        } else {
            proof {
                assert forall|x: ParticipationKey|
                    att_keys_prefix(*att, i + 1).contains(x) <==> att_keys_prefix(
                        *att,
                        i as int,
                    ).contains(x) by {
                    if att_keys_prefix(*att, i + 1).contains(x) {
                        let ii = choose|ii: int|
                            0 <= ii < i + 1 && att.aggregation_bits@[ii] && x == key_at(
                                att.data,
                                ii,
                            );
                        assert(ii < i);
                    }
                }
                assert(pset@ =~= old(pset)@ + att_keys_prefix(*att, i + 1));
            }
        }
        i += 1;
    }
    proof {
        assert(att_keys_prefix(*att, att.aggregation_bits@.len() as int) =~= att_keys(*att));
        assert(pset@ =~= old(pset)@ + att_keys(*att));
    }
}

/// Extending the commit by one attestation adds exactly that attestation's
/// keys when it is timely and routed to this set, and nothing otherwise.
proof fn lemma_committed_prefix_step(block: Block, cursor: u64, to_current: bool, j: int)
    requires
        0 <= j < block.attestations@.len(),
    ensures
        committed_prefix(block, cursor, to_current, j + 1) =~= committed_prefix(
            block,
            cursor,
            to_current,
            j,
        ) + (if is_timely(block.slot, block.attestations@[j].data) && ((epoch_of_spec(
            block.attestations@[j].data.slot,
        ) == cursor) == to_current) {
            att_keys(block.attestations@[j])
        } else {
            Set::empty()
        }),
{
    let contribution = if is_timely(block.slot, block.attestations@[j].data) && ((epoch_of_spec(
        block.attestations@[j].data.slot,
    ) == cursor) == to_current) {
        att_keys(block.attestations@[j])
    } else {
        Set::empty()
    };
    assert forall|k: ParticipationKey|
        committed_prefix(block, cursor, to_current, j + 1).contains(k) <==> (committed_prefix(
            block,
            cursor,
            to_current,
            j,
        ).contains(k) || contribution.contains(k)) by {
        if committed_prefix(block, cursor, to_current, j + 1).contains(k) {
            let jj = choose|jj: int| 0 <= jj < j + 1 && attests_key(block, cursor, to_current, jj, k);
            if jj < j {
                assert(committed_prefix(block, cursor, to_current, j).contains(k));
            } else {
                assert(contribution.contains(k));
            }
        }
        if committed_prefix(block, cursor, to_current, j).contains(k) {
            let jj = choose|jj: int| 0 <= jj < j && attests_key(block, cursor, to_current, jj, k);
            assert(attests_key(block, cursor, to_current, jj, k));
            assert(committed_prefix(block, cursor, to_current, j + 1).contains(k));
        }
        if contribution.contains(k) {
            assert(attests_key(block, cursor, to_current, j, k));
            assert(committed_prefix(block, cursor, to_current, j + 1).contains(k));
        }
    }
}

/// Applies the timely-source rule for every attestation of the block: each
/// timely attestation's asserted keys are inserted into the participation set
/// of the attested slot's epoch. Runs for all attestations, whatever the
/// classifier decided, and strictly after the block was scored.
pub fn commit_block(t: &mut ParticipationTracker, block: &Block)
    requires
        block.delays_positive(),
    ensures
        final(t)@ == commit_spec(old(t)@, *block),
{
    let ghost cursor = t.epoch_cursor;
    let mut j: usize = 0;
    while j < block.attestations.len()
        invariant
            j <= block.attestations@.len(),
            block.delays_positive(),
            t.epoch_cursor == old(t)@.cursor,
            t.current@ == old(t)@.current + committed_prefix(*block, old(t)@.cursor, true, j as int),
            t.previous@ == old(t)@.previous + committed_prefix(
                *block,
                old(t)@.cursor,
                false,
                j as int,
            ),
        decreases block.attestations@.len() - j,
    {
        let att = &block.attestations[j];
        let ghost pre_current = t.current@;
        let ghost pre_previous = t.previous@;
        let is_timely_source = block.slot - att.data.slot <= TIMELY_SOURCE_THRESHOLD;
        if is_timely_source {
            if epoch_of(att.data.slot) == t.epoch_cursor {
                commit_attestation(&mut t.current, att);
            } else {
                commit_attestation(&mut t.previous, att);
            }
        }
        proof {
            lemma_committed_prefix_step(*block, old(t)@.cursor, true, j as int);
            lemma_committed_prefix_step(*block, old(t)@.cursor, false, j as int);
            assert(t.current@ =~= old(t)@.current + committed_prefix(
                *block,
                old(t)@.cursor,
                true,
                j + 1,
            ));
            assert(t.previous@ =~= old(t)@.previous + committed_prefix(
                *block,
                old(t)@.cursor,
                false,
                j + 1,
            ));
        }
        j += 1;
    }
    proof {
        assert(t@.current =~= commit_spec(old(t)@, *block).current);
        assert(t@.previous =~= commit_spec(old(t)@, *block).previous);
    }
}

/// The timely boundary is inclusive: a delay equal to the threshold is
/// timely, one slot more is not.
pub proof fn lemma_timely_boundary(block_slot: u64, data: AttestationData)
    requires
        data.slot < block_slot,
    ensures
        block_slot - data.slot == TIMELY_SOURCE_THRESHOLD ==> is_timely(block_slot, data),
        block_slot - data.slot == TIMELY_SOURCE_THRESHOLD + 1 ==> !is_timely(block_slot, data),
{
}

/// Every set bit of a timely attestation has its key committed, into the set
/// matching the attested slot's epoch.
pub proof fn lemma_timely_key_committed(block: Block, cursor: u64, j: int, i: int)
    requires
        0 <= j < block.attestations@.len(),
        is_timely(block.slot, block.attestations@[j].data),
        0 <= i < block.attestations@[j].aggregation_bits@.len(),
        block.attestations@[j].aggregation_bits@[i],
    ensures
        committed_keys(
            block,
            cursor,
            epoch_of_spec(block.attestations@[j].data.slot) == cursor,
        ).contains(key_at(block.attestations@[j].data, i)),
{
    let att = block.attestations@[j];
    let k = key_at(att.data, i);
    assert(att_keys(att).contains(k));
    assert(attests_key(block, cursor, epoch_of_spec(att.data.slot) == cursor, j, k));
}

/// A key is committed only through some timely attestation that asserts it:
/// a block with no timely attestation commits nothing.
pub proof fn lemma_committed_requires_timely(
    block: Block,
    cursor: u64,
    to_current: bool,
    k: ParticipationKey,
)
    requires
        committed_keys(block, cursor, to_current).contains(k),
    ensures
        exists|j: int|
            0 <= j < block.attestations@.len() && is_timely(
                block.slot,
                (#[trigger] block.attestations@[j]).data,
            ) && att_keys(block.attestations@[j]).contains(k),
{
    let jj = choose|jj: int|
        0 <= jj < block.attestations@.len() && attests_key(block, cursor, to_current, jj, k);
    assert(is_timely(block.slot, block.attestations@[jj].data) && att_keys(
        block.attestations@[jj],
    ).contains(k));
}

} // verus!
