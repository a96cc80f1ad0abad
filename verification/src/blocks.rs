//! Plain data model of the chain objects the analysis reads: slots, epochs,
//! attestations and blocks.

use vstd::prelude::*;

verus! {

/// Number of slots in one epoch on the analyzed chain.
pub const SLOTS_PER_EPOCH: u64 = 32;

/// The epoch that a slot belongs to: integer division by the epoch length.
pub open spec fn epoch_of_spec(slot: u64) -> u64 {
    slot / SLOTS_PER_EPOCH
}

/// Computes the epoch of a slot.
pub fn epoch_of(slot: u64) -> (e: u64)
    ensures
        e == epoch_of_spec(slot),
{
    slot / SLOTS_PER_EPOCH
}

/// The payload that an attestation votes for. Attestations that share an
/// identical payload form a "group" within a block.
#[derive(Clone, Copy, PartialEq, Eq, Structural, Debug)]
pub struct AttestationData {
    /// The slot the attestation votes for.
    pub slot: u64,
    /// The committee index within that slot.
    pub index: u64,
}

/// One aggregated attestation as packed into a block: a data payload plus a
/// bitset saying which committee members' votes are aggregated into it.
#[derive(Debug)]
pub struct Attestation {
    pub data: AttestationData,
    pub aggregation_bits: Vec<bool>,
}

/// A decoded block, reduced to the fields the analysis reads.
#[derive(Debug)]
pub struct Block {
    /// The slot the block was proposed in.
    pub slot: u64,
    /// Free-text field set by the proposer; an unverified label only.
    pub graffiti: String,
    /// Attestations in the order the proposer packed them.
    pub attestations: Vec<Attestation>,
}

impl Block {
    /// Every attestation in the block votes for a slot strictly before the
    /// block's own slot, so each inclusion delay is at least one slot.
    pub open spec fn delays_positive(self) -> bool {
        forall|i: int|
            0 <= i < self.attestations@.len() ==> self.attestations@[i].data.slot < self.slot
    }
}

} // verus!
