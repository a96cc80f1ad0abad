//! Rolling two-epoch record of which validators have already been credited
//! with an on-time attestation.

use vstd::prelude::*;

verus! {

/// Identifies one validator's on-time-attestation credit: the attested slot,
/// the committee index within that slot, and the bit position within the
/// committee's aggregation bitset.
#[derive(Clone, Copy, PartialEq, Eq, Structural, Debug)]
pub struct ParticipationKey {
    pub slot: u64,
    pub index: u64,
    pub bit: u64,
}

/// A set of participation keys. Keys are only ever added; removal happens
/// solely by the tracker discarding a whole set at an epoch rollover.
pub struct ParticipationSet {
    keys: Vec<ParticipationKey>,
}

impl View for ParticipationSet {
    type V = Set<ParticipationKey>;

    closed spec fn view(&self) -> Set<ParticipationKey> {
        self.keys@.to_set()
    }
}

impl ParticipationSet {
    /// An empty set.
    pub fn new() -> (s: ParticipationSet)
        ensures
            s@ == Set::<ParticipationKey>::empty(),
    {
        let s = ParticipationSet { keys: Vec::new() };
        proof {
            assert(s@ =~= Set::<ParticipationKey>::empty());
        }
        s
    }

    /// Whether the key has been credited already.
    pub fn contains(&self, k: &ParticipationKey) -> (r: bool)
        ensures
            r == self@.contains(*k),
    {
        let mut i: usize = 0;
        while i < self.keys.len()
            invariant
                i <= self.keys.len(),
                forall|j: int| 0 <= j < i ==> self.keys@[j] != *k,
            decreases self.keys.len() - i,
        {
            if self.keys[i].slot == k.slot && self.keys[i].index == k.index && self.keys[i].bit
                == k.bit {
                assert(self.keys@.contains(*k));
                return true;
            }
            i += 1;
        }
        assert(!self.keys@.contains(*k));
        false
    }

    /// Credits the key; a key already present stays as it is.
    pub fn insert(&mut self, k: ParticipationKey)
        ensures
            final(self)@ == old(self)@.insert(k),
    {
        if !self.contains(&k) {
            self.keys.push(k);
            proof {
                assert(self.keys@[self.keys@.len() - 1] == k);
                assert(self.keys@.contains(k));
                assert forall|x: ParticipationKey|
                    self.keys@.contains(x) <==> (old(self).keys@.contains(x) || x == k) by {
                    if old(self).keys@.contains(x) {
                        let j = choose|j: int|
                            0 <= j < old(self).keys@.len() && old(self).keys@[j] == x;
                        assert(self.keys@[j] == x);
                    }
                    if self.keys@.contains(x) && x != k {
                        let j = choose|j: int| 0 <= j < self.keys@.len() && self.keys@[j] == x;
                        assert(old(self).keys@[j] == x);
                    }
                }
                assert(self@ =~= old(self)@.insert(k));
            }
        } else {
            proof {
                assert(self@ =~= old(self)@.insert(k));
            }
        }
    }

    /// Discards every credit in the set.
    pub fn clear(&mut self)
        ensures
            final(self)@ == Set::<ParticipationKey>::empty(),
    {
        self.keys.clear();
        proof {
            assert(self@ =~= Set::<ParticipationKey>::empty());
        }
    }
}

/// The participation state a tracker holds, seen abstractly: the credited
/// keys of the epoch before the cursor, those of the cursor's epoch, and the
/// cursor itself (the epoch of the most recently processed block).
pub struct TrackerView {
    pub previous: Set<ParticipationKey>,
    pub current: Set<ParticipationKey>,
    pub cursor: u64,
}

/// Rolling participation state across epochs: one set for the epoch before
/// the cursor and one for the cursor's epoch.
pub struct ParticipationTracker {
    pub previous: ParticipationSet,
    pub current: ParticipationSet,
    pub epoch_cursor: u64,
}

impl View for ParticipationTracker {
    type V = TrackerView;

    open spec fn view(&self) -> TrackerView {
        TrackerView { previous: self.previous@, current: self.current@, cursor: self.epoch_cursor }
    }
}

/// What rolling the tracker to a block's epoch does to the state: advancing
/// by exactly one epoch shifts the current set into the previous one and
/// starts a fresh current set; advancing by more than one discards both sets;
/// any epoch not beyond the cursor leaves both sets untouched. The cursor
/// always moves to the block's epoch.
pub open spec fn roll_spec(t: TrackerView, block_epoch: u64) -> TrackerView {
    if block_epoch > t.cursor + 1 {
        TrackerView {
            previous: Set::empty(),
            current: Set::empty(),
            cursor: block_epoch,
        }
    } else if block_epoch == t.cursor + 1 {
        TrackerView { previous: t.current, current: Set::empty(), cursor: block_epoch }
    } else {
        TrackerView { previous: t.previous, current: t.current, cursor: block_epoch }
    }
}

impl ParticipationTracker {
    /// A fresh tracker: both sets empty, cursor at epoch zero.
    pub fn new() -> (t: ParticipationTracker)
        ensures
            t@.previous == Set::<ParticipationKey>::empty(),
            t@.current == Set::<ParticipationKey>::empty(),
            t@.cursor == 0,
    {
        ParticipationTracker {
            previous: ParticipationSet::new(),
            current: ParticipationSet::new(),
            epoch_cursor: 0,
        }
    }

    /// Applies the epoch-rollover rule for a block of the given epoch. Must
    /// run once per block, before that block is scored.
    pub fn roll(&mut self, block_epoch: u64)
        ensures
            final(self)@ == roll_spec(old(self)@, block_epoch),
    {
        if block_epoch > self.epoch_cursor && block_epoch - self.epoch_cursor > 1 {
            self.previous.clear();
            self.current.clear();
        } else if block_epoch > self.epoch_cursor && block_epoch - self.epoch_cursor == 1 {
            core::mem::swap(&mut self.previous, &mut self.current);
            self.current.clear();
        }
        self.epoch_cursor = block_epoch;
    }
}

/// The rollover rule, case by case: a step of exactly one epoch makes the old
/// current set the new previous set and empties the current one; a larger
/// step empties both; an epoch at or below the cursor changes neither set.
pub proof fn lemma_roll_transitions(t: TrackerView, block_epoch: u64)
    ensures
        block_epoch == t.cursor + 1 ==> roll_spec(t, block_epoch).previous == t.current
            && roll_spec(t, block_epoch).current == Set::<ParticipationKey>::empty(),
        block_epoch > t.cursor + 1 ==> roll_spec(t, block_epoch).previous == Set::<
            ParticipationKey,
        >::empty() && roll_spec(t, block_epoch).current == Set::<ParticipationKey>::empty(),
        block_epoch <= t.cursor ==> roll_spec(t, block_epoch).previous == t.previous && roll_spec(
            t,
            block_epoch,
        ).current == t.current,
        roll_spec(t, block_epoch).cursor == block_epoch,
{
}

} // verus!
