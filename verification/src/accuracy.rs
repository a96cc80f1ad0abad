//! Running agreement counters between the graffiti proxy and the
//! packing-algorithm verdict.

use vstd::prelude::*;

verus! {

/// Four running counters keyed by (graffiti proxy, algorithm verdict).
/// `ok` counts agreement between the two, `bad` disagreement; the
/// `yes`/`not` half is chosen by the graffiti proxy. Counters only ever grow
/// and are reset only at process start.
#[derive(Clone, Copy, PartialEq, Eq, Structural, Debug)]
pub struct AccuracyCounters {
    pub yes_lodestar_ok: u64,
    pub yes_lodestar_bad: u64,
    pub not_lodestar_ok: u64,
    pub not_lodestar_bad: u64,
}

/// Which counter a block falls into and how the others stay put.
pub open spec fn record_spec(c: AccuracyCounters, proxy: bool, verdict: bool) -> AccuracyCounters {
    if proxy && verdict {
        AccuracyCounters { yes_lodestar_ok: (c.yes_lodestar_ok + 1) as u64, ..c }
    } else if proxy && !verdict {
        AccuracyCounters { yes_lodestar_bad: (c.yes_lodestar_bad + 1) as u64, ..c }
    } else if !proxy && verdict {
        AccuracyCounters { not_lodestar_bad: (c.not_lodestar_bad + 1) as u64, ..c }
    } else {
        AccuracyCounters { not_lodestar_ok: (c.not_lodestar_ok + 1) as u64, ..c }
    }
}

/// Room for one more block in every counter.
pub open spec fn has_headroom(c: AccuracyCounters) -> bool {
    &&& c.yes_lodestar_ok < u64::MAX
    &&& c.yes_lodestar_bad < u64::MAX
    &&& c.not_lodestar_ok < u64::MAX
    &&& c.not_lodestar_bad < u64::MAX
}

impl AccuracyCounters {
    /// All four counters at zero.
    pub fn new() -> (c: AccuracyCounters)
        ensures
            c == (AccuracyCounters {
                yes_lodestar_ok: 0,
                yes_lodestar_bad: 0,
                not_lodestar_ok: 0,
                not_lodestar_bad: 0,
            }),
    {
        AccuracyCounters {
            yes_lodestar_ok: 0,
            yes_lodestar_bad: 0,
            not_lodestar_ok: 0,
            not_lodestar_bad: 0,
        }
    }

    /// Adds one block's outcome: exactly the counter matching the pair of
    /// verdicts grows by one.
    pub fn record(&mut self, proxy: bool, verdict: bool)
        requires
            proxy && verdict ==> old(self).yes_lodestar_ok < u64::MAX,
            proxy && !verdict ==> old(self).yes_lodestar_bad < u64::MAX,
            !proxy && verdict ==> old(self).not_lodestar_bad < u64::MAX,
            !proxy && !verdict ==> old(self).not_lodestar_ok < u64::MAX,
        ensures
            *final(self) == record_spec(*old(self), proxy, verdict),
    {
        if proxy && verdict {
            self.yes_lodestar_ok += 1;
        } else if proxy && !verdict {
            self.yes_lodestar_bad += 1;
        } else if !proxy && verdict {
            self.not_lodestar_bad += 1;
        } else {
            self.not_lodestar_ok += 1;
        }
    }
}

} // verus!
