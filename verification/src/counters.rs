//! Lookup telemetry for the corpus: two monotonically increasing counters.

use vstd::prelude::*;

verus! {

/// Counts how many corpus lookups found a package (`found`) and how many
/// missed (`not_found`). The owner reads the totals exactly once at the end
/// of a run through [`Counters::finalize`].
pub struct Counters {
    pub found: u64,
    pub not_found: u64,
}

impl Counters {
    /// A fresh pair of counters, both zero.
    pub fn new() -> (c: Counters)
        ensures
            c.found == 0,
            c.not_found == 0,
    {
        Counters { found: 0, not_found: 0 }
    }

    /// Records one successful lookup.
    pub fn found(&mut self)
        requires
            old(self).found < u64::MAX,
        ensures
            final(self).found == old(self).found + 1,
            final(self).not_found == old(self).not_found,
    {
        self.found = self.found + 1;
    }

    /// Records one failed lookup.
    pub fn not_found(&mut self)
        requires
            old(self).not_found < u64::MAX,
        ensures
            final(self).not_found == old(self).not_found + 1,
            final(self).found == old(self).found,
    {
        self.not_found = self.not_found + 1;
    }

    /// Consumes the counters and hands both totals to the owner, so that the
    /// end-of-run telemetry record is emitted exactly once.
    pub fn finalize(self) -> (totals: (u64, u64))
        ensures
            totals.0 == self.found,
            totals.1 == self.not_found,
    {
        (self.found, self.not_found)
    }
}

/// The counter pair after a sequence of lookup outcomes (`true`: the name was
/// found, `false`: it was not), one increment per outcome — the step that
/// [`Counters::found`] and [`Counters::not_found`] each perform.
pub open spec fn spec_after_lookups(found: int, not_found: int, outcomes: Seq<bool>) -> (int, int)
    decreases outcomes.len(),
{
    if outcomes.len() == 0 {
        (found, not_found)
    } else {
        let rest = spec_after_lookups(found, not_found, outcomes.drop_last());
        if outcomes.last() {
            (rest.0 + 1, rest.1)
        } else {
            (rest.0, rest.1 + 1)
        }
    }
}

/// How many outcomes in a lookup sequence were hits.
pub open spec fn count_hits(outcomes: Seq<bool>) -> int
    decreases outcomes.len(),
{
    if outcomes.len() == 0 {
        0
    } else {
        count_hits(outcomes.drop_last()) + if outcomes.last() {
            1int
        } else {
            0int
        }
    }
}

/// After `k` lookups of existing names and `m` lookups of absent names, in
/// any interleaving, the counters hold exactly `found + k` and
/// `not_found + m`.
pub proof fn lemma_lookup_totals(found: int, not_found: int, outcomes: Seq<bool>)
    ensures
        spec_after_lookups(found, not_found, outcomes) == (
            found + count_hits(outcomes),
            not_found + outcomes.len() - count_hits(outcomes),
        ),
    decreases outcomes.len(),
{
    if outcomes.len() > 0 {
        lemma_lookup_totals(found, not_found, outcomes.drop_last());
    }
}

} // verus!
