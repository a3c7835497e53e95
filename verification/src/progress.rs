//! Progress of a run: how many entries ended in each way, and which entry
//! ended last. The counters only ever grow.

use crate::resolve::{Outcome, OutcomeView};
use vstd::prelude::*;
use vstd::string::*;

verus! {

/// The four counters of a run, as read at one moment.
#[derive(Clone, Copy, Debug, PartialEq, Eq)]
pub struct SyncStats {
    pub downloaded: usize,
    pub unchanged: usize,
    pub removed: usize,
    pub failed: usize,
}

/// Progress of a run. `total` is fixed when the run starts; one counter for
/// each kind of outcome grows as entries end.
#[derive(Debug)]
pub struct SyncProgress {
    total: usize,
    downloaded: usize,
    unchanged: usize,
    removed: usize,
    failed: usize,
    last_mod: Option<String>,
}

/// Mathematical value of a `SyncProgress`.
pub struct SyncProgressView {
    pub total: nat,
    pub downloaded: nat,
    pub unchanged: nat,
    pub removed: nat,
    pub failed: nat,
    /// File name of the entry that ended last, if any has ended.
    pub last: Option<Seq<char>>,
}

impl SyncProgressView {
    /// Progress of a run of `total` entries of which none has ended.
    pub open spec fn start(total: nat) -> SyncProgressView {
        SyncProgressView { total, downloaded: 0, unchanged: 0, removed: 0, failed: 0, last: None }
    }

    /// Number of entries that have ended: the sum of the four counters.
    pub open spec fn processed(self) -> nat {
        self.downloaded + self.unchanged + self.removed + self.failed
    }

    /// The progress after one more entry ended with `outcome`.
    pub open spec fn count(self, outcome: OutcomeView) -> SyncProgressView {
        match outcome {
            OutcomeView::Downloaded => SyncProgressView {
                downloaded: self.downloaded + 1,
                ..self
            },
            OutcomeView::Unchanged => SyncProgressView { unchanged: self.unchanged + 1, ..self },
            OutcomeView::Removed => SyncProgressView { removed: self.removed + 1, ..self },
            OutcomeView::Failed(_) => SyncProgressView { failed: self.failed + 1, ..self },
        }
    }

    /// The progress after `filename` was noted as the entry that ended last.
    pub open spec fn with_last(self, filename: Seq<char>) -> SyncProgressView {
        SyncProgressView { last: Some(filename), ..self }
    }
}

/// Counting never lowers a counter, and raises the number of processed
/// entries by exactly one.
pub proof fn lemma_count_grows(p: SyncProgressView, outcome: OutcomeView)
    ensures
        p.count(outcome).downloaded >= p.downloaded,
        p.count(outcome).unchanged >= p.unchanged,
        p.count(outcome).removed >= p.removed,
        p.count(outcome).failed >= p.failed,
        p.count(outcome).processed() == p.processed() + 1,
        p.count(outcome).total == p.total,
{
}

impl View for SyncProgress {
    type V = SyncProgressView;

    closed spec fn view(&self) -> SyncProgressView {
        SyncProgressView {
            total: self.total as nat,
            downloaded: self.downloaded as nat,
            unchanged: self.unchanged as nat,
            removed: self.removed as nat,
            failed: self.failed as nat,
            last: match self.last_mod {
                Some(name) => Some(name@),
                None => None,
            },
        }
    }
}

impl SyncProgress {
    /// The number of processed entries always fits the machine's word.
    #[verifier::type_invariant]
    spec fn counters_fit(self) -> bool {
        self.downloaded + self.unchanged + self.removed + self.failed <= usize::MAX
    }

    /// Progress of a run of `total` entries, before any of them has ended.
    pub fn new(total: usize) -> (p: Self)
        ensures
            p@ == SyncProgressView::start(total as nat),
    {
        SyncProgress { total, downloaded: 0, unchanged: 0, removed: 0, failed: 0, last_mod: None }
    }

    /// Number of entries in the run.
    pub fn total(&self) -> (n: usize)
        ensures
            n == self@.total,
    {
        self.total
    }

    /// Number of entries that have ended so far.
    pub fn processed(&self) -> (n: usize)
        ensures
            n == self@.processed(),
    {
        proof {
            use_type_invariant(self);
        }
        self.downloaded + self.unchanged + self.removed + self.failed
    }

    /// The four counters as they stand.
    pub fn stats(&self) -> (s: SyncStats)
        ensures
            s.downloaded == self@.downloaded,
            s.unchanged == self@.unchanged,
            s.removed == self@.removed,
            s.failed == self@.failed,
    {
        SyncStats {
            downloaded: self.downloaded,
            unchanged: self.unchanged,
            removed: self.removed,
            failed: self.failed,
        }
    }

    /// Notes `filename` as the entry that ended last.
    pub fn set_last_mod(&mut self, filename: String)
        ensures
            final(self)@ == old(self)@.with_last(filename@),
    {
        proof {
            use_type_invariant(&*self);
        }
        self.last_mod = Some(filename);
    }

    /// File name of the entry that ended last, if any has ended.
    pub fn last_processed(&self) -> (r: Option<String>)
        ensures
            match r {
                Some(name) => self@.last == Some(name@),
                None => self@.last is None,
            },
    {
        match &self.last_mod {
            Some(name) => Some(name.clone()),
            None => None,
        }
    }

    /// Counts one more entry, which ended with `outcome`. The number of
    /// processed entries must still fit the machine's word after it.
    pub fn record(&mut self, outcome: &Outcome)
        requires
            old(self)@.processed() < usize::MAX,
        ensures
            final(self)@ == old(self)@.count(outcome@),
    {
        proof {
            use_type_invariant(&*self);
        }
        match outcome {
            Outcome::Downloaded => {
                self.downloaded = self.downloaded + 1;
            },
            Outcome::Unchanged => {
                self.unchanged = self.unchanged + 1;
            },
            Outcome::Removed => {
                self.removed = self.removed + 1;
            },
            Outcome::Failed(_) => {
                self.failed = self.failed + 1;
            },
        }
    }
}

} // verus!
