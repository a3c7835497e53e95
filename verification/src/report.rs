//! What a run tells its observers: one event for each entry that ended, and
//! the final report that sorts every entry into one of four buckets.

use crate::entry::{entry_views, ModEntry, ModEntryView};
use crate::resolve::{Outcome, OutcomeView};
use vstd::prelude::*;
use vstd::string::*;

verus! {

/// The final report of a run. Each bucket holds its entries in the order in
/// which they ended; a failed entry is paired with the reason.
#[derive(Debug, PartialEq, Eq)]
pub struct SyncReport {
    pub downloaded: Vec<ModEntry>,
    pub unchanged: Vec<ModEntry>,
    pub removed: Vec<ModEntry>,
    pub failed: Vec<(ModEntry, String)>,
}

/// Mathematical value of a `SyncReport`.
pub struct SyncReportView {
    pub downloaded: Seq<ModEntryView>,
    pub unchanged: Seq<ModEntryView>,
    pub removed: Seq<ModEntryView>,
    pub failed: Seq<(ModEntryView, Seq<char>)>,
}

/// The views of a sequence of failed entries with their reasons, in order.
pub open spec fn failure_views(failed: Seq<(ModEntry, String)>) -> Seq<(ModEntryView, Seq<char>)> {
    Seq::new(failed.len(), |i: int| (failed[i].0@, failed[i].1@))
}

impl View for SyncReport {
    type V = SyncReportView;

    open spec fn view(&self) -> SyncReportView {
        SyncReportView {
            downloaded: entry_views(self.downloaded@),
            unchanged: entry_views(self.unchanged@),
            removed: entry_views(self.removed@),
            failed: failure_views(self.failed@),
        }
    }
}

impl SyncReportView {
    /// The report in which every bucket is empty.
    pub open spec fn empty() -> SyncReportView {
        SyncReportView {
            downloaded: Seq::empty(),
            unchanged: Seq::empty(),
            removed: Seq::empty(),
            failed: Seq::empty(),
        }
    }

    /// The report with `entry` added at the end of the bucket of `outcome`.
    pub open spec fn with(self, entry: ModEntryView, outcome: OutcomeView) -> SyncReportView {
        match outcome {
            OutcomeView::Downloaded => SyncReportView {
                downloaded: self.downloaded.push(entry),
                ..self
            },
            OutcomeView::Unchanged => SyncReportView {
                unchanged: self.unchanged.push(entry),
                ..self
            },
            OutcomeView::Removed => SyncReportView { removed: self.removed.push(entry), ..self },
            OutcomeView::Failed(reason) => SyncReportView {
                failed: self.failed.push((entry, reason)),
                ..self
            },
        }
    }

    /// Number of entries in the four buckets together.
    pub open spec fn total(self) -> nat {
        self.downloaded.len() + self.unchanged.len() + self.removed.len() + self.failed.len()
    }

    /// Whether the run changed anything, or failed to: some entry is outside
    /// the bucket of unchanged entries.
    pub open spec fn has_changes(self) -> bool {
        self.downloaded.len() > 0 || self.removed.len() > 0 || self.failed.len() > 0
    }
}

/// The report of the entries in `ended`, each with its outcome, taken in the
/// order in which they ended.
pub open spec fn report_of(ended: Seq<(ModEntryView, OutcomeView)>) -> SyncReportView
    decreases ended.len(),
{
    if ended.len() == 0 {
        SyncReportView::empty()
    } else {
        report_of(ended.drop_last()).with(ended.last().0, ended.last().1)
    }
}

/// The buckets of a report hold as many entries as have ended: each entry is
/// in exactly one of them.
pub proof fn lemma_report_total(ended: Seq<(ModEntryView, OutcomeView)>)
    ensures
        report_of(ended).total() == ended.len(),
    decreases ended.len(),
{
    if ended.len() > 0 {
        lemma_report_total(ended.drop_last());
    }
}

/// One more ended entry extends the report by that entry.
pub proof fn lemma_report_push(
    ended: Seq<(ModEntryView, OutcomeView)>,
    entry: ModEntryView,
    outcome: OutcomeView,
)
    ensures
        report_of(ended.push((entry, outcome))) == report_of(ended).with(entry, outcome),
{
    assert(ended.push((entry, outcome)).drop_last() =~= ended);
}

/// A notification to the observers of a run.
#[derive(Debug, PartialEq, Eq)]
pub enum SyncEvent {
    Downloaded { filename: String },
    Unchanged { filename: String },
    Removed { filename: String },
    Failed { filename: String, error: String },
    /// The run is over; no event follows this one.
    Finished(SyncReport),
}

/// Mathematical value of a `SyncEvent`.
pub enum SyncEventView {
    Downloaded { filename: Seq<char> },
    Unchanged { filename: Seq<char> },
    Removed { filename: Seq<char> },
    Failed { filename: Seq<char>, error: Seq<char> },
    Finished(SyncReportView),
}

impl View for SyncEvent {
    type V = SyncEventView;

    open spec fn view(&self) -> SyncEventView {
        match *self {
            SyncEvent::Downloaded { filename } => SyncEventView::Downloaded { filename: filename@ },
            SyncEvent::Unchanged { filename } => SyncEventView::Unchanged { filename: filename@ },
            SyncEvent::Removed { filename } => SyncEventView::Removed { filename: filename@ },
            SyncEvent::Failed { filename, error } => SyncEventView::Failed {
                filename: filename@,
                error: error@,
            },
            SyncEvent::Finished(report) => SyncEventView::Finished(report@),
        }
    }
}

/// The event that tells of the entry named `filename` having ended with
/// `outcome`.
pub open spec fn event_of(filename: Seq<char>, outcome: OutcomeView) -> SyncEventView {
    match outcome {
        OutcomeView::Downloaded => SyncEventView::Downloaded { filename },
        OutcomeView::Unchanged => SyncEventView::Unchanged { filename },
        OutcomeView::Removed => SyncEventView::Removed { filename },
        OutcomeView::Failed(error) => SyncEventView::Failed { filename, error },
    }
}

/// Copies a bucket of entries.
fn clone_entries(entries: &Vec<ModEntry>) -> (r: Vec<ModEntry>)
    ensures
        r@ == entries@,
{
    let mut r: Vec<ModEntry> = Vec::new();
    let mut i: usize = 0;
    while i < entries.len()
        invariant
            i <= entries.len(),
            r@ == entries@.take(i as int),
        decreases entries.len() - i,
    {
        r.push(entries[i].clone());
        assert(entries@.take(i + 1) =~= entries@.take(i as int).push(entries@[i as int]));
        i += 1;
    }
    assert(entries@.take(i as int) =~= entries@);
    r
}

/// Copies the bucket of failed entries.
fn clone_failures(failed: &Vec<(ModEntry, String)>) -> (r: Vec<(ModEntry, String)>)
    ensures
        r@ == failed@,
{
    let mut r: Vec<(ModEntry, String)> = Vec::new();
    let mut i: usize = 0;
    while i < failed.len()
        invariant
            i <= failed.len(),
            r@ == failed@.take(i as int),
        decreases failed.len() - i,
    {
        let entry = failed[i].0.clone();
        let reason = failed[i].1.clone();
        r.push((entry, reason));
        assert(failed@.take(i + 1) =~= failed@.take(i as int).push(failed@[i as int]));
        i += 1;
    }
    assert(failed@.take(i as int) =~= failed@);
    r
}

impl Clone for SyncReport {
    fn clone(&self) -> (r: Self)
        ensures
            r@ == self@,
    {
        SyncReport {
            downloaded: clone_entries(&self.downloaded),
            unchanged: clone_entries(&self.unchanged),
            removed: clone_entries(&self.removed),
            failed: clone_failures(&self.failed),
        }
    }
}

impl Clone for SyncEvent {
    fn clone(&self) -> (r: Self)
        ensures
            r@ == self@,
    {
        match self {
            SyncEvent::Downloaded { filename } => SyncEvent::Downloaded {
                filename: filename.clone(),
            },
            SyncEvent::Unchanged { filename } => SyncEvent::Unchanged { filename: filename.clone() },
            SyncEvent::Removed { filename } => SyncEvent::Removed { filename: filename.clone() },
            SyncEvent::Failed { filename, error } => SyncEvent::Failed {
                filename: filename.clone(),
                error: error.clone(),
            },
            SyncEvent::Finished(report) => SyncEvent::Finished(report.clone()),
        }
    }
}

impl SyncReport {
    /// The report in which every bucket is empty.
    pub fn new() -> (r: Self)
        ensures
            r@ == SyncReportView::empty(),
    {
        let r = SyncReport {
            downloaded: Vec::new(),
            unchanged: Vec::new(),
            removed: Vec::new(),
            failed: Vec::new(),
        };
        assert(r@.downloaded =~= Seq::empty());
        assert(r@.unchanged =~= Seq::empty());
        assert(r@.removed =~= Seq::empty());
        assert(r@.failed =~= Seq::empty());
        r
    }

    /// Adds `entry`, which ended with `outcome`, at the end of its bucket.
    pub fn record(&mut self, entry: ModEntry, outcome: Outcome)
        ensures
            final(self)@ == old(self)@.with(entry@, outcome@),
    {
        match outcome {
            Outcome::Downloaded => {
                self.downloaded.push(entry);
                assert(final(self)@.downloaded =~= old(self)@.downloaded.push(entry@));
            },
            Outcome::Unchanged => {
                self.unchanged.push(entry);
                assert(final(self)@.unchanged =~= old(self)@.unchanged.push(entry@));
            },
            Outcome::Removed => {
                self.removed.push(entry);
                assert(final(self)@.removed =~= old(self)@.removed.push(entry@));
            },
            Outcome::Failed(reason) => {
                self.failed.push((entry, reason));
                assert(final(self)@.failed =~= old(self)@.failed.push((entry@, reason@)));
            },
        }
    }

    /// Whether the run changed anything, or failed to.
    pub fn has_changes(&self) -> (r: bool)
        ensures
            r == self@.has_changes(),
    {
        self.downloaded.len() > 0 || self.removed.len() > 0 || self.failed.len() > 0
    }
}

impl SyncEvent {
    /// The event that tells of the entry named `filename` having ended with
    /// `outcome`.
    pub fn for_outcome(filename: String, outcome: &Outcome) -> (e: Self)
        ensures
            e@ == event_of(filename@, outcome@),
    {
        match outcome {
            Outcome::Downloaded => SyncEvent::Downloaded { filename },
            Outcome::Unchanged => SyncEvent::Unchanged { filename },
            Outcome::Removed => SyncEvent::Removed { filename },
            Outcome::Failed(error) => SyncEvent::Failed { filename, error: error.clone() },
        }
    }
}

} // verus!
