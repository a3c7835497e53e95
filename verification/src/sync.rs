//! The reconciliation run: every entry of a manifest is taken through its
//! resolution, with a bounded number of entries under way at any time, and
//! the outcomes are collected into the final report.
//!
//! The run decides; its caller performs the operations on files and sources
//! and reports back. Entries are started in manifest order and may end in any
//! order.

use crate::entry::{entry_views, ModEntry, ModEntryView};
use crate::progress::{SyncProgress, SyncProgressView};
use crate::report::{
    event_of, lemma_report_push, lemma_report_total, report_of, SyncEvent, SyncEventView,
    SyncReport, SyncReportView,
};
use crate::resolve::{
    lemma_next_stage, reachable, reports_left, step_spec, Action, ActionView, Event, EventView,
    ModManager, Outcome, OutcomeView, Stage, Step, StepView,
};
use vstd::prelude::*;
use vstd::string::*;

verus! {

/// The largest number of entries that are under way at the same time.
pub const MAX_IN_FLIGHT: usize = 8;

/// Where an entry stands in a run.
#[derive(Clone, Copy, Debug, PartialEq, Eq)]
pub enum Status {
    /// Not started yet.
    Waiting,
    /// Under way, waiting for the operation of the stage to be reported.
    Active(Stage),
    /// Ended; the number is the entry's place in the order of completion.
    Done(usize),
}

/// An entry that ended: its place in the manifest and its outcome.
pub struct EntryResultView {
    pub index: int,
    pub outcome: OutcomeView,
}

/// Mathematical value of a run.
pub struct SyncRunView {
    /// The manifest.
    pub entries: Seq<ModEntryView>,
    /// Where each entry stands.
    pub status: Seq<Status>,
    /// Number of entries that have been started: they are started in order.
    pub next: nat,
    /// The entries that ended, in the order in which they ended.
    pub results: Seq<EntryResultView>,
    /// Whether the final report has been handed out.
    pub reported: bool,
}

/// Number of entries that are under way.
pub open spec fn count_active(status: Seq<Status>) -> nat
    decreases status.len(),
{
    if status.len() == 0 {
        0
    } else {
        count_active(status.drop_last()) + if status.last() is Active {
            1nat
        } else {
            0nat
        }
    }
}

/// The largest number of steps of a run that an entry can still take part in:
/// its start and its reports.
pub open spec fn steps_of(status: Status) -> nat {
    match status {
        Status::Waiting => 5,
        Status::Active(stage) => reports_left(stage),
        Status::Done(_) => 0,
    }
}

/// The largest number of steps that are left to a run.
pub open spec fn steps_left(status: Seq<Status>) -> nat
    decreases status.len(),
{
    if status.len() == 0 {
        0
    } else {
        steps_left(status.drop_last()) + steps_of(status.last())
    }
}

/// What a run answers to a report.
pub enum ReplyView {
    /// The entry needs one more operation.
    Next(ActionView),
    /// The entry ended; the event tells the observers.
    Done(SyncEventView),
}

impl SyncRunView {
    /// The run of `entries` in which nothing has been started.
    pub open spec fn initial(entries: Seq<ModEntryView>) -> SyncRunView {
        SyncRunView {
            entries,
            status: Seq::new(entries.len(), |i: int| Status::Waiting),
            next: 0,
            results: Seq::empty(),
            reported: false,
        }
    }

    /// Number of entries that are under way.
    pub open spec fn in_flight(self) -> nat {
        count_active(self.status)
    }

    /// The entries that ended, each with its outcome, in the order in which
    /// they ended.
    pub open spec fn ended(self) -> Seq<(ModEntryView, OutcomeView)> {
        Seq::new(
            self.results.len(),
            |k: int| (self.entries[self.results[k].index], self.results[k].outcome),
        )
    }

    /// The report of the entries that ended so far.
    pub open spec fn report(self) -> SyncReportView {
        report_of(self.ended())
    }

    /// The progress that observers see.
    pub open spec fn progress(self) -> SyncProgressView {
        let report = self.report();
        SyncProgressView {
            total: self.entries.len(),
            downloaded: report.downloaded.len(),
            unchanged: report.unchanged.len(),
            removed: report.removed.len(),
            failed: report.failed.len(),
            last: if self.results.len() == 0 {
                None
            } else {
                Some(self.entries[self.results.last().index].filename)
            },
        }
    }

    /// What holds of a run at every moment.
    pub open spec fn wf(self) -> bool {
        &&& self.status.len() == self.entries.len()
        &&& self.next <= self.entries.len()
        &&& self.entries.len() <= usize::MAX
        // Entries are started in order.
        &&& forall|i: int|
            0 <= i < self.status.len() ==> ((#[trigger] self.status[i]) is Waiting <==> i
                >= self.next)
        // An entry under way is in a stage that it can be in.
        &&& forall|i: int|
            0 <= i < self.status.len() ==> ((#[trigger] self.status[i]) matches Status::Active(
                stage,
            ) ==> reachable(self.entries[i], stage))
        // The bound on concurrency.
        &&& self.in_flight() <= MAX_IN_FLIGHT
        // Every started entry is under way or has ended.
        &&& self.next == self.in_flight() + self.results.len()
        // An entry that ended has exactly one result, and every result is
        // that of an entry that ended.
        &&& forall|i: int|
            0 <= i < self.status.len() ==> ((#[trigger] self.status[i]) matches Status::Done(k)
                ==> k < self.results.len() && self.results[k as int].index == i)
        &&& forall|k: int|
            0 <= k < self.results.len() ==> {
                &&& 0 <= (#[trigger] self.results[k]).index < self.status.len()
                &&& self.status[self.results[k].index] matches Status::Done(j)
                &&& j == k
            }
        // The final report is handed out only when every entry has ended.
        &&& self.reported ==> self.finished()
    }

    /// Every entry has ended.
    pub open spec fn finished(self) -> bool {
        self.results.len() == self.entries.len()
    }

    /// One more entry can be started: one is waiting, and fewer than the
    /// bound are under way.
    pub open spec fn can_start(self) -> bool {
        self.next < self.entries.len() && self.in_flight() < MAX_IN_FLIGHT
    }

    /// The run after the next waiting entry was started.
    pub open spec fn start(self) -> SyncRunView {
        SyncRunView {
            status: self.status.update(self.next as int, Status::Active(Stage::Probe)),
            next: self.next + 1,
            ..self
        }
    }

    /// The decision on `event`, reported for the entry at `index`. There is
    /// none where the index is outside the manifest, the entry is not under
    /// way, or the event does not report the operation that it waits for.
    pub open spec fn decision(self, index: int, event: EventView) -> Option<StepView> {
        if 0 <= index < self.status.len() {
            match self.status[index] {
                Status::Active(stage) => step_spec(self.entries[index], stage, event),
                _ => None,
            }
        } else {
            None
        }
    }

    /// The run after `step` was decided for the entry at `index`.
    pub open spec fn apply(self, index: int, step: StepView) -> SyncRunView {
        match step {
            StepView::Next(action) => SyncRunView {
                status: self.status.update(index, Status::Active(action.stage())),
                ..self
            },
            StepView::Done(outcome) => SyncRunView {
                status: self.status.update(index, Status::Done(self.results.len() as usize)),
                results: self.results.push(EntryResultView { index, outcome }),
                ..self
            },
        }
    }

    /// The final report is due: every entry has ended, and the report has not
    /// been handed out yet.
    pub open spec fn report_due(self) -> bool {
        self.finished() && !self.reported
    }

    /// The run after its final report was asked for.
    pub open spec fn finish(self) -> SyncRunView {
        SyncRunView { reported: self.reported || self.finished(), ..self }
    }

    /// What the run answers when `step` was decided for the entry at `index`.
    pub open spec fn reply(self, index: int, step: StepView) -> ReplyView {
        match step {
            StepView::Next(action) => ReplyView::Next(action),
            StepView::Done(outcome) => ReplyView::Done(
                event_of(self.entries[index].filename, outcome),
            ),
        }
    }
}

/// Changing where one entry stands changes the number under way by what that
/// entry adds to it.
pub proof fn lemma_count_update(status: Seq<Status>, i: int, to: Status)
    requires
        0 <= i < status.len(),
    ensures
        count_active(status.update(i, to)) + (if status[i] is Active {
            1nat
        } else {
            0nat
        }) == count_active(status) + (if to is Active {
            1nat
        } else {
            0nat
        }),
    decreases status.len(),
{
    let changed = status.update(i, to);
    if i == status.len() - 1 {
        assert(changed.drop_last() =~= status.drop_last());
    } else {
        assert(changed.drop_last() =~= status.drop_last().update(i, to));
        lemma_count_update(status.drop_last(), i, to);
    }
}

/// Changing where one entry stands changes the number of steps left by what
/// that entry adds to it.
pub proof fn lemma_steps_update(status: Seq<Status>, i: int, to: Status)
    requires
        0 <= i < status.len(),
    ensures
        steps_left(status.update(i, to)) + steps_of(status[i]) == steps_left(status) + steps_of(
            to,
        ),
    decreases status.len(),
{
    let changed = status.update(i, to);
    if i == status.len() - 1 {
        assert(changed.drop_last() =~= status.drop_last());
    } else {
        assert(changed.drop_last() =~= status.drop_last().update(i, to));
        lemma_steps_update(status.drop_last(), i, to);
    }
}

/// No more entries are under way than there are entries.
pub proof fn lemma_count_bound(status: Seq<Status>)
    ensures
        count_active(status) <= status.len(),
    decreases status.len(),
{
    if status.len() > 0 {
        lemma_count_bound(status.drop_last());
    }
}

/// Where nothing is under way, no entry is active.
pub proof fn lemma_count_zero(status: Seq<Status>, i: int)
    requires
        0 <= i < status.len(),
        count_active(status) == 0,
    ensures
        !(status[i] is Active),
{
    lemma_count_update(status, i, Status::Waiting);
}

/// A run in which nothing has been started is well formed, and nothing is
/// under way in it.
pub proof fn lemma_initial_wf(entries: Seq<ModEntryView>)
    requires
        entries.len() <= usize::MAX,
    ensures
        SyncRunView::initial(entries).wf(),
        SyncRunView::initial(entries).in_flight() == 0,
        SyncRunView::initial(entries).progress() == SyncProgressView::start(entries.len()),
{
    let run = SyncRunView::initial(entries);
    lemma_all_waiting(run.status);
    assert(run.ended() =~= Seq::empty());
}

/// Where every entry waits, none is under way.
proof fn lemma_all_waiting(status: Seq<Status>)
    requires
        forall|i: int| 0 <= i < status.len() ==> status[i] is Waiting,
    ensures
        count_active(status) == 0,
    decreases status.len(),
{
    if status.len() > 0 {
        lemma_all_waiting(status.drop_last());
    }
}

/// Starting an entry keeps the run well formed, raises the number under way
/// by one, leaves what observers see as it is, and uses up one of the steps
/// that are left to the run.
pub proof fn lemma_start_wf(run: SyncRunView)
    requires
        run.wf(),
        run.can_start(),
    ensures
        run.start().wf(),
        run.start().in_flight() == run.in_flight() + 1,
        run.start().progress() == run.progress(),
        steps_left(run.start().status) < steps_left(run.status),
{
    let after = run.start();
    lemma_count_update(run.status, run.next as int, Status::Active(Stage::Probe));
    lemma_steps_update(run.status, run.next as int, Status::Active(Stage::Probe));
    assert(run.status[run.next as int] is Waiting);
    assert forall|k: int| 0 <= k < after.results.len() implies {
        &&& 0 <= (#[trigger] after.results[k]).index < after.status.len()
        &&& after.status[after.results[k].index] matches Status::Done(j)
        &&& j == k
    } by {
        assert(run.status[run.results[k].index] is Done);
    }
    assert(after.ended() =~= run.ended());
}

/// A decision keeps the run well formed and uses up at least one of the
/// steps that are left to the run. One that asks for another operation
/// changes nothing that observers see; one that ends the entry lowers the
/// number under way by one and counts the entry under its outcome.
pub proof fn lemma_apply_wf(run: SyncRunView, index: int, event: EventView)
    requires
        run.wf(),
        run.decision(index, event) is Some,
    ensures
        run.in_flight() > 0,
        run.results.len() < run.entries.len(),
        run.apply(index, run.decision(index, event)->0).wf(),
        steps_left(run.apply(index, run.decision(index, event)->0).status) < steps_left(
            run.status,
        ),
        run.decision(index, event)->0 matches StepView::Next(_) ==> {
            &&& run.apply(index, run.decision(index, event)->0).in_flight() == run.in_flight()
            &&& run.apply(index, run.decision(index, event)->0).progress() == run.progress()
        },
        run.decision(index, event)->0 matches StepView::Done(outcome) ==> {
            &&& run.apply(index, run.decision(index, event)->0).in_flight() == run.in_flight()
                - 1
            &&& run.apply(index, run.decision(index, event)->0).report() == run.report().with(
                run.entries[index],
                outcome,
            )
            &&& run.apply(index, run.decision(index, event)->0).progress() == run.progress().count(
                outcome,
            ).with_last(run.entries[index].filename)
        },
{
    let step = run.decision(index, event)->0;
    let after = run.apply(index, step);
    let stage = run.status[index]->Active_0;
    lemma_count_update(run.status, index, Status::Waiting);
    match step {
        StepView::Next(action) => {
            lemma_next_stage(run.entries[index], stage, event);
            lemma_count_update(run.status, index, Status::Active(action.stage()));
            lemma_steps_update(run.status, index, Status::Active(action.stage()));
            assert forall|k: int| 0 <= k < after.results.len() implies {
                &&& 0 <= (#[trigger] after.results[k]).index < after.status.len()
                &&& after.status[after.results[k].index] matches Status::Done(j)
                &&& j == k
            } by {
                assert(run.status[run.results[k].index] is Done);
            }
            assert(after.ended() =~= run.ended());
        },
        StepView::Done(outcome) => {
            let slot = run.results.len();
            lemma_count_update(run.status, index, Status::Done(slot as usize));
            lemma_steps_update(run.status, index, Status::Done(slot as usize));
            assert forall|k: int| 0 <= k < after.results.len() implies {
                &&& 0 <= (#[trigger] after.results[k]).index < after.status.len()
                &&& after.status[after.results[k].index] matches Status::Done(j)
                &&& j == k
            } by {
                if k < slot {
                    assert(run.status[run.results[k].index] is Done);
                    assert(after.results[k] == run.results[k]);
                }
            }
            assert(after.ended() =~= run.ended().push((run.entries[index], outcome)));
            lemma_report_push(run.ended(), run.entries[index], outcome);
        },
    }
}

/// The bound on concurrency: never are more than `MAX_IN_FLIGHT` entries
/// under way.
pub proof fn lemma_in_flight_bounded(run: SyncRunView)
    requires
        run.wf(),
    ensures
        run.in_flight() <= MAX_IN_FLIGHT,
        run.in_flight() <= run.entries.len(),
{
    lemma_count_bound(run.status);
}

/// A run that is not over can always go on: an entry can be started, or one
/// is under way and will be reported on. As every step uses up one of a
/// number of steps that is fixed at the start, five for each entry, every
/// run comes to its end.
pub proof fn lemma_never_stuck(run: SyncRunView)
    requires
        run.wf(),
        !run.finished(),
    ensures
        run.can_start() || run.in_flight() > 0,
        steps_left(run.status) > 0,
        steps_left(SyncRunView::initial(run.entries).status) == 5 * run.entries.len(),
{
    lemma_initial_steps(run.entries.len());
    if run.can_start() {
        lemma_steps_update(run.status, run.next as int, Status::Done(0));
    } else {
        let i = choose|i: int| 0 <= i < run.status.len() && run.status[i] is Active;
        lemma_some_active(run.status);
        lemma_steps_update(run.status, i, Status::Done(0));
    }
}

/// Where entries are under way, one of them can be named.
proof fn lemma_some_active(status: Seq<Status>)
    requires
        count_active(status) > 0,
    ensures
        exists|i: int| 0 <= i < status.len() && status[i] is Active,
    decreases status.len(),
{
    if status.len() > 0 {
        if status.last() is Active {
            assert(status[status.len() - 1] is Active);
        } else {
            lemma_some_active(status.drop_last());
            let i = choose|i: int|
                0 <= i < status.drop_last().len() && status.drop_last()[i] is Active;
            assert(status[i] is Active);
        }
    }
}

/// A run of `n` entries starts with five steps for each of them.
proof fn lemma_initial_steps(n: nat)
    ensures
        steps_left(Seq::new(n, |i: int| Status::Waiting)) == 5 * n,
    decreases n,
{
    let status = Seq::new(n, |i: int| Status::Waiting);
    if n > 0 {
        lemma_initial_steps((n - 1) as nat);
        assert(status.drop_last() =~= Seq::new((n - 1) as nat, |i: int| Status::Waiting));
    }
}

/// When a run is over, every entry of the manifest has ended exactly once:
/// the four buckets of the report hold as many entries as the manifest, the
/// number of processed entries is that number too, nothing is under way or
/// left to do, and each place in the manifest has exactly one result.
pub proof fn lemma_finished_run(run: SyncRunView)
    requires
        run.wf(),
        run.finished(),
    ensures
        run.report().total() == run.entries.len(),
        run.progress().processed() == run.entries.len(),
        run.progress().total == run.entries.len(),
        run.in_flight() == 0,
        !run.can_start(),
        steps_left(run.status) == 0,
        forall|i: int|
            0 <= i < run.entries.len() ==> (#[trigger] run.status[i]) is Done
                && run.results[run.status[i]->Done_0 as int].index == i,
        forall|j: int, k: int|
            0 <= j < k < run.results.len() ==> (#[trigger] run.results[j]).index != (
            #[trigger] run.results[k]).index,
{
    lemma_report_total(run.ended());
    assert forall|i: int| 0 <= i < run.entries.len() implies (#[trigger] run.status[i]) is Done
        && run.results[run.status[i]->Done_0 as int].index == i by {
        lemma_count_zero(run.status, i);
    }
    lemma_all_done(run.status);
}

/// Where every entry has ended, no step is left.
proof fn lemma_all_done(status: Seq<Status>)
    requires
        forall|i: int| 0 <= i < status.len() ==> status[i] is Done,
    ensures
        steps_left(status) == 0,
    decreases status.len(),
{
    if status.len() > 0 {
        lemma_all_done(status.drop_last());
    }
}

/// An entry that ended: its place in the manifest and its outcome.
struct EntryResult {
    index: usize,
    outcome: Outcome,
}

/// The views of the results, in order.
spec fn result_views(results: Seq<EntryResult>) -> Seq<EntryResultView> {
    Seq::new(
        results.len(),
        |k: int| EntryResultView { index: results[k].index as int, outcome: results[k].outcome@ },
    )
}

/// What a run keeps. `in_flight` and `progress` repeat what follows from the
/// rest, so that they can be read without counting.
struct RunState {
    entries: Vec<ModEntry>,
    status: Vec<Status>,
    next: usize,
    in_flight: usize,
    results: Vec<EntryResult>,
    progress: SyncProgress,
    reported: bool,
}

impl RunState {
    spec fn view(&self) -> SyncRunView {
        SyncRunView {
            entries: entry_views(self.entries@),
            status: self.status@,
            next: self.next as nat,
            results: result_views(self.results@),
            reported: self.reported,
        }
    }

    spec fn wf(&self) -> bool {
        &&& self.view().wf()
        &&& self.in_flight == self.view().in_flight()
        &&& self.progress@ == self.view().progress()
    }

    /// The run of an empty manifest.
    fn empty() -> (state: Self)
        ensures
            state.wf(),
            state.view() == SyncRunView::initial(Seq::empty()),
    {
        let state = RunState {
            entries: Vec::new(),
            status: Vec::new(),
            next: 0,
            in_flight: 0,
            results: Vec::new(),
            progress: SyncProgress::new(0),
            reported: false,
        };
        proof {
            lemma_initial_wf(Seq::empty());
            assert(state.view().entries =~= Seq::empty());
            assert(state.view().status =~= SyncRunView::initial(Seq::empty()).status);
            assert(state.view().results =~= Seq::empty());
        }
        state
    }
}

/// A reconciliation run over the entries of one manifest.
pub struct SyncRun {
    state: RunState,
}

impl View for SyncRun {
    type V = SyncRunView;

    closed spec fn view(&self) -> SyncRunView {
        self.state.view()
    }
}

/// What a run answers to a report.
#[derive(Debug, PartialEq, Eq)]
pub enum Reply {
    /// The entry needs one more operation.
    Next(Action),
    /// The entry ended; the event is to be passed on to the observers.
    Done(SyncEvent),
}

impl View for Reply {
    type V = ReplyView;

    open spec fn view(&self) -> ReplyView {
        match *self {
            Reply::Next(action) => ReplyView::Next(action@),
            Reply::Done(event) => ReplyView::Done(event@),
        }
    }
}

impl ModManager {
    /// Sets up the reconciliation of `mod_entries`. Nothing has been started
    /// in the run that is returned; its progress counts every entry of the
    /// manifest as still to be processed.
    pub fn sync_all_from_entries(mod_entries: Vec<ModEntry>) -> (run: SyncRun)
        ensures
            run@ == SyncRunView::initial(entry_views(mod_entries@)),
            run@.wf(),
    {
        let n = mod_entries.len();
        let mut status: Vec<Status> = Vec::new();
        let mut i: usize = 0;
        while i < n
            invariant
                i <= n,
                status@.len() == i,
                forall|j: int| 0 <= j < i ==> status@[j] is Waiting,
            decreases n - i,
        {
            status.push(Status::Waiting);
            i += 1;
        }
        let state = RunState {
            entries: mod_entries,
            status,
            next: 0,
            in_flight: 0,
            results: Vec::new(),
            progress: SyncProgress::new(n),
            reported: false,
        };
        proof {
            let entries = entry_views(mod_entries@);
            lemma_initial_wf(entries);
            assert(state.view().status =~= SyncRunView::initial(entries).status);
            assert(state.view().results =~= Seq::empty());
        }
        SyncRun { state }
    }
}

impl SyncRun {
    #[verifier::type_invariant]
    spec fn inv(self) -> bool {
        self.state.wf()
    }

    /// Number of entries in the manifest.
    pub fn len(&self) -> (n: usize)
        ensures
            n == self@.entries.len(),
            self@.wf(),
    {
        proof {
            use_type_invariant(self);
        }
        self.state.entries.len()
    }

    /// The entry at `index` of the manifest.
    pub fn entry(&self, index: usize) -> (r: Option<&ModEntry>)
        ensures
            match r {
                Some(entry) => index < self@.entries.len() && entry@ == self@.entries[index as int],
                None => index >= self@.entries.len(),
            },
    {
        if index < self.state.entries.len() {
            Some(&self.state.entries[index])
        } else {
            None
        }
    }

    /// Where the entry at `index` stands.
    pub fn status(&self, index: usize) -> (r: Option<Status>)
        ensures
            match r {
                Some(status) => index < self@.status.len() && status == self@.status[index as int],
                None => index >= self@.status.len(),
            },
    {
        if index < self.state.status.len() {
            Some(self.state.status[index])
        } else {
            None
        }
    }

    /// Number of entries that are under way: never more than `MAX_IN_FLIGHT`.
    pub fn in_flight(&self) -> (n: usize)
        ensures
            n == self@.in_flight(),
            n <= MAX_IN_FLIGHT,
    {
        proof {
            use_type_invariant(self);
        }
        self.state.in_flight
    }

    /// Whether every entry has ended.
    pub fn is_finished(&self) -> (r: bool)
        ensures
            r == self@.finished(),
    {
        proof {
            use_type_invariant(self);
        }
        self.state.results.len() == self.state.entries.len()
    }

    /// The progress of the run, as observers may read it at any time.
    pub fn progress(&self) -> (p: &SyncProgress)
        ensures
            p@ == self@.progress(),
    {
        proof {
            use_type_invariant(self);
        }
        &self.state.progress
    }

    /// Starts the next waiting entry, if the bound on concurrency allows one
    /// more, and returns its place in the manifest. The first operation of
    /// every entry is `Action::Probe`.
    pub fn start_next(&mut self) -> (r: Option<usize>)
        ensures
            final(self)@.wf(),
            match r {
                Some(index) => {
                    &&& old(self)@.can_start()
                    &&& index == old(self)@.next
                    &&& final(self)@ == old(self)@.start()
                },
                None => !old(self)@.can_start() && final(self)@ == old(self)@,
            },
    {
        proof {
            use_type_invariant(&*self);
        }
        if self.state.next >= self.state.entries.len() || self.state.in_flight >= MAX_IN_FLIGHT {
            return None;
        }
        proof {
            lemma_start_wf(self@);
        }
        let mut state = RunState::empty();
        std::mem::swap(&mut state, &mut self.state);
        let index = state.next;
        state.status.set(index, Status::Active(Stage::Probe));
        state.next = index + 1;
        state.in_flight = state.in_flight + 1;
        self.state = state;
        Some(index)
    }

    /// Takes the report `event` of the operation that the entry at `index`
    /// was waiting for, and decides what follows. Returns `None`, and changes
    /// nothing, where there is no such entry, the entry is not under way, or
    /// the event does not report the operation that it waits for.
    pub fn handle_event(&mut self, index: usize, event: Event) -> (r: Option<Reply>)
        ensures
            final(self)@.wf(),
            match old(self)@.decision(index as int, event@) {
                Some(step) => {
                    &&& final(self)@ == old(self)@.apply(index as int, step)
                    &&& r matches Some(reply)
                    &&& reply@ == old(self)@.reply(index as int, step)
                },
                None => r is None && final(self)@ == old(self)@,
            },
    {
        proof {
            use_type_invariant(&*self);
        }
        if index >= self.state.status.len() {
            return None;
        }
        let stage = match self.state.status[index] {
            Status::Active(stage) => stage,
            _ => {
                return None;
            },
        };
        let ghost before = self@;
        let ghost reported = event@;
        let step = match ModManager::handle_entry(&self.state.entries[index], stage, event) {
            Some(step) => step,
            None => {
                return None;
            },
        };
        proof {
            lemma_apply_wf(before, index as int, reported);
            lemma_report_total(before.ended());
        }
        let mut state = RunState::empty();
        std::mem::swap(&mut state, &mut self.state);
        let reply = match step {
            Step::Next(action) => {
                state.status.set(index, Status::Active(action.stage()));
                Reply::Next(action)
            },
            Step::Done(outcome) => {
                let slot = state.results.len();
                let filename = state.entries[index].filename.clone();
                state.progress.record(&outcome);
                state.progress.set_last_mod(filename.clone());
                let event = SyncEvent::for_outcome(filename, &outcome);
                state.status.set(index, Status::Done(slot));
                state.results.push(EntryResult { index, outcome });
                state.in_flight = state.in_flight - 1;
                proof {
                    let after = before.apply(index as int, StepView::Done(outcome@));
                    assert(state.view().results =~= after.results);
                    assert(after.results.last().index == index);
                }
                Reply::Done(event)
            },
        };
        self.state = state;
        Some(reply)
    }

    /// Hands out the final report: once, when every entry has ended. The
    /// result is `None` while entries are waiting or under way, and again
    /// after the report was handed out.
    pub fn finish(&mut self) -> (r: Option<SyncReport>)
        ensures
            final(self)@.wf(),
            final(self)@ == old(self)@.finish(),
            match r {
                Some(report) => old(self)@.report_due() && report@ == old(self)@.report(),
                None => !old(self)@.report_due(),
            },
    {
        proof {
            use_type_invariant(&*self);
        }
        if self.state.results.len() != self.state.entries.len() || self.state.reported {
            return None;
        }
        let mut report = SyncReport::new();
        let mut k: usize = 0;
        while k < self.state.results.len()
            invariant
                self.state.wf(),
                k <= self.state.results.len(),
                report@ == report_of(self@.ended().take(k as int)),
            decreases self.state.results.len() - k,
        {
            let result = &self.state.results[k];
            assert(self@.results[k as int].index == result.index);
            let entry = self.state.entries[result.index].clone();
            let outcome = result.outcome.clone();
            proof {
                let ended = self@.ended();
                assert(ended.take(k + 1) =~= ended.take(k as int).push(ended[k as int]));
                lemma_report_push(ended.take(k as int), ended[k as int].0, ended[k as int].1);
            }
            report.record(entry, outcome);
            k += 1;
        }
        assert(self@.ended().take(k as int) =~= self@.ended());
        self.state.reported = true;
        Some(report)
    }
}

} // verus!
