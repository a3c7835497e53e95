//! Resolution of a single entry: what to do next for it, given what the
//! last operation on its file or its source reported.
//!
//! The caller performs the operations; the decisions are made here. An entry
//! starts at `Stage::Probe`. Each report either leads to one more operation
//! or ends the entry with an `Outcome`.

use crate::digest::{check_digest, digest_hex, digest_matches, mismatch_message, sha256_hex};
use crate::entry::{ModEntry, ModEntryView};
use vstd::prelude::*;
use vstd::string::*;

verus! {

/// The operation that an entry under way is waiting for.
#[derive(Clone, Copy, Debug, PartialEq, Eq)]
pub enum Stage {
    /// Finding out whether the local file exists.
    Probe,
    /// Deleting the local file.
    Delete,
    /// Reading the local file that was found, to compare its digest.
    Verify,
    /// Fetching the bytes from the entry's source.
    Fetch,
    /// Writing the fetched bytes to the local file.
    Write,
    /// Reading the file that was just written, to compare its digest.
    Confirm,
}

/// How the processing of one entry ended.
#[derive(Debug, PartialEq, Eq)]
pub enum Outcome {
    /// The file was absent and has been fetched and written.
    Downloaded,
    /// Nothing had to be done.
    Unchanged,
    /// The file was present and has been deleted.
    Removed,
    /// The entry could not be brought in line; the text says why.
    Failed(String),
}

/// Mathematical value of an `Outcome`.
pub enum OutcomeView {
    Downloaded,
    Unchanged,
    Removed,
    Failed(Seq<char>),
}

impl View for Outcome {
    type V = OutcomeView;

    open spec fn view(&self) -> OutcomeView {
        match *self {
            Outcome::Downloaded => OutcomeView::Downloaded,
            Outcome::Unchanged => OutcomeView::Unchanged,
            Outcome::Removed => OutcomeView::Removed,
            Outcome::Failed(m) => OutcomeView::Failed(m@),
        }
    }
}

impl Clone for Outcome {
    fn clone(&self) -> (r: Self)
        ensures
            r == *self,
    {
        match self {
            Outcome::Downloaded => Outcome::Downloaded,
            Outcome::Unchanged => Outcome::Unchanged,
            Outcome::Removed => Outcome::Removed,
            Outcome::Failed(m) => Outcome::Failed(m.clone()),
        }
    }
}

/// An operation that the caller is asked to perform for an entry.
#[derive(Debug, PartialEq, Eq)]
pub enum Action {
    /// Report whether the local file exists.
    Probe,
    /// Delete the local file.
    Delete,
    /// Read the local file and report its content.
    Verify,
    /// Fetch the bytes at the entry's source.
    Fetch,
    /// Write these bytes to the local file, replacing what is there.
    Write(Vec<u8>),
    /// Read the local file again and report its content.
    Confirm,
}

/// Mathematical value of an `Action`.
pub enum ActionView {
    Probe,
    Delete,
    Verify,
    Fetch,
    Write(Seq<u8>),
    Confirm,
}

impl View for Action {
    type V = ActionView;

    open spec fn view(&self) -> ActionView {
        match *self {
            Action::Probe => ActionView::Probe,
            Action::Delete => ActionView::Delete,
            Action::Verify => ActionView::Verify,
            Action::Fetch => ActionView::Fetch,
            Action::Write(bytes) => ActionView::Write(bytes@),
            Action::Confirm => ActionView::Confirm,
        }
    }
}

impl ActionView {
    /// The stage in which an entry waits for this operation.
    pub open spec fn stage(self) -> Stage {
        match self {
            ActionView::Probe => Stage::Probe,
            ActionView::Delete => Stage::Delete,
            ActionView::Verify => Stage::Verify,
            ActionView::Fetch => Stage::Fetch,
            ActionView::Write(_) => Stage::Write,
            ActionView::Confirm => Stage::Confirm,
        }
    }
}

impl Action {
    /// The stage in which an entry waits for this operation.
    pub fn stage(&self) -> (s: Stage)
        ensures
            s == self@.stage(),
    {
        match self {
            Action::Probe => Stage::Probe,
            Action::Delete => Stage::Delete,
            Action::Verify => Stage::Verify,
            Action::Fetch => Stage::Fetch,
            Action::Write(_) => Stage::Write,
            Action::Confirm => Stage::Confirm,
        }
    }
}

/// What an operation reported.
#[derive(Debug, PartialEq, Eq)]
pub enum Event {
    /// The local file exists.
    Present,
    /// The local file does not exist.
    Absent,
    /// The local file has been deleted.
    Deleted,
    /// The local file could not be deleted; the text is the system's message.
    DeleteFailed(String),
    /// The content of the local file.
    Content(Vec<u8>),
    /// The local file could not be read.
    ReadFailed,
    /// The bytes that the source returned.
    Fetched(Vec<u8>),
    /// The request to the source failed.
    RequestFailed,
    /// The source answered, but its body could not be read.
    BodyFailed,
    /// The bytes have been written.
    Written,
    /// The bytes could not be written.
    WriteFailed,
}

/// Mathematical value of an `Event`.
pub enum EventView {
    Present,
    Absent,
    Deleted,
    DeleteFailed(Seq<char>),
    Content(Seq<u8>),
    ReadFailed,
    Fetched(Seq<u8>),
    RequestFailed,
    BodyFailed,
    Written,
    WriteFailed,
}

impl View for Event {
    type V = EventView;

    open spec fn view(&self) -> EventView {
        match *self {
            Event::Present => EventView::Present,
            Event::Absent => EventView::Absent,
            Event::Deleted => EventView::Deleted,
            Event::DeleteFailed(m) => EventView::DeleteFailed(m@),
            Event::Content(bytes) => EventView::Content(bytes@),
            Event::ReadFailed => EventView::ReadFailed,
            Event::Fetched(bytes) => EventView::Fetched(bytes@),
            Event::RequestFailed => EventView::RequestFailed,
            Event::BodyFailed => EventView::BodyFailed,
            Event::Written => EventView::Written,
            Event::WriteFailed => EventView::WriteFailed,
        }
    }
}

/// The decision taken on a report: one more operation, or the end.
#[derive(Debug, PartialEq, Eq)]
pub enum Step {
    Next(Action),
    Done(Outcome),
}

/// Mathematical value of a `Step`.
pub enum StepView {
    Next(ActionView),
    Done(OutcomeView),
}

impl View for Step {
    type V = StepView;

    open spec fn view(&self) -> StepView {
        match *self {
            Step::Next(a) => StepView::Next(a@),
            Step::Done(o) => StepView::Done(o@),
        }
    }
}

/// The view of an optional step.
pub open spec fn step_view(step: Option<Step>) -> Option<StepView> {
    match step {
        Some(s) => Some(s@),
        None => None,
    }
}

/// Whether `event` is a report of the operation that `stage` waits for.
pub open spec fn answers(stage: Stage, event: EventView) -> bool {
    match stage {
        Stage::Probe => event is Present || event is Absent,
        Stage::Delete => event is Deleted || event is DeleteFailed,
        Stage::Verify => event is Content || event is ReadFailed,
        Stage::Fetch => event is Fetched || event is RequestFailed || event is BodyFailed,
        Stage::Write => event is Written || event is WriteFailed,
        Stage::Confirm => event is Content || event is ReadFailed,
    }
}

/// Whether an entry can ever be in `stage`: only an entry that asks for
/// removal deletes, only the others fetch and write, and a digest is compared
/// only where the entry gives one.
pub open spec fn reachable(entry: ModEntryView, stage: Stage) -> bool {
    match stage {
        Stage::Probe => true,
        Stage::Delete => entry.is_remove(),
        Stage::Fetch => !entry.is_remove(),
        Stage::Write => !entry.is_remove(),
        Stage::Verify => !entry.is_remove() && entry.sha256 is Some,
        Stage::Confirm => !entry.is_remove() && entry.sha256 is Some,
    }
}

/// The largest number of reports that an entry in `stage` can still need
/// before it ends.
pub open spec fn reports_left(stage: Stage) -> nat {
    match stage {
        Stage::Probe => 4,
        Stage::Fetch => 3,
        Stage::Write => 2,
        Stage::Delete => 1,
        Stage::Verify => 1,
        Stage::Confirm => 1,
    }
}

/// Message of an entry whose local file could not be read for hashing.
pub open spec fn read_failed_message() -> Seq<char> {
    "Failed to read file for hashing"@
}

/// Message of an entry whose source could not be reached.
pub open spec fn request_failed_message(filename: Seq<char>) -> Seq<char> {
    "Failed to download "@ + filename
}

/// Message of an entry whose source gave an answer that could not be read.
pub open spec fn body_failed_message(filename: Seq<char>) -> Seq<char> {
    "Failed to read response for "@ + filename
}

/// Message of an entry whose file could not be written.
pub open spec fn write_failed_message(filename: Seq<char>) -> Seq<char> {
    "Failed to write "@ + filename
}

/// The outcome of comparing a file's digest `actual` with `expected`:
/// `good` when they match, a failure that names both when they do not.
pub open spec fn judged(expected: Seq<char>, actual: Seq<char>, good: OutcomeView) -> OutcomeView {
    if digest_matches(actual, expected) {
        good
    } else {
        OutcomeView::Failed(mismatch_message(expected, actual))
    }
}

/// The decision for an entry that asks for removal: a file that is absent is
/// left alone, one that is present is deleted, and a failed deletion is
/// reported with the system's message.
pub open spec fn remove_step(stage: Stage, event: EventView) -> Option<StepView> {
    match (stage, event) {
        (Stage::Probe, EventView::Present) => Some(StepView::Next(ActionView::Delete)),
        (Stage::Probe, EventView::Absent) => Some(StepView::Done(OutcomeView::Unchanged)),
        (Stage::Delete, EventView::Deleted) => Some(StepView::Done(OutcomeView::Removed)),
        (Stage::Delete, EventView::DeleteFailed(m)) => Some(
            StepView::Done(OutcomeView::Failed(m)),
        ),
        _ => None,
    }
}

/// The decision for an entry whose file was found absent: fetch, write, and
/// compare the digest of what was written where one is expected. The file
/// stays as written even when its digest is not the expected one.
pub open spec fn download_step(entry: ModEntryView, stage: Stage, event: EventView) -> Option<
    StepView,
> {
    match (stage, event) {
        (Stage::Fetch, EventView::Fetched(bytes)) => Some(StepView::Next(ActionView::Write(bytes))),
        (Stage::Fetch, EventView::RequestFailed) => Some(
            StepView::Done(OutcomeView::Failed(request_failed_message(entry.filename))),
        ),
        (Stage::Fetch, EventView::BodyFailed) => Some(
            StepView::Done(OutcomeView::Failed(body_failed_message(entry.filename))),
        ),
        (Stage::Write, EventView::Written) => Some(
            if entry.sha256 is Some {
                StepView::Next(ActionView::Confirm)
            } else {
                StepView::Done(OutcomeView::Downloaded)
            },
        ),
        (Stage::Write, EventView::WriteFailed) => Some(
            StepView::Done(OutcomeView::Failed(write_failed_message(entry.filename))),
        ),
        (Stage::Confirm, EventView::Content(bytes)) => match entry.sha256 {
            Some(expected) => Some(
                StepView::Done(judged(expected, digest_hex(bytes), OutcomeView::Downloaded)),
            ),
            None => None,
        },
        (Stage::Confirm, EventView::ReadFailed) => match entry.sha256 {
            Some(_) => Some(StepView::Done(OutcomeView::Failed(read_failed_message()))),
            None => None,
        },
        _ => None,
    }
}

/// The decision for an entry that asks for its file to be present. A file
/// that exists is never fetched again: without an expected digest it is
/// accepted as it is, with one its content is compared and a difference is a
/// failure. A file that does not exist is downloaded.
pub open spec fn ensure_step(entry: ModEntryView, stage: Stage, event: EventView) -> Option<
    StepView,
> {
    match (stage, event) {
        (Stage::Probe, EventView::Present) => Some(
            if entry.sha256 is Some {
                StepView::Next(ActionView::Verify)
            } else {
                StepView::Done(OutcomeView::Unchanged)
            },
        ),
        (Stage::Probe, EventView::Absent) => Some(StepView::Next(ActionView::Fetch)),
        (Stage::Verify, EventView::Content(bytes)) => match entry.sha256 {
            Some(expected) => Some(
                StepView::Done(judged(expected, digest_hex(bytes), OutcomeView::Unchanged)),
            ),
            None => None,
        },
        (Stage::Verify, EventView::ReadFailed) => match entry.sha256 {
            Some(_) => Some(StepView::Done(OutcomeView::Failed(read_failed_message()))),
            None => None,
        },
        _ => download_step(entry, stage, event),
    }
}

/// The decision on `event` for `entry` in `stage`. It is `None` where the
/// entry cannot be in that stage, or the event is no report of the operation
/// that the stage waits for.
pub open spec fn step_spec(entry: ModEntryView, stage: Stage, event: EventView) -> Option<
    StepView,
> {
    if entry.is_remove() {
        remove_step(stage, event)
    } else {
        ensure_step(entry, stage, event)
    }
}

/// A decision is taken exactly when the entry can be in the stage and the
/// event reports the operation that the stage waits for.
pub proof fn lemma_step_defined(entry: ModEntryView, stage: Stage, event: EventView)
    ensures
        step_spec(entry, stage, event) is Some <==> reachable(entry, stage) && answers(
            stage,
            event,
        ),
{
}

/// Every operation that a decision asks for leads to a stage that the entry
/// can be in, and brings the entry nearer to its end: no entry needs more
/// than four reports.
pub proof fn lemma_next_stage(entry: ModEntryView, stage: Stage, event: EventView)
    requires
        step_spec(entry, stage, event) matches Some(StepView::Next(_)),
    ensures
        reachable(entry, step_spec(entry, stage, event)->0->Next_0.stage()),
        reports_left(step_spec(entry, stage, event)->0->Next_0.stage()) < reports_left(stage),
{
}

/// The decisions of a reconciliation. It holds no state: what is under way is
/// kept by the run.
pub struct ModManager;

/// The outcome for a file with content `content`, of which the digest
/// `expected` is expected.
fn judge(expected: &str, content: &[u8], good: Outcome) -> (r: Outcome)
    ensures
        r@ == judged(expected@, digest_hex(content@), good@),
{
    let actual = sha256_hex(content);
    match check_digest(expected, actual.as_str()) {
        Ok(()) => good,
        Err(m) => Outcome::Failed(m),
    }
}

/// `prefix` followed by `name`.
fn message_for(prefix: &str, name: &str) -> (m: String)
    ensures
        m@ == prefix@ + name@,
{
    let mut m = prefix.to_owned();
    m.append(name);
    m
}

impl ModManager {
    /// Decides what follows `event` for `entry`, which is in `stage`.
    /// Returns `None`, and decides nothing, where the entry cannot be in that
    /// stage or the event does not report the operation that the stage waits
    /// for.
    pub fn handle_entry(entry: &ModEntry, stage: Stage, event: Event) -> (r: Option<Step>)
        ensures
            step_view(r) == step_spec(entry@, stage, event@),
    {
        if entry.is_remove() {
            match stage {
                Stage::Probe => match event {
                    Event::Present => Some(Step::Next(Action::Delete)),
                    Event::Absent => Some(Step::Done(Outcome::Unchanged)),
                    _ => None,
                },
                Stage::Delete => match event {
                    Event::Deleted => Some(Step::Done(Outcome::Removed)),
                    Event::DeleteFailed(m) => Some(Step::Done(Outcome::Failed(m))),
                    _ => None,
                },
                _ => None,
            }
        } else {
            Self::check_and_download(entry, stage, event)
        }
    }

    /// The decision for an entry that asks for its file to be present,
    /// whatever its category says.
    pub fn check_and_download(entry: &ModEntry, stage: Stage, event: Event) -> (r: Option<Step>)
        ensures
            step_view(r) == ensure_step(entry@, stage, event@),
    {
        match stage {
            Stage::Probe => match event {
                Event::Present => match &entry.sha256 {
                    Some(_) => Some(Step::Next(Action::Verify)),
                    None => Some(Step::Done(Outcome::Unchanged)),
                },
                Event::Absent => Some(Step::Next(Action::Fetch)),
                _ => None,
            },
            Stage::Verify => match &entry.sha256 {
                Some(expected) => match event {
                    Event::Content(bytes) => Some(
                        Step::Done(judge(expected.as_str(), bytes.as_slice(), Outcome::Unchanged)),
                    ),
                    Event::ReadFailed => Some(
                        Step::Done(Outcome::Failed("Failed to read file for hashing".to_owned())),
                    ),
                    _ => None,
                },
                None => None,
            },
            Stage::Delete => None,
            _ => Self::download_mod(entry, stage, event),
        }
    }

    /// The decision for an entry whose file is being downloaded.
    pub fn download_mod(entry: &ModEntry, stage: Stage, event: Event) -> (r: Option<Step>)
        ensures
            step_view(r) == download_step(entry@, stage, event@),
    {
        match stage {
            Stage::Fetch => match event {
                Event::Fetched(bytes) => Some(Step::Next(Action::Write(bytes))),
                Event::RequestFailed => Some(
                    Step::Done(
                        Outcome::Failed(
                            message_for("Failed to download ", entry.filename.as_str()),
                        ),
                    ),
                ),
                Event::BodyFailed => Some(
                    Step::Done(
                        Outcome::Failed(
                            message_for("Failed to read response for ", entry.filename.as_str()),
                        ),
                    ),
                ),
                _ => None,
            },
            Stage::Write => match event {
                Event::Written => match &entry.sha256 {
                    Some(_) => Some(Step::Next(Action::Confirm)),
                    None => Some(Step::Done(Outcome::Downloaded)),
                },
                Event::WriteFailed => Some(
                    Step::Done(
                        Outcome::Failed(message_for("Failed to write ", entry.filename.as_str())),
                    ),
                ),
                _ => None,
            },
            Stage::Confirm => match &entry.sha256 {
                Some(expected) => match event {
                    Event::Content(bytes) => Some(
                        Step::Done(judge(expected.as_str(), bytes.as_slice(), Outcome::Downloaded)),
                    ),
                    Event::ReadFailed => Some(
                        Step::Done(Outcome::Failed("Failed to read file for hashing".to_owned())),
                    ),
                    _ => None,
                },
                None => None,
            },
            _ => None,
        }
    }
}

} // verus!
