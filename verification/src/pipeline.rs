//! The work on one file, as a machine that asks for one thing at a time.
//!
//! The caller performs what the machine asks for (read the header, probe
//! the marker, create the directory, send the job) and hands back what it
//! found; the machine decides what follows. It touches neither the file
//! system nor the network.

use crate::format::{AudioFormat, Reading, FIRST_READ};
use crate::paths::{marker_of, mirrored_dir, plan_fault, plan_output, TreePath};
use crate::selector::{successor, EndpointSelector};
use crate::tally::{Outcome, SkipReason};
use vstd::prelude::*;

verus! {

/// The status with which a service reports success.
pub const STATUS_OK: u16 = 200;

/// What every file of a run shares.
#[derive(Debug, PartialEq, Eq)]
pub struct FileContext {
    pub input_root: TreePath,
    pub output_root: TreePath,
    pub model: Option<String>,
}

/// The contents of a `FileContext`.
pub struct ContextView {
    pub input_root: Seq<Seq<char>>,
    pub output_root: Seq<Seq<char>>,
    pub model: Option<Seq<char>>,
}

impl View for FileContext {
    type V = ContextView;

    open spec fn view(&self) -> ContextView {
        ContextView {
            input_root: self.input_root@,
            output_root: self.output_root@,
            model: self.model.deep_view(),
        }
    }
}

/// The unit of work sent to a remote service.
#[derive(Debug, PartialEq, Eq)]
pub struct JobDescriptor {
    pub input_file: TreePath,
    pub output_dir: TreePath,
    pub model: Option<String>,
}

/// The contents of a `JobDescriptor`.
pub struct JobView {
    pub input_file: Seq<Seq<char>>,
    pub output_dir: Seq<Seq<char>>,
    pub model: Option<Seq<char>>,
}

impl View for JobDescriptor {
    type V = JobView;

    open spec fn view(&self) -> JobView {
        JobView {
            input_file: self.input_file@,
            output_dir: self.output_dir@,
            model: self.model.deep_view(),
        }
    }
}

/// How far the work on a file has come.
#[derive(Clone, Copy, Debug, PartialEq, Eq, Structural)]
pub enum FileStage {
    /// The verdict on the header is awaited, from a look at this many of
    /// the file's first bytes.
    Validating(usize),
    /// The answer whether the marker exists is awaited.
    Probing,
    /// The creation of the output directory is awaited.
    Preparing,
    /// The answer of the remote service is awaited.
    Submitting,
    /// The work has ended.
    Finished(Outcome),
}

/// What the caller found when it did what the machine asked for.
#[derive(Clone, Copy, Debug, PartialEq, Eq)]
pub enum FileEvent {
    /// What the format validator answered to a look at the file's first
    /// bytes.
    Validated(Reading),
    /// Whether the marker exists.
    Probed(bool),
    /// Whether the output directory exists now.
    Prepared(bool),
    /// The status of the service's answer, or `None` where none arrived.
    Answered(Option<u16>),
}

/// What the machine asks the caller to do next.
#[derive(Debug, PartialEq, Eq)]
pub enum FileAction {
    /// Read this many bytes from the start of the file, or the whole file
    /// where it is shorter, and have the format validator look at them.
    ReadHeader(usize),
    /// Tell whether this path exists.
    ProbeMarker(TreePath),
    /// Create this directory, with its ancestors, unless it exists.
    EnsureDirectory(TreePath),
    /// Send this job to this endpoint and wait for the answer.
    Submit { endpoint: String, job: JobDescriptor },
    /// Count this outcome; the work on the file is over.
    Report(Outcome),
}

/// The contents of a `FileAction`.
pub enum ActionView {
    ReadHeader(nat),
    ProbeMarker(Seq<Seq<char>>),
    EnsureDirectory(Seq<Seq<char>>),
    Submit { endpoint: Seq<char>, job: JobView },
    Report(Outcome),
}

impl View for FileAction {
    type V = ActionView;

    open spec fn view(&self) -> ActionView {
        match self {
            FileAction::ReadHeader(limit) => ActionView::ReadHeader(*limit as nat),
            FileAction::ProbeMarker(path) => ActionView::ProbeMarker(path@),
            FileAction::EnsureDirectory(path) => ActionView::EnsureDirectory(path@),
            FileAction::Submit { endpoint, job } => ActionView::Submit {
                endpoint: endpoint@,
                job: job@,
            },
            FileAction::Report(outcome) => ActionView::Report(*outcome),
        }
    }
}

/// The stage that follows an answered request when the paths of the file
/// can be derived.
pub open spec fn stage_or_misplaced(ctx: ContextView, file: Seq<Seq<char>>, next: FileStage)
    -> FileStage {
    match plan_fault(ctx.input_root, file) {
        Some(fault) => FileStage::Finished(Outcome::Skipped(SkipReason::Misplaced(fault))),
        None => next,
    }
}

/// The outcome that an answer of the remote service stands for: only the
/// status 200 counts as success.
pub open spec fn outcome_of_answer(answer: Option<u16>) -> Outcome {
    match answer {
        Some(status) => if status == STATUS_OK {
            Outcome::Processed
        } else {
            Outcome::Skipped(SkipReason::Status(status))
        },
        None => Outcome::Skipped(SkipReason::Transport),
    }
}

/// The stage that follows `stage` on `event`.
///
/// Each stage takes the one kind of event that answers its request; any
/// other event ends the work as skipped. A finished file stays finished.
pub open spec fn next_stage(
    ctx: ContextView,
    file: Seq<Seq<char>>,
    stage: FileStage,
    event: FileEvent,
) -> FileStage {
    let out_of_turn = FileStage::Finished(Outcome::Skipped(SkipReason::OutOfTurn));
    match stage {
        FileStage::Finished(_) => stage,
        FileStage::Validating(_) => match event {
            FileEvent::Validated(Reading::More(limit)) => FileStage::Validating(limit),
            FileEvent::Validated(Reading::Verdict(Err(error))) => FileStage::Finished(
                Outcome::Skipped(SkipReason::Unreadable(error)),
            ),
            FileEvent::Validated(Reading::Verdict(Ok(accepted))) => if accepted {
                stage_or_misplaced(ctx, file, FileStage::Probing)
            } else {
                FileStage::Finished(Outcome::Skipped(SkipReason::WrongFormat))
            },
            _ => out_of_turn,
        },
        FileStage::Probing => match event {
            FileEvent::Probed(exists) => if exists {
                FileStage::Finished(Outcome::Skipped(SkipReason::AlreadyDone))
            } else {
                stage_or_misplaced(ctx, file, FileStage::Preparing)
            },
            _ => out_of_turn,
        },
        FileStage::Preparing => match event {
            FileEvent::Prepared(ready) => if ready {
                stage_or_misplaced(ctx, file, FileStage::Submitting)
            } else {
                FileStage::Finished(Outcome::Skipped(SkipReason::DirectoryFailed))
            },
            _ => out_of_turn,
        },
        FileStage::Submitting => match event {
            FileEvent::Answered(answer) => FileStage::Finished(outcome_of_answer(answer)),
            _ => out_of_turn,
        },
    }
}

/// What a stage asks the caller to do when it is entered. `endpoint` is
/// the endpoint that the selector hands out for a job.
pub open spec fn request_of(
    ctx: ContextView,
    file: Seq<Seq<char>>,
    stage: FileStage,
    endpoint: Seq<char>,
) -> ActionView {
    match stage {
        FileStage::Validating(limit) => ActionView::ReadHeader(limit as nat),
        FileStage::Probing => ActionView::ProbeMarker(
            marker_of(ctx.input_root, ctx.output_root, file),
        ),
        FileStage::Preparing => ActionView::EnsureDirectory(
            mirrored_dir(ctx.input_root, ctx.output_root, file),
        ),
        FileStage::Submitting => ActionView::Submit {
            endpoint,
            job: JobView {
                input_file: file,
                output_dir: mirrored_dir(ctx.input_root, ctx.output_root, file),
                model: ctx.model,
            },
        },
        FileStage::Finished(outcome) => ActionView::Report(outcome),
    }
}

/// A job is sent exactly when the stage `Submitting` is entered.
pub open spec fn dispatches(
    ctx: ContextView,
    file: Seq<Seq<char>>,
    stage: FileStage,
    event: FileEvent,
) -> bool {
    stage != FileStage::Submitting && next_stage(ctx, file, stage, event) == FileStage::Submitting
}

/// The stage reached from `stage` after the events of `events`, in order.
pub open spec fn stage_after(
    ctx: ContextView,
    file: Seq<Seq<char>>,
    stage: FileStage,
    events: Seq<FileEvent>,
) -> FileStage
    decreases events.len(),
{
    if events.len() == 0 {
        stage
    } else {
        next_stage(ctx, file, stage_after(ctx, file, stage, events.drop_last()), events.last())
    }
}

/// The number of jobs sent while the events of `events` arrive, in order,
/// at a file that stands at `stage`.
pub open spec fn jobs_sent(
    ctx: ContextView,
    file: Seq<Seq<char>>,
    stage: FileStage,
    events: Seq<FileEvent>,
) -> nat
    decreases events.len(),
{
    if events.len() == 0 {
        0
    } else {
        let earlier = events.drop_last();
        let sent = jobs_sent(ctx, file, stage, earlier);
        if dispatches(ctx, file, stage_after(ctx, file, stage, earlier), events.last()) {
            sent + 1
        } else {
            sent
        }
    }
}

/// A stage from which a job may still be sent.
pub open spec fn before_submission(stage: FileStage) -> bool {
    stage is Validating || stage == FileStage::Probing || stage == FileStage::Preparing
}

/// Begins the work on a file: its header is to be validated first, from
/// a first read of `FIRST_READ` bytes.
pub fn start() -> (r: (FileStage, FileAction))
    ensures
        r.0 == FileStage::Validating(FIRST_READ),
        r.1@ == ActionView::ReadHeader(FIRST_READ as nat),
{
    (FileStage::Validating(FIRST_READ), FileAction::ReadHeader(FIRST_READ))
}

fn finish(outcome: Outcome) -> (r: (FileStage, FileAction))
    ensures
        r.0 == FileStage::Finished(outcome),
        r.1@ == ActionView::Report(outcome),
{
    (FileStage::Finished(outcome), FileAction::Report(outcome))
}

fn copy_model(model: &Option<String>) -> (copy: Option<String>)
    ensures
        copy.deep_view() == model.deep_view(),
{
    match model {
        Some(name) => Some(name.clone()),
        None => None,
    }
}

/// Takes the answer to the request of `stage` and decides what follows.
///
/// The result is the next stage together with its request. The selector
/// moves on by one endpoint exactly when a job is sent, and is left as it
/// was otherwise.
pub fn advance(
    ctx: &FileContext,
    file: &TreePath,
    stage: FileStage,
    event: FileEvent,
    selector: &mut EndpointSelector,
) -> (r: (FileStage, FileAction))
    ensures
        r.0 == next_stage(ctx@, file@, stage, event),
        old(selector).position() < old(selector).addresses().len(),
        r.1@ == request_of(
            ctx@,
            file@,
            r.0,
            old(selector).addresses()[old(selector).position() as int],
        ),
        final(selector).addresses() == old(selector).addresses(),
        final(selector).position() == if dispatches(ctx@, file@, stage, event) {
            successor(old(selector).position(), old(selector).addresses().len())
        } else {
            old(selector).position()
        },
{
    // A selector is never empty, so an endpoint stands under its cursor.
    let _ = selector.len();
    let entered = match stage {
        FileStage::Finished(outcome) => {
            return finish(outcome);
        },
        FileStage::Validating(_) => match event {
            FileEvent::Validated(Reading::More(limit)) => {
                return (FileStage::Validating(limit), FileAction::ReadHeader(limit));
            },
            FileEvent::Validated(Reading::Verdict(Err(error))) => {
                return finish(Outcome::Skipped(SkipReason::Unreadable(error)));
            },
            FileEvent::Validated(Reading::Verdict(Ok(accepted))) => {
                if !accepted {
                    return finish(Outcome::Skipped(SkipReason::WrongFormat));
                }
                FileStage::Probing
            },
            _ => {
                return finish(Outcome::Skipped(SkipReason::OutOfTurn));
            },
        },
        FileStage::Probing => match event {
            FileEvent::Probed(exists) => {
                if exists {
                    return finish(Outcome::Skipped(SkipReason::AlreadyDone));
                }
                FileStage::Preparing
            },
            _ => {
                return finish(Outcome::Skipped(SkipReason::OutOfTurn));
            },
        },
        FileStage::Preparing => match event {
            FileEvent::Prepared(ready) => {
                if !ready {
                    return finish(Outcome::Skipped(SkipReason::DirectoryFailed));
                }
                FileStage::Submitting
            },
            _ => {
                return finish(Outcome::Skipped(SkipReason::OutOfTurn));
            },
        },
        FileStage::Submitting => match event {
            FileEvent::Answered(Some(status)) => {
                if status == STATUS_OK {
                    return finish(Outcome::Processed);
                }
                return finish(Outcome::Skipped(SkipReason::Status(status)));
            },
            FileEvent::Answered(None) => {
                return finish(Outcome::Skipped(SkipReason::Transport));
            },
            _ => {
                return finish(Outcome::Skipped(SkipReason::OutOfTurn));
            },
        },
    };
    let plan = match plan_output(&ctx.input_root, &ctx.output_root, file) {
        Ok(plan) => plan,
        Err(fault) => {
            return finish(Outcome::Skipped(SkipReason::Misplaced(fault)));
        },
    };
    match entered {
        FileStage::Probing => (entered, FileAction::ProbeMarker(plan.marker)),
        FileStage::Preparing => (entered, FileAction::EnsureDirectory(plan.output_dir)),
        _ => {
            let endpoint = selector.next();
            let job = JobDescriptor {
                input_file: file.clone(),
                output_dir: plan.output_dir,
                model: copy_model(&ctx.model),
            };
            (FileStage::Submitting, FileAction::Submit { endpoint, job })
        },
    }
}

/// Events that arrive one after the other act like their concatenation.
pub proof fn lemma_events_concat(
    ctx: ContextView,
    file: Seq<Seq<char>>,
    stage: FileStage,
    first: Seq<FileEvent>,
    then: Seq<FileEvent>,
)
    ensures
        stage_after(ctx, file, stage, first + then) == stage_after(
            ctx,
            file,
            stage_after(ctx, file, stage, first),
            then,
        ),
        jobs_sent(ctx, file, stage, first + then) == jobs_sent(ctx, file, stage, first) + jobs_sent(
            ctx,
            file,
            stage_after(ctx, file, stage, first),
            then,
        ),
    decreases then.len(),
{
    if then.len() == 0 {
        assert(first + then =~= first);
    } else {
        assert((first + then).drop_last() =~= first + then.drop_last());
        lemma_events_concat(ctx, file, stage, first, then.drop_last());
    }
}

/// The effect of a single event.
pub proof fn lemma_single_event(
    ctx: ContextView,
    file: Seq<Seq<char>>,
    stage: FileStage,
    event: FileEvent,
)
    ensures
        stage_after(ctx, file, stage, seq![event]) == next_stage(ctx, file, stage, event),
        jobs_sent(ctx, file, stage, seq![event]) == if dispatches(ctx, file, stage, event) {
            1nat
        } else {
            0nat
        },
{
    reveal_with_fuel(stage_after, 2);
    reveal_with_fuel(jobs_sent, 2);
    assert(seq![event].drop_last() =~= Seq::<FileEvent>::empty());
}

/// At most one job is sent for a file, and none once its job was sent or
/// its work has ended.
pub proof fn lemma_at_most_one_job(
    ctx: ContextView,
    file: Seq<Seq<char>>,
    stage: FileStage,
    events: Seq<FileEvent>,
)
    ensures
        before_submission(stage) ==> jobs_sent(ctx, file, stage, events) <= 1,
        !before_submission(stage) ==> jobs_sent(ctx, file, stage, events) == 0,
        jobs_sent(ctx, file, stage, events) == 1 ==> !before_submission(
            stage_after(ctx, file, stage, events),
        ),
        !before_submission(stage) ==> !before_submission(stage_after(ctx, file, stage, events)),
    decreases events.len(),
{
    if events.len() > 0 {
        lemma_at_most_one_job(ctx, file, stage, events.drop_last());
    }
}

/// A finished file stays finished with the outcome it has, and no job is
/// sent for it, whatever arrives.
pub proof fn lemma_finished_is_final(
    ctx: ContextView,
    file: Seq<Seq<char>>,
    outcome: Outcome,
    events: Seq<FileEvent>,
)
    ensures
        stage_after(ctx, file, FileStage::Finished(outcome), events) == FileStage::Finished(
            outcome,
        ),
        jobs_sent(ctx, file, FileStage::Finished(outcome), events) == 0,
    decreases events.len(),
{
    if events.len() > 0 {
        lemma_finished_is_final(ctx, file, outcome, events.drop_last());
    }
}

/// A file whose header reports two channels, 8-bit samples or a rate of
/// 44.1 kHz is not acceptable; when its verdict arrives it ends as skipped
/// for its format, and no job is sent for it: neither before the verdict
/// nor at any time after it.
pub proof fn lemma_wrong_format_is_skipped(
    ctx: ContextView,
    file: Seq<Seq<char>>,
    format: AudioFormat,
    earlier: Seq<FileEvent>,
    later: Seq<FileEvent>,
)
    requires
        format.channels == 2 || format.bits_per_sample == 8 || format.sample_rate == 44100,
        stage_after(ctx, file, FileStage::Validating(FIRST_READ), earlier) is Validating,
    ensures
        !format.acceptable(),
        stage_after(
            ctx,
            file,
            FileStage::Validating(FIRST_READ),
            earlier.push(FileEvent::Validated(Reading::Verdict(Ok(format.acceptable())))) + later,
        ) == FileStage::Finished(Outcome::Skipped(SkipReason::WrongFormat)),
        jobs_sent(
            ctx,
            file,
            FileStage::Validating(FIRST_READ),
            earlier.push(FileEvent::Validated(Reading::Verdict(Ok(format.acceptable())))) + later,
        ) == 0,
{
    let first = FileStage::Validating(FIRST_READ);
    let verdict = FileEvent::Validated(Reading::Verdict(Ok(format.acceptable())));
    let skipped = Outcome::Skipped(SkipReason::WrongFormat);
    lemma_at_most_one_job(ctx, file, first, earlier);
    assert(earlier.push(verdict) =~= earlier + seq![verdict]);
    lemma_single_event(ctx, file, stage_after(ctx, file, first, earlier), verdict);
    lemma_events_concat(ctx, file, first, earlier, seq![verdict]);
    lemma_events_concat(ctx, file, first, earlier.push(verdict), later);
    lemma_finished_is_final(ctx, file, skipped, later);
}

/// A file whose marker exists when it is probed ends as skipped, and no job
/// is sent for it: neither before the probe nor at any time after it.
pub proof fn lemma_marker_stops_dispatch(
    ctx: ContextView,
    file: Seq<Seq<char>>,
    earlier: Seq<FileEvent>,
    later: Seq<FileEvent>,
)
    requires
        stage_after(ctx, file, FileStage::Validating(FIRST_READ), earlier) == FileStage::Probing,
    ensures
        stage_after(
            ctx,
            file,
            FileStage::Validating(FIRST_READ),
            earlier.push(FileEvent::Probed(true)) + later,
        ) == FileStage::Finished(Outcome::Skipped(SkipReason::AlreadyDone)),
        jobs_sent(
            ctx,
            file,
            FileStage::Validating(FIRST_READ),
            earlier.push(FileEvent::Probed(true)) + later,
        ) == 0,
{
    let probe = FileEvent::Probed(true);
    let skipped = Outcome::Skipped(SkipReason::AlreadyDone);
    lemma_at_most_one_job(ctx, file, FileStage::Validating(FIRST_READ), earlier);
    assert(earlier.push(probe) =~= earlier + seq![probe]);
    lemma_single_event(ctx, file, FileStage::Probing, probe);
    lemma_events_concat(ctx, file, FileStage::Validating(FIRST_READ), earlier, seq![probe]);
    lemma_events_concat(ctx, file, FileStage::Validating(FIRST_READ), earlier.push(probe), later);
    lemma_finished_is_final(ctx, file, skipped, later);
}

/// An answer with another status than 200, such as 500, ends the file as
/// skipped with that status; a missing answer ends it as skipped too.
pub proof fn lemma_failed_answer_is_skipped(
    ctx: ContextView,
    file: Seq<Seq<char>>,
    earlier: Seq<FileEvent>,
    answer: Option<u16>,
    later: Seq<FileEvent>,
)
    requires
        stage_after(ctx, file, FileStage::Validating(FIRST_READ), earlier) == FileStage::Submitting,
        answer != Some(STATUS_OK),
    ensures
        stage_after(
            ctx,
            file,
            FileStage::Validating(FIRST_READ),
            earlier.push(FileEvent::Answered(answer)) + later,
        ) == FileStage::Finished(outcome_of_answer(answer)),
        outcome_of_answer(answer) is Skipped,
        answer matches Some(status) ==> outcome_of_answer(answer) == Outcome::Skipped(
            SkipReason::Status(status),
        ),
{
    let event = FileEvent::Answered(answer);
    assert(earlier.push(event) =~= earlier + seq![event]);
    lemma_single_event(ctx, file, FileStage::Submitting, event);
    lemma_events_concat(ctx, file, FileStage::Validating(FIRST_READ), earlier, seq![event]);
    lemma_events_concat(ctx, file, FileStage::Validating(FIRST_READ), earlier.push(event), later);
    lemma_finished_is_final(ctx, file, outcome_of_answer(answer), later);
}

/// A file under the input root that is acceptable, not yet done, whose
/// directory can be created and whose job is answered with 200 is
/// processed, with exactly one job sent. Nothing in this depends on how
/// other files of the run ended.
pub proof fn lemma_clean_file_is_processed(ctx: ContextView, file: Seq<Seq<char>>)
    requires
        plan_fault(ctx.input_root, file) is None,
    ensures
        stage_after(
            ctx,
            file,
            FileStage::Validating(FIRST_READ),
            seq![
                FileEvent::Validated(Reading::Verdict(Ok(true))),
                FileEvent::Probed(false),
                FileEvent::Prepared(true),
                FileEvent::Answered(Some(STATUS_OK)),
            ],
        ) == FileStage::Finished(Outcome::Processed),
        jobs_sent(
            ctx,
            file,
            FileStage::Validating(FIRST_READ),
            seq![
                FileEvent::Validated(Reading::Verdict(Ok(true))),
                FileEvent::Probed(false),
                FileEvent::Prepared(true),
                FileEvent::Answered(Some(STATUS_OK)),
            ],
        ) == 1,
{
    let e1 = FileEvent::Validated(Reading::Verdict(Ok(true)));
    let e2 = FileEvent::Probed(false);
    let e3 = FileEvent::Prepared(true);
    let e4 = FileEvent::Answered(Some(STATUS_OK));
    lemma_single_event(ctx, file, FileStage::Validating(FIRST_READ), e1);
    lemma_single_event(ctx, file, FileStage::Probing, e2);
    lemma_single_event(ctx, file, FileStage::Preparing, e3);
    lemma_single_event(ctx, file, FileStage::Submitting, e4);
    lemma_events_concat(ctx, file, FileStage::Validating(FIRST_READ), seq![e1], seq![e2]);
    lemma_events_concat(ctx, file, FileStage::Validating(FIRST_READ), seq![e1] + seq![e2], seq![e3]);
    lemma_events_concat(
        ctx,
        file,
        FileStage::Validating(FIRST_READ),
        seq![e1] + seq![e2] + seq![e3],
        seq![e4],
    );
    assert(seq![e1, e2, e3, e4] =~= seq![e1] + seq![e2] + seq![e3] + seq![e4]);
}

} // verus!
