//! A whole run, as a machine that asks for one thing at a time.
//!
//! The order of a run is fixed here: the endpoint list is checked before
//! anything else, then the input root is resolved, the output root
//! prepared, the input tree walked, the candidates dispatched, and the
//! summary written. A failure before dispatch aborts the run.

use crate::paths::TreePath;
use crate::pipeline::{ContextView, FileContext};
use crate::selector::EndpointSelector;
use crate::tally::{
    lemma_counts_cover, processed_among, skipped_among, summary_text, tally, Outcome, RunCounters,
};
use crate::walk::{candidates_of, collect_candidates, WalkResult};
use vstd::prelude::*;

verus! {

/// A failure that ends the whole run before any file is dispatched.
#[derive(Clone, Copy, Debug, PartialEq, Eq, Structural)]
pub enum FatalError {
    /// The configuration holds no endpoint.
    NoEndpoints,
    /// The input root cannot be resolved or walked.
    InputRoot,
    /// The output root cannot be created or resolved.
    OutputRoot,
    /// The worker pool could not be set up, or did not return one outcome
    /// for each candidate.
    WorkerPool,
}

/// How far a run has come, with what it has gathered so far.
#[derive(Debug)]
pub enum Run {
    /// The resolved input root is awaited.
    ResolvingInput { selector: EndpointSelector, model: Option<String> },
    /// The prepared output root is awaited.
    PreparingOutput { selector: EndpointSelector, model: Option<String>, input_root: TreePath },
    /// The results of the walk are awaited.
    Enumerating {
        selector: EndpointSelector,
        model: Option<String>,
        input_root: TreePath,
        output_root: TreePath,
    },
    /// The outcomes of `expected` candidates are awaited.
    Dispatching { expected: usize },
    /// The summary was handed out; the run is over.
    Reported(RunCounters),
    /// The run was aborted.
    Aborted(FatalError),
}

/// The contents of a `Run`.
pub enum RunView {
    ResolvingInput { endpoints: Seq<Seq<char>>, cursor: nat, model: Option<Seq<char>> },
    PreparingOutput {
        endpoints: Seq<Seq<char>>,
        cursor: nat,
        model: Option<Seq<char>>,
        input_root: Seq<Seq<char>>,
    },
    Enumerating {
        endpoints: Seq<Seq<char>>,
        cursor: nat,
        model: Option<Seq<char>>,
        input_root: Seq<Seq<char>>,
        output_root: Seq<Seq<char>>,
    },
    Dispatching { expected: nat },
    Reported(RunCounters),
    Aborted(FatalError),
}

impl View for Run {
    type V = RunView;

    open spec fn view(&self) -> RunView {
        match self {
            Run::ResolvingInput { selector, model } => RunView::ResolvingInput {
                endpoints: selector.addresses(),
                cursor: selector.position(),
                model: model.deep_view(),
            },
            Run::PreparingOutput { selector, model, input_root } => RunView::PreparingOutput {
                endpoints: selector.addresses(),
                cursor: selector.position(),
                model: model.deep_view(),
                input_root: input_root@,
            },
            Run::Enumerating { selector, model, input_root, output_root } => RunView::Enumerating {
                endpoints: selector.addresses(),
                cursor: selector.position(),
                model: model.deep_view(),
                input_root: input_root@,
                output_root: output_root@,
            },
            Run::Dispatching { expected } => RunView::Dispatching { expected: *expected as nat },
            Run::Reported(counters) => RunView::Reported(*counters),
            Run::Aborted(error) => RunView::Aborted(*error),
        }
    }
}

/// What the caller found when it did what the run asked for.
#[derive(Debug)]
pub enum RunEvent {
    /// The input root in canonical form, or `None` where it has none.
    InputResolved(Option<TreePath>),
    /// The output root, created and in canonical form, or `None` where
    /// that failed.
    OutputReady(Option<TreePath>),
    /// The results of the walk of the input root.
    Walked(Vec<WalkResult>),
    /// The outcomes of the candidates, one for each, or `None` where the
    /// worker pool could not be set up.
    Completed(Option<Vec<Outcome>>),
}

/// The contents of a `RunEvent`.
pub enum RunEventView {
    InputResolved(Option<Seq<Seq<char>>>),
    OutputReady(Option<Seq<Seq<char>>>),
    Walked(Seq<WalkResult>),
    Completed(Option<Seq<Outcome>>),
}

impl View for RunEvent {
    type V = RunEventView;

    open spec fn view(&self) -> RunEventView {
        match self {
            RunEvent::InputResolved(root) => RunEventView::InputResolved(root.deep_view()),
            RunEvent::OutputReady(root) => RunEventView::OutputReady(root.deep_view()),
            RunEvent::Walked(results) => RunEventView::Walked(results@),
            RunEvent::Completed(outcomes) => RunEventView::Completed(
                match outcomes {
                    Some(list) => Some(list@),
                    None => None,
                },
            ),
        }
    }
}

/// What the run asks the caller to do next.
#[derive(Debug)]
pub enum RunAction {
    /// Resolve the input root to its canonical form.
    ResolveInput,
    /// Create the output root unless it exists, and resolve it.
    PrepareOutput,
    /// Walk this directory and report every entry.
    Enumerate(TreePath),
    /// Work on each candidate with at most as many workers as the selector
    /// has endpoints, and report one outcome for each.
    Dispatch { context: FileContext, selector: EndpointSelector, candidates: Vec<TreePath> },
    /// Write this line; the run has succeeded.
    Summarize(String),
    /// Report this failure; the run has failed.
    Abort(FatalError),
    /// Nothing: the run was over before the event arrived.
    Halt,
}

/// The contents of a `RunAction`.
pub enum RunActionView {
    ResolveInput,
    PrepareOutput,
    Enumerate(Seq<Seq<char>>),
    Dispatch {
        context: ContextView,
        endpoints: Seq<Seq<char>>,
        cursor: nat,
        candidates: Seq<Seq<Seq<char>>>,
    },
    Summarize(Seq<char>),
    Abort(FatalError),
    Halt,
}

impl View for RunAction {
    type V = RunActionView;

    open spec fn view(&self) -> RunActionView {
        match self {
            RunAction::ResolveInput => RunActionView::ResolveInput,
            RunAction::PrepareOutput => RunActionView::PrepareOutput,
            RunAction::Enumerate(root) => RunActionView::Enumerate(root@),
            RunAction::Dispatch { context, selector, candidates } => RunActionView::Dispatch {
                context: context@,
                endpoints: selector.addresses(),
                cursor: selector.position(),
                candidates: candidates.deep_view(),
            },
            RunAction::Summarize(line) => RunActionView::Summarize(line@),
            RunAction::Abort(error) => RunActionView::Abort(*error),
            RunAction::Halt => RunActionView::Halt,
        }
    }
}

/// The abort of a run with `error`.
pub open spec fn aborted(error: FatalError) -> (RunView, RunActionView) {
    (RunView::Aborted(error), RunActionView::Abort(error))
}

/// The counts that stand for `outcomes`.
pub open spec fn counts_of(outcomes: Seq<Outcome>) -> RunCounters {
    RunCounters {
        processed: processed_among(outcomes) as usize,
        skipped: skipped_among(outcomes) as usize,
    }
}

/// How a run begins: with an abort where no endpoint is configured, and
/// with the request to resolve the input root otherwise.
pub open spec fn run_begin(endpoints: Seq<Seq<char>>, model: Option<Seq<char>>) -> (
    RunView,
    RunActionView,
) {
    if endpoints.len() == 0 {
        aborted(FatalError::NoEndpoints)
    } else {
        (RunView::ResolvingInput { endpoints, cursor: 0, model }, RunActionView::ResolveInput)
    }
}

/// The state that follows `state` on `event`, and the request that goes
/// with it.
///
/// An event that does not answer the pending request counts as the failure
/// of that request. Once the run is over, every event yields `Halt`.
pub open spec fn run_step(state: RunView, event: RunEventView) -> (RunView, RunActionView) {
    match state {
        RunView::ResolvingInput { endpoints, cursor, model } => match event {
            RunEventView::InputResolved(Some(input_root)) => (
                RunView::PreparingOutput { endpoints, cursor, model, input_root },
                RunActionView::PrepareOutput,
            ),
            _ => aborted(FatalError::InputRoot),
        },
        RunView::PreparingOutput { endpoints, cursor, model, input_root } => match event {
            RunEventView::OutputReady(Some(output_root)) => (
                RunView::Enumerating { endpoints, cursor, model, input_root, output_root },
                RunActionView::Enumerate(input_root),
            ),
            _ => aborted(FatalError::OutputRoot),
        },
        RunView::Enumerating { endpoints, cursor, model, input_root, output_root } => match event {
            RunEventView::Walked(results) => (
                RunView::Dispatching { expected: candidates_of(results).len() },
                RunActionView::Dispatch {
                    context: ContextView { input_root, output_root, model },
                    endpoints,
                    cursor,
                    candidates: candidates_of(results),
                },
            ),
            _ => aborted(FatalError::InputRoot),
        },
        RunView::Dispatching { expected } => match event {
            RunEventView::Completed(Some(outcomes)) => if outcomes.len() == expected {
                (
                    RunView::Reported(counts_of(outcomes)),
                    RunActionView::Summarize(
                        summary_text(processed_among(outcomes), skipped_among(outcomes)),
                    ),
                )
            } else {
                aborted(FatalError::WorkerPool)
            },
            _ => aborted(FatalError::WorkerPool),
        },
        RunView::Reported(_) => (state, RunActionView::Halt),
        RunView::Aborted(_) => (state, RunActionView::Halt),
    }
}

/// The state reached from `state` after the events of `events`, in order.
pub open spec fn run_after(state: RunView, events: Seq<RunEventView>) -> RunView
    decreases events.len(),
{
    if events.len() == 0 {
        state
    } else {
        run_step(run_after(state, events.drop_last()), events.last()).0
    }
}

/// The request that answers the last of `events`, which must not be empty.
pub open spec fn last_request(state: RunView, events: Seq<RunEventView>) -> RunActionView
    recommends
        events.len() > 0,
{
    run_step(run_after(state, events.drop_last()), events.last()).1
}

/// A request that touches the file system or writes the summary.
pub open spec fn has_effect(action: RunActionView) -> bool {
    !(action is Abort || action is Halt)
}

fn abort(error: FatalError) -> (r: (Run, RunAction))
    ensures
        (r.0@, r.1@) == aborted(error),
{
    (Run::Aborted(error), RunAction::Abort(error))
}

impl Run {
    /// Begins a run over `endpoints`. An empty list aborts the run on the
    /// spot, before anything else is asked for.
    pub fn begin(endpoints: Vec<String>, model: Option<String>) -> (r: (Run, RunAction))
        ensures
            (r.0@, r.1@) == run_begin(endpoints.deep_view(), model.deep_view()),
    {
        match EndpointSelector::new(endpoints) {
            Ok(selector) => (Run::ResolvingInput { selector, model }, RunAction::ResolveInput),
            Err(_) => abort(FatalError::NoEndpoints),
        }
    }

    /// Takes the answer to the pending request and decides what follows.
    pub fn advance(self, event: RunEvent) -> (r: (Run, RunAction))
        ensures
            (r.0@, r.1@) == run_step(self@, event@),
    {
        match self {
            Run::ResolvingInput { selector, model } => match event {
                RunEvent::InputResolved(Some(input_root)) => (
                    Run::PreparingOutput { selector, model, input_root },
                    RunAction::PrepareOutput,
                ),
                _ => abort(FatalError::InputRoot),
            },
            Run::PreparingOutput { selector, model, input_root } => match event {
                RunEvent::OutputReady(Some(output_root)) => {
                    let walk_root = input_root.clone();
                    (
                        Run::Enumerating { selector, model, input_root, output_root },
                        RunAction::Enumerate(walk_root),
                    )
                },
                _ => abort(FatalError::OutputRoot),
            },
            Run::Enumerating { selector, model, input_root, output_root } => match event {
                RunEvent::Walked(results) => {
                    let candidates = collect_candidates(&results);
                    let expected = candidates.len();
                    let context = FileContext { input_root, output_root, model };
                    (
                        Run::Dispatching { expected },
                        RunAction::Dispatch { context, selector, candidates },
                    )
                },
                _ => abort(FatalError::InputRoot),
            },
            Run::Dispatching { expected } => match event {
                RunEvent::Completed(Some(outcomes)) => {
                    if outcomes.len() == expected {
                        let counters = tally(&outcomes);
                        (Run::Reported(counters), RunAction::Summarize(counters.summary()))
                    } else {
                        abort(FatalError::WorkerPool)
                    }
                },
                _ => abort(FatalError::WorkerPool),
            },
            Run::Reported(counters) => (Run::Reported(counters), RunAction::Halt),
            Run::Aborted(error) => (Run::Aborted(error), RunAction::Halt),
        }
    }
}

/// With an empty endpoint list the run is aborted at its very beginning:
/// the first answer is the abort for want of endpoints, and whatever events
/// arrive afterwards, the run stays aborted and asks for nothing. So the
/// output root is never prepared, the input tree is never walked, and no
/// summary is written.
pub proof fn lemma_no_endpoints_no_effects(model: Option<Seq<char>>, events: Seq<RunEventView>)
    ensures
        run_begin(Seq::empty(), model) == aborted(FatalError::NoEndpoints),
        !has_effect(run_begin(Seq::empty(), model).1),
        run_after(run_begin(Seq::empty(), model).0, events) == RunView::Aborted(
            FatalError::NoEndpoints,
        ),
        events.len() > 0 ==> last_request(run_begin(Seq::empty(), model).0, events)
            == RunActionView::Halt,
    decreases events.len(),
{
    if events.len() > 0 {
        lemma_no_endpoints_no_effects(model, events.drop_last());
    }
}

/// A run that is over stays as it is and asks for nothing more.
pub proof fn lemma_over_is_final(state: RunView, events: Seq<RunEventView>)
    requires
        state is Reported || state is Aborted,
    ensures
        run_after(state, events) == state,
        events.len() > 0 ==> last_request(state, events) == RunActionView::Halt,
    decreases events.len(),
{
    if events.len() > 0 {
        lemma_over_is_final(state, events.drop_last());
    }
}

/// Whenever a summary is written, it accounts for every candidate: the run
/// was dispatching, one outcome came back for each candidate, and the
/// numbers of processed and of skipped files in the summary add up to the
/// number of candidates.
pub proof fn lemma_summary_accounts_for_all(state: RunView, event: RunEventView)
    requires
        run_step(state, event).1 is Summarize,
    ensures
        state matches RunView::Dispatching { expected } && event matches RunEventView::Completed(
            Some(outcomes),
        ) && {
            &&& outcomes.len() == expected
            &&& processed_among(outcomes) + skipped_among(outcomes) == expected
            &&& run_step(state, event).1 == RunActionView::Summarize(
                summary_text(processed_among(outcomes), skipped_among(outcomes)),
            )
            &&& run_step(state, event).0 == RunView::Reported(counts_of(outcomes))
        },
{
    match state {
        RunView::Dispatching { expected } => match event {
            RunEventView::Completed(Some(outcomes)) => {
                lemma_counts_cover(outcomes);
            },
            _ => {},
        },
        _ => {},
    }
}

/// The candidates that are dispatched are those of the walk, and the
/// summary that follows counts each of them once: as processed or as
/// skipped.
pub proof fn lemma_walk_to_summary(
    state: RunView,
    results: Seq<WalkResult>,
    outcomes: Seq<Outcome>,
)
    requires
        state is Enumerating,
        outcomes.len() == candidates_of(results).len(),
    ensures
        ({
            let walked = run_step(state, RunEventView::Walked(results));
            let done = run_step(walked.0, RunEventView::Completed(Some(outcomes)));
            &&& walked.1 matches RunActionView::Dispatch { candidates, .. } && candidates
                == candidates_of(results)
            &&& done.1 == RunActionView::Summarize(
                summary_text(processed_among(outcomes), skipped_among(outcomes)),
            )
            &&& processed_among(outcomes) + skipped_among(outcomes) == candidates_of(
                results,
            ).len()
        }),
{
    lemma_counts_cover(outcomes);
}

} // verus!
