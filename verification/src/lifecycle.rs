//! The per-request lifecycle: load, prepare, infer, unload, as one unit of
//! work, terminal on the first error.
//!
//! The manager is a state machine. Each state waits for the result of one
//! operation; `lifecycle_step` consumes that result and says what to do
//! next. The remote calls and the tree operations themselves happen outside
//! the machine; the sequencing rules live here:
//! - a load failure aborts the request with nothing to unload;
//! - an alignment failure aborts without unloading (the loaded model is
//!   left in place for a later attempt);
//! - inference, whether it succeeds or fails, is followed by exactly one
//!   unload attempt;
//! - an unload failure never masks the inference result: both are surfaced.

use vstd::prelude::*;

use crate::archive::ExtractOutcome;
use crate::integrity::IntegrityOutcome;

verus! {

/// What a request is after: only a load, a load followed by a metadata or
/// statistics fetch, or the full load-align-infer-unload pipeline.
#[derive(Clone, Copy, Debug, PartialEq, Eq, Structural)]
pub enum LifecycleGoal {
    /// Stop once the model is loaded.
    LoadOnly,
    /// Load, then fetch the model's metadata.
    FetchMetadata,
    /// Load, then fetch the model's statistics.
    FetchStats,
    /// Load, align, infer, then unload.
    Infer,
}

/// Where a request stands. Each non-terminal state names the operation
/// whose result the machine is waiting for; a successful load shows up as
/// the transition from `Loading` into `Aligning`.
#[derive(Clone, Copy, Debug, PartialEq, Eq, Structural)]
pub enum LifecycleState {
    /// Nothing started yet.
    Idle,
    /// The model-status probe is in flight.
    Probing,
    /// The archive store is ensuring the model is on disk.
    Extracting,
    /// The integrity verifier is checking the weight file.
    Verifying,
    /// The remote load call is in flight.
    Loading,
    /// The tensor aligner is reconciling the inputs.
    Aligning,
    /// The metadata or statistics fetch is in flight.
    Fetching,
    /// The remote inference call is in flight.
    Inferring,
    /// The unload attempt is in flight; whether inference succeeded is
    /// carried along so the final report can surface both.
    Unloading { infer_ok: bool },
    /// The request is finished.
    Done,
}

/// The result of the operation a state was waiting for.
#[derive(Clone, Copy, Debug, PartialEq, Eq, Structural)]
pub enum LifecycleEvent {
    /// Begin the request.
    Started,
    /// The model-status probe returned this HTTP status.
    StatusProbed { status: u16 },
    /// The archive store finished.
    Extracted { outcome: ExtractOutcome },
    /// The integrity verifier finished.
    Verified { outcome: IntegrityOutcome },
    /// The remote load call returned this HTTP status.
    LoadReplied { status: u16 },
    /// The tensor aligner finished.
    Aligned { ok: bool },
    /// The metadata or statistics fetch returned this HTTP status.
    FetchReplied { status: u16 },
    /// The remote inference call finished.
    InferReplied { ok: bool },
    /// The unload attempt finished.
    UnloadFinished { ok: bool },
}

/// How a finished request came out.
#[derive(Clone, Copy, Debug, PartialEq, Eq, Structural)]
pub enum RequestOutcome {
    /// The status probe or the load call failed with this HTTP status.
    LoadFailed { status: u16 },
    /// The archive store could not produce the model.
    ExtractFailed { outcome: ExtractOutcome },
    /// The integrity check did not pass; the model is not served.
    IntegrityFailed { outcome: IntegrityOutcome },
    /// Alignment failed; the model stays loaded, nothing was inferred.
    AlignFailed,
    /// The model is loaded and that was all that was asked.
    LoadDone,
    /// The fetch after the load returned this HTTP status.
    FetchDone { status: u16 },
    /// Inference ran and an unload was attempted; both results surface.
    InferDone { infer_ok: bool, unload_ok: bool },
}

/// What the surroundings should do next.
#[derive(Clone, Copy, Debug, PartialEq, Eq, Structural)]
pub enum LifecycleAction {
    /// Probe the model's status.
    ProbeStatus,
    /// Run the archive store for the model.
    RunExtraction,
    /// Run the integrity verifier.
    RunVerify,
    /// Issue the remote load call.
    CallLoad,
    /// Fetch the model's metadata or statistics.
    CallFetch,
    /// Run the tensor aligner.
    RunAlign,
    /// Issue the remote inference call.
    CallInfer,
    /// Attempt the unload.
    CallUnload,
    /// The request is finished with this outcome.
    Finish { outcome: RequestOutcome },
    /// The event did not belong to the current state; nothing happens.
    Ignore,
}

/// The event each state is waiting for.
pub open spec fn spec_event_fits(s: LifecycleState, e: LifecycleEvent) -> bool {
    match (s, e) {
        (LifecycleState::Idle, LifecycleEvent::Started) => true,
        (LifecycleState::Probing, LifecycleEvent::StatusProbed { .. }) => true,
        (LifecycleState::Extracting, LifecycleEvent::Extracted { .. }) => true,
        (LifecycleState::Verifying, LifecycleEvent::Verified { .. }) => true,
        (LifecycleState::Loading, LifecycleEvent::LoadReplied { .. }) => true,
        (LifecycleState::Aligning, LifecycleEvent::Aligned { .. }) => true,
        (LifecycleState::Fetching, LifecycleEvent::FetchReplied { .. }) => true,
        (LifecycleState::Inferring, LifecycleEvent::InferReplied { .. }) => true,
        (LifecycleState::Unloading { .. }, LifecycleEvent::UnloadFinished { .. }) => true,
        _ => false,
    }
}

/// What follows a completed load: nothing more, the fetch, or alignment.
pub open spec fn spec_after_load(goal: LifecycleGoal) -> (LifecycleState, LifecycleAction) {
    match goal {
        LifecycleGoal::LoadOnly => (
            LifecycleState::Done,
            LifecycleAction::Finish { outcome: RequestOutcome::LoadDone },
        ),
        LifecycleGoal::FetchMetadata => (LifecycleState::Fetching, LifecycleAction::CallFetch),
        LifecycleGoal::FetchStats => (LifecycleState::Fetching, LifecycleAction::CallFetch),
        LifecycleGoal::Infer => (LifecycleState::Aligning, LifecycleAction::RunAlign),
    }
}

/// The transition table. An event that does not fit the state is ignored.
pub open spec fn spec_step(goal: LifecycleGoal, s: LifecycleState, e: LifecycleEvent) -> (
    LifecycleState,
    LifecycleAction,
) {
    match (s, e) {
        (LifecycleState::Idle, LifecycleEvent::Started) => (
            LifecycleState::Probing,
            LifecycleAction::ProbeStatus,
        ),
        (LifecycleState::Probing, LifecycleEvent::StatusProbed { status }) => {
            if status == 200 {
                // Already loaded: short-circuit as success.
                spec_after_load(goal)
            } else if status == 404 {
                (LifecycleState::Extracting, LifecycleAction::RunExtraction)
            } else {
                (
                    LifecycleState::Done,
                    LifecycleAction::Finish { outcome: RequestOutcome::LoadFailed { status } },
                )
            }
        },
        (LifecycleState::Extracting, LifecycleEvent::Extracted { outcome }) => {
            if outcome == ExtractOutcome::AlreadyPresent || outcome == ExtractOutcome::Extracted {
                (LifecycleState::Verifying, LifecycleAction::RunVerify)
            } else {
                (
                    LifecycleState::Done,
                    LifecycleAction::Finish { outcome: RequestOutcome::ExtractFailed { outcome } },
                )
            }
        },
        (LifecycleState::Verifying, LifecycleEvent::Verified { outcome }) => {
            if outcome == IntegrityOutcome::Valid {
                (LifecycleState::Loading, LifecycleAction::CallLoad)
            } else {
                (
                    LifecycleState::Done,
                    LifecycleAction::Finish {
                        outcome: RequestOutcome::IntegrityFailed { outcome },
                    },
                )
            }
        },
        (LifecycleState::Loading, LifecycleEvent::LoadReplied { status }) => {
            if 200 <= status < 300 {
                spec_after_load(goal)
            } else {
                (
                    LifecycleState::Done,
                    LifecycleAction::Finish { outcome: RequestOutcome::LoadFailed { status } },
                )
            }
        },
        (LifecycleState::Aligning, LifecycleEvent::Aligned { ok }) => {
            if ok {
                (LifecycleState::Inferring, LifecycleAction::CallInfer)
            } else {
                // No unload: the loaded model is left for a later attempt.
                (
                    LifecycleState::Done,
                    LifecycleAction::Finish { outcome: RequestOutcome::AlignFailed },
                )
            }
        },
        (LifecycleState::Fetching, LifecycleEvent::FetchReplied { status }) => (
            LifecycleState::Done,
            LifecycleAction::Finish { outcome: RequestOutcome::FetchDone { status } },
        ),
        (LifecycleState::Inferring, LifecycleEvent::InferReplied { ok }) => (
            // Success or failure both proceed to the unload.
            LifecycleState::Unloading { infer_ok: ok },
            LifecycleAction::CallUnload,
        ),
        (LifecycleState::Unloading { infer_ok }, LifecycleEvent::UnloadFinished { ok }) => (
            LifecycleState::Done,
            LifecycleAction::Finish {
                outcome: RequestOutcome::InferDone { infer_ok, unload_ok: ok },
            },
        ),
        _ => (s, LifecycleAction::Ignore),
    }
}

fn after_load(goal: LifecycleGoal) -> (r: (LifecycleState, LifecycleAction))
    ensures
        r == spec_after_load(goal),
{
    match goal {
        LifecycleGoal::LoadOnly => (
            LifecycleState::Done,
            LifecycleAction::Finish { outcome: RequestOutcome::LoadDone },
        ),
        LifecycleGoal::FetchMetadata => (LifecycleState::Fetching, LifecycleAction::CallFetch),
        LifecycleGoal::FetchStats => (LifecycleState::Fetching, LifecycleAction::CallFetch),
        LifecycleGoal::Infer => (LifecycleState::Aligning, LifecycleAction::RunAlign),
    }
}

/// Advance the lifecycle by one observed result.
pub fn lifecycle_step(goal: LifecycleGoal, s: LifecycleState, e: &LifecycleEvent) -> (r: (
    LifecycleState,
    LifecycleAction,
))
    ensures
        r == spec_step(goal, s, *e),
{
    match (s, *e) {
        (LifecycleState::Idle, LifecycleEvent::Started) => (
            LifecycleState::Probing,
            LifecycleAction::ProbeStatus,
        ),
        (LifecycleState::Probing, LifecycleEvent::StatusProbed { status }) => {
            if status == 200 {
                after_load(goal)
            } else if status == 404 {
                (LifecycleState::Extracting, LifecycleAction::RunExtraction)
            } else {
                (
                    LifecycleState::Done,
                    LifecycleAction::Finish { outcome: RequestOutcome::LoadFailed { status } },
                )
            }
        },
        (LifecycleState::Extracting, LifecycleEvent::Extracted { outcome }) => {
            if outcome == ExtractOutcome::AlreadyPresent || outcome == ExtractOutcome::Extracted {
                (LifecycleState::Verifying, LifecycleAction::RunVerify)
            } else {
                (
                    LifecycleState::Done,
                    LifecycleAction::Finish { outcome: RequestOutcome::ExtractFailed { outcome } },
                )
            }
        },
        (LifecycleState::Verifying, LifecycleEvent::Verified { outcome }) => {
            if outcome == IntegrityOutcome::Valid {
                (LifecycleState::Loading, LifecycleAction::CallLoad)
            } else {
                (
                    LifecycleState::Done,
                    LifecycleAction::Finish {
                        outcome: RequestOutcome::IntegrityFailed { outcome },
                    },
                )
            }
        },
        (LifecycleState::Loading, LifecycleEvent::LoadReplied { status }) => {
            if 200 <= status && status < 300 {
                after_load(goal)
            } else {
                (
                    LifecycleState::Done,
                    LifecycleAction::Finish { outcome: RequestOutcome::LoadFailed { status } },
                )
            }
        },
        (LifecycleState::Aligning, LifecycleEvent::Aligned { ok }) => {
            if ok {
                (LifecycleState::Inferring, LifecycleAction::CallInfer)
            } else {
                (
                    LifecycleState::Done,
                    LifecycleAction::Finish { outcome: RequestOutcome::AlignFailed },
                )
            }
        },
        (LifecycleState::Fetching, LifecycleEvent::FetchReplied { status }) => (
            LifecycleState::Done,
            LifecycleAction::Finish { outcome: RequestOutcome::FetchDone { status } },
        ),
        (LifecycleState::Inferring, LifecycleEvent::InferReplied { ok }) => (
            LifecycleState::Unloading { infer_ok: ok },
            LifecycleAction::CallUnload,
        ),
        (LifecycleState::Unloading { infer_ok }, LifecycleEvent::UnloadFinished { ok }) => (
            LifecycleState::Done,
            LifecycleAction::Finish {
                outcome: RequestOutcome::InferDone { infer_ok, unload_ok: ok },
            },
        ),
        _ => (s, LifecycleAction::Ignore),
    }
}

/// The state a run of events, fed in order, ends in.
pub open spec fn spec_run(goal: LifecycleGoal, s: LifecycleState, es: Seq<LifecycleEvent>) -> LifecycleState
    decreases es.len(),
{
    if es.len() == 0 {
        s
    } else {
        spec_run(goal, spec_step(goal, s, es.first()).0, es.drop_first())
    }
}

/// Every event of the run fits the state it meets.
pub open spec fn spec_wf_trace(goal: LifecycleGoal, s: LifecycleState, es: Seq<LifecycleEvent>) -> bool
    decreases es.len(),
{
    if es.len() == 0 {
        true
    } else {
        spec_event_fits(s, es.first()) && spec_wf_trace(
            goal,
            spec_step(goal, s, es.first()).0,
            es.drop_first(),
        )
    }
}

/// How many unload attempts the run asks for.
pub open spec fn spec_unload_count(goal: LifecycleGoal, s: LifecycleState, es: Seq<LifecycleEvent>) -> int
    decreases es.len(),
{
    if es.len() == 0 {
        0int
    } else {
        (if spec_step(goal, s, es.first()).1 == LifecycleAction::CallUnload {
            1int
        } else {
            0int
        }) + spec_unload_count(goal, spec_step(goal, s, es.first()).0, es.drop_first())
    }
}

/// The run passes through `Inferring` (counting the starting state).
pub open spec fn spec_reaches_inferring(goal: LifecycleGoal, s: LifecycleState, es: Seq<LifecycleEvent>) -> bool
    decreases es.len(),
{
    if es.len() == 0 {
        s is Inferring
    } else {
        s is Inferring || spec_reaches_inferring(
            goal,
            spec_step(goal, s, es.first()).0,
            es.drop_first(),
        )
    }
}

/// A model is never sent for inference without a confirmed load: the
/// inference call is only asked for out of `Aligning`, and `Aligning` is
/// only entered when the status probe said the model was already loaded
/// or the load call itself succeeded.
pub proof fn lemma_infer_needs_load(goal: LifecycleGoal, s: LifecycleState, e: LifecycleEvent)
    ensures
        spec_step(goal, s, e).1 == LifecycleAction::CallInfer ==> s is Aligning,
        spec_step(goal, s, e).0 is Aligning && !(s is Aligning) ==> ((s is Probing && (
        e matches LifecycleEvent::StatusProbed { status: 200 })) || (s is Loading && (
        e matches LifecycleEvent::LoadReplied { status } && 200 <= status < 300))),
{
}

/// Once the unload is in flight or the request is done, a well-formed run
/// never reaches `Inferring` again and asks for no further unload.
pub proof fn lemma_no_unload_after(goal: LifecycleGoal, s: LifecycleState, es: Seq<LifecycleEvent>)
    requires
        spec_wf_trace(goal, s, es),
        s is Unloading || s is Done,
    ensures
        !spec_reaches_inferring(goal, s, es),
        spec_unload_count(goal, s, es) == 0,
    decreases es.len(),
{
    if es.len() > 0 {
        lemma_no_unload_after(goal, spec_step(goal, s, es.first()).0, es.drop_first());
    }
}

/// Lifecycle law: in any well-formed run that finishes, exactly one unload
/// attempt is asked for when the run reaches `Inferring`, and none
/// otherwise — whatever the inference result was.
pub proof fn lemma_exactly_one_unload(goal: LifecycleGoal, s: LifecycleState, es: Seq<LifecycleEvent>)
    requires
        spec_wf_trace(goal, s, es),
        spec_run(goal, s, es) is Done,
    ensures
        spec_unload_count(goal, s, es) == if spec_reaches_inferring(goal, s, es) {
            1int
        } else {
            0int
        },
    decreases es.len(),
{
    if es.len() == 0 {
    } else {
        let next = spec_step(goal, s, es.first()).0;
        lemma_exactly_one_unload(goal, next, es.drop_first());
        if s is Inferring {
            lemma_no_unload_after(goal, next, es.drop_first());
        }
    }
}

} // verus!
