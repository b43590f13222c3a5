use vstd::prelude::*;

use crate::communication::{Intent, TimeControl, TimeTransport};
use crate::kinds::{RunningState, WorkOrderKind};

verus! {

/// What the engine does about one intent of the user interface.
#[derive(Clone, Copy, Debug, PartialEq, Eq, Structural)]
pub enum ResolvedIntent {
    /// Tell the interface that the engine has loaded.
    Loaded,
    /// Hand a work order to the simulation.
    WorkOrder(WorkOrderKind),
    /// Report a change of the time state.
    TimeChanged(TimeTransport),
}

/// The running state that a time control asks for.
pub open spec fn requested_running_state(control: TimeControl) -> RunningState {
    match control {
        TimeControl::Pause => RunningState::Paused,
        TimeControl::Start => RunningState::Running,
    }
}

/// How an intent is resolved.
pub open spec fn resolution(intent: Intent) -> ResolvedIntent {
    match intent {
        Intent::Load => ResolvedIntent::Loaded,
        Intent::QueueWorkOrder(kind) => ResolvedIntent::WorkOrder(kind),
        Intent::TimeControl(control) => ResolvedIntent::TimeChanged(
            TimeTransport { running_state: Some(requested_running_state(control)) },
        ),
    }
}

/// Resolves one intent: loading is answered, a work order is passed on, and a time
/// control reports the running state it asks for.
pub fn resolve_intent(intent: Intent) -> (r: ResolvedIntent)
    ensures
        r == resolution(intent),
{
    match intent {
        Intent::Load => ResolvedIntent::Loaded,
        Intent::QueueWorkOrder(kind) => ResolvedIntent::WorkOrder(kind),
        Intent::TimeControl(control) => {
            let running_state = match control {
                TimeControl::Pause => RunningState::Paused,
                TimeControl::Start => RunningState::Running,
            };
            ResolvedIntent::TimeChanged(TimeTransport { running_state: Some(running_state) })
        },
    }
}

/// Resolves the intents received in one frame, one result per intent, in order.
pub fn resolve_intents(inputs: &Vec<Intent>) -> (r: Vec<ResolvedIntent>)
    ensures
        r@.len() == inputs@.len(),
        forall|i: int| 0 <= i < r@.len() ==> #[trigger] r@[i] == resolution(inputs@[i]),
{
    let mut out: Vec<ResolvedIntent> = Vec::new();
    let mut i: usize = 0;
    while i < inputs.len()
        invariant
            i <= inputs@.len(),
            out@.len() == i,
            forall|j: int| 0 <= j < i ==> #[trigger] out@[j] == resolution(inputs@[j]),
        decreases inputs@.len() - i,
    {
        out.push(resolve_intent(inputs[i]));
        i = i + 1;
    }
    out
}

/// Loading is answered, a queued work order is handed on unchanged, pausing asks
/// for the paused state and starting for the running state.
pub proof fn lemma_intents_resolve(kind: WorkOrderKind)
    ensures
        resolution(Intent::Load) == ResolvedIntent::Loaded,
        resolution(Intent::QueueWorkOrder(kind)) == ResolvedIntent::WorkOrder(kind),
        resolution(Intent::TimeControl(TimeControl::Pause)) == ResolvedIntent::TimeChanged(
            TimeTransport { running_state: Some(RunningState::Paused) },
        ),
        resolution(Intent::TimeControl(TimeControl::Start)) == ResolvedIntent::TimeChanged(
            TimeTransport { running_state: Some(RunningState::Running) },
        ),
{
}

} // verus!
