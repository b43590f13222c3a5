use vstd::prelude::*;

use crate::kinds::{RunningState, WorkOrderKind};

verus! {

/// Requests to pause or resume simulated time.
#[derive(Clone, Copy, Debug, PartialEq, Eq, Hash, Structural)]
pub enum TimeControl {
    Pause,
    Start,
}

/// What the user interface asks of the engine.
#[derive(Clone, Copy, Debug, PartialEq, Eq, Hash, Structural)]
pub enum Intent {
    /// The interface has loaded and waits for the engine.
    Load,
    /// Queue a work order for the next simulation step.
    QueueWorkOrder(WorkOrderKind),
    /// Pause or resume time.
    TimeControl(TimeControl),
}

/// The part of the time state that changed.
#[derive(Clone, Copy, Debug, PartialEq, Eq, Structural)]
pub struct TimeTransport {
    pub running_state: Option<RunningState>,
}

} // verus!
