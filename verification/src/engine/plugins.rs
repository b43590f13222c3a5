use vstd::prelude::*;

verus! {

/// The plugin that collects the engine's changes into partial state.
#[derive(Clone, Copy, Debug, Default, PartialEq, Eq, Hash)]
pub struct ChangeBufferPlugin;

/// The plugin that resolves the intents of the user interface.
#[derive(Clone, Copy, Debug, Default, PartialEq, Eq, Hash)]
pub struct IntentResolverPlugin;

/// The plugin that carries messages between the worker connection and the engine.
#[derive(Clone, Copy, Debug, Default, PartialEq, Eq, Hash)]
pub struct InputOutputPlugin;

/// The plugin that owns the worker connection's dispatcher.
#[derive(Clone, Copy, Debug, Default, PartialEq, Eq, Hash)]
pub struct WorkerPlugin;

/// The plugin of the remote-procedure connection to the user interface.
#[derive(Clone, Copy, Debug, Default, PartialEq, Eq, Hash)]
pub struct RpcPlugin;

/// The plugin that orders the engine's own schedules.
#[derive(Clone, Copy, Debug, Default, PartialEq, Eq, Hash)]
pub struct SchedulesPlugin;

/// The plugin that recalculates recipe costs, fulfillments and unlocks.
#[derive(Clone, Copy, Debug, Default, PartialEq, Eq, Hash)]
pub struct FulfillmentPlugin;

/// The plugin that drives the simulation's tickers.
#[derive(Clone, Copy, Debug, Default, PartialEq, Eq, Hash)]
pub struct TickerPlugin;

/// The plugin that carries out queued work orders.
#[derive(Clone, Copy, Debug, Default, PartialEq, Eq, Hash)]
pub struct WorkOrdersPlugin;

/// The plugin of everything the engine decides about the user interface.
#[derive(Clone, Copy, Debug, Default, PartialEq, Eq, Hash)]
pub struct UiPlugin;

/// The plugin that reveals unlocked nodes of the user interface.
#[derive(Clone, Copy, Debug, Default, PartialEq, Eq, Hash)]
pub struct VisibilityPlugin;

/// The systems that take in what the worker received.
#[derive(Clone, Copy, Debug, Default, PartialEq, Eq, Hash)]
pub struct Inputs;

/// The systems that send what the engine produced.
#[derive(Clone, Copy, Debug, Default, PartialEq, Eq, Hash)]
pub struct Outputs;

/// The systems that prepare resource changes before a step.
#[derive(Clone, Copy, Debug, Default, PartialEq, Eq, Hash)]
pub struct Prepare;

/// The systems that apply resource changes after a step.
#[derive(Clone, Copy, Debug, Default, PartialEq, Eq, Hash)]
pub struct Resolve;

/// The schedule that collects changes before the last schedule of a frame.
#[derive(Clone, Copy, Debug, Default, PartialEq, Eq, Hash)]
pub struct BufferChanges;

/// The schedule that recalculates derived state before changes are collected.
#[derive(Clone, Copy, Debug, Default, PartialEq, Eq, Hash)]
pub struct Recalculate;

/// The systems that carry out work orders.
#[derive(Clone, Copy, Debug, Default, PartialEq, Eq, Hash)]
pub struct WorkOrdersSystemSet;

/// The kinds of work a pending work order can ask for.
#[derive(Clone, Copy, Debug, PartialEq, Eq, Hash, Structural)]
pub enum WorkOrderType {
    GatherCatnip,
}

/// A work order waiting for the next step.
#[derive(Clone, Copy, Debug, PartialEq, Eq, Hash, Structural)]
pub struct PendingWorkOrder(pub WorkOrderType);

/// Whether a recipe or resource has been unlocked; once unlocked it stays so.
#[derive(Clone, Copy, Debug, Default, PartialEq, Eq, Hash, Structural)]
pub struct Unlocked(pub bool);

} // verus!
