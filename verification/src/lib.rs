//! Verified core of a small idle-game engine: calendar progression, work-order and
//! intent resolution, recipe fulfillment, lookup indexes, worker dispatch state
//! machines and the decisions of the user interface.
pub mod communication;
pub mod keyed;
pub mod kinds;
pub mod engine;
pub mod ui;
