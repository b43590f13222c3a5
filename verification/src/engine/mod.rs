//! The simulation engine's decisions, apart from the entity-component runtime that
//! schedules them.
pub mod buildings;
pub mod calendar;
pub mod fulfillment;
pub mod index;
pub mod intents;
pub mod io;
pub mod plugins;
pub mod rpc;
pub mod runner;
pub mod visibility;
pub mod work_orders;
