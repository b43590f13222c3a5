//! The decisions of the user interface, apart from the reactive views that show
//! them.
pub mod conditional;
pub mod controls;
pub mod formatter;
pub mod store;
