//! Native checkpoints: the bounded prefix that ends at READY, and the history
//! that is pulled after it.
//!
//! The terminal engine writes opaque records; nothing here looks inside them.
//! A prefix is handed out one bounded piece at a time. Past READY each history
//! request borrows the live terminal for one bounded step, so output goes on
//! between requests. What the engine answers comes in as plain values.

pub mod capture;
pub mod cut;
pub mod error;
pub mod generation;
pub mod manager;
pub mod record_laws;
