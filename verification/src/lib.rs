//! The decision core of a terminal server: what is routed where, what is
//! retained, what is refused, and in which order a consumer sees it.
//!
//! Everything in this crate is a synchronous function over plain values. The
//! sockets, channels, clocks and child processes around it belong to the
//! embedding program, which hands in what happened and carries out what comes
//! back.

pub mod assoc;
pub mod clock;
pub mod hub;
pub mod id_bridge;
pub mod ids;
pub mod json;
pub mod mailbox;
pub mod metadata;
pub mod native_state;
pub mod payload;
pub mod perf;
pub mod policy;
pub mod proc_query;
pub mod process_laws;
pub mod resource;
pub mod store_laws;
pub mod table;
pub mod text;
pub mod wire;
