//! The hub: one server that fronts the terminals of others.

pub mod fault;
pub mod flow;
pub mod flow_laws;
pub mod gate;
pub mod handle;
pub mod laws;
pub mod link_mirror;
pub mod metadata_mirror;
pub mod observer_laws;
pub mod operation_fence;
pub mod registry;
pub mod relay;
pub mod request_laws;
pub mod requests;
pub mod route;
pub mod route_laws;
pub mod session;
pub mod stream_laws;
