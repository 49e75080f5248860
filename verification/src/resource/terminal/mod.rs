//! A terminal: its native bootstraps, its events and its supervision.

pub mod bootstrap_laws;
pub mod events;
pub mod native_bootstrap;
pub mod native_history;
pub mod native_laws;
pub mod native_live;
pub mod native_model;
pub mod native_owners;
pub mod native_publication;
pub mod native_reply;
pub mod process_facet;
pub mod replay_laws;
pub mod scene_laws;
pub mod serving_laws;
