//! Authorization: one grant per connection, minted at the handshake, and the
//! guard that holds every request to it.

pub mod enforce;
pub mod engine;
pub mod grant;
pub mod grant_laws;
pub mod hold;
pub mod laws;
pub mod posture;
pub mod request;
pub mod scope;
pub mod scope_laws;
pub mod topology;
pub mod topology_laws;
