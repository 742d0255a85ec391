//! The immutable configuration threaded into every collaborator call.

use vstd::prelude::*;

verus! {

/// Service configuration: where the bridge itself listens, where the
/// gateway (catalog lookup and live-stream endpoint) lives, the shared
/// secret for opening live rooms, and where the durable store listens.
pub struct Config {
    pub server_port: u16,
    pub host: String,
    pub gateway_url: String,
    pub new_room_secret: String,
    pub redis_url: String,
    pub redis_port: u16,
}

} // verus!
