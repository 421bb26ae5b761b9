//! The run configuration handed in by the caller.

use vstd::prelude::*;

verus! {

/// A run's configuration: the shared per-handshake timeout in
/// milliseconds and the command naming the peers to probe.
pub struct HandshakeConfig {
    pub timeout: u64,
    pub commands: Commands,
}

/// The networks a run can probe, each carrying its peer addresses and the
/// identity string for the greeting message.
pub enum Commands {
    Btc { nodes_addrs: Vec<String>, user_agent: String },
}

} // verus!
