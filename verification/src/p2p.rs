pub mod btc;
pub mod config;
pub mod render;
pub mod view;

pub use self::config::{Commands, HandshakeConfig};
pub use self::view::{Event, EventChain, EventDirection, HandshakeResult};

use vstd::prelude::*;

verus! {

/// The kind of failure a handshake attempt can report, one variant per
/// failure source: connecting, transport reset, decoding, internal
/// channels, cancellation, and task supervision.
#[derive(Clone, Copy, PartialEq, Eq, Structural, Debug)]
pub enum P2PErrorKind {
    Connect,
    ConnectionReset,
    Codec,
    ChannelClosed,
    Cancelled,
    TaskJoin,
}

/// An error produced while probing one peer, carrying the originating
/// message text.
pub struct P2PError {
    pub kind: P2PErrorKind,
    pub message: String,
}

impl P2PError {
    pub fn new(kind: P2PErrorKind, message: String) -> (r: P2PError)
        ensures
            r.kind == kind,
            r.message == message,
    {
        P2PError { kind, message }
    }

    pub fn kind(&self) -> (k: P2PErrorKind)
        ensures
            k == self.kind,
    {
        self.kind
    }

    pub fn message(&self) -> (m: &str)
        ensures
            m@ == self.message@,
    {
        self.message.as_str()
    }

    /// The single-line rendering of the error.
    pub fn to_display_string(&self) -> (r: String)
        ensures
            r@ == spec_error_display(*self),
    {
        let mut s = String::new();
        s.append("P2P error: ");
        s.append(self.message.as_str());
        s
    }
}

/// What `to_display_string` produces for an error.
pub open spec fn spec_error_display(e: P2PError) -> Seq<char> {
    "P2P error: "@ + e.message@
}

/// One per-peer configuration for each requested address, in input order,
/// all sharing the run's timeout and identity string. This is the fan-out
/// the orchestrator spawns one pipeline from per entry.
pub fn peer_configs(config: &HandshakeConfig) -> (r: Vec<btc::Config>)
    ensures
        match config.commands {
            Commands::Btc { nodes_addrs, user_agent } => r@.len() == nodes_addrs@.len()
                && forall|i: int|
                #![trigger r@[i]]
                0 <= i < r@.len() ==> r@[i].node_addr == nodes_addrs@[i] && r@[i].timeout
                    == config.timeout && r@[i].user_agent == user_agent,
        },
{
    match &config.commands {
        Commands::Btc { nodes_addrs, user_agent } => {
            let mut out: Vec<btc::Config> = Vec::new();
            let n = nodes_addrs.len();
            let mut i: usize = 0;
            while i < n
                invariant
                    i <= n,
                    n == nodes_addrs@.len(),
                    out@.len() == i,
                    config.commands == (Commands::Btc {
                        nodes_addrs: *nodes_addrs,
                        user_agent: *user_agent,
                    }),
                    forall|k: int|
                        #![trigger out@[k]]
                        0 <= k < i ==> out@[k].node_addr == nodes_addrs@[k] && out@[k].timeout
                            == config.timeout && out@[k].user_agent == *user_agent,
                decreases n - i,
            {
                out.push(
                    btc::Config {
                        node_addr: nodes_addrs[i].clone(),
                        timeout: config.timeout,
                        user_agent: user_agent.clone(),
                    },
                );
                i += 1;
            }
            out
        },
    }
}

/// Pairs each address with its pipeline's result, preserving input order.
pub fn pair_outcomes(pairs: Vec<(String, Result<EventChain, P2PError>)>) -> (r: Vec<
    HandshakeResult>)
    ensures
        r@.len() == pairs@.len(),
        forall|i: int|
            #![trigger r@[i]]
            0 <= i < r@.len() ==> r@[i].id == pairs@[i].0 && r@[i].result == pairs@[i].1,
{
    let mut pending = pairs;
    let ghost pairs0 = pending@;
    let mut out: Vec<HandshakeResult> = Vec::new();
    while pending.len() > 0
        invariant
            out@.len() + pending@.len() == pairs0.len(),
            pending@ == pairs0.skip(out@.len() as int),
            forall|i: int|
                #![trigger out@[i]]
                0 <= i < out@.len() ==> out@[i].id == pairs0[i].0 && out@[i].result == pairs0[i].1,
        decreases pending@.len(),
    {
        let ghost k = out@.len() as int;
        let pair = pending.remove(0);
        proof {
            assert(pairs0.skip(k)[0] == pairs0[k]);
            assert(pairs0.skip(k).remove(0) =~= pairs0.skip(k + 1));
        }
        out.push(HandshakeResult::new(pair.0, pair.1));
    }
    out
}

/// A successful outcome: the peer's chain came back and it completed the
/// handshake.
pub open spec fn spec_outcome_ok(h: HandshakeResult) -> bool {
    h.result matches Ok(c) && c.complete
}

/// Whether a finished run is reported as a failure: some outcome carries
/// an error, or a chain that never completed its handshake.
pub fn run_failed(outcomes: &Vec<HandshakeResult>) -> (failed: bool)
    ensures
        failed == exists|i: int|
            0 <= i < outcomes@.len() && !spec_outcome_ok(#[trigger] outcomes@[i]),
{
    let n = outcomes.len();
    let mut i: usize = 0;
    let mut found = false;
    while i < n
        invariant
            i <= n,
            n == outcomes@.len(),
            found == exists|k: int| 0 <= k < i && !spec_outcome_ok(#[trigger] outcomes@[k]),
        decreases n - i,
    {
        let h = &outcomes[i];
        let ok = match &h.result {
            Ok(c) => c.is_complete(),
            Err(_) => false,
        };
        if !ok {
            proof {
                assert(!spec_outcome_ok(outcomes@[i as int]));
            }
            found = true;
        }
        i += 1;
    }
    found
}

} // verus!
