//! The handshake against a peer of the bitcoin network: the frame reader
//! that turns an arbitrarily chunked byte stream into discrete protocol
//! messages, the message dispatch that drives the four-event exchange,
//! and the session model that the live pipeline follows.

use vstd::prelude::*;

use bitcoin::consensus::encode::Error as EncodeError;
use bitcoin::consensus::{deserialize_partial, serialize};
use bitcoin::network::address::Address;
use bitcoin::network::constants::{Network, ServiceFlags};
use bitcoin::network::message::{NetworkMessage, RawNetworkMessage};
use bitcoin::network::message_network::VersionMessage;

use crate::p2p::render::{spec_udec, u32_to_dec};
use crate::p2p::view::{Event, EventChain, EventDirection};
use crate::p2p::{P2PError, P2PErrorKind};

verus! {

/// Per-peer settings for one handshake attempt.
pub struct Config {
    pub node_addr: String,
    pub timeout: u64,
    pub user_agent: String,
}

/// The number of events a completed handshake records.
pub const EXPECTED_HANDSHAKE_MESSAGES: usize = 4;

/// A protocol message as far as the handshake cares: the peer's greeting
/// with the fields the exchange reads, its acknowledgment, or any other
/// message, which plays no part in the handshake.
pub enum Message {
    Version { version: u32, timestamp: i64, nonce: u64, user_agent: String },
    Verack,
    Other,
}

/// What scanning a byte buffer for one leading frame yields.
pub enum Decoded {
    /// A full frame decodes at the front of the buffer, consuming the
    /// given number of bytes.
    Frame(Message, usize),
    /// The buffer holds no full frame yet; more bytes are needed.
    Incomplete,
    /// The buffered bytes cannot be a frame.
    Malformed,
}

/// What the bitcoin consensus codec finds at the front of a byte buffer.
pub uninterp spec fn frame_scan(bytes: Seq<u8>) -> Decoded;

/// Relies on bitcoin::consensus::deserialize_partial for
/// RawNetworkMessage: it decodes one leading frame from the slice and
/// reports how many bytes it consumed, never more than the slice holds
/// (the decoder reads through a cursor over the slice). An io error means
/// the bytes ran out mid-frame; any other error means the bytes cannot be
/// a frame. The greeting's fields are moved over; payloads the handshake
/// ignores become `Other`.
#[verifier::external_body]
fn decode_frame(buf: &[u8]) -> (r: Decoded)
    ensures
        r == frame_scan(buf@),
        r matches Decoded::Frame(m, n) ==> n <= buf@.len(),
{
    match deserialize_partial::<RawNetworkMessage>(buf) {
        Ok((msg, n)) => Decoded::Frame(match msg.payload {
            NetworkMessage::Version(v) => Message::Version {
                version: v.version, timestamp: v.timestamp, nonce: v.nonce, user_agent: v.user_agent,
            },
            NetworkMessage::Verack => Message::Verack,
            _ => Message::Other,
        }, n),
        Err(EncodeError::Io(_)) => Decoded::Incomplete,
        Err(_) => Decoded::Malformed,
    }
}

/// Relies on bitcoin::consensus::serialize of a RawNetworkMessage holding
/// `Verack` for the bitcoin network. Consensus encoding and decoding
/// round-trip, so scanning the produced bytes finds exactly the
/// acknowledgment frame, consuming all of them.
#[verifier::external_body]
pub fn verack_message() -> (r: Vec<u8>)
    ensures
        frame_scan(r@) == Decoded::Frame(Message::Verack, r@.len() as usize),
{
    serialize(&RawNetworkMessage { magic: Network::Bitcoin.magic(), payload: NetworkMessage::Verack })
}

/// Relies on bitcoin::consensus::serialize of a RawNetworkMessage holding
/// the `version` payload that VersionMessage::new builds, which stamps the
/// crate's protocol version, 70001, and fixes services to none and relay
/// to off. Consensus encoding and decoding round-trip, so scanning the
/// produced bytes finds exactly that greeting frame, consuming all of
/// them; the length bound on the identity string keeps the frame far
/// below the codec's four-million-byte payload cap, which the round trip
/// needs.
#[verifier::external_body]
fn encode_version_frame(
    recv_addr: [u16; 8],
    recv_port: u16,
    send_addr: [u16; 8],
    send_port: u16,
    timestamp: i64,
    nonce: u64,
    user_agent: &str,
    start_height: i32,
) -> (r: Vec<u8>)
    requires
        user_agent@.len() <= 1000000,
    ensures
        frame_scan(r@) is Frame,
        frame_scan(r@) matches Decoded::Frame(m, n) ==> n == r@.len() && (m
            matches Message::Version {
            version,
            timestamp: t,
            nonce: no,
            user_agent: ua,
        } && version == 70001u32 && t == timestamp && no == nonce && ua@ == user_agent@),
{
    let receiver = Address { services: ServiceFlags::NONE, address: recv_addr, port: recv_port };
    let sender = Address { services: ServiceFlags::NONE, address: send_addr, port: send_port };
    let vm = VersionMessage::new(
        ServiceFlags::NONE, timestamp, receiver, sender, nonce, user_agent.to_owned(), start_height,
    );
    serialize(&RawNetworkMessage {
        magic: Network::Bitcoin.magic(),
        payload: NetworkMessage::Version(vm),
    })
}

/// The encoded greeting that opens a handshake with the peer at the given
/// address segments and port: stamped with the current unix time, which
/// also serves as the nonce, a zero sender address, and a zero start
/// height.
pub fn version_message(recv_addr: [u16; 8], recv_port: u16, now: i64, user_agent: &str) -> (r:
    Vec<u8>)
    requires
        0 <= now,
        user_agent@.len() <= 1000000,
    ensures
        frame_scan(r@) is Frame,
        frame_scan(r@) matches Decoded::Frame(m, n) ==> n == r@.len() && (m
            matches Message::Version {
            version,
            timestamp,
            nonce,
            user_agent: ua,
        } && version == 70001u32 && timestamp == now && nonce == now as u64 && ua@
            == user_agent@),
{
    let send_addr: [u16; 8] = [0, 0, 0, 0, 0, 0xFFFF, 0, 0];
    encode_version_frame(recv_addr, recv_port, send_addr, 0, now, now as u64, user_agent, 0)
}

/// The IN event and the reply that one received message produces: the
/// peer's acknowledgment yields a bare IN event and no reply; the peer's
/// greeting yields an IN event annotated with the declared protocol
/// version and identity string, and asks for an acknowledgment to be sent
/// back; any other message is no part of the handshake and produces
/// nothing.
pub fn handle_message(message: &Message, time_ns: u64) -> (r: (Option<Event>, bool))
    ensures
        match *message {
            Message::Verack => ({
                &&& r.0 matches Some(ev)
                &&& ev.name@ == "verack"@
                &&& ev.direction == EventDirection::IN
                &&& ev.time == time_ns
                &&& ev.data_pairs@.len() == 0
                &&& r.1 == false
            }),
            Message::Version { version, user_agent, .. } => ({
                &&& r.0 matches Some(ev)
                &&& ev.name@ == "version"@
                &&& ev.direction == EventDirection::IN
                &&& ev.time == time_ns
                &&& ev.data_pairs@.len() == 2
                &&& ev.data_pairs@[0].0@ == "vers"@
                &&& ev.data_pairs@[0].1@ == spec_udec(version as nat)
                &&& ev.data_pairs@[1].0@ == "user-agent"@
                &&& ev.data_pairs@[1].1@ == user_agent@
                &&& r.1 == true
            }),
            Message::Other => r.0 is None && r.1 == false,
        },
{
    match message {
        Message::Verack => (
            Some(Event::new("verack".to_owned(), EventDirection::IN, time_ns)),
            false,
        ),
        Message::Version { version, user_agent, .. } => {
            let mut ev = Event::new("version".to_owned(), EventDirection::IN, time_ns);
            ev.set_pair("vers".to_owned(), u32_to_dec(*version));
            ev.set_pair("user-agent".to_owned(), user_agent.clone());
            (Some(ev), true)
        },
        Message::Other => (None, false),
    }
}

/// One step of the frame reader: a decoded message, a request for more
/// bytes from the transport, or a codec failure.
pub enum FrameStep {
    Frame(Message),
    NeedBytes,
    Failed(P2PError),
}

/// Extracts discrete frames from a byte stream: buffers whatever chunks
/// the transport delivers, decoding what is already buffered before ever
/// asking for more bytes, since chunks need not align with frame
/// boundaries.
pub struct FrameReader {
    pub buffer: Vec<u8>,
}

impl FrameReader {
    /// A reader with an empty buffer of the given initial capacity (a
    /// tuning knob, not a correctness concern).
    pub fn new(buff_size: usize) -> (r: FrameReader)
        ensures
            r.buffer@ == Seq::<u8>::empty(),
    {
        FrameReader { buffer: Vec::with_capacity(buff_size) }
    }

    /// Decode before read: when the buffered bytes already hold a full
    /// frame it is returned at once, consuming no more bytes than are
    /// buffered; only otherwise does the reader ask for more.
    pub fn take_frame(&mut self) -> (r: FrameStep)
        ensures
            match frame_scan(old(self).buffer@) {
                Decoded::Frame(m, n) => r == FrameStep::Frame(m) && n <= old(self).buffer@.len()
                    && final(self).buffer@ == old(self).buffer@.skip(n as int),
                Decoded::Incomplete => r == FrameStep::NeedBytes && final(self).buffer@ == old(
                    self,
                ).buffer@,
                Decoded::Malformed => (r matches FrameStep::Failed(e) && e.kind
                    == P2PErrorKind::Codec && e.message@ == "malformed frame from peer"@)
                    && final(self).buffer@ == old(self).buffer@,
            },
    {
        match decode_frame(self.buffer.as_slice()) {
            Decoded::Frame(m, n) => {
                let tail = self.buffer.split_off(n);
                self.buffer = tail;
                FrameStep::Frame(m)
            },
            Decoded::Incomplete => FrameStep::NeedBytes,
            Decoded::Malformed => FrameStep::Failed(
                P2PError::new(P2PErrorKind::Codec, "malformed frame from peer".to_owned()),
            ),
        }
    }

    /// Appends a chunk the transport delivered.
    pub fn feed(&mut self, chunk: &[u8])
        ensures
            final(self).buffer@ == old(self).buffer@ + chunk@,
    {
        self.buffer.extend_from_slice(chunk);
    }

    /// How many bytes are buffered and not yet decoded.
    pub fn buffered_len(&self) -> (n: usize)
        ensures
            n == self.buffer@.len(),
    {
        self.buffer.len()
    }

    /// What the transport closing means: a clean end of stream when the
    /// buffer is empty, and a connection reset when bytes of a partial
    /// frame are left that can never be completed.
    pub fn on_close(&self) -> (r: Result<(), P2PError>)
        ensures
            (self.buffer@.len() == 0) <==> r is Ok,
            r matches Err(e) ==> e.kind == P2PErrorKind::ConnectionReset && e.message@
                == "connection reset by peer"@,
    {
        if self.buffer.len() == 0 {
            Ok(())
        } else {
            Err(
                P2PError::new(
                    P2PErrorKind::ConnectionReset,
                    "connection reset by peer".to_owned(),
                ),
            )
        }
    }
}

/// The OUT greeting event the writer emits when the greeting goes out.
pub open spec fn is_out_version_event(ev: Event, t: u64) -> bool {
    &&& ev.name@ == "version"@
    &&& ev.direction == EventDirection::OUT
    &&& ev.time == t
    &&& ev.data_pairs@.len() == 0
}

/// The IN greeting event recorded for a received greeting `m`: annotated
/// with the peer's declared protocol version and identity string.
pub open spec fn is_in_version_event(ev: Event, m: Message, t: u64) -> bool {
    &&& m matches Message::Version { version, user_agent, .. } && ev.data_pairs@.len() == 2
        && ev.data_pairs@[0].0@ == "vers"@ && ev.data_pairs@[0].1@ == spec_udec(version as nat)
        && ev.data_pairs@[1].0@ == "user-agent"@ && ev.data_pairs@[1].1@ == user_agent@
    &&& ev.name@ == "version"@
    &&& ev.direction == EventDirection::IN
    &&& ev.time == t
}

/// The IN acknowledgment event recorded for a received acknowledgment.
pub open spec fn is_in_verack_event(ev: Event, t: u64) -> bool {
    &&& ev.name@ == "verack"@
    &&& ev.direction == EventDirection::IN
    &&& ev.time == t
    &&& ev.data_pairs@.len() == 0
}

/// The OUT acknowledgment event the writer emits for the reply sent back.
pub open spec fn is_out_verack_event(ev: Event, t: u64) -> bool {
    &&& ev.name@ == "verack"@
    &&& ev.direction == EventDirection::OUT
    &&& ev.time == t
    &&& ev.data_pairs@.len() == 0
}

/// Relates the peer's timestamped replies to the events a session records
/// once `count` events already stand in the chain: an acknowledgment adds
/// its IN event; a greeting adds its IN event and, unless that already
/// filled the chain, the OUT event of the acknowledgment sent back; other
/// messages add nothing; and dispatching stops once the chain holds the
/// expected four events.
pub open spec fn session_rel(inbound: Seq<(Message, u64)>, count: nat, events: Seq<Event>) -> bool
    decreases inbound.len(),
{
    if count >= 4 || inbound.len() == 0 {
        events.len() == 0
    } else {
        let m = inbound[0].0;
        let t = inbound[0].1;
        match m {
            Message::Verack => events.len() >= 1 && is_in_verack_event(events[0], t)
                && session_rel(inbound.drop_first(), count + 1, events.drop_first()),
            Message::Version { .. } => if count + 1 >= 4 {
                events.len() >= 1 && is_in_version_event(events[0], m, t) && session_rel(
                    inbound.drop_first(),
                    count + 1,
                    events.drop_first(),
                )
            } else {
                events.len() >= 2 && is_in_version_event(events[0], m, t) && is_out_verack_event(
                    events[1],
                    t,
                ) && session_rel(inbound.drop_first(), count + 2, events.skip(2))
            },
            Message::Other => session_rel(inbound.drop_first(), count, events),
        }
    }
}

/// The events that dispatching the replies from index `j` on produces,
/// with `count` events already recorded.
fn replies_from(inbound: &Vec<(Message, u64)>, j: usize, count: usize) -> (evs: Vec<Event>)
    requires
        j <= inbound@.len(),
        count <= 4,
    ensures
        session_rel(inbound@.skip(j as int), count as nat, evs@),
        count + evs@.len() <= 4,
    decreases inbound@.len() - j,
{
    if count >= 4 || j == inbound.len() {
        Vec::new()
    } else {
        let pair = &inbound[j];
        let t = pair.1;
        let dispatched = handle_message(&pair.0, t);
        proof {
            assert(inbound@.skip(j as int)[0] == inbound@[j as int]);
            assert(inbound@.skip(j as int).drop_first() =~= inbound@.skip(j + 1 as int));
        }
        match dispatched.0 {
            None => replies_from(inbound, j + 1, count),
            Some(ev) => {
                let mut evs = Vec::new();
                evs.push(ev);
                if dispatched.1 && count + 1 < 4 {
                    evs.push(Event::new("verack".to_owned(), EventDirection::OUT, t));
                    let mut rest = replies_from(inbound, j + 1, count + 2);
                    let ghost rest0 = rest@;
                    evs.append(&mut rest);
                    proof {
                        assert(evs@.skip(2) =~= rest0);
                    }
                    evs
                } else {
                    let mut rest = replies_from(inbound, j + 1, count + 1);
                    let ghost rest0 = rest@;
                    evs.append(&mut rest);
                    proof {
                        assert(evs@.drop_first() =~= rest0);
                    }
                    evs
                }
            },
        }
    }
}

/// One peer's handshake serialized: the greeting's OUT event comes first,
/// the peer's replies are then dispatched in order — each IN event
/// followed at once by the OUT event of the acknowledgment it triggers —
/// and the chain is sealed complete the moment it reaches the expected
/// four events. Replies arriving after a timeout or cancellation are
/// simply absent from `inbound`, leaving the chain incomplete.
pub fn run_session(node_addr: String, start_ns: u64, inbound: &Vec<(Message, u64)>) -> (chain:
    EventChain)
    ensures
        chain.id == node_addr,
        1 <= chain.events@.len() <= 4,
        is_out_version_event(chain.events@[0], start_ns),
        session_rel(inbound@, 1, chain.events@.skip(1)),
        chain.complete == (chain.events@.len() == 4),
{
    let mut chain = EventChain::new(node_addr);
    chain.add(Event::new("version".to_owned(), EventDirection::OUT, start_ns));
    let mut evs = replies_from(inbound, 0, 1);
    proof {
        assert(inbound@.skip(0) =~= inbound@);
    }
    let ghost evs0 = evs@;
    let n = evs.len();
    let mut i: usize = 0;
    while i < n
        invariant
            n == evs0.len(),
            i <= n,
            evs@ == evs0.skip(i as int),
            chain.events@.len() == i + 1,
            chain.events@.skip(1) == evs0.take(i as int),
            chain.id == node_addr,
            chain.complete == false,
            is_out_version_event(chain.events@[0], start_ns),
        decreases n - i,
    {
        let ev = evs.remove(0);
        proof {
            assert(evs0.skip(i as int)[0] == evs0[i as int]);
            assert(evs0.skip(i as int).remove(0) =~= evs0.skip(i + 1 as int));
        }
        chain.add(ev);
        proof {
            assert(chain.events@.skip(1) =~= evs0.take(i + 1 as int));
        }
        i += 1;
    }
    proof {
        assert(evs0.take(n as int) =~= evs0);
    }
    if chain.len() == EXPECTED_HANDSHAKE_MESSAGES {
        chain.mark_as_complete();
    }
    chain
}

/// The collector's loop: appends the events it receives in order and, the
/// moment the chain reaches the expected four events, seals it complete
/// and fires the shutdown signal, so later events are never recorded. The
/// returned flag says whether the collector fired the shutdown itself;
/// when it did not, the chain is handed back incomplete, which is an
/// outcome, not an error.
pub fn collect_events(id: String, events: Vec<Event>) -> (r: (EventChain, bool))
    ensures
        r.0.id == id,
        r.0.events@ == (if events@.len() >= 4 {
            events@.take(4)
        } else {
            events@
        }),
        r.0.complete == (events@.len() >= 4),
        r.1 == (events@.len() >= 4),
{
    let mut chain = EventChain::new(id);
    let mut pending = events;
    let ghost evs0 = pending@;
    while pending.len() > 0 && chain.len() < EXPECTED_HANDSHAKE_MESSAGES
        invariant
            chain.events@.len() <= 4,
            chain.events@.len() + pending@.len() == evs0.len(),
            chain.events@ == evs0.take(chain.events@.len() as int),
            pending@ == evs0.skip(chain.events@.len() as int),
            chain.id == id,
            chain.complete == false,
        decreases pending@.len(),
    {
        let ev = pending.remove(0);
        proof {
            let k = chain.events@.len() as int;
            assert(evs0.skip(k)[0] == evs0[k]);
            assert(evs0.skip(k).remove(0) =~= evs0.skip(k + 1));
            assert(evs0.take(k).push(evs0[k]) =~= evs0.take(k + 1));
        }
        chain.add(ev);
    }
    if chain.len() == EXPECTED_HANDSHAKE_MESSAGES {
        chain.mark_as_complete();
        proof {
            assert(evs0.len() >= 4);
        }
        (chain, true)
    } else {
        proof {
            assert(pending@.len() == 0);
            assert(evs0.take(chain.events@.len() as int) =~= evs0);
        }
        (chain, false)
    }
}

/// The replies of a peer that follows the protocol: at most one greeting,
/// at most one acknowledgment, and never the acknowledgment before the
/// greeting.
pub open spec fn conforming_replies(inbound: Seq<(Message, u64)>) -> bool {
    &&& forall|i: int, j: int|
        #![trigger inbound[i], inbound[j]]
        0 <= i < inbound.len() && 0 <= j < inbound.len() && inbound[i].0 is Version
            && inbound[j].0 is Version ==> i == j
    &&& forall|i: int, j: int|
        #![trigger inbound[i], inbound[j]]
        0 <= i < inbound.len() && 0 <= j < inbound.len() && inbound[i].0 is Verack
            && inbound[j].0 is Verack ==> i == j
    &&& forall|i: int, j: int|
        #![trigger inbound[i], inbound[j]]
        0 <= i < inbound.len() && 0 <= j < inbound.len() && inbound[i].0 is Verack
            && inbound[j].0 is Version ==> j < i
}

/// A stretch of replies with no greeting and no acknowledgment records
/// nothing.
proof fn lemma_session_rel_silent(inbound: Seq<(Message, u64)>, count: nat, events: Seq<Event>)
    requires
        session_rel(inbound, count, events),
        forall|i: int| #![trigger inbound[i]] 0 <= i < inbound.len() ==> inbound[i].0 is Other,
    ensures
        events.len() == 0,
    decreases inbound.len(),
{
    if count >= 4 || inbound.len() == 0 {
    } else {
        assert(inbound[0].0 is Other);
        let tail = inbound.drop_first();
        assert forall|i: int| #![trigger tail[i]] 0 <= i < tail.len() implies tail[i].0 is Other by {
            assert(tail[i] == inbound[i + 1]);
        }
        lemma_session_rel_silent(tail, count, events);
    }
}

/// Replies holding no greeting and at most one acknowledgment record at
/// most that acknowledgment's IN event.
proof fn lemma_session_rel_acks(inbound: Seq<(Message, u64)>, count: nat, events: Seq<Event>)
    requires
        session_rel(inbound, count, events),
        forall|i: int| #![trigger inbound[i]] 0 <= i < inbound.len() ==> !(inbound[i].0 is Version),
        forall|i: int, j: int|
            #![trigger inbound[i], inbound[j]]
            0 <= i < inbound.len() && 0 <= j < inbound.len() && inbound[i].0 is Verack
                && inbound[j].0 is Verack ==> i == j,
    ensures
        events.len() <= 1,
        events.len() == 1 ==> events[0].name@ == "verack"@ && events[0].direction
            == EventDirection::IN,
    decreases inbound.len(),
{
    if count >= 4 || inbound.len() == 0 {
    } else {
        let tail = inbound.drop_first();
        assert(forall|i: int| #![trigger tail[i]] 0 <= i < tail.len() ==> tail[i] == inbound[i + 1]);
        if inbound[0].0 is Verack {
            assert forall|i: int| #![trigger tail[i]] 0 <= i < tail.len() implies tail[i].0
                is Other by {
                assert(tail[i] == inbound[i + 1]);
                if tail[i].0 is Verack {
                    assert(inbound[0].0 is Verack && inbound[i + 1].0 is Verack);
                    assert(i + 1 == 0);
                }
            }
            lemma_session_rel_silent(tail, count + 1, events.drop_first());
        } else {
            assert(inbound[0].0 is Other);
            lemma_session_rel_acks(tail, count, events);
        }
    }
}

/// Law: a completed session chain holds exactly the four handshake events
/// in protocol order — the outgoing greeting, the peer's greeting, and the
/// two acknowledgments — whenever the peer's replies conform to the
/// protocol. In this serialized model the outgoing acknowledgment comes
/// before the incoming one; `lemma_admissible_handshake_shape` covers the
/// relaxed ordering in which the two may reach the collector either way.
pub proof fn lemma_completed_session_shape(
    inbound: Seq<(Message, u64)>,
    events: Seq<Event>,
    start_ns: u64,
)
    requires
        events.len() == 4,
        is_out_version_event(events[0], start_ns),
        session_rel(inbound, 1, events.skip(1)),
        conforming_replies(inbound),
    ensures
        events[0].name@ == "version"@ && events[0].direction == EventDirection::OUT,
        events[1].name@ == "version"@ && events[1].direction == EventDirection::IN,
        events[2].name@ == "verack"@ && events[2].direction == EventDirection::OUT,
        events[3].name@ == "verack"@ && events[3].direction == EventDirection::IN,
    decreases inbound.len(),
{
    let tail = events.skip(1);
    assert(tail.len() == 3);
    assert(inbound.len() > 0);
    let itail = inbound.drop_first();
    assert(forall|i: int| #![trigger itail[i]] 0 <= i < itail.len() ==> itail[i] == inbound[i + 1]);
    if inbound[0].0 is Other {
        assert forall|i: int, j: int|
            #![trigger itail[i], itail[j]]
            0 <= i < itail.len() && 0 <= j < itail.len() implies (itail[i].0 is Version
            && itail[j].0 is Version ==> i == j) && (itail[i].0 is Verack && itail[j].0 is Verack
            ==> i == j) && (itail[i].0 is Verack && itail[j].0 is Version ==> j < i) by {
            assert(itail[i] == inbound[i + 1]);
            assert(itail[j] == inbound[j + 1]);
        }
        lemma_completed_session_shape(itail, events, start_ns);
    } else if inbound[0].0 is Verack {
        // An acknowledgment first means the peer never sent a greeting at
        // all, so at most one event could have been recorded.
        assert forall|i: int| #![trigger inbound[i]] 0 <= i < inbound.len() implies !(inbound[i].0
            is Version) by {
            if inbound[i].0 is Version {
                assert(inbound[0].0 is Verack && inbound[i].0 is Version);
                assert(i < 0);
            }
        }
        lemma_session_rel_acks(inbound, 1, tail);
        assert(false);
    } else {
        let m = inbound[0].0;
        let t = inbound[0].1;
        assert(is_in_version_event(tail[0], m, t));
        assert(is_out_verack_event(tail[1], t));
        let rest = tail.skip(2);
        assert(session_rel(itail, 3, rest));
        assert forall|i: int| #![trigger itail[i]] 0 <= i < itail.len() implies !(itail[i].0
            is Version) by {
            assert(itail[i] == inbound[i + 1]);
            if itail[i].0 is Version {
                assert(inbound[0].0 is Version && inbound[i + 1].0 is Version);
                assert(i + 1 == 0);
            }
        }
        assert forall|i: int, j: int|
            #![trigger itail[i], itail[j]]
            0 <= i < itail.len() && 0 <= j < itail.len() && itail[i].0 is Verack && itail[j].0
            is Verack implies i == j by {
            assert(itail[i] == inbound[i + 1]);
            assert(itail[j] == inbound[j + 1]);
        }
        lemma_session_rel_acks(itail, 3, rest);
        assert(rest.len() == 1);
        assert(tail[0] == events[1]);
        assert(tail[1] == events[2]);
        assert(rest[0] == tail[2]);
        assert(tail[2] == events[3]);
    }
}

/// The four kinds of event a handshake records at the collector.
#[derive(Clone, Copy, PartialEq, Eq, Structural, Debug)]
pub enum HandshakeEventKind {
    OutVersion,
    InVersion,
    OutVerack,
    InVerack,
}

/// The orders in which handshake events can reach the collector: the
/// outgoing greeting comes first and only once, every other event occurs
/// at most once, and each acknowledgment — whichever of the two comes
/// earlier — can only follow the peer's greeting.
pub open spec fn admissible_arrivals(s: Seq<HandshakeEventKind>) -> bool {
    &&& forall|i: int|
        #![trigger s[i]]
        0 <= i < s.len() && s[i] == HandshakeEventKind::OutVersion ==> i == 0
    &&& s.len() > 0 ==> s[0] == HandshakeEventKind::OutVersion
    &&& forall|i: int, j: int|
        #![trigger s[i], s[j]]
        0 <= i < s.len() && 0 <= j < s.len() && s[i] == s[j] && s[i]
            != HandshakeEventKind::OutVersion ==> i == j
    &&& forall|i: int|
        #![trigger s[i]]
        0 <= i < s.len() && (s[i] == HandshakeEventKind::OutVerack || s[i]
            == HandshakeEventKind::InVerack) ==> exists|j: int|
            #![trigger s[j]]
            0 <= j < i && s[j] == HandshakeEventKind::InVersion
}

/// Law: however the tasks' events interleave on the way to the collector,
/// four admissible arrivals are the outgoing greeting, then the peer's
/// greeting, then the two acknowledgments in either order.
#[verifier::rlimit(100)]
pub proof fn lemma_admissible_handshake_shape(s: Seq<HandshakeEventKind>)
    requires
        admissible_arrivals(s),
        s.len() == 4,
    ensures
        s[0] == HandshakeEventKind::OutVersion,
        s[1] == HandshakeEventKind::InVersion,
        (s[2] == HandshakeEventKind::OutVerack && s[3] == HandshakeEventKind::InVerack) || (s[2]
            == HandshakeEventKind::InVerack && s[3] == HandshakeEventKind::OutVerack),
{
    if s[1] == HandshakeEventKind::OutVerack || s[1] == HandshakeEventKind::InVerack {
        let j = choose|j: int|
            #![trigger s[j]]
            0 <= j < 1 && s[j] == HandshakeEventKind::InVersion;
        assert(j == 0);
        assert(false);
    }
    assert(s[1] != HandshakeEventKind::OutVersion);
    assert(s[1] == HandshakeEventKind::InVersion);
    assert(s[2] != HandshakeEventKind::OutVersion);
    assert(s[2] != HandshakeEventKind::InVersion);
    assert(s[3] != HandshakeEventKind::OutVersion);
    assert(s[3] != HandshakeEventKind::InVersion);
    assert(s[2] != s[3]);
}

/// Admissibility survives truncation, so it carries from the full arrival
/// order to the four events the collector keeps.
#[verifier::rlimit(100)]
pub proof fn lemma_admissible_prefix(s: Seq<HandshakeEventKind>, k: int)
    requires
        admissible_arrivals(s),
        0 <= k <= s.len(),
    ensures
        admissible_arrivals(s.take(k)),
{
    let p = s.take(k);
    assert(forall|i: int| #![trigger p[i]] 0 <= i < p.len() ==> p[i] == s[i]);
    assert forall|i: int|
        #![trigger p[i]]
        0 <= i < p.len() && (p[i] == HandshakeEventKind::OutVerack || p[i]
            == HandshakeEventKind::InVerack) implies exists|j: int|
        #![trigger p[j]]
        0 <= j < i && p[j] == HandshakeEventKind::InVersion by {
        assert(s[i] == p[i]);
        let j = choose|j: int|
            #![trigger s[j]]
            0 <= j < i && s[j] == HandshakeEventKind::InVersion;
        assert(p[j] == s[j]);
    }
}

/// Law: the chain the collector completes — the first four events of an
/// admissible arrival order — has the documented handshake shape.
#[verifier::rlimit(100)]
pub proof fn lemma_collector_complete_shape(s: Seq<HandshakeEventKind>)
    requires
        admissible_arrivals(s),
        s.len() >= 4,
    ensures
        s.take(4)[0] == HandshakeEventKind::OutVersion,
        s.take(4)[1] == HandshakeEventKind::InVersion,
        (s.take(4)[2] == HandshakeEventKind::OutVerack && s.take(4)[3]
            == HandshakeEventKind::InVerack) || (s.take(4)[2] == HandshakeEventKind::InVerack
            && s.take(4)[3] == HandshakeEventKind::OutVerack),
{
    lemma_admissible_prefix(s, 4);
    lemma_admissible_handshake_shape(s.take(4));
}

} // verus!
