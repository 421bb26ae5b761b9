//! The event model: directional, timestamped, optionally annotated events,
//! the per-peer chain that records them, and the per-peer outcome, together
//! with their single-line renderings.
//!
//! Timestamps are nanosecond counts on a monotonic clock; elapsed times
//! between events saturate at zero.

use vstd::prelude::*;
use vstd::string::StringExecFns;

use crate::p2p::render::{format_duration_ns, spec_duration_display};
use crate::p2p::{spec_error_display, P2PError};

verus! {

/// Whether an event was observed coming in from the peer or going out to it.
#[derive(Clone, Copy, PartialEq, Eq, Structural, Debug)]
pub enum EventDirection {
    IN,
    OUT,
}

/// The glyph a direction renders to.
pub open spec fn spec_direction_display(d: EventDirection) -> Seq<char> {
    match d {
        EventDirection::IN => "\u{1F6EC}"@,
        EventDirection::OUT => "\u{1F6EB}"@,
    }
}

impl EventDirection {
    /// The glyph for this direction.
    pub fn symbol(&self) -> (s: &'static str)
        ensures
            s@ == spec_direction_display(*self),
    {
        match self {
            EventDirection::IN => "\u{1F6EC}",
            EventDirection::OUT => "\u{1F6EB}",
        }
    }
}

/// One observed protocol occurrence: a message name, the direction it
/// travelled, the instant it was observed (nanoseconds on a monotonic
/// clock), and ordered key/value annotations.
pub struct Event {
    pub name: String,
    pub time: u64,
    pub direction: EventDirection,
    pub data_pairs: Vec<(String, String)>,
}

impl Event {
    /// A fresh event with no annotations, stamped `time_ns`.
    pub fn new(name: String, direction: EventDirection, time_ns: u64) -> (ev: Event)
        ensures
            ev.name == name,
            ev.direction == direction,
            ev.time == time_ns,
            ev.data_pairs@ == Seq::<(String, String)>::empty(),
    {
        Event { name, direction, time: time_ns, data_pairs: Vec::new() }
    }

    pub fn name(&self) -> (r: &str)
        ensures
            r@ == self.name@,
    {
        self.name.as_str()
    }

    pub fn time(&self) -> (t: u64)
        ensures
            t == self.time,
    {
        self.time
    }

    pub fn direction(&self) -> (d: &EventDirection)
        ensures
            *d == self.direction,
    {
        &self.direction
    }

    pub fn data_pairs(&self) -> (r: &[(String, String)])
        ensures
            r@ == self.data_pairs@,
    {
        self.data_pairs.as_slice()
    }

    /// Appends one key/value annotation.
    pub fn set_pair(&mut self, key: String, val: String)
        ensures
            final(self).data_pairs@ == old(self).data_pairs@.push((key, val)),
            final(self).name == old(self).name,
            final(self).time == old(self).time,
            final(self).direction == old(self).direction,
    {
        self.data_pairs.push((key, val));
    }

    /// The event rendered on one line: name, direction glyph, and the
    /// annotations in parentheses when there are any.
    pub fn to_display_string(&self) -> (r: String)
        ensures
            r@ == spec_event_display(*self),
    {
        let mut s = String::new();
        s.append(self.name.as_str());
        s.append(" ");
        s.append(self.direction.symbol());
        let n = self.data_pairs.len();
        if n > 0 {
            s.append(" (");
            let mut i: usize = 0;
            while i < n
                invariant
                    n == self.data_pairs@.len(),
                    0 < n,
                    i <= n,
                    s@ == self.name@ + " "@ + spec_direction_display(self.direction) + " ("@
                        + spec_pairs_body(self.data_pairs@.subrange(0, i as int)),
                decreases n - i,
            {
                if i > 0 {
                    s.append(" ");
                }
                let pair = &self.data_pairs[i];
                s.append(pair.0.as_str());
                s.append(":");
                s.append(pair.1.as_str());
                proof {
                    assert(self.data_pairs@.subrange(0, i + 1 as int).drop_last()
                        =~= self.data_pairs@.subrange(0, i as int));
                    assert(s@ =~= self.name@ + " "@ + spec_direction_display(self.direction)
                        + " ("@ + spec_pairs_body(self.data_pairs@.subrange(0, i + 1 as int)));
                }
                i += 1;
            }
            s.append(")");
            proof {
                assert(self.data_pairs@.subrange(0, n as int) =~= self.data_pairs@);
                assert(s@ =~= spec_event_display(*self));
            }
        } else {
            proof {
                assert(s@ =~= spec_event_display(*self));
            }
        }
        s
    }
}

/// One annotation rendered as `key:value`.
pub open spec fn spec_pair_display(p: (String, String)) -> Seq<char> {
    p.0@ + ":"@ + p.1@
}

/// Annotations joined with single spaces.
pub open spec fn spec_pairs_body(ps: Seq<(String, String)>) -> Seq<char>
    decreases ps.len(),
{
    if ps.len() == 0 {
        Seq::<char>::empty()
    } else if ps.len() == 1 {
        spec_pair_display(ps[0])
    } else {
        spec_pairs_body(ps.drop_last()) + " "@ + spec_pair_display(ps.last())
    }
}

/// What `Event::to_display_string` produces.
pub open spec fn spec_event_display(ev: Event) -> Seq<char> {
    ev.name@ + " "@ + spec_direction_display(ev.direction) + (if ev.data_pairs@.len() == 0 {
        Seq::<char>::empty()
    } else {
        " ("@ + spec_pairs_body(ev.data_pairs@) + ")"@
    })
}

/// The elapsed nanoseconds between two instants, saturating at zero as the
/// monotonic clock's subtraction does.
pub open spec fn spec_delta_ns(prev: u64, cur: u64) -> nat {
    if cur >= prev {
        (cur - prev) as nat
    } else {
        0
    }
}

/// The total elapsed time of an event sequence: the sum of the deltas
/// between consecutive events.
pub open spec fn spec_total_elapsed(evs: Seq<Event>) -> nat
    decreases evs.len(),
{
    if evs.len() <= 1 {
        0
    } else {
        spec_total_elapsed(evs.drop_last()) + spec_delta_ns(
            evs[evs.len() - 2].time,
            evs.last().time,
        )
    }
}

/// The event list as rendered inside a chain line: the events in order,
/// separated by arrows carrying the elapsed time between them.
pub open spec fn spec_events_display(evs: Seq<Event>) -> Seq<char>
    decreases evs.len(),
{
    if evs.len() == 0 {
        Seq::<char>::empty()
    } else if evs.len() == 1 {
        spec_event_display(evs[0])
    } else {
        spec_events_display(evs.drop_last()) + " -- "@ + spec_duration_display(
            spec_delta_ns(evs[evs.len() - 2].time, evs.last().time),
        ) + " --> "@ + spec_event_display(evs.last())
    }
}

/// The status glyph of a chain: a check mark when complete, a cross and a
/// clock when not.
pub open spec fn spec_status_display(complete: bool) -> Seq<char> {
    if complete {
        "\u{2705}"@
    } else {
        "\u{274C} \u{1F550}"@
    }
}

/// What `EventChain::to_display_string` produces.
pub open spec fn spec_chain_display(c: EventChain) -> Seq<char> {
    spec_status_display(c.complete) + " - "@ + c.id@ + " || "@ + spec_events_display(c.events@)
        + " || total time "@ + spec_duration_display(spec_total_elapsed(c.events@)) + "."@
}

/// The ordered record of one peer's handshake: its identifier (the dialed
/// address), the events in the order they were collected, and whether the
/// expected exchange was completed.
pub struct EventChain {
    pub id: String,
    pub complete: bool,
    pub events: Vec<Event>,
}

impl EventChain {
    /// An empty, incomplete chain for the given peer.
    pub fn new(id: String) -> (c: EventChain)
        ensures
            c.id == id,
            c.complete == false,
            c.events@ == Seq::<Event>::empty(),
    {
        EventChain { id, events: Vec::new(), complete: false }
    }

    /// Appends one event; everything else is untouched.
    pub fn add(&mut self, event: Event)
        ensures
            final(self).events@ == old(self).events@.push(event),
            final(self).id == old(self).id,
            final(self).complete == old(self).complete,
    {
        self.events.push(event);
    }

    pub fn len(&self) -> (n: usize)
        ensures
            n == self.events@.len(),
    {
        self.events.len()
    }

    pub fn is_empty(&self) -> (b: bool)
        ensures
            b == (self.events@.len() == 0),
    {
        self.events.len() == 0
    }

    pub fn get(&self, n: usize) -> (r: Option<&Event>)
        ensures
            match r {
                Some(ev) => n < self.events@.len() && *ev == self.events@[n as int],
                None => n >= self.events@.len(),
            },
    {
        if n < self.events.len() {
            Some(&self.events[n])
        } else {
            None
        }
    }

    /// Marks the chain complete; completion is monotonic, it is never unset.
    pub fn mark_as_complete(&mut self)
        ensures
            final(self).complete == true,
            final(self).id == old(self).id,
            final(self).events@ == old(self).events@,
    {
        self.complete = true;
    }

    pub fn is_complete(&self) -> (b: bool)
        ensures
            b == self.complete,
    {
        self.complete
    }

    pub fn id(&self) -> (r: &str)
        ensures
            r@ == self.id@,
    {
        self.id.as_str()
    }

    /// The total elapsed time of the chain in nanoseconds.
    pub fn total_elapsed_ns(&self) -> (t: u128)
        ensures
            t as nat == spec_total_elapsed(self.events@),
    {
        let bt = self.render_events();
        bt.1
    }

    /// The rendered event list and the total elapsed nanoseconds.
    fn render_events(&self) -> (r: (String, u128))
        ensures
            r.0@ == spec_events_display(self.events@),
            r.1 as nat == spec_total_elapsed(self.events@),
    {
        let mut s = String::new();
        let mut total: u128 = 0;
        let n = self.events.len();
        let mut i: usize = 0;
        while i < n
            invariant
                n == self.events@.len(),
                i <= n,
                s@ == spec_events_display(self.events@.subrange(0, i as int)),
                total as nat == spec_total_elapsed(self.events@.subrange(0, i as int)),
                total as int <= (i as int) * 0xFFFF_FFFF_FFFF_FFFFu64,
            decreases n - i,
        {
            if i > 0 {
                let prev: u64 = self.events[i - 1].time;
                let cur: u64 = self.events[i].time;
                let delta: u64 = if cur >= prev {
                    cur - prev
                } else {
                    0
                };
                proof {
                    assert((total + delta) as int <= ((i + 1) as int) * 0xFFFF_FFFF_FFFF_FFFFu64)
                        by (nonlinear_arith)
                        requires
                            total as int <= (i as int) * 0xFFFF_FFFF_FFFF_FFFFu64,
                            delta <= 0xFFFF_FFFF_FFFF_FFFFu64,
                    ;
                    assert(((i + 1) as int) * 0xFFFF_FFFF_FFFF_FFFFu64 < 0xFFFF_FFFF_FFFF_FFFF_FFFF_FFFF_FFFF_FFFFu128)
                        by (nonlinear_arith)
                        requires
                            0 <= i as int,
                            (i + 1) as int <= 0x1_0000_0000_0000_0000,
                    ;
                }
                total = total + delta as u128;
                s.append(" -- ");
                let d = format_duration_ns(delta as u128);
                s.append(d.as_str());
                s.append(" --> ");
            }
            let line = self.events[i].to_display_string();
            s.append(line.as_str());
            proof {
                let pre = self.events@.subrange(0, i as int);
                let post = self.events@.subrange(0, i + 1 as int);
                assert(post.drop_last() =~= pre);
                assert(s@ =~= spec_events_display(post));
                assert(total as nat == spec_total_elapsed(post));
            }
            i += 1;
        }
        proof {
            assert(self.events@.subrange(0, n as int) =~= self.events@);
        }
        (s, total)
    }

    /// The chain rendered on one line: status glyph, peer id, the events
    /// with their inter-event elapsed times, and the total elapsed time.
    pub fn to_display_string(&self) -> (r: String)
        ensures
            r@ == spec_chain_display(*self),
    {
        let mut s = if self.complete {
            "\u{2705}".to_owned()
        } else {
            "\u{274C} \u{1F550}".to_owned()
        };
        s.append(" - ");
        s.append(self.id.as_str());
        s.append(" || ");
        let bt = self.render_events();
        s.append(bt.0.as_str());
        s.append(" || total time ");
        let d = format_duration_ns(bt.1);
        s.append(d.as_str());
        s.append(".");
        proof {
            assert(s@ =~= spec_chain_display(*self));
        }
        s
    }
}

/// The sum of the elapsed times between consecutive events, computed
/// front to back.
pub open spec fn spec_delta_sum(evs: Seq<Event>) -> nat
    decreases evs.len(),
{
    if evs.len() <= 1 {
        0
    } else {
        spec_delta_ns(evs[0].time, evs[1].time) + spec_delta_sum(evs.drop_first())
    }
}

/// Peeling the last delta off the front-to-back sum.
proof fn lemma_delta_sum_drop_last(evs: Seq<Event>)
    requires
        evs.len() >= 2,
    ensures
        spec_delta_sum(evs) == spec_delta_sum(evs.drop_last()) + spec_delta_ns(
            evs[evs.len() - 2].time,
            evs.last().time,
        ),
    decreases evs.len(),
{
    if evs.len() == 2 {
        assert(evs.drop_last().len() == 1);
        assert(evs.drop_first().len() == 1);
        assert(spec_delta_sum(evs) == spec_delta_ns(evs[0].time, evs[1].time) + spec_delta_sum(
            evs.drop_first(),
        ));
        assert(spec_delta_sum(evs.drop_first()) == 0);
        assert(spec_delta_sum(evs.drop_last()) == 0);
        assert(evs[evs.len() - 2] == evs[0]);
        assert(evs.last() == evs[1]);
    } else {
        let tail = evs.drop_first();
        let init = evs.drop_last();
        lemma_delta_sum_drop_last(tail);
        assert(tail.drop_last() =~= init.drop_first());
        assert(tail.last() == evs.last());
        assert(tail[tail.len() - 2] == evs[evs.len() - 2]);
        assert(init[0] == evs[0]);
        assert(init[1] == evs[1]);
        assert(init.len() == evs.len() - 1 >= 2);
        assert(spec_delta_sum(evs) == spec_delta_ns(evs[0].time, evs[1].time)
            + spec_delta_sum(tail));
        assert(spec_delta_sum(init) == spec_delta_ns(init[0].time, init[1].time)
            + spec_delta_sum(init.drop_first()));
        assert(spec_delta_sum(tail) == spec_delta_sum(init.drop_first()) + spec_delta_ns(
            evs[evs.len() - 2].time,
            evs.last().time,
        ));
    }
}

/// Law: the total elapsed time of an event sequence equals the sum of the
/// elapsed times between its consecutive events; each of those is a
/// saturating difference and so never negative.
pub proof fn lemma_total_elapsed_is_sum_of_deltas(evs: Seq<Event>)
    ensures
        spec_total_elapsed(evs) == spec_delta_sum(evs),
        forall|i: int| 0 < i < evs.len() ==> #[trigger] spec_delta_ns(evs[i - 1].time, evs[i].time)
            >= 0,
    decreases evs.len(),
{
    if evs.len() >= 2 {
        lemma_total_elapsed_is_sum_of_deltas(evs.drop_last());
        lemma_delta_sum_drop_last(evs);
    }
}

/// Law: when the timestamps never decrease, the total elapsed time of an
/// event sequence telescopes to last minus first.
#[verifier::rlimit(50)]
pub proof fn lemma_total_elapsed_telescopes(evs: Seq<Event>)
    requires
        forall|i: int| #![trigger evs[i]] 0 < i < evs.len() ==> evs[i - 1].time <= evs[i].time,
    ensures
        evs.len() >= 1 ==> spec_total_elapsed(evs) == evs.last().time - evs[0].time,
    decreases evs.len(),
{
    if evs.len() >= 2 {
        let pre = evs.drop_last();
        assert forall|i: int| #![trigger pre[i]] 0 < i < pre.len() implies pre[i - 1].time
            <= pre[i].time by {
            assert(pre[i - 1] == evs[i - 1]);
            assert(pre[i] == evs[i]);
        }
        lemma_total_elapsed_telescopes(pre);
        assert(pre.last() == evs[evs.len() - 2]);
        assert(pre[0] == evs[0]);
        assert(evs[evs.len() - 2].time <= evs[evs.len() - 1].time);
    }
}

/// What `HandshakeResult::to_display_string` produces: the chain line on
/// success, otherwise a failure glyph, the peer id, and the error.
pub open spec fn spec_result_display(h: HandshakeResult) -> Seq<char> {
    match h.result {
        Ok(c) => spec_chain_display(c),
        Err(e) => "\u{274C} "@ + h.id@ + ": "@ + spec_error_display(e),
    }
}

/// The outcome of probing one peer: either the recorded event chain or the
/// error that stopped the attempt.
pub struct HandshakeResult {
    pub id: String,
    pub result: Result<EventChain, P2PError>,
}

impl HandshakeResult {
    pub fn new(id: String, result: Result<EventChain, P2PError>) -> (r: HandshakeResult)
        ensures
            r.id == id,
            r.result == result,
    {
        HandshakeResult { id, result }
    }

    pub fn id(&self) -> (r: &str)
        ensures
            r@ == self.id@,
    {
        self.id.as_str()
    }

    pub fn result(&self) -> (r: Result<&EventChain, &P2PError>)
        ensures
            match self.result {
                Ok(c) => r matches Ok(rc) && *rc == c,
                Err(e) => r matches Err(re) && *re == e,
            },
    {
        match &self.result {
            Ok(c) => Ok(c),
            Err(e) => Err(e),
        }
    }

    /// The outcome rendered on one line.
    pub fn to_display_string(&self) -> (r: String)
        ensures
            r@ == spec_result_display(*self),
    {
        match &self.result {
            Ok(c) => c.to_display_string(),
            Err(e) => {
                let mut s = String::new();
                s.append("\u{274C} ");
                s.append(self.id.as_str());
                s.append(": ");
                let msg = e.to_display_string();
                s.append(msg.as_str());
                proof {
                    assert(s@ =~= spec_result_display(*self));
                }
                s
            },
        }
    }
}

} // verus!
