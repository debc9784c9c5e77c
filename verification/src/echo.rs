//! What holds of a connection over every run of events: the interest it is
//! left with, the progress of its drains, and the bytes it gives back.

use vstd::prelude::*;
use crate::connection::ConnectionModel;
use crate::connection::ReadOutcome;
use crate::connection::WriteOutcome;
use crate::interest::Interest;
use crate::server::ServerModel;

verus! {

/// One report to a connection.
pub enum Event {
    /// The outcome of a read attempt that asked for `asked` bytes.
    Readable { asked: usize, outcome: ReadOutcome },
    /// The outcome of a write attempt that offered the write span.
    Writable(WriteOutcome),
    /// A hangup.
    Hup,
}

impl ConnectionModel {
    /// The connection after one report.
    pub open spec fn step(self, event: Event) -> ConnectionModel {
        match event {
            Event::Readable { asked, outcome } => self.read(asked as nat, outcome),
            Event::Writable(outcome) => self.write(outcome),
            Event::Hup => self.hung_up(),
        }
    }

    /// The connection after a run of reports, the first one first.
    pub open spec fn run(self, events: Seq<Event>) -> ConnectionModel
        decreases events.len(),
    {
        if events.len() == 0 {
            self
        } else {
            self.step(events.first()).run(events.drop_first())
        }
    }

    /// The bytes that the peer sent in one report.
    pub open spec fn sent_by_peer(self, event: Event) -> Seq<u8> {
        match event {
            Event::Readable { asked, outcome: ReadOutcome::Data(data) } => data@,
            _ => Seq::<u8>::empty(),
        }
    }

    /// The bytes that went back to the peer with one report: those that the
    /// socket took from the front of the buffer.
    pub open spec fn sent_to_peer(self, event: Event) -> Seq<u8> {
        match event {
            Event::Writable(WriteOutcome::Wrote(cnt)) if !self.finished() => self.pending.take(
                cnt as int,
            ),
            _ => Seq::<u8>::empty(),
        }
    }

    /// One report as an orderly socket gives it to a caller that keeps to
    /// the read budget: data arrives only at a live connection and fits
    /// into the room that is left, the socket takes no more than the span it
    /// was offered, and no write fails.
    pub open spec fn admits(self, event: Event) -> bool {
        match event {
            Event::Readable { asked, outcome: ReadOutcome::Data(data) } => {
                &&& !self.finished()
                &&& data@.len() <= self.free()
            },
            Event::Writable(WriteOutcome::Wrote(cnt)) => cnt <= self.write_span().len(),
            Event::Writable(WriteOutcome::Failed) => false,
            _ => true,
        }
    }

    /// Every report of the run is admitted by the connection it reaches.
    pub open spec fn orderly(self, events: Seq<Event>) -> bool
        decreases events.len(),
    {
        events.len() == 0 || (self.admits(events.first()) && self.step(events.first()).orderly(
            events.drop_first(),
        ))
    }

    /// All bytes that the peer sent during a run, in order.
    pub open spec fn received(self, events: Seq<Event>) -> Seq<u8>
        decreases events.len(),
    {
        if events.len() == 0 {
            Seq::<u8>::empty()
        } else {
            self.sent_by_peer(events.first()) + self.step(events.first()).received(
                events.drop_first(),
            )
        }
    }

    /// All bytes that went back to the peer during a run, in order.
    pub open spec fn echoed(self, events: Seq<Event>) -> Seq<u8>
        decreases events.len(),
    {
        if events.len() == 0 {
            Seq::<u8>::empty()
        } else {
            self.sent_to_peer(events.first()) + self.step(events.first()).echoed(
                events.drop_first(),
            )
        }
    }
}

/// Recomputing the interest twice in a row, with nothing changed in
/// between, gives what recomputing it once gives: the same connection and
/// the same answer to the caller.
pub proof fn lemma_rearm_is_idempotent(conn: ConnectionModel)
    ensures
        conn.rearmed().rearmed() == conn.rearmed(),
        conn.rearmed().rearmed().verdict() == conn.rearmed().verdict(),
{
}

/// With its interest recomputed, a live connection is armed for writing
/// exactly while it holds bytes, for reading exactly while the peer is open
/// and the buffer has room, and for hangup. So a full buffer is never armed
/// for reading and an empty one never for writing.
pub proof fn lemma_rearm_at_the_bounds(conn: ConnectionModel)
    requires
        conn.wf(),
        !conn.finished(),
    ensures
        conn.rearmed().armed(),
        conn.rearmed().interest.hup,
        conn.rearmed().interest.writable <==> conn.pending.len() > 0,
        conn.rearmed().interest.readable <==> !conn.peer_half_closed && conn.pending.len()
            < conn.capacity,
        conn.pending.len() == conn.capacity ==> !conn.rearmed().interest.readable,
        conn.pending.len() == 0 ==> !conn.rearmed().interest.writable,
{
}

/// Every report leaves a connection well-formed.
pub proof fn lemma_step_keeps_wf(conn: ConnectionModel, event: Event)
    requires
        conn.wf(),
    ensures
        conn.step(event).wf(),
{
    assert(conn.capacity > 0);
    match event {
        Event::Writable(WriteOutcome::Wrote(cnt)) => {
            assert(conn.released(cnt as nat).head < conn.capacity) by {
                lemma_cursor_in_range(conn, cnt as nat);
            }
        },
        Event::Writable(WriteOutcome::Failed) => {
            assert(conn.released(conn.pending.len()).head < conn.capacity) by {
                lemma_cursor_in_range(conn, conn.pending.len());
            }
        },
        _ => {},
    }
}

/// The read cursor stays inside the storage when bytes are released.
proof fn lemma_cursor_in_range(conn: ConnectionModel, cnt: nat)
    requires
        conn.capacity > 0,
    ensures
        conn.released(cnt).head < conn.capacity,
{
    let moved = conn.head + crate::ring::at_most(cnt, conn.pending.len());
    assert(moved % conn.capacity < conn.capacity) by (nonlinear_arith)
        requires
            conn.capacity > 0,
            moved >= 0,
    ;
}

/// A live connection stays live, and armed for hangup, through every report
/// but one: the hangup that reaches it while it is armed for hangup alone.
/// That one finishes it. A finished connection stays finished.
pub proof fn lemma_interest_stays_armed(conn: ConnectionModel, event: Event)
    requires
        conn.wf(),
    ensures
        conn.finished() ==> conn.step(event) == conn,
        !conn.finished() ==> (conn.step(event).finished() <==> event is Hup && conn.interest
            == Interest::hup_only()),
        !conn.step(event).finished() ==> conn.step(event).interest.hup,
{
}

/// No report leaves a connection with an empty interest in the table: after
/// any report to one of its connections, the table holds that connection
/// exactly if it is still alive, and every connection that the table holds
/// is armed, at the least for hangup.
pub proof fn lemma_table_holds_live_connections(server: ServerModel, token: usize, event: Event)
    requires
        server.wf(),
        server.conns.contains_key(token),
    ensures
        server.settled(token, server.conns[token].step(event)).wf(),
        server.settled(token, server.conns[token].step(event)).conns.contains_key(token)
            <==> !server.conns[token].step(event).finished(),
        forall|t: usize| #[trigger]
            server.settled(token, server.conns[token].step(event)).conns.contains_key(t)
                ==> server.settled(token, server.conns[token].step(event)).conns[t].interest.hup,
{
    let next = server.conns[token].step(event);
    let after = server.settled(token, next);
    assert(server.slot_ok(token));
    lemma_step_keeps_wf(server.conns[token], event);
    lemma_interest_stays_armed(server.conns[token], event);
    if next.finished() {
        assert(after.conns.dom() =~= server.conns.dom().remove(token));
    } else {
        assert(after.conns.dom() =~= server.conns.dom());
    }
    assert forall|t: usize| #[trigger] after.conns.contains_key(t) implies after.slot_ok(t) by {
        if t != token {
            assert(server.conns.contains_key(t));
            assert(server.slot_ok(t));
        }
    }
}

/// When a drain has ended and the connection is still alive, its interest
/// is the one the rule gives: bytes in the buffer mean that writable is
/// armed, and room in the buffer with the peer open means that readable is.
pub proof fn lemma_ended_drain_is_armed(conn: ConnectionModel, event: Event)
    requires
        conn.wf(),
        !conn.step(event).finished(),
        match event {
            Event::Readable { asked, outcome } => !conn.read_continues(asked as nat, outcome),
            Event::Writable(outcome) => !conn.write_continues(outcome),
            Event::Hup => true,
        },
    ensures
        conn.step(event).armed(),
        conn.step(event).pending.len() > 0 ==> conn.step(event).interest.writable,
        conn.step(event).free() > 0 && !conn.step(event).peer_half_closed ==> conn.step(
            event,
        ).interest.readable,
{
}

/// A drain that goes on makes progress: a read that asks for more has
/// filled the buffer further, and a write that asks for more has emptied
/// it further. So no drain goes on for more rounds than the buffer has
/// bytes.
pub proof fn lemma_drains_make_progress(conn: ConnectionModel, event: Event)
    requires
        conn.wf(),
    ensures
        event matches Event::Readable { asked, outcome } && conn.read_continues(
            asked as nat,
            outcome,
        ) ==> conn.step(event).free() < conn.free(),
        event matches Event::Writable(outcome) && conn.write_continues(outcome) ==> conn.step(
            event,
        ).pending.len() < conn.pending.len(),
{
    match event {
        Event::Writable(WriteOutcome::Wrote(cnt)) => {
            if conn.write_continues(WriteOutcome::Wrote(cnt)) {
                assert(conn.pending.len() > 0);
                assert(conn.write_span().len() > 0);
            }
        },
        _ => {},
    }
}

/// A failed write discards every pending byte and marks the peer as
/// half-closed; the connection is then armed for hangup alone, so that the
/// next hangup finishes it.
pub proof fn lemma_failed_write_leads_to_the_end(conn: ConnectionModel)
    requires
        conn.wf(),
        !conn.finished(),
    ensures
        conn.write(WriteOutcome::Failed).pending.len() == 0,
        conn.write(WriteOutcome::Failed).peer_half_closed,
        conn.write(WriteOutcome::Failed).interest == Interest::hup_only(),
        conn.write(WriteOutcome::Failed).hung_up().finished(),
{
}

/// One orderly report loses no byte and reorders none: what was pending,
/// followed by what the peer sent, is what went back to the peer, followed
/// by what is pending now.
pub proof fn lemma_step_keeps_bytes(conn: ConnectionModel, event: Event)
    requires
        conn.wf(),
        conn.admits(event),
    ensures
        conn.pending + conn.sent_by_peer(event) == conn.sent_to_peer(event) + conn.step(
            event,
        ).pending,
{
    match event {
        Event::Readable { asked, outcome: ReadOutcome::Data(data) } => {
            assert(data@.take(data@.len() as int) =~= data@);
            assert(conn.pending + data@ =~= Seq::<u8>::empty() + conn.step(event).pending);
        },
        Event::Writable(WriteOutcome::Wrote(cnt)) => {
            if !conn.finished() {
                assert(conn.pending + Seq::<u8>::empty() =~= conn.pending.take(cnt as int)
                    + conn.pending.skip(cnt as int));
            } else {
                assert(conn.pending + Seq::<u8>::empty() =~= Seq::<u8>::empty() + conn.pending);
            }
        },
        _ => {
            assert(conn.pending + Seq::<u8>::empty() =~= Seq::<u8>::empty() + conn.pending);
        },
    }
}

/// Echo in order: over every orderly run, the bytes that were pending at
/// its start followed by all that the peer sent are exactly the bytes that
/// went back to the peer followed by those still pending at its end. Of a
/// connection that starts and ends with an empty buffer, the peer gets back
/// exactly what it sent, byte for byte.
pub proof fn lemma_echo_in_order(conn: ConnectionModel, events: Seq<Event>)
    requires
        conn.wf(),
        conn.orderly(events),
    ensures
        conn.run(events).wf(),
        conn.pending + conn.received(events) == conn.echoed(events) + conn.run(events).pending,
        conn.pending.len() == 0 && conn.run(events).pending.len() == 0 ==> conn.echoed(events)
            == conn.received(events),
    decreases events.len(),
{
    if events.len() == 0 {
        assert(conn.pending + Seq::<u8>::empty() =~= Seq::<u8>::empty() + conn.pending);
    } else {
        let first = events.first();
        let rest = events.drop_first();
        let next = conn.step(first);
        lemma_step_keeps_wf(conn, first);
        lemma_step_keeps_bytes(conn, first);
        lemma_echo_in_order(next, rest);
        let last = conn.run(events);
        assert(conn.pending + conn.received(events) =~= (conn.pending + conn.sent_by_peer(first))
            + next.received(rest));
        assert((conn.sent_to_peer(first) + next.pending) + next.received(rest)
            =~= conn.sent_to_peer(first) + (next.pending + next.received(rest)));
        assert(conn.sent_to_peer(first) + (next.echoed(rest) + last.pending) =~= conn.echoed(
            events,
        ) + last.pending);
    }
    if conn.pending.len() == 0 && conn.run(events).pending.len() == 0 {
        assert(conn.pending + conn.received(events) =~= conn.received(events));
        assert(conn.echoed(events) + conn.run(events).pending =~= conn.echoed(events));
    }
}

} // verus!
