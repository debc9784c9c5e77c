//! One echo connection: a byte ring between what was read from the peer and
//! what is still to be written back, the half-close flag, and the interest
//! the socket is armed with.
//!
//! The connection performs no I/O. The caller makes each non-blocking read or
//! write and reports its outcome; the connection updates itself and answers
//! with what the caller has to do next.

use vstd::prelude::*;
use bytes::RingBuf;
use crate::interest::Interest;
use crate::interest::interest_rule;
use crate::interest::recompute_interest;
use crate::ring::MAX_BUFFER_CAPACITY;
use crate::ring::at_most;
use crate::ring::contiguous_len;
use crate::ring::cursor_after;
use crate::ring::is_power_of_two;
use crate::ring::ring_advance;
use crate::ring::ring_bytes;
use crate::ring::ring_capacity;
use crate::ring::ring_contents;
use crate::ring::ring_head;
use crate::ring::ring_new;
use crate::ring::ring_readable;
use crate::ring::ring_writable;
use crate::ring::ring_write_slice;

verus! {

/// How one non-blocking read attempt ended.
#[derive(Debug, PartialEq, Eq)]
pub enum ReadOutcome {
    /// Nothing to read at the moment.
    WouldBlock,
    /// The bytes that were read, in order. None at all is the end of the
    /// peer's stream.
    Data(Vec<u8>),
    /// The read failed.
    Failed,
}

/// How one non-blocking write attempt ended.
#[derive(Clone, Copy, Debug, PartialEq, Eq, Structural)]
pub enum WriteOutcome {
    /// The socket takes nothing at the moment.
    WouldBlock,
    /// The socket took this many bytes from the front of what was offered.
    Wrote(usize),
    /// The write failed.
    Failed,
}

/// What the caller has to do after it has reported to a connection.
#[derive(Clone, Copy, Debug, PartialEq, Eq, Structural)]
pub enum Action {
    /// Make the same kind of I/O attempt again and report its outcome.
    Continue,
    /// Re-arm the socket with this interest, edge-triggered and one-shot.
    Reregister(Interest),
    /// The connection is finished: deregister its socket and release it.
    Deregister,
}

/// What a connection is, to its contracts.
pub struct ConnectionModel {
    /// The bytes read from the peer and not yet written back, oldest first.
    pub pending: Seq<u8>,
    /// How many bytes the buffer can hold.
    pub capacity: nat,
    /// Where in the buffer's storage the oldest pending byte lies.
    pub head: nat,
    /// The slot in the connection table, once the connection has one.
    pub token: Option<usize>,
    /// Whether the peer has signalled that it sends no more.
    pub peer_half_closed: bool,
    /// What the socket is armed for. Empty once the connection is finished.
    pub interest: Interest,
}

impl ConnectionModel {
    /// The buffer is consistent and fits the machine, and a live connection
    /// is always armed for hangup.
    pub open spec fn wf(self) -> bool {
        &&& 0 < self.capacity <= usize::MAX
        &&& self.pending.len() <= self.capacity
        &&& self.head < self.capacity
        &&& self.interest.hup || self.interest.is_empty()
    }

    /// How many more bytes the buffer can take.
    pub open spec fn free(self) -> nat {
        (self.capacity - self.pending.len()) as nat
    }

    /// The connection has reached its terminal state.
    pub open spec fn finished(self) -> bool {
        self.interest.is_empty()
    }

    /// The interest is the one the rule gives for the buffer and the flag.
    pub open spec fn armed(self) -> bool {
        self.interest == interest_rule(self.pending.len(), self.free(), self.peer_half_closed)
    }

    /// The connection with its interest recomputed. A finished connection
    /// stays as it is.
    pub open spec fn rearmed(self) -> ConnectionModel {
        if self.finished() {
            self
        } else {
            ConnectionModel {
                interest: interest_rule(self.pending.len(), self.free(), self.peer_half_closed),
                ..self
            }
        }
    }

    /// What the caller is told once a drain has ended or a hangup was
    /// handled.
    pub open spec fn verdict(self) -> Action {
        if self.finished() {
            Action::Deregister
        } else {
            Action::Reregister(self.interest)
        }
    }

    /// The pending bytes that lie in one piece in the buffer's storage: what
    /// a single write attempt offers to the socket.
    pub open spec fn write_span(self) -> Seq<u8> {
        self.pending.take(contiguous_len(self.pending.len(), self.capacity, self.head) as int)
    }

    /// The connection after `data` was appended, as far as it fits.
    pub open spec fn stored(self, data: Seq<u8>) -> ConnectionModel {
        ConnectionModel {
            pending: self.pending + data.take(at_most(data.len(), self.free()) as int),
            ..self
        }
    }

    /// The connection after its `cnt` oldest bytes were dropped, or all of
    /// them where it holds fewer.
    pub open spec fn released(self, cnt: nat) -> ConnectionModel {
        ConnectionModel {
            pending: self.pending.skip(at_most(cnt, self.pending.len()) as int),
            head: cursor_after(self.head, at_most(cnt, self.pending.len()), self.capacity),
            ..self
        }
    }

    /// Whether the drain of the socket goes on after this read: the read
    /// brought something, it brought all that was asked for, and the buffer
    /// still has room.
    pub open spec fn read_continues(self, asked: nat, outcome: ReadOutcome) -> bool {
        &&& !self.finished()
        &&& outcome matches ReadOutcome::Data(data)
        &&& data@.len() == asked
        &&& asked > 0
        &&& self.stored(data@).free() > 0
    }

    /// The connection after a read attempt was reported.
    pub open spec fn read(self, asked: nat, outcome: ReadOutcome) -> ConnectionModel {
        if self.finished() {
            self
        } else {
            match outcome {
                ReadOutcome::Data(data) => if self.read_continues(asked, outcome) {
                    self.stored(data@)
                } else {
                    self.stored(data@).rearmed()
                },
                _ => self.rearmed(),
            }
        }
    }

    /// Whether the drain of the buffer goes on after this write: the socket
    /// took the whole span that was offered, and bytes are left.
    pub open spec fn write_continues(self, outcome: WriteOutcome) -> bool {
        &&& !self.finished()
        &&& outcome matches WriteOutcome::Wrote(cnt)
        &&& cnt == self.write_span().len()
        &&& self.released(cnt as nat).pending.len() > 0
    }

    /// The connection after a write attempt was reported. A failed write
    /// discards all pending bytes and counts as the peer's half-close.
    pub open spec fn write(self, outcome: WriteOutcome) -> ConnectionModel {
        if self.finished() {
            self
        } else {
            match outcome {
                WriteOutcome::WouldBlock => self.rearmed(),
                WriteOutcome::Wrote(cnt) => if self.write_continues(outcome) {
                    self.released(cnt as nat)
                } else {
                    self.released(cnt as nat).rearmed()
                },
                WriteOutcome::Failed => ConnectionModel {
                    peer_half_closed: true,
                    ..self.released(self.pending.len())
                }.rearmed(),
            }
        }
    }

    /// The connection after a hangup was observed. Armed for hangup alone,
    /// it has nothing left to flush and is finished. Otherwise the peer has
    /// half-closed while bytes were still in flight.
    pub open spec fn hung_up(self) -> ConnectionModel {
        if self.finished() {
            self
        } else if self.interest == Interest::hup_only() {
            ConnectionModel { interest: Interest::empty(), ..self }
        } else {
            ConnectionModel { peer_half_closed: true, ..self }.rearmed()
        }
    }
}

/// One accepted connection.
pub struct Connection {
    buf: RingBuf,
    token: Option<usize>,
    peer_hup: bool,
    interest: Interest,
}

impl View for Connection {
    type V = ConnectionModel;

    closed spec fn view(&self) -> ConnectionModel {
        ConnectionModel {
            pending: ring_contents(self.buf),
            capacity: ring_capacity(self.buf),
            head: ring_head(self.buf),
            token: self.token,
            peer_half_closed: self.peer_hup,
            interest: self.interest,
        }
    }
}

impl Connection {
    /// The invariant of a connection.
    pub open spec fn wf(&self) -> bool {
        self@.wf()
    }

    /// A connection as it is on accept: an empty buffer of the requested
    /// capacity rounded up to a power of two, no slot yet, the peer open,
    /// armed for readable and hangup.
    pub fn new(capacity: usize) -> (conn: Connection)
        requires
            0 < capacity <= MAX_BUFFER_CAPACITY,
        ensures
            conn.wf(),
            conn@.pending == Seq::<u8>::empty(),
            conn@.head == 0,
            is_power_of_two(conn@.capacity),
            capacity <= conn@.capacity < 2 * capacity,
            conn@.token == None::<usize>,
            !conn@.peer_half_closed,
            conn@.interest == (Interest { readable: true, writable: false, hup: true }),
            conn@.armed(),
    {
        Connection {
            buf: ring_new(capacity),
            token: None,
            peer_hup: false,
            interest: Interest { readable: true, writable: false, hup: true },
        }
    }

    /// Whether the connection has reached its terminal state.
    pub fn is_finished(&self) -> (r: bool)
        ensures
            r == self@.finished(),
    {
        self.interest.is_none()
    }

    /// What the socket is armed for.
    pub fn interest(&self) -> (r: Interest)
        ensures
            r == self@.interest,
    {
        self.interest
    }

    /// Whether the peer has half-closed.
    pub fn peer_half_closed(&self) -> (r: bool)
        ensures
            r == self@.peer_half_closed,
    {
        self.peer_hup
    }

    /// The slot of the connection in the table, once it has one.
    pub fn token(&self) -> (r: Option<usize>)
        ensures
            r == self@.token,
    {
        self.token
    }

    /// Records the slot that the table gave to the connection.
    pub(crate) fn set_token(&mut self, token: usize)
        ensures
            final(self)@ == (ConnectionModel { token: Some(token), ..old(self)@ }),
    {
        self.token = Some(token);
    }

    /// How many bytes wait to be written back.
    pub fn buffered(&self) -> (n: usize)
        ensures
            n == self@.pending.len(),
    {
        ring_readable(&self.buf)
    }

    /// How many bytes a read may bring at most: the room left in the buffer.
    pub fn read_budget(&self) -> (n: usize)
        ensures
            n == self@.capacity - self@.pending.len(),
    {
        ring_writable(&self.buf)
    }

    /// The bytes to offer to the socket in the next write attempt: the
    /// oldest pending bytes, as far as they lie in one piece.
    pub fn write_span(&self) -> (span: &[u8])
        requires
            self.wf(),
        ensures
            span@ == self@.write_span(),
            self@.pending.len() > 0 ==> span@.len() > 0,
    {
        ring_bytes(&self.buf)
    }

    /// Recomputes the interest from the buffer and the half-close flag, and
    /// says how to arm the socket. A finished connection is left as it is.
    pub fn reregister(&mut self) -> (action: Action)
        requires
            old(self).wf(),
        ensures
            final(self).wf(),
            final(self)@ == old(self)@.rearmed(),
            action == final(self)@.verdict(),
    {
        if self.interest.is_none() {
            return Action::Deregister;
        }
        let buffered = ring_readable(&self.buf);
        let free = ring_writable(&self.buf);
        self.interest = recompute_interest(buffered, free, self.peer_hup);
        Action::Reregister(self.interest)
    }

    /// Takes the outcome of a read attempt that asked for `asked` bytes.
    ///
    /// Bytes that were read are appended to the buffer. The drain goes on
    /// while reads bring all that was asked for and the buffer has room;
    /// when it ends, whether by a short read, a full buffer, a socket that
    /// would block or a failed read, the interest is recomputed.
    pub fn readable(&mut self, asked: usize, outcome: ReadOutcome) -> (action: Action)
        requires
            old(self).wf(),
        ensures
            final(self).wf(),
            final(self)@ == old(self)@.read(asked as nat, outcome),
            action == if old(self)@.read_continues(asked as nat, outcome) {
                Action::Continue
            } else {
                final(self)@.verdict()
            },
    {
        if self.interest.is_none() {
            return Action::Deregister;
        }
        match outcome {
            ReadOutcome::Data(data) => {
                let _ = ring_write_slice(&mut self.buf, data.as_slice());
                if data.len() == asked && asked > 0 && ring_writable(&self.buf) > 0 {
                    return Action::Continue;
                }
            },
            _ => {},
        }
        self.reregister()
    }

    /// Takes the outcome of a write attempt that offered `write_span()`.
    ///
    /// Bytes that the socket took leave the buffer. The drain goes on while
    /// the socket takes whole spans and bytes are left. A failed write is an
    /// immediate disconnect: all pending bytes are discarded and the peer
    /// counts as half-closed. When the drain ends the interest is
    /// recomputed.
    pub fn writable(&mut self, outcome: WriteOutcome) -> (action: Action)
        requires
            old(self).wf(),
        ensures
            final(self).wf(),
            final(self)@ == old(self)@.write(outcome),
            action == if old(self)@.write_continues(outcome) {
                Action::Continue
            } else {
                final(self)@.verdict()
            },
    {
        if self.interest.is_none() {
            return Action::Deregister;
        }
        match outcome {
            WriteOutcome::WouldBlock => {},
            WriteOutcome::Wrote(cnt) => {
                let offered = ring_bytes(&self.buf).len();
                ring_advance(&mut self.buf, cnt);
                if cnt == offered && ring_readable(&self.buf) > 0 {
                    return Action::Continue;
                }
            },
            WriteOutcome::Failed => {
                let len = ring_readable(&self.buf);
                ring_advance(&mut self.buf, len);
                self.peer_hup = true;
            },
        }
        self.reregister()
    }

    /// Takes a hangup.
    ///
    /// A connection armed for hangup alone has nothing left to flush: it is
    /// finished. Otherwise the peer has half-closed while bytes were still
    /// in flight: the flag is set and the interest recomputed, so that
    /// readable is dropped and writable stays until the buffer is drained.
    pub fn hup(&mut self) -> (action: Action)
        requires
            old(self).wf(),
        ensures
            final(self).wf(),
            final(self)@ == old(self)@.hung_up(),
            action == final(self)@.verdict(),
    {
        if self.interest.is_none() {
            Action::Deregister
        } else if self.interest == Interest::hup() {
            self.interest = Interest::none();
            Action::Deregister
        } else {
            self.peer_hup = true;
            self.reregister()
        }
    }
}

} // verus!
