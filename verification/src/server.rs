//! The server: the table of live connections and the dispatch of readiness
//! events to them.
//!
//! The server performs no I/O either. The caller owns the listening socket
//! and the accepted sockets, keyed by the tokens that the server hands out.

use vstd::prelude::*;
use crate::connection::Action;
use crate::connection::Connection;
use crate::connection::ConnectionModel;
use crate::connection::ReadOutcome;
use crate::connection::WriteOutcome;
use crate::interest::Interest;
use crate::ring::MAX_BUFFER_CAPACITY;
use crate::ring::is_power_of_two;
use crate::table::MAX_CONNECTIONS;
use crate::table::Table;
use crate::table::table_capacity;
use crate::table::table_contains;
use crate::table::table_entries;
use crate::table::table_first;
use crate::table::table_get;
use crate::table::table_get_mut;
use crate::table::table_insert;
use crate::table::table_new;
use crate::table::table_remove;

verus! {

/// The token of the listening socket.
pub const SERVER: usize = 0;

/// The token of the first connection slot.
pub const CONN_TOKEN_START: usize = 1;

/// The capacity of a connection's buffer in the stock configuration.
pub const CONN_BUFF_SIZE: usize = 16384;

/// The number of connection slots in the stock configuration.
pub const CONNS_MAX: usize = 256;

/// One thing to do for a readiness event.
#[derive(Clone, Copy, Debug, PartialEq, Eq, Structural)]
pub enum Transition {
    /// Accept the connections that wait on the listening socket.
    Accept,
    /// Report the hangup to the connection.
    Hup,
    /// Drain the socket into the connection.
    Readable,
    /// Drain the connection into the socket.
    Writable,
}

/// What a server is, to its contracts.
pub struct ServerModel {
    /// The live connections by their tokens.
    pub conns: Map<usize, ConnectionModel>,
    /// The number of connection slots.
    pub capacity: nat,
    /// The buffer capacity that each new connection is made with.
    pub buffer_capacity: nat,
}

impl ServerModel {
    /// The connection under `token` is one that the table may hold: it sits
    /// in a slot of the table, knows its token, and is alive, which includes
    /// that it is armed for hangup.
    pub open spec fn slot_ok(self, token: usize) -> bool {
        &&& CONN_TOKEN_START <= token < CONN_TOKEN_START + self.capacity
        &&& self.conns[token].wf()
        &&& self.conns[token].token == Some(token)
        &&& !self.conns[token].finished()
    }

    /// Every slot but the one under `token` holds what the table may hold.
    pub open spec fn wf_but(self, token: usize) -> bool {
        &&& self.capacity <= MAX_CONNECTIONS
        &&& 0 < self.buffer_capacity <= MAX_BUFFER_CAPACITY
        &&& self.conns.dom().finite()
        &&& self.conns.dom().len() <= self.capacity
        &&& forall|t: usize| #[trigger] self.conns.contains_key(t) && t != token ==> self.slot_ok(t)
    }

    /// The table holds no more connections than it has slots, and every
    /// connection in it is alive.
    pub open spec fn wf(self) -> bool {
        &&& self.capacity <= MAX_CONNECTIONS
        &&& 0 < self.buffer_capacity <= MAX_BUFFER_CAPACITY
        &&& self.conns.dom().finite()
        &&& self.conns.dom().len() <= self.capacity
        &&& forall|t: usize| #[trigger] self.conns.contains_key(t) ==> self.slot_ok(t)
    }

    /// The table after the connection under `token` has become `conn`: it
    /// keeps its slot while it is alive and leaves the table once finished.
    pub open spec fn settled(self, token: usize, conn: ConnectionModel) -> ServerModel {
        ServerModel {
            conns: if conn.finished() {
                self.conns.remove(token)
            } else {
                self.conns.insert(token, conn)
            },
            ..self
        }
    }

    /// What is to be done for an event: on the listener's token, accept; on
    /// the token of a live connection, what was observed, hangup first, then
    /// readable, then writable; on any other token, nothing.
    pub open spec fn plan(self, token: usize, events: Interest) -> Seq<Transition> {
        if token == SERVER {
            seq![Transition::Accept]
        } else if self.conns.contains_key(token) {
            (if events.hup {
                seq![Transition::Hup]
            } else {
                Seq::<Transition>::empty()
            }) + (if events.readable {
                seq![Transition::Readable]
            } else {
                Seq::<Transition>::empty()
            }) + (if events.writable {
                seq![Transition::Writable]
            } else {
                Seq::<Transition>::empty()
            })
        } else {
            Seq::<Transition>::empty()
        }
    }
}

/// The table of live connections of one listening socket.
pub struct Server {
    conns: Table,
    capacity: usize,
    buffer_capacity: usize,
}

impl View for Server {
    type V = ServerModel;

    closed spec fn view(&self) -> ServerModel {
        ServerModel {
            conns: Map::new(
                |t: usize| table_entries(self.conns).contains_key(t),
                |t: usize| table_entries(self.conns)[t]@,
            ),
            capacity: self.capacity as nat,
            buffer_capacity: self.buffer_capacity as nat,
        }
    }
}

impl Server {
    /// The fields agree with the table they describe.
    pub closed spec fn consistent(&self) -> bool {
        &&& table_first(self.conns) == CONN_TOKEN_START
        &&& table_capacity(self.conns) == self.capacity
        &&& table_entries(self.conns).dom().finite()
    }

    /// The invariant of a server.
    pub open spec fn wf(&self) -> bool {
        self.consistent() && self@.wf()
    }

    /// A server without connections, with `conns_max` slots whose tokens
    /// start at `CONN_TOKEN_START`.
    pub fn new(conns_max: usize, buffer_capacity: usize) -> (server: Server)
        requires
            conns_max <= MAX_CONNECTIONS,
            0 < buffer_capacity <= MAX_BUFFER_CAPACITY,
        ensures
            server.wf(),
            server@.conns == Map::<usize, ConnectionModel>::empty(),
            server@.capacity == conns_max,
            server@.buffer_capacity == buffer_capacity,
    {
        let server = Server {
            conns: table_new(CONN_TOKEN_START, conns_max),
            capacity: conns_max,
            buffer_capacity,
        };
        assert(server@.conns =~= Map::<usize, ConnectionModel>::empty());
        server
    }

    /// Whether `token` is the token of a live connection.
    pub fn contains(&self, token: usize) -> (r: bool)
        requires
            self.wf(),
        ensures
            r == self@.conns.contains_key(token),
    {
        if token < CONN_TOKEN_START || token - CONN_TOKEN_START >= self.capacity {
            assert(!self@.conns.contains_key(token)) by {
                if self@.conns.contains_key(token) {
                    assert(self@.slot_ok(token));
                }
            }
            false
        } else {
            table_contains(&self.conns, token)
        }
    }

    /// The live connection under `token`.
    pub fn conn(&self, token: usize) -> (conn: &Connection)
        requires
            self.wf(),
            self@.conns.contains_key(token),
        ensures
            conn@ == self@.conns[token],
            conn.wf(),
    {
        assert(self@.slot_ok(token));
        table_get(&self.conns, token)
    }

    /// Admits one accepted socket: while a slot is free, a new connection
    /// takes it, and the caller is told its token and the interest to
    /// register the socket with, edge-triggered and one-shot. In a full
    /// table nothing changes, and the caller is to drop the socket.
    pub fn accept(&mut self) -> (r: Option<(usize, Interest)>)
        requires
            old(self).wf(),
        ensures
            final(self).wf(),
            final(self)@.capacity == old(self)@.capacity,
            final(self)@.buffer_capacity == old(self)@.buffer_capacity,
            r is Some <==> old(self)@.conns.dom().len() < old(self)@.capacity,
            r is None ==> final(self)@.conns == old(self)@.conns,
            r matches Some((token, interest)) ==> {
                &&& !old(self)@.conns.contains_key(token)
                &&& final(self)@.conns.contains_key(token)
                &&& final(self)@.conns.remove(token) == old(self)@.conns
                &&& interest == (Interest { readable: true, writable: false, hup: true })
                &&& final(self)@.conns[token].interest == interest
                &&& final(self)@.conns[token].token == Some(token)
                &&& final(self)@.conns[token].pending == Seq::<u8>::empty()
                &&& final(self)@.conns[token].head == 0
                &&& !final(self)@.conns[token].peer_half_closed
                &&& is_power_of_two(final(self)@.conns[token].capacity)
                &&& old(self)@.buffer_capacity <= final(self)@.conns[token].capacity < 2 * old(
                    self,
                )@.buffer_capacity
            },
    {
        let conn = Connection::new(self.buffer_capacity);
        let ghost before = table_entries(self.conns);
        assert(self@.conns.dom() =~= before.dom());
        match table_insert(&mut self.conns, conn) {
            Err(_) => {
                assert(self@.conns =~= old(self)@.conns);
                None
            },
            Ok(token) => {
                let slot = table_get_mut(&mut self.conns, token);
                slot.set_token(token);
                let interest = slot.interest();
                proof {
                    let after = table_entries(self.conns);
                    assert(after.dom() =~= before.dom().insert(token));
                    assert(self@.conns.dom() =~= after.dom());
                    assert(self@.conns.remove(token) =~= old(self)@.conns);
                    assert forall|t: usize| #[trigger]
                        self@.conns.contains_key(t) implies self@.slot_ok(t) by {
                        if t != token {
                            assert(old(self)@.conns.contains_key(t));
                            assert(old(self)@.slot_ok(t));
                        }
                    }
                }
                Some((token, interest))
            },
        }
    }

    /// Frees the slot of a connection that has finished; a live one stays.
    fn conn_handle_finished(&mut self, token: usize, finished: bool)
        requires
            old(self).consistent(),
            old(self)@.wf_but(token),
            old(self)@.conns.contains_key(token),
            finished == old(self)@.conns[token].finished(),
            !finished ==> old(self)@.slot_ok(token),
        ensures
            final(self).wf(),
            final(self)@ == old(self)@.settled(token, old(self)@.conns[token]),
    {
        if finished {
            let _ = table_remove(&mut self.conns, token);
            assert(self@.conns =~= old(self)@.conns.remove(token));
        } else {
            assert(self@.conns =~= old(self)@.conns.insert(token, old(self)@.conns[token]));
        }
        assert forall|t: usize| #[trigger] self@.conns.contains_key(t) implies self@.slot_ok(t) by {
            assert(old(self)@.conns.contains_key(t));
        }
    }

    /// Reports a hangup to the connection under `token`, and frees its slot
    /// if that finished it.
    pub fn conn_hup(&mut self, token: usize) -> (action: Action)
        requires
            old(self).wf(),
            old(self)@.conns.contains_key(token),
        ensures
            final(self).wf(),
            final(self)@ == old(self)@.settled(token, old(self)@.conns[token].hung_up()),
            action == old(self)@.conns[token].hung_up().verdict(),
            action is Deregister <==> !final(self)@.conns.contains_key(token),
    {
        assert(self@.slot_ok(token));
        let conn = table_get_mut(&mut self.conns, token);
        let action = conn.hup();
        let finished = conn.is_finished();
        proof {
            self.lemma_one_changed(*old(self), token);
        }
        let ghost changed = self@;
        self.conn_handle_finished(token, finished);
        proof {
            let conn = changed.conns[token];
            assert(changed.conns.remove(token) =~= old(self)@.conns.remove(token));
            assert(changed.conns.insert(token, conn) =~= old(self)@.conns.insert(token, conn));
        }
        action
    }

    /// Reports the outcome of a read attempt that asked for `asked` bytes to
    /// the connection under `token`.
    pub fn conn_readable(&mut self, token: usize, asked: usize, outcome: ReadOutcome) -> (action:
        Action)
        requires
            old(self).wf(),
            old(self)@.conns.contains_key(token),
        ensures
            final(self).wf(),
            final(self)@ == old(self)@.settled(
                token,
                old(self)@.conns[token].read(asked as nat, outcome),
            ),
            action == if old(self)@.conns[token].read_continues(asked as nat, outcome) {
                Action::Continue
            } else {
                old(self)@.conns[token].read(asked as nat, outcome).verdict()
            },
            final(self)@.conns.contains_key(token),
    {
        assert(self@.slot_ok(token));
        let conn = table_get_mut(&mut self.conns, token);
        let action = conn.readable(asked, outcome);
        let finished = conn.is_finished();
        proof {
            self.lemma_one_changed(*old(self), token);
        }
        let ghost changed = self@;
        self.conn_handle_finished(token, finished);
        proof {
            let conn = changed.conns[token];
            assert(changed.conns.remove(token) =~= old(self)@.conns.remove(token));
            assert(changed.conns.insert(token, conn) =~= old(self)@.conns.insert(token, conn));
        }
        action
    }

    /// Reports the outcome of a write attempt that offered the write span of
    /// the connection under `token`.
    pub fn conn_writable(&mut self, token: usize, outcome: WriteOutcome) -> (action: Action)
        requires
            old(self).wf(),
            old(self)@.conns.contains_key(token),
        ensures
            final(self).wf(),
            final(self)@ == old(self)@.settled(token, old(self)@.conns[token].write(outcome)),
            action == if old(self)@.conns[token].write_continues(outcome) {
                Action::Continue
            } else {
                old(self)@.conns[token].write(outcome).verdict()
            },
            final(self)@.conns.contains_key(token),
    {
        assert(self@.slot_ok(token));
        let conn = table_get_mut(&mut self.conns, token);
        let action = conn.writable(outcome);
        let finished = conn.is_finished();
        proof {
            self.lemma_one_changed(*old(self), token);
        }
        let ghost changed = self@;
        self.conn_handle_finished(token, finished);
        proof {
            let conn = changed.conns[token];
            assert(changed.conns.remove(token) =~= old(self)@.conns.remove(token));
            assert(changed.conns.insert(token, conn) =~= old(self)@.conns.insert(token, conn));
        }
        action
    }

    /// Says what is to be done for a readiness event, from the events as
    /// they were observed: nothing that a transition changes is looked at
    /// again.
    pub fn ready(&self, token: usize, events: Interest) -> (plan: Vec<Transition>)
        requires
            self.wf(),
        ensures
            plan@ == self@.plan(token, events),
    {
        let mut plan: Vec<Transition> = Vec::new();
        if token == SERVER {
            plan.push(Transition::Accept);
        } else if self.contains(token) {
            if events.hup {
                plan.push(Transition::Hup);
            }
            if events.readable {
                plan.push(Transition::Readable);
            }
            if events.writable {
                plan.push(Transition::Writable);
            }
        }
        assert(plan@ =~= self@.plan(token, events));
        plan
    }

    /// After one connection of a well-formed table was changed in place,
    /// the table is the old one with that one connection replaced, and all
    /// other slots are as they were.
    proof fn lemma_one_changed(&self, before: Server, token: usize)
        requires
            before.wf(),
            before@.conns.contains_key(token),
            table_first(self.conns) == table_first(before.conns),
            table_capacity(self.conns) == table_capacity(before.conns),
            self.capacity == before.capacity,
            self.buffer_capacity == before.buffer_capacity,
            table_entries(self.conns) == table_entries(before.conns).insert(
                token,
                table_entries(self.conns)[token],
            ),
            table_entries(self.conns)[token]@.token == before@.conns[token].token,
        ensures
            self.consistent(),
            self@.wf_but(token),
            self@.conns == before@.conns.insert(token, table_entries(self.conns)[token]@),
            self@.conns.contains_key(token),
    {
        assert(table_entries(self.conns).dom() =~= table_entries(before.conns).dom());
        assert(self@.conns.dom() =~= before@.conns.dom());
        assert(self@.conns =~= before@.conns.insert(token, table_entries(self.conns)[token]@));
        assert forall|t: usize| #[trigger] self@.conns.contains_key(t) && t != token implies self@.slot_ok(
            t,
        ) by {
            assert(before@.conns.contains_key(t));
            assert(before@.slot_ok(t));
        }
    }
}

} // verus!
