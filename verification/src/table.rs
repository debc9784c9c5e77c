//! The slab of the `slab` crate, as the table of connections uses it.
//!
//! Nothing in this file is proved: each contract restates what the source of
//! `slab::Slab` does, over three names for the state of a table.

use vstd::prelude::*;
use slab::Slab;
use crate::connection::Connection;

verus! {

/// The largest number of slots a table is asked for.
pub const MAX_CONNECTIONS: usize = 0x1_0000;

/// A slab of connections that are indexed by their tokens.
#[verifier::external_body]
pub struct Table {
    slab: Slab<Connection, usize>,
}

/// The filled slots of a table: each token in use, with its connection.
pub uninterp spec fn table_entries(table: Table) -> Map<usize, Connection>;

/// The token of a table's first slot.
pub uninterp spec fn table_first(table: Table) -> nat;

/// The number of slots a table was made with.
pub uninterp spec fn table_capacity(table: Table) -> nat;

/// The table that holds no connection.
pub open spec fn no_entries() -> Map<usize, Connection> {
    Map::empty()
}

/// Calls `Slab::new_starting_at`: a slab of `capacity` slots, all free,
/// whose tokens start at `first`.
#[verifier::external_body]
pub(crate) fn table_new(first: usize, capacity: usize) -> (made: Table)
    requires
        capacity <= MAX_CONNECTIONS,
    ensures
        table_entries(made) == no_entries(),
        table_first(made) == first,
        table_capacity(made) == capacity,
{
    Table { slab: Slab::new_starting_at(first, capacity) }
}

/// Calls `Slab::insert`: while a slot is free, puts the connection into one
/// and returns its token; in a full slab, hands the connection back.
#[verifier::external_body]
pub(crate) fn table_insert(table: &mut Table, conn: Connection) -> (r: Result<
    usize,
    Connection,
>)
    requires
        table_entries(*old(table)).dom().finite(),
        table_first(*old(table)) + table_capacity(*old(table)) <= usize::MAX,
    ensures
        table_first(*final(table)) == table_first(*old(table)),
        table_capacity(*final(table)) == table_capacity(*old(table)),
        r is Ok <==> table_entries(*old(table)).dom().len() < table_capacity(*old(table)),
        r matches Ok(token) ==> {
            &&& !table_entries(*old(table)).contains_key(token)
            &&& table_first(*old(table)) <= token < table_first(*old(table)) + table_capacity(
                *old(table),
            )
            &&& table_entries(*final(table)) == table_entries(*old(table)).insert(token, conn)
        },
        r matches Err(back) ==> {
            &&& back == conn
            &&& table_entries(*final(table)) == table_entries(*old(table))
        },
{
    table.slab.insert(conn)
}

/// Calls `Slab::contains` for a token in the slab's range: whether the slot
/// is filled.
#[verifier::external_body]
pub(crate) fn table_contains(table: &Table, token: usize) -> (r: bool)
    requires
        table_first(*table) <= token < table_first(*table) + table_capacity(*table),
    ensures
        r == table_entries(*table).contains_key(token),
{
    table.slab.contains(token)
}

/// Indexes the slab by the token of a filled slot: the connection in it.
#[verifier::external_body]
pub(crate) fn table_get(table: &Table, token: usize) -> (conn: &Connection)
    requires
        table_entries(*table).contains_key(token),
    ensures
        *conn == table_entries(*table)[token],
{
    &table.slab[token]
}

/// Indexes the slab mutably by the token of a filled slot: the connection
/// in it, which the slab holds as the borrower leaves it.
#[verifier::external_body]
pub(crate) fn table_get_mut(table: &mut Table, token: usize) -> (conn:
    &mut Connection)
    requires
        table_entries(*old(table)).contains_key(token),
    ensures
        *conn == table_entries(*old(table))[token],
        table_entries(*final(table)) == table_entries(*old(table)).insert(token, *final(conn)),
        table_first(*final(table)) == table_first(*old(table)),
        table_capacity(*final(table)) == table_capacity(*old(table)),
{
    &mut table.slab[token]
}

/// Calls `Slab::remove` for the token of a filled slot: frees the slot and
/// returns the connection that was in it.
#[verifier::external_body]
pub(crate) fn table_remove(table: &mut Table, token: usize) -> (r: Option<
    Connection,
>)
    requires
        table_entries(*old(table)).contains_key(token),
    ensures
        r == Some(table_entries(*old(table))[token]),
        table_entries(*final(table)) == table_entries(*old(table)).remove(token),
        table_first(*final(table)) == table_first(*old(table)),
        table_capacity(*final(table)) == table_capacity(*old(table)),
{
    table.slab.remove(token)
}

} // verus!
