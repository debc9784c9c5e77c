//! Readiness sets and the rule that decides what a connection is armed for.

use vstd::prelude::*;

verus! {

/// A set of readiness conditions: what a socket is armed for, or what the
/// reactor observed on it.
#[derive(Clone, Copy, Debug, PartialEq, Eq, Structural)]
pub struct Interest {
    pub readable: bool,
    pub writable: bool,
    pub hup: bool,
}

impl Interest {
    /// The empty set, as a value of specifications.
    pub open spec fn empty() -> Interest {
        Interest { readable: false, writable: false, hup: false }
    }

    /// The set that holds hangup alone, as a value of specifications.
    pub open spec fn hup_only() -> Interest {
        Interest { readable: false, writable: false, hup: true }
    }

    /// The empty set.
    #[verifier::when_used_as_spec(empty)]
    pub fn none() -> (r: Interest)
        ensures
            r == Interest::empty(),
    {
        Interest { readable: false, writable: false, hup: false }
    }

    /// The set that holds hangup alone.
    #[verifier::when_used_as_spec(hup_only)]
    pub fn hup() -> (r: Interest)
        ensures
            r == Interest::hup_only(),
    {
        Interest { readable: false, writable: false, hup: true }
    }

    /// Whether no condition is in the set.
    pub open spec fn is_empty(self) -> bool {
        !self.readable && !self.writable && !self.hup
    }

    /// Whether no condition is in the set.
    #[verifier::when_used_as_spec(is_empty)]
    pub fn is_none(self) -> (r: bool)
        ensures
            r == self.is_empty(),
            r == (self == Interest::empty()),
    {
        !self.readable && !self.writable && !self.hup
    }
}

/// What a live connection is armed for, given how many bytes its buffer
/// holds, how many more it can take, and whether the peer has half-closed.
pub open spec fn interest_rule(buffered: nat, free: nat, peer_half_closed: bool) -> Interest {
    Interest { readable: !peer_half_closed && free > 0, writable: buffered > 0, hup: true }
}

/// The interest of a live connection: writable exactly while bytes wait to
/// be written back, readable exactly while the peer may still send and the
/// buffer has room, hangup always.
pub fn recompute_interest(buffered: usize, free: usize, peer_half_closed: bool) -> (r: Interest)
    ensures
        r == interest_rule(buffered as nat, free as nat, peer_half_closed),
        r.writable <==> buffered > 0,
        r.readable <==> !peer_half_closed && free > 0,
        r.hup,
{
    Interest { readable: !peer_half_closed && free > 0, writable: buffered > 0, hup: true }
}

} // verus!
