//! Opaque identifiers issued by the swarm: connection and listener ids.

use vstd::prelude::*;

verus! {

/// Identifier of a connection, issued at the moment a dial or a
/// listening-accept is initiated, before the connection is established.
/// Unique within one swarm for its whole lifetime.
#[derive(Clone, Copy, Debug, PartialEq, Eq, Structural)]
pub struct ConnectionId {
    id: u64,
}

impl ConnectionId {
    /// The raw number behind the identifier.
    pub closed spec fn spec_id(self) -> u64 {
        self.id
    }

    /// Builds the identifier with a given raw number.
    pub fn new(id: u64) -> (r: ConnectionId)
        ensures
            r.spec_id() == id,
    {
        ConnectionId { id }
    }

    /// The raw number behind the identifier.
    pub fn id(self) -> (r: u64)
        ensures
            r == self.spec_id(),
    {
        self.id
    }
}

/// Identifier of an active listen endpoint, issued when listening on an
/// address begins.
#[derive(Clone, Copy, Debug, PartialEq, Eq, Structural)]
pub struct ListenerId {
    id: u64,
}

impl ListenerId {
    /// The raw number behind the identifier.
    pub closed spec fn spec_id(self) -> u64 {
        self.id
    }

    /// Builds the identifier with a given raw number.
    pub fn new(id: u64) -> (r: ListenerId)
        ensures
            r.spec_id() == id,
    {
        ListenerId { id }
    }

    /// The raw number behind the identifier.
    pub fn id(self) -> (r: u64)
        ensures
            r == self.spec_id(),
    {
        self.id
    }
}

} // verus!
