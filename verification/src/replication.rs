//! Markers of replicated entities.

use vstd::prelude::*;

use crate::entity::Entity;

verus! {

/// Marks an entity for authoritative replication sending.
///
/// Typically put on entities that the server owns. Received entities are marked with
/// [`Remote`](crate::client::Remote) instead.
#[derive(Clone, Copy, Debug, PartialEq, Eq, Structural)]
pub struct Replicated;

impl Default for Replicated {
    fn default() -> (replicated: Replicated)
        ensures
            replicated == Replicated,
    {
        Replicated
    }
}

/// Provenance of an entity that was spawned for a connected client.
///
/// Put on the entities that a server spawns for what its clients send. It stores the connected
/// client's entity on the server.
#[derive(Clone, Copy, Debug, PartialEq, Eq, Structural)]
pub struct ReplicatedFrom(pub Entity);

/// The sender's entity that a received entity corresponds to.
///
/// Put on received entities in both directions, from server to client and from client to server.
#[derive(Clone, Copy, Debug, PartialEq, Eq, Structural)]
pub struct RemoteEntity(pub Entity);

} // verus!
