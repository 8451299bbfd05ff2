//! Channels between a server and its clients.

use vstd::prelude::*;

verus! {

/// Channels on which clients replicate to the server.
#[derive(Clone, Copy, Debug, PartialEq, Eq, Structural)]
pub struct ClientToServerReplicationChannels {
    /// Client channel for update messages.
    pub updates: usize,
    /// Client channel for mutate messages.
    pub mutations: usize,
    /// Server channel for acknowledgments of mutate messages.
    pub mutation_acks: usize,
}

/// Channels that exist.
///
/// Without replication to the server there is a client channel for acknowledgments, and there are
/// server channels for update messages and mutate messages.
#[derive(Clone, Copy, Debug, PartialEq, Eq, Structural)]
pub struct RepliconChannels {
    /// How many channels clients send on.
    pub client_channels: usize,
    /// How many channels the server sends on.
    pub server_channels: usize,
    /// Channels on which clients replicate to the server, where that was asked for.
    pub client_to_server: Option<ClientToServerReplicationChannels>,
}

impl RepliconChannels {
    /// With channels on which clients replicate to the server, behind the other ones. They are
    /// created once.
    pub open spec fn with_client_to_server(self) -> RepliconChannels {
        match self.client_to_server {
            Some(_) => self,
            None => RepliconChannels {
                client_channels: (self.client_channels + 2) as usize,
                server_channels: (self.server_channels + 1) as usize,
                client_to_server: Some(
                    ClientToServerReplicationChannels {
                        updates: self.client_channels,
                        mutations: (self.client_channels + 1) as usize,
                        mutation_acks: self.server_channels,
                    },
                ),
            },
        }
    }

    /// The channels that are always there.
    pub fn new() -> (channels: RepliconChannels)
        ensures
            channels == (RepliconChannels {
                client_channels: 1,
                server_channels: 2,
                client_to_server: None,
            }),
    {
        RepliconChannels { client_channels: 1, server_channels: 2, client_to_server: None }
    }

    /// Creates the channels on which clients replicate to the server, unless they exist.
    pub fn create_client_to_server_replication_channels(&mut self) -> (channels:
        ClientToServerReplicationChannels)
        requires
            old(self).client_to_server is None ==> old(self).client_channels + 2 <= usize::MAX
                && old(self).server_channels + 1 <= usize::MAX,
        ensures
            *final(self) == old(self).with_client_to_server(),
            final(self).client_to_server == Some(channels),
    {
        match self.client_to_server {
            Some(channels) => channels,
            None => {
                let channels = ClientToServerReplicationChannels {
                    updates: self.client_channels,
                    mutations: self.client_channels + 1,
                    mutation_acks: self.server_channels,
                };
                self.client_channels = self.client_channels + 2;
                self.server_channels = self.server_channels + 1;
                self.client_to_server = Some(channels);
                channels
            },
        }
    }
}

/// A client and a server that share their channels in one app create them once.
pub proof fn lemma_channels_created_once(channels: RepliconChannels)
    ensures
        channels.with_client_to_server().with_client_to_server()
            == channels.with_client_to_server(),
{
}

/// The channels on which clients replicate to the server come behind those that there were, which
/// stay, and no channel has two uses.
pub proof fn lemma_channels_are_apart(channels: RepliconChannels)
    requires
        channels.client_to_server is None,
        channels.client_channels + 2 <= usize::MAX,
        channels.server_channels + 1 <= usize::MAX,
    ensures
        ({
            let after = channels.with_client_to_server();
            &&& after.client_channels == channels.client_channels + 2
            &&& after.server_channels == channels.server_channels + 1
            &&& after.client_to_server matches Some(created) && {
                &&& channels.client_channels <= created.updates < after.client_channels
                &&& channels.client_channels <= created.mutations < after.client_channels
                &&& created.updates < created.mutations
                &&& channels.server_channels <= created.mutation_acks < after.server_channels
            }
        }),
{
}

} // verus!
