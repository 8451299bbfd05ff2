//! How a server receives from its clients, one after the other.

use bytes::Bytes;
use vstd::prelude::*;

use crate::channels::ClientToServerReplicationChannels;
use crate::client::ClientReplicationStats;
use crate::context::{ReceiveState, State};
use crate::entity::Entity;
use crate::peers::{queue_of, with_client, PeerReceivedMessages, Peers, ReceiveContexts};
use crate::receive::{Receive, ReceiveParams};
use crate::receiving::{Action, EntityInfo, Receiving, SpawnBundle};
use crate::wire::contents;

verus! {

/// What the caller has to do next.
pub enum ServerAction<B, A> {
    /// Nothing.
    Proceed,
    /// Do this for messages of the client.
    Client { client: Entity, action: Action<B> },
    /// Send the acknowledgments to the client on the channel.
    SendAcks { client: Entity, channel: usize, acks: A },
    /// The messages of all clients are received.
    Finished,
}

impl View for ServerAction<Bytes, Vec<u8>> {
    type V = ServerAction<Seq<u8>, Seq<u8>>;

    open spec fn view(&self) -> ServerAction<Seq<u8>, Seq<u8>> {
        match *self {
            ServerAction::Proceed => ServerAction::Proceed,
            ServerAction::Client { client, action } => ServerAction::Client {
                client,
                action: action@,
            },
            ServerAction::SendAcks { client, channel, acks } => ServerAction::SendAcks {
                client,
                channel,
                acks: acks@,
            },
            ServerAction::Finished => ServerAction::Finished,
        }
    }
}

/// What is shared by the contexts of all clients.
#[verifier::ext_equal]
pub struct Params {
    pub stats: Option<ClientReplicationStats>,
    pub signatures: Map<u64, Entity>,
}

/// Where a server is.
pub enum ServingPhase {
    /// Before a client, or behind the last one.
    NextClient(Params),
    /// At the messages of a client, whose context is taken out.
    Client { client: Entity, receiving: Receiving },
    /// Behind everything.
    Finished(Params),
}

/// What a server knows.
#[verifier::ext_equal]
pub struct Serving {
    pub channels: ClientToServerReplicationChannels,
    pub track_mutate_messages: bool,
    pub contexts: Map<Entity, State>,
    pub peers: Peers,
    /// Clients whose messages were not begun.
    pub queue: Seq<Entity>,
    pub phase: ServingPhase,
}

impl Serving {
    /// The server waits to be told what came of the last action.
    pub open spec fn waits(self) -> bool {
        self.phase matches ServingPhase::Client { receiving, .. } && receiving.waits()
    }

    /// The client's context is the sender's of the messages that are received.
    pub open spec fn at_home(self) -> bool {
        self.phase matches ServingPhase::Client { client, receiving } ==> {
            &&& receiving.context.source == Some(client)
            &&& receiving.context.spawned is Some
        }
    }

    /// The messages of the next client are begun. A client that has no context gets one.
    pub open spec fn begin_client(self, client: Entity, params: Params) -> Serving {
        let contexts = with_client(self.contexts, client, self.track_mutate_messages);
        let messages = queue_of(self.peers.queues, client);
        Serving {
            contexts: contexts.remove(client),
            peers: self.peers.without_messages(client),
            queue: self.queue.skip(1),
            phase: ServingPhase::Client {
                client,
                receiving: Receiving::start(
                    contexts[client].context(client),
                    params.stats,
                    params.signatures,
                    messages.updates,
                    messages.mutations,
                ),
            },
            ..self
        }
    }

    /// The messages of a client went a step further. Behind the last its context is put back, and
    /// its acknowledgments are sent.
    pub open spec fn forward(self, client: Entity, step: (Receiving, Action<Seq<u8>>)) -> (
        Serving,
        ServerAction<Seq<u8>, Seq<u8>>,
    ) {
        let (receiving, action) = step;
        if action is Finished {
            (
                Serving {
                    contexts: self.contexts.insert(client, receiving.context.state()),
                    phase: ServingPhase::NextClient(
                        Params { stats: receiving.stats, signatures: receiving.signatures },
                    ),
                    ..self
                },
                match receiving.acks {
                    Some(acks) => ServerAction::SendAcks {
                        client,
                        channel: self.channels.mutation_acks,
                        acks,
                    },
                    None => ServerAction::Proceed,
                },
            )
        } else {
            (
                Serving { phase: ServingPhase::Client { client, receiving }, ..self },
                ServerAction::Client { client, action },
            )
        }
    }

    /// With an entity that was spawned for a sender's entity which a component refers to.
    pub open spec fn with_spawned(self, server_entity: Entity, client_entity: Entity) -> Serving {
        match self.phase {
            ServingPhase::Client { client, receiving } => Serving {
                phase: ServingPhase::Client {
                    client,
                    receiving: receiving.with_context(
                        receiving.context.with_spawned(server_entity, client_entity),
                    ),
                },
                ..self
            },
            _ => self,
        }
    }

    /// The next step of a server that does not wait.
    pub open spec fn proceed(self) -> (Serving, ServerAction<Seq<u8>, Seq<u8>>) {
        match self.phase {
            ServingPhase::NextClient(params) => if self.queue.len() > 0 {
                (self.begin_client(self.queue[0], params), ServerAction::Proceed)
            } else {
                (
                    Serving {
                        peers: self.peers.retained(self.contexts),
                        phase: ServingPhase::Finished(params),
                        ..self
                    },
                    ServerAction::Finished,
                )
            },
            ServingPhase::Client { client, receiving } => self.forward(client, receiving.proceed()),
            ServingPhase::Finished(_) => (self, ServerAction::Finished),
        }
    }

    /// The caller looked at an entity.
    pub open spec fn inspected(self, info: Option<EntityInfo>) -> (
        Serving,
        ServerAction<Seq<u8>, Seq<u8>>,
    ) {
        match self.phase {
            ServingPhase::Client { client, receiving } => self.forward(
                client,
                receiving.inspected(info),
            ),
            _ => (self, ServerAction::Proceed),
        }
    }

    /// The caller spawned an entity.
    pub open spec fn spawned(self, entity: Entity) -> (Serving, ServerAction<Seq<u8>, Seq<u8>>) {
        match self.phase {
            ServingPhase::Client { client, receiving } => self.forward(
                client,
                receiving.spawned(entity),
            ),
            _ => (self, ServerAction::Proceed),
        }
    }

    /// The caller despawned an entity, or it no longer existed.
    pub open spec fn despawned(self, existed: bool) -> (
        Serving,
        ServerAction<Seq<u8>, Seq<u8>>,
    ) {
        match self.phase {
            ServingPhase::Client { client, receiving } => self.forward(
                client,
                receiving.despawned(existed),
            ),
            _ => (self, ServerAction::Proceed),
        }
    }

    /// The caller wrote a component and left this of the data, or could not write it.
    pub open spec fn written(self, outcome: Option<Seq<u8>>) -> (
        Serving,
        ServerAction<Seq<u8>, Seq<u8>>,
    ) {
        match self.phase {
            ServingPhase::Client { client, receiving } => self.forward(
                client,
                receiving.written(outcome),
            ),
            _ => (self, ServerAction::Proceed),
        }
    }
}

enum ServePhase {
    NextClient(ReceiveParams),
    Client { client: Entity, receive: Receive },
    Finished(ReceiveParams),
    /// The phase is being worked on.
    Taken,
}

/// Messages of a server's clients in the middle of being received.
///
/// The caller does what each [`ServerAction`] says and goes on until it is
/// [`Finished`](ServerAction::Finished).
pub struct ReceiveFromClients {
    channels: ClientToServerReplicationChannels,
    track_mutate_messages: bool,
    contexts: ReceiveContexts,
    peers: PeerReceivedMessages,
    /// Clients whose messages were not begun, the next one last.
    queue: Vec<Entity>,
    phase: ServePhase,
}

/// What a server keeps between two rounds of receiving.
pub struct ServerState {
    pub contexts: ReceiveContexts,
    pub peers: PeerReceivedMessages,
    pub params: ReceiveParams,
}

impl ServerState {
    pub open spec fn wf(&self) -> bool {
        &&& self.contexts.wf()
        &&& self.peers.wf()
        &&& self.params.signature_map.wf()
    }
}

/// What is shared, as the contexts see it.
pub open spec fn params_view(params: ReceiveParams) -> Params {
    Params { stats: params.stats, signatures: params.signature_map@ }
}

impl View for ReceiveFromClients {
    type V = Serving;

    closed spec fn view(&self) -> Serving {
        Serving {
            channels: self.channels,
            track_mutate_messages: self.track_mutate_messages,
            contexts: self.contexts@,
            peers: self.peers@,
            queue: self.queue@.reverse(),
            phase: match self.phase {
                ServePhase::NextClient(params) => ServingPhase::NextClient(params_view(params)),
                ServePhase::Client { client, receive } => ServingPhase::Client {
                    client,
                    receiving: receive@,
                },
                ServePhase::Finished(params) => ServingPhase::Finished(params_view(params)),
                ServePhase::Taken => arbitrary(),
            },
        }
    }
}

/// A server has something to receive: it receives from clients, and one of them sent something.
pub open spec fn has_to_receive(
    channels: Option<ClientToServerReplicationChannels>,
    peers: Peers,
) -> bool {
    channels is Some && !peers.prepared().empty()
}

/// Whether a server has something to receive.
pub fn must_receive(
    channels: Option<ClientToServerReplicationChannels>,
    peers: &PeerReceivedMessages,
) -> (must: bool)
    ensures
        must == has_to_receive(channels, peers@),
{
    channels.is_some() && peers.has_new()
}

/// Begins to receive from a server's clients.
///
/// Nothing happens where the server does not receive from clients, or where no client sent
/// anything.
pub fn receive_replication_from_clients(
    channels: Option<ClientToServerReplicationChannels>,
    state: ServerState,
    track_mutate_messages: bool,
) -> (receive: Result<ReceiveFromClients, ServerState>)
    requires
        state.wf(),
    ensures
        match receive {
            Ok(receive) => {
                &&& receive.wf()
                &&& channels == Some(receive@.channels)
                &&& receive@.track_mutate_messages == track_mutate_messages
                &&& receive@.contexts == state.contexts@
                &&& receive@.peers == state.peers@.prepared()
                &&& receive@.queue.no_duplicates()
                &&& receive@.queue.to_set() == state.peers@.prepared().queues.dom()
                &&& receive@.phase == ServingPhase::NextClient(params_view(state.params))
            },
            Err(unserved) => {
                &&& unserved.wf()
                &&& unserved.contexts == state.contexts
                &&& unserved.params == state.params
                &&& unserved.peers@ == if channels is Some {
                    state.peers@.prepared()
                } else {
                    state.peers@
                }
            },
        },
        receive is Ok <==> has_to_receive(channels, state.peers@),
{
    let channels = match channels {
        Some(channels) => channels,
        None => return Err(state),
    };
    let mut state = state;
    state.peers.prepare();
    if state.peers.is_empty() {
        return Err(state);
    }
    let queue = state.peers.clients();
    proof {
        lemma_reversed(queue@);
    }
    Ok(
        ReceiveFromClients {
            channels,
            track_mutate_messages,
            contexts: state.contexts,
            peers: state.peers,
            queue,
            phase: ServePhase::NextClient(state.params),
        },
    )
}

proof fn lemma_reversed(queue: Seq<Entity>)
    requires
        queue.no_duplicates(),
    ensures
        queue.reverse().no_duplicates(),
        queue.reverse().to_set() == queue.to_set(),
{
    let reversed = queue.reverse();
    assert forall|client: Entity| queue.contains(client) implies reversed.contains(client) by {
        let i = queue.index_of(client);
        assert(reversed[queue.len() - 1 - i] == client);
    }
    assert forall|client: Entity| reversed.contains(client) implies queue.contains(client) by {
        let i = reversed.index_of(client);
        assert(queue[queue.len() - 1 - i] == client);
    }
    assert(reversed.to_set() =~= queue.to_set());
}

impl ReceiveFromClients {
    pub closed spec fn wf(&self) -> bool {
        &&& self.contexts.wf()
        &&& self.peers.wf()
        &&& match self.phase {
            ServePhase::NextClient(params) => params.signature_map.wf(),
            ServePhase::Client { receive, .. } => receive.wf(),
            ServePhase::Finished(params) => params.signature_map.wf(),
            ServePhase::Taken => false,
        }
        &&& self@.at_home()
    }

    /// Takes the phase out to work on it.
    fn take_phase(&mut self) -> (phase: ServePhase)
        requires
            old(self).wf(),
        ensures
            phase == old(self).phase,
            *final(self) == (ReceiveFromClients { phase: ServePhase::Taken, ..*old(self) }),
    {
        let mut phase = ServePhase::Taken;
        core::mem::swap(&mut self.phase, &mut phase);
        phase
    }

    /// Goes on with the messages of a client after a step.
    fn forward(&mut self, client: Entity, receive: Receive, action: Action<Bytes>) -> (server_action:
        ServerAction<Bytes, Vec<u8>>)
        requires
            old(self).contexts.wf(),
            old(self).peers.wf(),
            receive.wf(),
            receive@.context.source == Some(client),
            receive@.context.spawned is Some,
        ensures
            final(self).wf(),
            (final(self)@, server_action@) == old(self)@.forward(client, (receive@, action@)),
    {
        if !matches!(action, Action::Finished) {
            self.phase = ServePhase::Client { client, receive };
            return ServerAction::Client { client, action };
        }
        let (context, params, acks) = receive.finish();
        self.contexts.put(client, ReceiveState::from_context(context));
        self.phase = ServePhase::NextClient(params);
        match acks {
            Some(acks) => ServerAction::SendAcks {
                client,
                channel: self.channels.mutation_acks,
                acks,
            },
            None => ServerAction::Proceed,
        }
    }

    /// Begins the messages of a client.
    fn begin_client(&mut self, client: Entity, params: ReceiveParams)
        requires
            old(self).contexts.wf(),
            old(self).peers.wf(),
            params.signature_map.wf(),
        ensures
            final(self).wf(),
            final(self)@ == (Serving {
                queue: old(self)@.queue,
                ..old(self)@.begin_client(client, params_view(params))
            }),
    {
        self.contexts.ensure(client, self.track_mutate_messages);
        let messages = self.peers.take_messages(client);
        match self.contexts.take(client) {
            Some(state) => {
                self.phase = ServePhase::Client {
                    client,
                    receive: Receive::apply_replication(
                        state.into_context(client),
                        params,
                        messages,
                    ),
                };
            },
            None => {},
        }
    }

    /// Goes on after an action that the server does not wait for.
    pub fn proceed(&mut self) -> (action: ServerAction<Bytes, Vec<u8>>)
        requires
            old(self).wf(),
            !old(self)@.waits(),
        ensures
            final(self).wf(),
            (final(self)@, action@) == old(self)@.proceed(),
    {
        match self.take_phase() {
            ServePhase::NextClient(params) => match self.queue.pop() {
                Some(client) => {
                    assert(old(self)@.queue[0] == client);
                    assert(self.queue@.reverse() =~= old(self)@.queue.skip(1));
                    self.begin_client(client, params);
                    ServerAction::Proceed
                },
                None => {
                    self.peers.retain(&self.contexts);
                    self.phase = ServePhase::Finished(params);
                    ServerAction::Finished
                },
            },
            ServePhase::Client { client, mut receive } => {
                proof {
                    receive@.lemma_keeps_sender();
                }
                let action = receive.proceed();
                self.forward(client, receive, action)
            },
            phase => {
                self.phase = phase;
                ServerAction::Finished
            },
        }
    }

    /// Goes on after [`Action::Inspect`] with what was found; `None` stands for an entity that no
    /// longer exists.
    pub fn inspected(&mut self, info: Option<EntityInfo>) -> (action: ServerAction<Bytes, Vec<u8>>)
        requires
            old(self).wf(),
            old(self)@.phase matches ServingPhase::Client { receiving, .. }
                && receiving.phase is Inspecting,
        ensures
            final(self).wf(),
            (final(self)@, action@) == old(self)@.inspected(info),
    {
        match self.take_phase() {
            ServePhase::Client { client, mut receive } => {
                let action = receive.inspected(info);
                self.forward(client, receive, action)
            },
            phase => {
                self.phase = phase;
                ServerAction::Proceed
            },
        }
    }

    /// Goes on after [`Action::Spawn`] with the entity that was spawned.
    pub fn spawned(&mut self, entity: Entity) -> (action: ServerAction<Bytes, Vec<u8>>)
        requires
            old(self).wf(),
            old(self)@.phase matches ServingPhase::Client { receiving, .. }
                && receiving.phase is Spawning,
        ensures
            final(self).wf(),
            (final(self)@, action@) == old(self)@.spawned(entity),
    {
        match self.take_phase() {
            ServePhase::Client { client, mut receive } => {
                let action = receive.spawned(entity);
                self.forward(client, receive, action)
            },
            phase => {
                self.phase = phase;
                ServerAction::Proceed
            },
        }
    }

    /// Goes on after [`Action::Despawn`]; `false` stands for an entity that no longer existed.
    pub fn despawned(&mut self, existed: bool) -> (action: ServerAction<Bytes, Vec<u8>>)
        requires
            old(self).wf(),
            old(self)@.phase matches ServingPhase::Client { receiving, .. }
                && receiving.phase is Despawning,
        ensures
            final(self).wf(),
            (final(self)@, action@) == old(self)@.despawned(existed),
    {
        match self.take_phase() {
            ServePhase::Client { client, mut receive } => {
                let action = receive.despawned(existed);
                self.forward(client, receive, action)
            },
            phase => {
                self.phase = phase;
                ServerAction::Proceed
            },
        }
    }

    /// Goes on after [`Action::Write`] with what is left of the data; `None` stands for a
    /// component that could not be written.
    pub fn written(&mut self, outcome: Option<Bytes>) -> (action: ServerAction<Bytes, Vec<u8>>)
        requires
            old(self).wf(),
            old(self)@.phase matches ServingPhase::Client { receiving, .. }
                && receiving.phase is Writing,
        ensures
            final(self).wf(),
            (final(self)@, action@) == old(self)@.written(
                match outcome {
                    Some(data) => Some(contents(data)),
                    None => None,
                },
            ),
    {
        match self.take_phase() {
            ServePhase::Client { client, mut receive } => {
                let action = receive.written(outcome);
                self.forward(client, receive, action)
            },
            phase => {
                self.phase = phase;
                ServerAction::Proceed
            },
        }
    }

    /// The entity that stands for a sender's entity which a component refers to.
    pub fn mapped(&self, server_entity: Entity) -> (client_entity: Option<Entity>)
        requires
            self.wf(),
        ensures
            client_entity == match self@.phase {
                ServingPhase::Client { receiving, .. } => receiving.context.entity_map.get(
                    server_entity,
                ),
                _ => None,
            },
    {
        match &self.phase {
            ServePhase::Client { receive, .. } => receive.mapped(server_entity),
            _ => None,
        }
    }

    /// What is spawned for a sender's entity which a component refers to.
    pub fn spawn_bundle(&self, server_entity: Entity) -> (bundle: Option<SpawnBundle>)
        requires
            self.wf(),
        ensures
            bundle == match self@.phase {
                ServingPhase::Client { receiving, .. } => Some(
                    receiving.spawn_bundle(server_entity),
                ),
                _ => None,
            },
    {
        match &self.phase {
            ServePhase::Client { receive, .. } => Some(receive.spawn_bundle(server_entity)),
            _ => None,
        }
    }

    /// Notes that an entity was spawned for a sender's entity which a component refers to.
    pub fn record_spawned(&mut self, server_entity: Entity, client_entity: Entity)
        requires
            old(self).wf(),
            old(self)@.phase is Client,
        ensures
            final(self).wf(),
            final(self)@ == old(self)@.with_spawned(server_entity, client_entity),
    {
        let phase = self.take_phase();
        self.phase = match phase {
            ServePhase::Client { client, mut receive } => {
                receive.record_spawned(server_entity, client_entity);
                ServePhase::Client { client, receive }
            },
            phase => phase,
        };
    }

    /// Ends receiving: gives back what was handed in. Before the last message it goes on instead.
    pub fn finish(self) -> (state: Result<ServerState, ReceiveFromClients>)
        requires
            self.wf(),
        ensures
            match state {
                Ok(state) => {
                    &&& state.wf()
                    &&& state.contexts@ == self@.contexts
                    &&& state.peers@ == self@.peers
                    &&& self@.phase == ServingPhase::Finished(params_view(state.params))
                },
                Err(receive) => receive == self && !(self@.phase is Finished),
            },
    {
        match self.phase {
            ServePhase::Finished(params) => Ok(
                ServerState { contexts: self.contexts, peers: self.peers, params },
            ),
            phase => Err(
                ReceiveFromClients {
                    channels: self.channels,
                    track_mutate_messages: self.track_mutate_messages,
                    contexts: self.contexts,
                    peers: self.peers,
                    queue: self.queue,
                    phase,
                },
            ),
        }
    }
}

} // verus!
