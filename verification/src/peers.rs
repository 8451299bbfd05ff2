//! Receiving from the clients of a server, each into a context of its own.

use bytes::Bytes;
use vstd::prelude::*;

use crate::channels::{ClientToServerReplicationChannels, RepliconChannels};
use crate::context::{ReceiveState, State};
use crate::entity::Entity;
use crate::entity_map::EntityMap;
use crate::receive::{Messages, ReceivedReplicationMessages};
use crate::wire::contents;

verus! {

/// Receive contexts by the clients that send.
pub struct ReceiveContexts(pub EntityMap<ReceiveState>);

impl View for ReceiveContexts {
    type V = Map<Entity, State>;

    open spec fn view(&self) -> Map<Entity, State> {
        self.0@.map_values(|state: ReceiveState| state@)
    }
}

/// With a context for the client, unless it has one.
pub open spec fn with_client(
    contexts: Map<Entity, State>,
    client: Entity,
    track_mutate_messages: bool,
) -> Map<Entity, State> {
    if contexts.contains_key(client) {
        contexts
    } else {
        contexts.insert(client, State::fresh(track_mutate_messages))
    }
}

/// With a context for each of the clients that has none.
pub open spec fn with_clients(
    contexts: Map<Entity, State>,
    clients: Set<Entity>,
    track_mutate_messages: bool,
) -> Map<Entity, State> {
    Map::new(
        |client: Entity| contexts.contains_key(client) || clients.contains(client),
        |client: Entity|
            if contexts.contains_key(client) {
                contexts[client]
            } else {
                State::fresh(track_mutate_messages)
            },
    )
}

impl ReceiveContexts {
    pub open spec fn wf(&self) -> bool {
        &&& self.0.wf()
        &&& forall|client: Entity| #[trigger] self.0@.contains_key(client) ==> self.0@[client].wf()
    }

    /// No contexts.
    pub fn new() -> (contexts: ReceiveContexts)
        ensures
            contexts.wf(),
            contexts@ == Map::<Entity, State>::empty(),
    {
        let contexts = ReceiveContexts(EntityMap::new());
        assert(contexts@ =~= Map::<Entity, State>::empty());
        contexts
    }

    /// Gives the client a fresh context.
    pub fn insert_fresh(&mut self, client: Entity, track_mutate_messages: bool)
        requires
            old(self).wf(),
        ensures
            final(self).wf(),
            final(self)@ == old(self)@.insert(client, State::fresh(track_mutate_messages)),
    {
        let state = ReceiveState::new(track_mutate_messages);
        self.0.insert(client, state);
        assert(self@ =~= old(self)@.insert(client, state@));
    }

    /// Gives the client a fresh context, unless it has one.
    pub fn ensure(&mut self, client: Entity, track_mutate_messages: bool)
        requires
            old(self).wf(),
        ensures
            final(self).wf(),
            final(self)@ == with_client(old(self)@, client, track_mutate_messages),
    {
        if !self.0.contains_key(client) {
            self.insert_fresh(client, track_mutate_messages);
        }
    }

    /// Gives each of the clients that has none a fresh context.
    pub fn ensure_all(&mut self, clients: &Vec<Entity>, track_mutate_messages: bool)
        requires
            old(self).wf(),
        ensures
            final(self).wf(),
            final(self)@ == with_clients(old(self)@, clients@.to_set(), track_mutate_messages),
    {
        let mut i: usize = 0;
        assert(self@ =~= with_clients(self@, clients@.take(0).to_set(), track_mutate_messages));
        while i < clients.len()
            invariant
                i <= clients@.len(),
                self.wf(),
                self@ == with_clients(
                    old(self)@,
                    clients@.take(i as int).to_set(),
                    track_mutate_messages,
                ),
            decreases clients@.len() - i,
        {
            self.ensure(clients[i], track_mutate_messages);
            proof {
                assert(clients@.take(i + 1) =~= clients@.take(i as int).push(clients@[i as int]));
                assert(clients@.take(i + 1).to_set() =~= clients@.take(i as int).to_set().insert(
                    clients@[i as int],
                )) by {
                    broadcast use vstd::seq_lib::group_seq_properties;

                }
                assert(self@ =~= with_clients(
                    old(self)@,
                    clients@.take(i + 1).to_set(),
                    track_mutate_messages,
                ));
            }
            i = i + 1;
        }
        assert(clients@.take(i as int) =~= clients@);
    }

    /// Takes the client's context out.
    pub fn take(&mut self, client: Entity) -> (state: Option<ReceiveState>)
        requires
            old(self).wf(),
        ensures
            final(self).wf(),
            final(self)@ == old(self)@.remove(client),
            match state {
                Some(state) => state.wf() && old(self)@.get(client) == Some(state@),
                None => !old(self)@.contains_key(client),
            },
    {
        let state = self.0.remove(client);
        assert(self@ =~= old(self)@.remove(client));
        state
    }

    /// Puts the client's context back.
    pub fn put(&mut self, client: Entity, state: ReceiveState)
        requires
            old(self).wf(),
            state.wf(),
        ensures
            final(self).wf(),
            final(self)@ == old(self)@.insert(client, state@),
    {
        self.0.insert(client, state);
        assert(self@ =~= old(self)@.insert(client, state@));
    }

    /// The client's context.
    pub fn get(&self, client: Entity) -> (state: Option<&ReceiveState>)
        requires
            self.wf(),
        ensures
            match state {
                Some(state) => state.wf() && self@.get(client) == Some(state@),
                None => !self@.contains_key(client),
            },
    {
        self.0.get(client)
    }
}

/// Lets a server receive from its clients: creates the channels, and a context for each client
/// that is connected already.
pub fn enable_receive_from_clients(
    channels: &mut RepliconChannels,
    contexts: &mut ReceiveContexts,
    connected: &Vec<Entity>,
    track_mutate_messages: bool,
) -> (created: ClientToServerReplicationChannels)
    requires
        old(contexts).wf(),
        old(channels).client_to_server is None ==> old(channels).client_channels + 2 <= usize::MAX
            && old(channels).server_channels + 1 <= usize::MAX,
    ensures
        final(contexts).wf(),
        *final(channels) == old(channels).with_client_to_server(),
        final(channels).client_to_server == Some(created),
        final(contexts)@ == with_clients(old(contexts)@, connected@.to_set(), track_mutate_messages),
{
    let created = channels.create_client_to_server_replication_channels();
    contexts.ensure_all(connected, track_mutate_messages);
    created
}

/// Gives a client that connects a fresh context, if the server receives from clients.
pub fn add_receive_context(
    contexts: &mut Option<ReceiveContexts>,
    client: Entity,
    track_mutate_messages: bool,
)
    requires
        *old(contexts) matches Some(contexts) ==> contexts.wf(),
    ensures
        *final(contexts) matches Some(contexts) ==> contexts.wf(),
        match *old(contexts) {
            Some(before) => *final(contexts) matches Some(after) && after@ == before@.insert(
                client,
                State::fresh(track_mutate_messages),
            ),
            None => *final(contexts) is None,
        },
{
    if let Some(contexts) = contexts {
        contexts.insert_fresh(client, track_mutate_messages);
    }
}

/// Drops the context of a client that disconnects. The entities that were spawned for it come
/// back, each once, to be despawned.
pub fn remove_receive_context(contexts: &mut Option<ReceiveContexts>, client: Entity) -> (despawned:
    Vec<Entity>)
    requires
        *old(contexts) matches Some(contexts) ==> contexts.wf(),
    ensures
        *final(contexts) matches Some(contexts) ==> contexts.wf(),
        despawned@.no_duplicates(),
        match *old(contexts) {
            Some(before) => {
                &&& *final(contexts) matches Some(after) && after@ == before@.remove(client)
                &&& despawned@.to_set() == if before@.contains_key(client) {
                    before@[client].spawned
                } else {
                    Set::empty()
                }
            },
            None => *final(contexts) is None && despawned@.len() == 0,
        },
{
    let state = match contexts {
        Some(contexts) => contexts.take(client),
        None => None,
    };
    match state {
        Some(state) => state.into_spawned_entities(),
        None => {
            let despawned: Vec<Entity> = Vec::new();
            assert(despawned@.to_set() =~= Set::empty());
            despawned
        },
    }
}

/// Gives each connected client a context, and drops those of others.
pub fn sync_receive_contexts(
    contexts: &mut ReceiveContexts,
    clients: &Vec<Entity>,
    track_mutate_messages: bool,
)
    requires
        old(contexts).wf(),
    ensures
        final(contexts).wf(),
        final(contexts)@ == with_clients(
            old(contexts)@,
            clients@.to_set(),
            track_mutate_messages,
        ).restrict(clients@.to_set()),
{
    contexts.ensure_all(clients, track_mutate_messages);
    let ghost all = contexts@;
    let mut connected: EntityMap<()> = EntityMap::new();
    let mut i: usize = 0;
    assert(connected@.dom() =~= clients@.take(0).to_set());
    while i < clients.len()
        invariant
            i <= clients@.len(),
            connected.wf(),
            connected@.dom() == clients@.take(i as int).to_set(),
        decreases clients@.len() - i,
    {
        connected.insert(clients[i], ());
        proof {
            assert(clients@.take(i + 1) =~= clients@.take(i as int).push(clients@[i as int]));
            assert(connected@.dom() =~= clients@.take(i + 1).to_set()) by {
                broadcast use vstd::seq_lib::group_seq_properties;

            }
        }
        i = i + 1;
    }
    assert(clients@.take(i as int) =~= clients@);
    contexts.0.retain_in(&connected);
    assert(contexts@ =~= all.restrict(clients@.to_set()));
}

/// What messages with their senders hold.
pub open spec fn sent_contents(messages: Seq<(Entity, Bytes)>) -> Seq<(Entity, Seq<u8>)> {
    messages.map_values(|message: (Entity, Bytes)| (message.0, contents(message.1)))
}

/// The messages that a client sent, in their order.
pub open spec fn sent_by(messages: Seq<(Entity, Seq<u8>)>, client: Entity) -> Seq<Seq<u8>>
    decreases messages.len(),
{
    if messages.len() == 0 {
        Seq::empty()
    } else if messages.last().0 == client {
        sent_by(messages.drop_last(), client).push(messages.last().1)
    } else {
        sent_by(messages.drop_last(), client)
    }
}

/// The clients that sent a message.
pub open spec fn senders(messages: Seq<(Entity, Seq<u8>)>) -> Set<Entity> {
    Set::new(|client: Entity| exists|i: int| 0 <= i < messages.len() && #[trigger] messages[i].0 == client)
}

/// The queues of these clients, and of those that sent a message, with what they sent.
pub open spec fn sorted_by_sender(
    clients: Set<Entity>,
    updates: Seq<(Entity, Seq<u8>)>,
    mutations: Seq<(Entity, Seq<u8>)>,
) -> Map<Entity, Messages> {
    Map::new(
        |client: Entity|
            clients.contains(client) || senders(updates).contains(client) || senders(
                mutations,
            ).contains(client),
        |client: Entity|
            Messages { updates: sent_by(updates, client), mutations: sent_by(mutations, client) },
    )
}

proof fn lemma_silent_client(messages: Seq<(Entity, Seq<u8>)>, client: Entity)
    requires
        !senders(messages).contains(client),
    ensures
        sent_by(messages, client) == Seq::<Seq<u8>>::empty(),
    decreases messages.len(),
{
    if messages.len() > 0 {
        assert(messages[messages.len() - 1].0 != client);
        assert forall|i: int| 0 <= i < messages.drop_last().len() implies #[trigger] messages.drop_last()[i].0
            != client by {
            assert(messages[i].0 != client);
        }
        lemma_silent_client(messages.drop_last(), client);
    }
}

proof fn lemma_senders_push(messages: Seq<(Entity, Seq<u8>)>, message: (Entity, Seq<u8>))
    ensures
        senders(messages.push(message)) == senders(messages).insert(message.0),
        forall|client: Entity| #[trigger]
            sent_by(messages.push(message), client) == if client == message.0 {
                sent_by(messages, client).push(message.1)
            } else {
                sent_by(messages, client)
            },
{
    let after = messages.push(message);
    assert(after.drop_last() =~= messages);
    assert forall|client: Entity| senders(messages).insert(message.0).contains(client) implies senders(
        after,
    ).contains(client) by {
        if client == message.0 {
            assert(after[messages.len() as int].0 == client);
        } else {
            let i = choose|i: int| 0 <= i < messages.len() && #[trigger] messages[i].0 == client;
            assert(after[i].0 == client);
        }
    }
    assert forall|client: Entity| senders(after).contains(client) implies senders(messages).insert(
        message.0,
    ).contains(client) by {
        let i = choose|i: int| 0 <= i < after.len() && #[trigger] after[i].0 == client;
        if i < messages.len() {
            assert(messages[i].0 == client);
        }
    }
    assert(senders(after) =~= senders(messages).insert(message.0));
}

proof fn lemma_sorted_update(
    clients: Set<Entity>,
    updates: Seq<(Entity, Seq<u8>)>,
    mutations: Seq<(Entity, Seq<u8>)>,
    message: (Entity, Seq<u8>),
)
    ensures
        sorted_by_sender(clients, updates.push(message), mutations) == ({
            let queues = sorted_by_sender(clients, updates, mutations);
            queues.insert(message.0, queued(queue_of(queues, message.0), Kind::Update, message.1))
        }),
{
    let queues = sorted_by_sender(clients, updates, mutations);
    lemma_senders_push(updates, message);
    if !queues.contains_key(message.0) {
        lemma_silent_client(updates, message.0);
        lemma_silent_client(mutations, message.0);
    }
    assert(sorted_by_sender(clients, updates.push(message), mutations) =~= queues.insert(
        message.0,
        queued(queue_of(queues, message.0), Kind::Update, message.1),
    ));
}

proof fn lemma_sorted_mutation(
    clients: Set<Entity>,
    updates: Seq<(Entity, Seq<u8>)>,
    mutations: Seq<(Entity, Seq<u8>)>,
    message: (Entity, Seq<u8>),
)
    ensures
        sorted_by_sender(clients, updates, mutations.push(message)) == ({
            let queues = sorted_by_sender(clients, updates, mutations);
            queues.insert(message.0, queued(queue_of(queues, message.0), Kind::Mutation, message.1))
        }),
{
    let queues = sorted_by_sender(clients, updates, mutations);
    lemma_senders_push(mutations, message);
    if !queues.contains_key(message.0) {
        lemma_silent_client(updates, message.0);
        lemma_silent_client(mutations, message.0);
    }
    assert(sorted_by_sender(clients, updates, mutations.push(message)) =~= queues.insert(
        message.0,
        queued(queue_of(queues, message.0), Kind::Mutation, message.1),
    ));
}

/// Messages from clients that were received and not applied yet.
pub struct PeerReceivedMessages {
    /// Update messages that were not handed to their clients' queues.
    pub updates: Vec<(Entity, Bytes)>,
    /// Mutate messages that were not handed to their clients' queues.
    pub mutations: Vec<(Entity, Bytes)>,
    peers: EntityMap<ReceivedReplicationMessages>,
}

/// What a [`PeerReceivedMessages`] holds.
#[verifier::ext_equal]
pub struct Peers {
    pub updates: Seq<(Entity, Seq<u8>)>,
    pub mutations: Seq<(Entity, Seq<u8>)>,
    pub queues: Map<Entity, Messages>,
}

impl View for PeerReceivedMessages {
    type V = Peers;

    closed spec fn view(&self) -> Peers {
        Peers {
            updates: sent_contents(self.updates@),
            mutations: sent_contents(self.mutations@),
            queues: self.peers@.map_values(|messages: ReceivedReplicationMessages| messages@),
        }
    }
}

impl Peers {
    /// Every message is in the queue of the client that sent it, and nothing else is.
    pub open spec fn prepared(self) -> Peers {
        Peers {
            updates: Seq::empty(),
            mutations: Seq::empty(),
            queues: sorted_by_sender(self.queues.dom(), self.updates, self.mutations),
        }
    }

    /// Without the messages in a client's queue.
    pub open spec fn without_messages(self, client: Entity) -> Peers {
        if self.queues.contains_key(client) {
            Peers { queues: self.queues.insert(client, Messages::none()), ..self }
        } else {
            self
        }
    }

    /// Without the queues of clients that have no context.
    pub open spec fn retained(self, contexts: Map<Entity, State>) -> Peers {
        Peers { queues: self.queues.restrict(contexts.dom()), ..self }
    }

    /// There is no message.
    pub open spec fn empty(self) -> bool {
        &&& self.updates.len() == 0
        &&& self.mutations.len() == 0
        &&& forall|client: Entity| #[trigger]
            self.queues.contains_key(client) ==> self.queues[client] == Messages::none()
    }
}

/// The queues are empty once they are filled anew if no message came.
pub(crate) proof fn lemma_prepared_empty(peers: Peers)
    ensures
        peers.prepared().empty() <==> peers.updates.len() == 0 && peers.mutations.len() == 0,
{
    let prepared = peers.prepared();
    if peers.updates.len() > 0 {
        let client = peers.updates.last().0;
        assert(peers.updates[peers.updates.len() - 1].0 == client);
        assert(prepared.queues.contains_key(client));
        assert(prepared.queues[client].updates.len() > 0);
    } else if peers.mutations.len() > 0 {
        let client = peers.mutations.last().0;
        assert(peers.mutations[peers.mutations.len() - 1].0 == client);
        assert(prepared.queues.contains_key(client));
        assert(prepared.queues[client].mutations.len() > 0);
    } else {
        assert forall|client: Entity| #[trigger]
            prepared.queues.contains_key(client) implies prepared.queues[client]
            == Messages::none() by {
            assert(prepared.queues[client] =~= Messages::none());
        }
    }
}

/// Which kind of message is put in a queue.
enum Kind {
    Update,
    Mutation,
}

/// A queue with one more message.
spec fn queued(messages: Messages, kind: Kind, message: Seq<u8>) -> Messages {
    match kind {
        Kind::Update => Messages { updates: messages.updates.push(message), ..messages },
        Kind::Mutation => Messages { mutations: messages.mutations.push(message), ..messages },
    }
}

/// The client's queue, which is empty where it has none.
pub open spec fn queue_of(queues: Map<Entity, Messages>, client: Entity) -> Messages {
    if queues.contains_key(client) {
        queues[client]
    } else {
        Messages::none()
    }
}

impl PeerReceivedMessages {
    pub closed spec fn wf(&self) -> bool {
        self.peers.wf()
    }

    /// No messages.
    pub fn new() -> (peers: PeerReceivedMessages)
        ensures
            peers.wf(),
            peers@ == (Peers {
                updates: Seq::empty(),
                mutations: Seq::empty(),
                queues: Map::empty(),
            }),
    {
        let peers = PeerReceivedMessages {
            updates: Vec::new(),
            mutations: Vec::new(),
            peers: EntityMap::new(),
        };
        assert(peers@ =~= (Peers {
            updates: Seq::empty(),
            mutations: Seq::empty(),
            queues: Map::empty(),
        }));
        peers
    }

    /// Whether there is no message.
    pub fn is_empty(&self) -> (empty: bool)
        requires
            self.wf(),
        ensures
            empty == self@.empty(),
    {
        if !self.updates.is_empty() || !self.mutations.is_empty() {
            return false;
        }
        let clients = self.peers.keys();
        let mut i: usize = 0;
        while i < clients.len()
            invariant
                i <= clients@.len(),
                self.peers.wf(),
                clients@.to_set() == self.peers@.dom(),
                forall|j: int|
                    0 <= j < i ==> self@.queues[#[trigger] clients@[j]] == Messages::none(),
            decreases clients@.len() - i,
        {
            let client = clients[i];
            assert(clients@.to_set().contains(client));
            if let Some(messages) = self.peers.get(client) {
                if !messages.is_empty() {
                    assert(self@.queues.contains_key(client));
                    return false;
                }
            }
            i = i + 1;
        }
        proof {
            assert forall|client: Entity| #[trigger]
                self@.queues.contains_key(client) implies self@.queues[client]
                == Messages::none() by {
                assert(clients@.to_set().contains(client));
                let j = clients@.index_of(client);
                assert(clients@[j] == client);
            }
        }
        true
    }

    /// Whether a message came that was not handed to its client's queue.
    pub fn has_new(&self) -> (new: bool)
        ensures
            new == !self@.prepared().empty(),
    {
        proof {
            lemma_prepared_empty(self@);
        }
        !self.updates.is_empty() || !self.mutations.is_empty()
    }

    /// Empties the queues.
    fn clear_queues(&mut self)
        requires
            old(self).wf(),
        ensures
            final(self).wf(),
            final(self).updates == old(self).updates,
            final(self).mutations == old(self).mutations,
            final(self)@.queues.dom() == old(self)@.queues.dom(),
            forall|client: Entity| #[trigger]
                final(self)@.queues.contains_key(client) ==> final(self)@.queues[client]
                    == Messages::none(),
    {
        let clients = self.peers.keys();
        let mut i: usize = 0;
        while i < clients.len()
            invariant
                i <= clients@.len(),
                self.peers.wf(),
                self.updates == old(self).updates,
                self.mutations == old(self).mutations,
                clients@.to_set() == old(self).peers@.dom(),
                self.peers@.dom() == old(self).peers@.dom(),
                forall|j: int|
                    0 <= j < i ==> self@.queues[#[trigger] clients@[j]] == Messages::none(),
            decreases clients@.len() - i,
        {
            let client = clients[i];
            assert(clients@.to_set().contains(client));
            let ghost before = self@.queues;
            if let Some(messages) = self.peers.get_mut(client) {
                messages.clear();
            }
            assert(self.peers@.dom() =~= old(self).peers@.dom());
            proof {
                assert forall|j: int| 0 <= j < i + 1 implies self@.queues[#[trigger] clients@[j]]
                    == Messages::none() by {
                    assert(clients@.to_set().contains(clients@[j]));
                    if j < i {
                        assert(before[clients@[j]] == Messages::none());
                    }
                }
            }
            i = i + 1;
        }
        proof {
            assert(self@.queues.dom() =~= old(self)@.queues.dom());
            assert forall|client: Entity| #[trigger]
                self@.queues.contains_key(client) implies self@.queues[client]
                == Messages::none() by {
                assert(clients@.to_set().contains(client));
                let j = clients@.index_of(client);
                assert(clients@[j] == client);
            }
        }
    }

    /// Puts a message in its client's queue.
    fn enqueue(&mut self, kind: Kind, client: Entity, message: Bytes)
        requires
            old(self).wf(),
        ensures
            final(self).wf(),
            final(self).updates == old(self).updates,
            final(self).mutations == old(self).mutations,
            final(self)@.queues == old(self)@.queues.insert(
                client,
                queued(queue_of(old(self)@.queues, client), kind, contents(message)),
            ),
    {
        if !self.peers.contains_key(client) {
            self.peers.insert(client, ReceivedReplicationMessages::new());
        }
        if let Some(messages) = self.peers.get_mut(client) {
            let ghost before = messages@;
            match kind {
                Kind::Update => messages.updates.push(message),
                Kind::Mutation => messages.mutations.push(message),
            }
            assert(messages@ =~= queued(before, kind, contents(message)));
        }
        assert(self@.queues =~= old(self)@.queues.insert(
            client,
            queued(queue_of(old(self)@.queues, client), kind, contents(message)),
        ));
    }

    /// Puts every message in the queue of the client that sent it. What the queues held before is
    /// dropped.
    pub fn prepare(&mut self)
        requires
            old(self).wf(),
        ensures
            final(self).wf(),
            final(self)@ == old(self)@.prepared(),
    {
        let ghost before = self@;
        let ghost clients = before.queues.dom();
        self.clear_queues();
        let mut updates: Vec<(Entity, Bytes)> = Vec::new();
        core::mem::swap(&mut updates, &mut self.updates);
        let mut mutations: Vec<(Entity, Bytes)> = Vec::new();
        core::mem::swap(&mut mutations, &mut self.mutations);
        let ghost mut done: int = 0;
        proof {
            let none = Seq::<(Entity, Seq<u8>)>::empty();
            assert(before.updates.take(0) =~= none);
            assert(before.mutations.take(0) =~= none);
            assert(before.updates.skip(0) =~= before.updates);
            assert(before.mutations.skip(0) =~= before.mutations);
            assert(self@.queues =~= sorted_by_sender(clients, none, none));
        }
        while updates.len() > 0
            invariant
                0 <= done <= before.updates.len(),
                self.wf(),
                self.updates@.len() == 0,
                self.mutations@.len() == 0,
                sent_contents(updates@) == before.updates.skip(done),
                self@.queues == sorted_by_sender(
                    clients,
                    before.updates.take(done),
                    before.mutations.take(0),
                ),
            decreases updates@.len(),
        {
            let ghost left = sent_contents(updates@);
            let (client, message) = updates.remove(0);
            proof {
                assert(left.len() > 0 && left[0] == (client, contents(message)));
                assert(before.updates.take(done + 1) =~= before.updates.take(done).push(left[0]));
                lemma_sorted_update(
                    clients,
                    before.updates.take(done),
                    before.mutations.take(0),
                    left[0],
                );
                assert(sent_contents(updates@) =~= left.skip(1));
                assert(left.skip(1) =~= before.updates.skip(done + 1));
                done = done + 1;
            }
            self.enqueue(Kind::Update, client, message);
        }
        proof {
            assert(sent_contents(updates@).len() == 0);
            assert(before.updates.take(done) =~= before.updates);
            done = 0;
        }
        while mutations.len() > 0
            invariant
                0 <= done <= before.mutations.len(),
                self.wf(),
                self.updates@.len() == 0,
                self.mutations@.len() == 0,
                sent_contents(mutations@) == before.mutations.skip(done),
                self@.queues == sorted_by_sender(
                    clients,
                    before.updates,
                    before.mutations.take(done),
                ),
            decreases mutations@.len(),
        {
            let ghost left = sent_contents(mutations@);
            let (client, message) = mutations.remove(0);
            proof {
                assert(left.len() > 0 && left[0] == (client, contents(message)));
                assert(before.mutations.take(done + 1) =~= before.mutations.take(done).push(
                    left[0],
                ));
                lemma_sorted_mutation(
                    clients,
                    before.updates,
                    before.mutations.take(done),
                    left[0],
                );
                assert(sent_contents(mutations@) =~= left.skip(1));
                assert(left.skip(1) =~= before.mutations.skip(done + 1));
                done = done + 1;
            }
            self.enqueue(Kind::Mutation, client, message);
        }
        proof {
            assert(sent_contents(mutations@).len() == 0);
            assert(before.mutations.take(done) =~= before.mutations);
            assert(self@ =~= before.prepared());
        }
    }

    /// The clients that have a queue, each once.
    pub fn clients(&self) -> (clients: Vec<Entity>)
        requires
            self.wf(),
        ensures
            clients@.no_duplicates(),
            clients@.to_set() == self@.queues.dom(),
    {
        let clients = self.peers.keys();
        assert(self.peers@.dom() =~= self@.queues.dom());
        clients
    }

    /// Takes the messages out of a client's queue.
    pub fn take_messages(&mut self, client: Entity) -> (messages: ReceivedReplicationMessages)
        requires
            old(self).wf(),
        ensures
            final(self).wf(),
            messages@ == queue_of(old(self)@.queues, client),
            final(self)@ == old(self)@.without_messages(client),
    {
        let mut messages = ReceivedReplicationMessages::new();
        if let Some(queue) = self.peers.get_mut(client) {
            core::mem::swap(queue, &mut messages);
        }
        assert(self@ =~= old(self)@.without_messages(client));
        messages
    }

    /// Drops the queues of clients that have no context.
    pub fn retain(&mut self, contexts: &ReceiveContexts)
        requires
            old(self).wf(),
            contexts.wf(),
        ensures
            final(self).wf(),
            final(self)@ == old(self)@.retained(contexts@),
    {
        self.peers.retain_in(&contexts.0);
        assert(self@ =~= old(self)@.retained(contexts@));
    }
}

/// A message that came last goes to the end of its sender's queue, and no other queue changes.
/// Without any message all queues are empty.
pub proof fn lemma_messages_go_to_their_senders(
    peers: Peers,
    client: Entity,
    message: (Entity, Seq<u8>),
)
    ensures
        ({
            let queue = queue_of(peers.prepared().queues, client);
            let after_update = queue_of(
                Peers { updates: peers.updates.push(message), ..peers }.prepared().queues,
                client,
            );
            let after_mutation = queue_of(
                Peers { mutations: peers.mutations.push(message), ..peers }.prepared().queues,
                client,
            );
            &&& after_update.mutations == queue.mutations
            &&& after_update.updates == if message.0 == client {
                queue.updates.push(message.1)
            } else {
                queue.updates
            }
            &&& after_mutation.updates == queue.updates
            &&& after_mutation.mutations == if message.0 == client {
                queue.mutations.push(message.1)
            } else {
                queue.mutations
            }
        }),
        peers.updates.len() == 0 ==> queue_of(peers.prepared().queues, client).updates.len() == 0,
        peers.mutations.len() == 0 ==> queue_of(peers.prepared().queues, client).mutations.len()
            == 0,
{
    lemma_senders_push(peers.updates, message);
    lemma_senders_push(peers.mutations, message);
    if !senders(peers.updates).contains(client) {
        lemma_silent_client(peers.updates, client);
    }
    if !senders(peers.mutations).contains(client) {
        lemma_silent_client(peers.mutations, client);
    }
}

/// A client has a queue if it had one or sent a message, and no message is left to be handed out.
pub proof fn lemma_senders_have_queues(peers: Peers, client: Entity)
    ensures
        peers.prepared().updates.len() == 0,
        peers.prepared().mutations.len() == 0,
        peers.prepared().queues.contains_key(client) <==> peers.queues.contains_key(client) || (
        exists|i: int| 0 <= i < peers.updates.len() && (#[trigger] peers.updates[i]).0 == client) || (
        exists|i: int| 0 <= i < peers.mutations.len() && (#[trigger] peers.mutations[i]).0
            == client),
{
}

/// Taking a client's messages empties its queue and touches no other. Queues are kept of the clients
/// that have a context, with what they hold.
pub proof fn lemma_queues_are_kept(
    peers: Peers,
    contexts: Map<Entity, State>,
    client: Entity,
    other: Entity,
)
    ensures
        queue_of(peers.without_messages(client).queues, client).updates.len() == 0,
        queue_of(peers.without_messages(client).queues, client).mutations.len() == 0,
        other != client ==> queue_of(peers.without_messages(client).queues, other) == queue_of(
            peers.queues,
            other,
        ),
        peers.without_messages(client).queues.contains_key(other) <==> peers.queues.contains_key(
            other,
        ),
        peers.without_messages(client).updates == peers.updates,
        peers.without_messages(client).mutations == peers.mutations,
        peers.retained(contexts).queues.contains_key(other) <==> peers.queues.contains_key(other)
            && contexts.contains_key(other),
        contexts.contains_key(other) ==> queue_of(peers.retained(contexts).queues, other)
            == queue_of(peers.queues, other),
        peers.retained(contexts).updates == peers.updates,
        peers.retained(contexts).mutations == peers.mutations,
{
}

/// There is no message if and only if none was left to be handed out and no queue holds one.
pub proof fn lemma_empty_peers(peers: Peers)
    ensures
        peers.empty() <==> peers.updates.len() == 0 && peers.mutations.len() == 0 && forall|
            client: Entity,
        | #[trigger]
            queue_of(peers.queues, client).updates.len() == 0 && queue_of(
                peers.queues,
                client,
            ).mutations.len() == 0,
{
    if peers.empty() {
        assert forall|client: Entity| #[trigger]
            queue_of(peers.queues, client).updates.len() == 0 && queue_of(
                peers.queues,
                client,
            ).mutations.len() == 0 by {
            if peers.queues.contains_key(client) {
                assert(peers.queues[client] == Messages::none());
            }
        }
    } else if peers.updates.len() == 0 && peers.mutations.len() == 0 {
        let client = choose|client: Entity| #[trigger]
            peers.queues.contains_key(client) && peers.queues[client] != Messages::none();
        let queue = queue_of(peers.queues, client);
        if queue.updates.len() == 0 && queue.mutations.len() == 0 {
            assert(queue =~= Messages::none());
        }
    }
}

/// Each client that is asked for has a context. One that had a context keeps it, and one that had
/// none gets a fresh one; nobody else gets one.
pub proof fn lemma_clients_get_contexts(
    contexts: Map<Entity, State>,
    clients: Set<Entity>,
    track_mutate_messages: bool,
    client: Entity,
    other: Entity,
)
    ensures
        with_clients(contexts, clients, track_mutate_messages).contains_key(other)
            <==> contexts.contains_key(other) || clients.contains(other),
        contexts.contains_key(other) ==> with_clients(
            contexts,
            clients,
            track_mutate_messages,
        )[other] == contexts[other],
        !contexts.contains_key(other) && clients.contains(other) ==> with_clients(
            contexts,
            clients,
            track_mutate_messages,
        )[other] == State::fresh(track_mutate_messages),
        with_client(contexts, client, track_mutate_messages) == with_clients(
            contexts,
            set![client],
            track_mutate_messages,
        ),
{
    assert(with_client(contexts, client, track_mutate_messages) =~= with_clients(
        contexts,
        set![client],
        track_mutate_messages,
    ));
}

} // verus!
