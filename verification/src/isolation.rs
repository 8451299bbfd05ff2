//! Clients of a server do not touch each other.

use vstd::prelude::*;

use crate::acknowledging::{
    acknowledgment, lemma_readable_mutations_are_acknowledged, readable_indices,
};
use crate::entity::Entity;
use crate::laws::{lemma_step_spawned, Reply};
use crate::message::read_update_header;
use crate::peers::{queue_of, with_client};
use crate::receiving::{Origin, Phase, Receiving};
use crate::serving::{ServerAction, Serving, ServingPhase};

verus! {

impl Serving {
    /// The server can be told this.
    pub open spec fn accepts(self, reply: Reply) -> bool {
        match self.phase {
            ServingPhase::Client { receiving, .. } => receiving.accepts(reply),
            _ => reply is Proceed,
        }
    }

    /// The step that the server takes when it is told this.
    pub open spec fn step(self, reply: Reply) -> (Serving, ServerAction<Seq<u8>, Seq<u8>>) {
        match reply {
            Reply::Proceed => self.proceed(),
            Reply::Inspected(info) => self.inspected(info),
            Reply::Spawned(entity) => self.spawned(entity),
            Reply::Despawned(existed) => self.despawned(existed),
            Reply::Written(outcome) => self.written(outcome),
            Reply::Referred { server_entity, client_entity } => (
                self.with_spawned(server_entity, client_entity),
                ServerAction::Proceed,
            ),
        }
    }

    /// Where the server is once it was told all this.
    pub open spec fn run(self, replies: Seq<Reply>) -> Serving
        decreases replies.len(),
    {
        if replies.len() == 0 {
            self
        } else {
            self.run(replies.drop_last()).step(replies.last()).0
        }
    }

    /// The server can be told all this, one after the other.
    pub open spec fn accepts_all(self, replies: Seq<Reply>) -> bool
        decreases replies.len(),
    {
        replies.len() > 0 ==> {
            &&& self.accepts_all(replies.drop_last())
            &&& self.run(replies.drop_last()).accepts(replies.last())
        }
    }

    /// No message of the client is received, or will be.
    pub open spec fn is_idle(self, client: Entity) -> bool {
        &&& !self.queue.contains(client)
        &&& self.phase matches ServingPhase::Client { client: current, .. } ==> current != client
    }
}

proof fn lemma_finished_stays(receiving: Receiving, reply: Reply)
    requires
        receiving.accepts(reply),
    ensures
        receiving.phase is Finished ==> receiving.step(reply).0.phase is Finished,
        receiving.step(reply).1 is Finished ==> receiving.step(reply).0.phase is Finished,
        receiving.step(reply).0.phase is Finished ==> receiving.phase is Finished
            || receiving.step(reply).1 is Finished,
{
}

/// The messages of a client are received as if there were no other client: the machine takes the
/// same steps as it would alone, and nothing else of the server changes until it is done.
pub proof fn lemma_client_is_received_alone(
    s: Serving,
    client: Entity,
    receiving: Receiving,
    replies: Seq<Reply>,
)
    requires
        s.phase == (ServingPhase::Client { client, receiving }),
        receiving.accepts_all(replies),
        !(receiving.run(replies).phase is Finished),
    ensures
        s.accepts_all(replies),
        s.run(replies) == (Serving {
            phase: ServingPhase::Client { client, receiving: receiving.run(replies) },
            ..s
        }),
    decreases replies.len(),
{
    if replies.len() > 0 {
        let before = replies.drop_last();
        lemma_finished_stays(receiving.run(before), replies.last());
        lemma_client_is_received_alone(s, client, receiving, before);
    }
}

proof fn lemma_step_leaves_idle(s: Serving, reply: Reply, other: Entity)
    requires
        s.is_idle(other),
        s.accepts(reply),
    ensures
        s.step(reply).0.is_idle(other),
        s.step(reply).0.contexts.get(other) == s.contexts.get(other),
{
    let next = s.step(reply).0;
    if s.phase is NextClient && s.queue.len() > 0 {
        assert(s.queue.contains(s.queue[0]));
        assert forall|i: int| 0 <= i < next.queue.len() implies next.queue[i] != other by {
            assert(s.queue.contains(s.queue[i + 1]));
        }
    }
}

/// Receiving from some clients changes nothing that is kept for another.
pub proof fn lemma_other_clients_are_untouched(s: Serving, replies: Seq<Reply>, other: Entity)
    requires
        s.is_idle(other),
        s.accepts_all(replies),
    ensures
        s.run(replies).is_idle(other),
        s.run(replies).contexts.get(other) == s.contexts.get(other),
    decreases replies.len(),
{
    if replies.len() > 0 {
        let before = replies.drop_last();
        lemma_other_clients_are_untouched(s, before, other);
        lemma_step_leaves_idle(s.run(before), replies.last(), other);
    }
}

impl Serving {
    /// The client's messages are still to be received, after those of other clients.
    pub open spec fn is_waiting(self, client: Entity) -> bool {
        &&& self.queue.contains(client)
        &&& self.queue.no_duplicates()
        &&& self.phase matches ServingPhase::Client { client: current, .. } ==> current != client
    }
}

proof fn lemma_step_leaves_waiting(s: Serving, reply: Reply, client: Entity)
    requires
        s.is_waiting(client),
        s.accepts(reply),
        s.step(reply).0.queue.contains(client),
    ensures
        s.step(reply).0.is_waiting(client),
        s.step(reply).0.contexts.get(client) == s.contexts.get(client),
        queue_of(s.step(reply).0.peers.queues, client) == queue_of(s.peers.queues, client),
        s.step(reply).0.channels == s.channels,
        s.step(reply).0.track_mutate_messages == s.track_mutate_messages,
{
    let next = s.step(reply).0;
    if s.phase is NextClient {
        let i = next.queue.index_of(client);
        assert(s.queue[i + 1] == client);
        assert(s.queue[0] != client);
        assert(next.queue.no_duplicates()) by {
            assert forall|a: int, b: int|
                0 <= a < next.queue.len() && 0 <= b < next.queue.len() && a
                    != b implies next.queue[a] != next.queue[b] by {
                assert(s.queue[a + 1] != s.queue[b + 1]);
            }
        }
    }
}

/// Clients do not come back once their turn has come.
proof fn lemma_queue_shrinks(s: Serving, reply: Reply, client: Entity)
    requires
        s.step(reply).0.queue.contains(client),
    ensures
        s.queue.contains(client),
{
    let next = s.step(reply).0;
    let i = next.queue.index_of(client);
    if s.phase is NextClient && reply is Proceed && s.queue.len() > 0 {
        assert(s.queue[i + 1] == client);
    } else {
        assert(s.queue[i] == client);
    }
}

/// Until its turn comes, a client's context and its messages are what they were, whatever the
/// clients before it sent.
pub proof fn lemma_waiting_clients_are_untouched(s: Serving, replies: Seq<Reply>, client: Entity)
    requires
        s.is_waiting(client),
        s.accepts_all(replies),
        s.run(replies).queue.contains(client),
    ensures
        s.run(replies).is_waiting(client),
        s.run(replies).contexts.get(client) == s.contexts.get(client),
        queue_of(s.run(replies).peers.queues, client) == queue_of(s.peers.queues, client),
        s.run(replies).channels == s.channels,
        s.run(replies).track_mutate_messages == s.track_mutate_messages,
    decreases replies.len(),
{
    if replies.len() > 0 {
        let before = replies.drop_last();
        lemma_queue_shrinks(s.run(before), replies.last(), client);
        lemma_waiting_clients_are_untouched(s, before, client);
        lemma_step_leaves_waiting(s.run(before), replies.last(), client);
    }
}

/// An update message without mappings by signature.
pub open spec fn maps_nothing(message: Seq<u8>) -> bool {
    match read_update_header(message) {
        Ok((header, _)) => !header.flags.mappings,
        Err(_) => true,
    }
}

impl Receiving {
    /// No mapping by signature is applied, or will be.
    pub open spec fn without_mappings(self) -> bool {
        &&& forall|i: int| 0 <= i < self.updates.len() ==> maps_nothing(#[trigger] self.updates[i])
        &&& self.phase matches Phase::NextArray { flags, .. } ==> !flags.mappings
        &&& self.origin() matches Some(Origin::Update { stage, rest, .. }) ==> !(stage is Mappings)
            && !rest.mappings
    }

    /// Both machines differ at most in what all clients share.
    pub open spec fn same_for_client(self, other: Receiving) -> bool {
        self == (Receiving { stats: self.stats, signatures: self.signatures, ..other })
    }
}

proof fn lemma_step_same_for_client(one: Receiving, other: Receiving, reply: Reply)
    requires
        one.same_for_client(other),
        one.without_mappings(),
        one.accepts(reply),
    ensures
        other.accepts(reply),
        one.step(reply).1 == other.step(reply).1,
        one.step(reply).0.same_for_client(other.step(reply).0),
        one.step(reply).0.without_mappings(),
{
    let next = one.step(reply).0;
    if one.phase is NextUpdate && reply is Proceed && one.updates.len() > 0 {
        assert(maps_nothing(one.updates[0]));
        assert forall|i: int| 0 <= i < next.updates.len() implies maps_nothing(
            #[trigger] next.updates[i],
        ) by {
            assert(next.updates[i] == one.updates[i + 1]);
        }
    }
}

/// Messages without mappings by signature are received in the same way whatever the clients
/// share: the same answers lead to the same actions, acknowledgments and context.
pub proof fn lemma_shared_state_does_not_matter(
    one: Receiving,
    other: Receiving,
    replies: Seq<Reply>,
)
    requires
        one.same_for_client(other),
        one.without_mappings(),
        one.accepts_all(replies),
    ensures
        other.accepts_all(replies),
        one.run(replies).same_for_client(other.run(replies)),
        one.run(replies).without_mappings(),
    decreases replies.len(),
{
    if replies.len() > 0 {
        let before = replies.drop_last();
        lemma_shared_state_does_not_matter(one, other, before);
        lemma_step_same_for_client(one.run(before), other.run(before), replies.last());
    }
}

impl Serving {
    /// It is the client's turn.
    pub open spec fn is_turn_of(self, client: Entity) -> bool {
        &&& self.phase is NextClient
        &&& self.queue.len() > 0
        &&& self.queue[0] == client
    }

    /// The machine that receives the client's messages, at its turn.
    pub open spec fn turn(self, client: Entity) -> Receiving {
        self.proceed().0.phase->receiving
    }

    /// The replies are those from the beginning of the client's messages to their end.
    pub open spec fn is_whole_turn(self, client: Entity, replies: Seq<Reply>) -> bool {
        &&& replies.len() > 0
        &&& self.turn(client).accepts_all(replies)
        &&& !(self.turn(client).run(replies.drop_last()).phase is Finished)
        &&& self.turn(client).run(replies).phase is Finished
    }

    /// What the server does at the end of the client's turn, with where it is then.
    pub open spec fn end_of_turn(self, replies: Seq<Reply>) -> (
        Serving,
        ServerAction<Seq<u8>, Seq<u8>>,
    ) {
        self.proceed().0.run(replies.drop_last()).step(replies.last())
    }
}

/// At the end of its turn a client's context is what its messages made of it. The client is sent
/// acknowledgments if and only if it sent a mutate message, and they are those of its messages.
pub proof fn lemma_turn_ends_with_acknowledgments(
    s: Serving,
    client: Entity,
    replies: Seq<Reply>,
)
    requires
        s.is_turn_of(client),
        s.is_whole_turn(client, replies),
    ensures
        ({
            let end = s.turn(client).run(replies);
            let messages = queue_of(s.peers.queues, client);
            let counted = with_client(
                s.contexts,
                client,
                s.track_mutate_messages,
            )[client].mutate_ticks is Some;
            &&& s.end_of_turn(replies).0.contexts.get(client) == Some(end.context.state())
            &&& s.end_of_turn(replies).0.phase is NextClient
            &&& s.end_of_turn(replies).1 == if messages.mutations.len() == 0 {
                ServerAction::<Seq<u8>, Seq<u8>>::Proceed
            } else {
                ServerAction::SendAcks {
                    client,
                    channel: s.channels.mutation_acks,
                    acks: acknowledgment(readable_indices(messages.mutations, counted)),
                }
            }
        }),
{
    let begun = s.proceed().0;
    let receiving = s.turn(client);
    let before = replies.drop_last();
    lemma_client_is_received_alone(begun, client, receiving, before);
    lemma_finished_stays(receiving.run(before), replies.last());
    lemma_readable_mutations_are_acknowledged(
        receiving.context,
        receiving.stats,
        receiving.signatures,
        receiving.updates,
        receiving.mutations,
        replies,
    );
}

/// What a client sends has no effect on another. Take two rounds that begin with the same context
/// and the same messages of a client, and may differ in all that other clients have and send. When
/// the client's turn comes, the same answers lead to the same context and the same
/// acknowledgments, if the client sends no mappings by signature.
///
/// Mappings are left out because all clients share the signatures: an entity that was despawned
/// for one client is no longer found by another.
pub proof fn lemma_clients_are_received_independently(
    one: Serving,
    before_one: Seq<Reply>,
    other: Serving,
    before_other: Seq<Reply>,
    client: Entity,
    replies: Seq<Reply>,
)
    requires
        one.is_waiting(client),
        other.is_waiting(client),
        one.contexts.get(client) == other.contexts.get(client),
        queue_of(one.peers.queues, client) == queue_of(other.peers.queues, client),
        one.channels == other.channels,
        one.track_mutate_messages == other.track_mutate_messages,
        forall|i: int|
            0 <= i < queue_of(one.peers.queues, client).updates.len() ==> maps_nothing(
                #[trigger] queue_of(one.peers.queues, client).updates[i],
            ),
        one.accepts_all(before_one),
        one.run(before_one).is_turn_of(client),
        other.accepts_all(before_other),
        other.run(before_other).is_turn_of(client),
        one.run(before_one).is_whole_turn(client, replies),
    ensures
        other.run(before_other).is_whole_turn(client, replies),
        one.run(before_one).end_of_turn(replies).0.contexts.get(client) == other.run(
            before_other,
        ).end_of_turn(replies).0.contexts.get(client),
        one.run(before_one).end_of_turn(replies).1 == other.run(before_other).end_of_turn(
            replies,
        ).1,
{
    let s = one.run(before_one);
    let t = other.run(before_other);
    assert(s.queue.contains(s.queue[0]));
    assert(t.queue.contains(t.queue[0]));
    lemma_waiting_clients_are_untouched(one, before_one, client);
    lemma_waiting_clients_are_untouched(other, before_other, client);
    assert(with_client(s.contexts, client, s.track_mutate_messages)[client] == with_client(
        t.contexts,
        client,
        t.track_mutate_messages,
    )[client]) by {
        assert(s.contexts.get(client) == t.contexts.get(client));
    }
    let a = s.turn(client);
    let b = t.turn(client);
    lemma_shared_state_does_not_matter(a, b, replies);
    lemma_shared_state_does_not_matter(a, b, replies.drop_last());
    lemma_turn_ends_with_acknowledgments(s, client, replies);
    lemma_turn_ends_with_acknowledgments(t, client, replies);
}

impl Serving {
    /// The entities that were spawned for a client.
    pub open spec fn spawned_for(self, client: Entity) -> Set<Entity> {
        match self.phase {
            ServingPhase::Client { client: current, receiving } if current == client =>
                receiving.context.spawned->Some_0,
            _ => if self.contexts.contains_key(client) {
                self.contexts[client].spawned
            } else {
                Set::empty()
            },
        }
    }

    /// No entity was spawned for two clients.
    pub open spec fn apart(self) -> bool {
        forall|one: Entity, other: Entity, entity: Entity|
            one != other && #[trigger] self.spawned_for(one).contains(entity)
                ==> !#[trigger] self.spawned_for(other).contains(entity)
    }

    /// If the caller spawned an entity, it was not spawned for a client before.
    pub open spec fn is_new(self, reply: Reply) -> bool {
        match reply {
            Reply::Spawned(entity) => forall|client: Entity|
                !#[trigger] self.spawned_for(client).contains(entity),
            Reply::Referred { client_entity, .. } => forall|client: Entity|
                !#[trigger] self.spawned_for(client).contains(client_entity),
            _ => true,
        }
    }

    /// All entities that the caller spawned were new.
    pub open spec fn all_new(self, replies: Seq<Reply>) -> bool
        decreases replies.len(),
    {
        replies.len() > 0 ==> {
            &&& self.all_new(replies.drop_last())
            &&& self.run(replies.drop_last()).is_new(replies.last())
        }
    }
}

/// A step spawns nothing for a client but the new entity.
proof fn lemma_step_keeps_apart(s: Serving, reply: Reply)
    requires
        s.at_home(),
        s.apart(),
        s.accepts(reply),
        s.is_new(reply),
    ensures
        s.step(reply).0.at_home(),
        s.step(reply).0.apart(),
{
    let next = s.step(reply).0;
    match s.phase {
        ServingPhase::Client { client, receiving } => {
            lemma_step_spawned(receiving, reply);
            assert forall|other: Entity| other != client implies #[trigger] next.spawned_for(other)
                == s.spawned_for(other) by {}
            assert(next.spawned_for(client) == receiving.step(reply).0.context.spawned->Some_0);
            assert forall|one: Entity, other: Entity, entity: Entity|
                one != other && #[trigger] next.spawned_for(one).contains(
                    entity,
                ) implies !#[trigger] next.spawned_for(other).contains(entity) by {
                if s.spawned_for(one).contains(entity) {
                    assert(!s.spawned_for(other).contains(entity));
                }
                if s.spawned_for(other).contains(entity) {
                    assert(!s.spawned_for(one).contains(entity));
                }
            }
        },
        _ => {
            assert forall|other: Entity| #[trigger] next.spawned_for(other) == s.spawned_for(
                other,
            ) by {}
        },
    }
}

/// No entity is spawned for two clients, if what the caller spawns is new. So what goes when a
/// client disconnects was received from that client alone.
pub proof fn lemma_clients_spawn_apart(s: Serving, replies: Seq<Reply>)
    requires
        s.at_home(),
        s.apart(),
        s.accepts_all(replies),
        s.all_new(replies),
    ensures
        s.run(replies).at_home(),
        s.run(replies).apart(),
    decreases replies.len(),
{
    if replies.len() > 0 {
        let before = replies.drop_last();
        lemma_clients_spawn_apart(s, before);
        lemma_step_keeps_apart(s.run(before), replies.last());
    }
}

} // verus!
