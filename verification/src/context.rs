//! State that is kept for one sender while its messages are received.

use bevy::ecs::entity::EntityHashSet;
use bytes::Bytes;
use vstd::prelude::*;

use crate::client::ServerUpdateTick;
use crate::entity::Entity;
use crate::entity_map::{members, set_insert, set_into_vec, set_new, EntityMap};
use crate::mutate_ticks::{MutateTicks, ServerMutateTicks};
use crate::tick::RepliconTick;
use crate::wire::contents;

verus! {

/// Entities of this side by the sender's entities that they stand for.
pub struct ServerEntityMap {
    to_client: EntityMap<Entity>,
}

impl View for ServerEntityMap {
    type V = Map<Entity, Entity>;

    closed spec fn view(&self) -> Map<Entity, Entity> {
        self.to_client@
    }
}

impl ServerEntityMap {
    pub closed spec fn wf(&self) -> bool {
        self.to_client.wf()
    }

    /// A map without entities.
    pub fn new() -> (fresh: ServerEntityMap)
        ensures
            fresh.wf(),
            fresh@ == Map::<Entity, Entity>::empty(),
    {
        ServerEntityMap { to_client: EntityMap::new() }
    }

    /// The entity that stands for the sender's entity.
    pub fn get(&self, server_entity: Entity) -> (client_entity: Option<Entity>)
        requires
            self.wf(),
        ensures
            client_entity == self@.get(server_entity),
    {
        match self.to_client.get(server_entity) {
            Some(client_entity) => Some(*client_entity),
            None => None,
        }
    }

    /// Lets an entity stand for the sender's entity.
    pub fn insert(&mut self, server_entity: Entity, client_entity: Entity)
        requires
            old(self).wf(),
        ensures
            final(self).wf(),
            final(self)@ == old(self)@.insert(server_entity, client_entity),
    {
        self.to_client.insert(server_entity, client_entity);
    }

    /// Lets nothing stand for the sender's entity; what did comes back.
    pub fn remove(&mut self, server_entity: Entity) -> (client_entity: Option<Entity>)
        requires
            old(self).wf(),
        ensures
            final(self).wf(),
            final(self)@ == old(self)@.remove(server_entity),
            client_entity == old(self)@.get(server_entity),
    {
        self.to_client.remove(server_entity)
    }

    /// Forgets all entities.
    pub fn clear(&mut self)
        ensures
            final(self).wf(),
            final(self)@ == Map::<Entity, Entity>::empty(),
    {
        self.to_client.clear();
    }
}

/// Mutate message that waits for its update tick to appear in an update message.
///
/// What was read of it stands beside the bytes that are left.
pub struct BufferedMutate<B> {
    pub update_tick: RepliconTick,
    pub message_tick: RepliconTick,
    pub messages_count: usize,
    pub message: B,
}

impl View for BufferedMutate<Bytes> {
    type V = BufferedMutate<Seq<u8>>;

    open spec fn view(&self) -> BufferedMutate<Seq<u8>> {
        BufferedMutate {
            update_tick: self.update_tick,
            message_tick: self.message_tick,
            messages_count: self.messages_count,
            message: contents(self.message),
        }
    }
}

/// Mutate messages that wait, the latest first.
pub struct BufferedMutations(pub Vec<BufferedMutate<Bytes>>);

impl View for BufferedMutations {
    type V = Seq<BufferedMutate<Seq<u8>>>;

    open spec fn view(&self) -> Seq<BufferedMutate<Seq<u8>>> {
        self.0@.map_values(|mutation: BufferedMutate<Bytes>| mutation@)
    }
}

/// How many messages at the start of the buffer are later than the tick.
pub open spec fn later_messages(
    buffered: Seq<BufferedMutate<Seq<u8>>>,
    tick: RepliconTick,
) -> int
    decreases buffered.len(),
{
    if buffered.len() > 0 && tick.before(buffered[0].message_tick) {
        1 + later_messages(buffered.skip(1), tick)
    } else {
        0
    }
}

/// The buffer with one more message: behind those at its start that are later.
pub open spec fn with_mutation(
    buffered: Seq<BufferedMutate<Seq<u8>>>,
    mutation: BufferedMutate<Seq<u8>>,
) -> Seq<BufferedMutate<Seq<u8>>> {
    buffered.insert(later_messages(buffered, mutation.message_tick), mutation)
}

/// No message comes before a later one.
pub open spec fn latest_first(buffered: Seq<BufferedMutate<Seq<u8>>>) -> bool {
    forall|i: int, j: int|
        0 <= i < j < buffered.len()
            ==> !(#[trigger] buffered[i]).message_tick.before((#[trigger] buffered[j]).message_tick)
}

/// The ticks of all messages lie in one half of the range, from this tick on.
pub open spec fn comparable_from(
    buffered: Seq<BufferedMutate<Seq<u8>>>,
    base: RepliconTick,
) -> bool {
    forall|i: int|
        0 <= i < buffered.len() ==> (#[trigger] buffered[i]).message_tick.distance(base)
            < 0x8000_0000
}

/// The messages counted by [`later_messages`] are later, and the one behind them is not.
pub proof fn lemma_later_messages(buffered: Seq<BufferedMutate<Seq<u8>>>, tick: RepliconTick)
    ensures
        0 <= later_messages(buffered, tick) <= buffered.len(),
        forall|i: int|
            0 <= i < later_messages(buffered, tick) ==> tick.before(
                (#[trigger] buffered[i]).message_tick,
            ),
        later_messages(buffered, tick) < buffered.len() ==> !tick.before(
            buffered[later_messages(buffered, tick)].message_tick,
        ),
    decreases buffered.len(),
{
    if buffered.len() > 0 && tick.before(buffered[0].message_tick) {
        lemma_later_messages(buffered.skip(1), tick);
        assert forall|i: int| 0 <= i < later_messages(buffered, tick) implies tick.before(
            (#[trigger] buffered[i]).message_tick,
        ) by {
            if i > 0 {
                assert(buffered[i] == buffered.skip(1)[i - 1]);
            }
        }
    }
}

/// A buffer that has its latest messages first still has once a message is put in.
///
/// The ticks must be comparable: of ticks more than half the range apart none comes first.
pub proof fn lemma_latest_first(
    buffered: Seq<BufferedMutate<Seq<u8>>>,
    mutation: BufferedMutate<Seq<u8>>,
    base: RepliconTick,
)
    requires
        latest_first(buffered),
        comparable_from(buffered.push(mutation), base),
    ensures
        latest_first(with_mutation(buffered, mutation)),
        comparable_from(with_mutation(buffered, mutation), base),
{
    let tick = mutation.message_tick;
    let at = later_messages(buffered, tick);
    let after = with_mutation(buffered, mutation);
    lemma_later_messages(buffered, tick);
    assert(buffered.push(mutation)[buffered.len() as int] == mutation);
    assert forall|i: int| 0 <= i < buffered.len() implies (#[trigger] buffered[i]).message_tick.distance(
        base,
    ) < 0x8000_0000 by {
        assert(buffered.push(mutation)[i] == buffered[i]);
    }
    assert forall|i: int| 0 <= i < after.len() implies (#[trigger] after[i]).message_tick.distance(
        base,
    ) < 0x8000_0000 by {
        if i < at {
            assert(after[i] == buffered[i]);
        } else if i > at {
            assert(after[i] == buffered[i - 1]);
        }
    }
    assert forall|i: int, j: int| 0 <= i < j < after.len() implies !(
    #[trigger] after[i]).message_tick.before((#[trigger] after[j]).message_tick) by {
        if i < at {
            assert(after[i] == buffered[i]);
        } else if i > at {
            assert(after[i] == buffered[i - 1]);
        }
        if j < at {
            assert(after[j] == buffered[j]);
        } else if j > at {
            assert(after[j] == buffered[j - 1]);
        }
        if i == at {
            assert(after[at] == mutation);
            assert(!tick.before(buffered[at].message_tick));
            assert(!buffered[at].message_tick.before(buffered[j - 1].message_tick) || at == j - 1);
        }
    }
}

impl BufferedMutations {
    /// A buffer without messages.
    pub fn new() -> (fresh: BufferedMutations)
        ensures
            fresh@ == Seq::<BufferedMutate<Seq<u8>>>::empty(),
    {
        let fresh = BufferedMutations(Vec::new());
        assert(fresh@ =~= Seq::<BufferedMutate<Seq<u8>>>::empty());
        fresh
    }

    /// Forgets all messages.
    pub fn clear(&mut self)
        ensures
            final(self)@ == Seq::<BufferedMutate<Seq<u8>>>::empty(),
    {
        self.0.clear();
        assert(self@ =~= Seq::<BufferedMutate<Seq<u8>>>::empty());
    }

    /// Puts a message behind those that are later.
    pub fn insert(&mut self, mutation: BufferedMutate<Bytes>)
        ensures
            final(self)@ == with_mutation(old(self)@, mutation@),
    {
        let mut index: usize = 0;
        assert(self@.skip(0) =~= self@);
        while index < self.0.len() && mutation.message_tick.is_before(self.0[index].message_tick)
            invariant
                index <= self.0@.len(),
                self@.len() == self.0@.len(),
                self@ == old(self)@,
                later_messages(self@, mutation.message_tick) == index + later_messages(
                    self@.skip(index as int),
                    mutation.message_tick,
                ),
            ensures
                index <= self.0@.len(),
                self@ == old(self)@,
                later_messages(self@, mutation.message_tick) == index,
            decreases self.0@.len() - index,
        {
            assert(self@.skip(index as int).skip(1) =~= self@.skip(index + 1));
            index = index + 1;
        }
        self.0.insert(index, mutation);
        assert(self@ =~= old(self)@.insert(index as int, mutation@));
    }

    /// Takes out the messages whose update tick is not later than the given one, in their order.
    pub fn take_ready(&mut self, update_tick: RepliconTick) -> (ready: BufferedMutations)
        ensures
            ready@ == ready_messages(old(self)@, update_tick),
            final(self)@ == waiting_messages(old(self)@, update_tick),
    {
        let mut ready = BufferedMutations::new();
        let mut waiting = BufferedMutations::new();
        let ghost mut done: int = 0;
        proof {
            reveal(Seq::filter);
            assert(self@.take(0) =~= Seq::empty());
            assert(self@.skip(0) =~= self@);
        }
        while self.0.len() > 0
            invariant
                0 <= done <= old(self)@.len(),
                self@ == old(self)@.skip(done),
                ready@ == ready_messages(old(self)@.take(done), update_tick),
                waiting@ == waiting_messages(old(self)@.take(done), update_tick),
            decreases self.0@.len(),
        {
            let ghost ready_before = ready@;
            let ghost waiting_before = waiting@;
            let ghost left = self@;
            let mutation = self.0.remove(0);
            let ghost model = mutation@;
            proof {
                assert(left.len() > 0 && left[0] == model);
                assert(old(self)@.take(done + 1).drop_last() =~= old(self)@.take(done));
                assert(old(self)@.take(done + 1).last() == model);
                lemma_split_last(old(self)@.take(done + 1), update_tick);
                assert(self@ =~= left.skip(1));
                assert(left.skip(1) =~= old(self)@.skip(done + 1));
                done = done + 1;
            }
            if mutation.update_tick.is_after(update_tick) {
                waiting.0.push(mutation);
                assert(waiting@ =~= waiting_before.push(model));
            } else {
                ready.0.push(mutation);
                assert(ready@ =~= ready_before.push(model));
            }
        }
        assert(old(self)@.take(done) =~= old(self)@);
        *self = waiting;
        ready
    }

    /// Takes out the first message.
    pub fn take_first(&mut self) -> (first: Option<BufferedMutate<Bytes>>)
        ensures
            match first {
                Some(first) => old(self)@.len() > 0 && first@ == old(self)@[0] && final(self)@
                    == old(self)@.skip(1),
                None => old(self)@.len() == 0 && final(self)@ == old(self)@,
            },
    {
        if self.0.len() == 0 {
            None
        } else {
            let first = self.0.remove(0);
            assert(first@ == old(self)@[0]);
            assert(self@ =~= old(self)@.skip(1));
            Some(first)
        }
    }
}

/// The messages whose update tick is not later than the given one, in their order.
pub open spec fn ready_messages(
    buffered: Seq<BufferedMutate<Seq<u8>>>,
    update_tick: RepliconTick,
) -> Seq<BufferedMutate<Seq<u8>>> {
    buffered.filter(|mutation: BufferedMutate<Seq<u8>>| !mutation.update_tick.after(update_tick))
}

/// The messages whose update tick is later than the given one, in their order.
pub open spec fn waiting_messages(
    buffered: Seq<BufferedMutate<Seq<u8>>>,
    update_tick: RepliconTick,
) -> Seq<BufferedMutate<Seq<u8>>> {
    buffered.filter(|mutation: BufferedMutate<Seq<u8>>| mutation.update_tick.after(update_tick))
}

/// Whether the last message of the buffer is ready decides where it goes.
pub proof fn lemma_split_last(buffered: Seq<BufferedMutate<Seq<u8>>>, update_tick: RepliconTick)
    requires
        buffered.len() > 0,
    ensures
        ready_messages(buffered, update_tick) == if buffered.last().update_tick.after(update_tick) {
            ready_messages(buffered.drop_last(), update_tick)
        } else {
            ready_messages(buffered.drop_last(), update_tick).push(buffered.last())
        },
        waiting_messages(buffered, update_tick) == if buffered.last().update_tick.after(
            update_tick,
        ) {
            waiting_messages(buffered.drop_last(), update_tick).push(buffered.last())
        } else {
            waiting_messages(buffered.drop_last(), update_tick)
        },
{
    reveal(Seq::filter);
}

/// A buffer that has its latest messages first is applied the latest first, and what is left of it
/// still has them first.
pub proof fn lemma_latest_ready_first(
    buffered: Seq<BufferedMutate<Seq<u8>>>,
    update_tick: RepliconTick,
)
    requires
        latest_first(buffered),
    ensures
        latest_first(ready_messages(buffered, update_tick)),
        latest_first(waiting_messages(buffered, update_tick)),
    decreases buffered.len(),
{
    reveal(Seq::filter);
    if buffered.len() > 0 {
        let front = buffered.drop_last();
        let ready = ready_messages(front, update_tick);
        let waiting = waiting_messages(front, update_tick);
        assert(latest_first(front)) by {
            assert forall|i: int, j: int| 0 <= i < j < front.len() implies !(
            #[trigger] front[i]).message_tick.before((#[trigger] front[j]).message_tick) by {
                assert(!buffered[i].message_tick.before(buffered[j].message_tick));
            }
        }
        lemma_latest_ready_first(front, update_tick);
        lemma_split_last(buffered, update_tick);
        assert forall|i: int| 0 <= i < ready.len() implies !(
        #[trigger] ready[i]).message_tick.before(buffered.last().message_tick) by {
            assert(ready.contains(ready[i]));
            front.lemma_filter_contains_rev(
                |mutation: BufferedMutate<Seq<u8>>| !mutation.update_tick.after(update_tick),
                ready[i],
            );
            let k = front.index_of(ready[i]);
            assert(buffered[k] == ready[i]);
        }
        assert forall|i: int| 0 <= i < waiting.len() implies !(
        #[trigger] waiting[i]).message_tick.before(buffered.last().message_tick) by {
            assert(waiting.contains(waiting[i]));
            front.lemma_filter_contains_rev(
                |mutation: BufferedMutate<Seq<u8>>| mutation.update_tick.after(update_tick),
                waiting[i],
            );
            let k = front.index_of(waiting[i]);
            assert(buffered[k] == waiting[i]);
        }
    }
}

/// State of one sender: a client's only one, or a server's for a client that sends to it.
pub struct ReceiveContext {
    pub entity_map: ServerEntityMap,
    pub update_tick: ServerUpdateTick,
    pub buffered_mutations: BufferedMutations,
    pub mutate_ticks: Option<ServerMutateTicks>,
    /// The client that sends, on a server.
    pub source: Option<Entity>,
    /// The entities that were spawned for the client, on a server.
    pub spawned_entities: Option<EntityHashSet>,
}

/// What a [`ReceiveContext`] holds.
#[verifier::ext_equal]
pub struct Context {
    pub entity_map: Map<Entity, Entity>,
    pub update_tick: RepliconTick,
    pub buffered: Seq<BufferedMutate<Seq<u8>>>,
    pub mutate_ticks: Option<MutateTicks>,
    pub source: Option<Entity>,
    pub spawned: Option<Set<Entity>>,
}

/// What is known of mutate messages, where they are tracked.
pub open spec fn ticks_view(mutate_ticks: Option<ServerMutateTicks>) -> Option<MutateTicks> {
    match mutate_ticks {
        Some(mutate_ticks) => Some(mutate_ticks@),
        None => None,
    }
}

impl View for ReceiveContext {
    type V = Context;

    open spec fn view(&self) -> Context {
        Context {
            entity_map: self.entity_map@,
            update_tick: self.update_tick.0,
            buffered: self.buffered_mutations@,
            mutate_ticks: ticks_view(self.mutate_ticks),
            source: self.source,
            spawned: match self.spawned_entities {
                Some(entities) => Some(members(entities)),
                None => None,
            },
        }
    }
}

impl ReceiveContext {
    pub open spec fn wf(&self) -> bool {
        &&& self.entity_map.wf()
        &&& self.mutate_ticks matches Some(mutate_ticks) ==> mutate_ticks.wf()
    }

    /// A client's only context.
    pub fn from_server(
        entity_map: ServerEntityMap,
        update_tick: ServerUpdateTick,
        buffered_mutations: BufferedMutations,
        mutate_ticks: Option<ServerMutateTicks>,
    ) -> (context: ReceiveContext)
        requires
            entity_map.wf(),
            mutate_ticks matches Some(mutate_ticks) ==> mutate_ticks.wf(),
        ensures
            context.wf(),
            context@ == (Context {
                entity_map: entity_map@,
                update_tick: update_tick.0,
                buffered: buffered_mutations@,
                mutate_ticks: ticks_view(mutate_ticks),
                source: None,
                spawned: None,
            }),
    {
        ReceiveContext {
            entity_map,
            update_tick,
            buffered_mutations,
            mutate_ticks,
            source: None,
            spawned_entities: None,
        }
    }

    /// Notes that an entity was spawned for the sender's entity.
    pub fn record_spawned(&mut self, server_entity: Entity, client_entity: Entity)
        requires
            old(self).wf(),
        ensures
            final(self).wf(),
            final(self)@ == old(self)@.with_spawned(server_entity, client_entity),
    {
        self.entity_map.insert(server_entity, client_entity);
        proof {
            use_type_invariant(&client_entity);
        }
        if let Some(entities) = &mut self.spawned_entities {
            set_insert(entities, client_entity);
        }
    }
}

impl Context {
    /// What is kept of a server's context once its messages are received.
    pub open spec fn state(self) -> State {
        State {
            entity_map: self.entity_map,
            update_tick: self.update_tick,
            buffered: self.buffered,
            mutate_ticks: self.mutate_ticks,
            spawned: self.spawned->Some_0,
        }
    }

    /// With an entity that was spawned for the sender's entity.
    pub open spec fn with_spawned(self, server_entity: Entity, client_entity: Entity) -> Context {
        Context {
            entity_map: self.entity_map.insert(server_entity, client_entity),
            spawned: match self.spawned {
                Some(entities) => Some(entities.insert(client_entity)),
                None => None,
            },
            ..self
        }
    }
}

/// State that a server keeps for a client that sends to it.
pub struct ReceiveState {
    entity_map: ServerEntityMap,
    update_tick: ServerUpdateTick,
    buffered_mutations: BufferedMutations,
    mutate_ticks: Option<ServerMutateTicks>,
    spawned_entities: EntityHashSet,
}

/// What a [`ReceiveState`] holds.
#[verifier::ext_equal]
pub struct State {
    pub entity_map: Map<Entity, Entity>,
    pub update_tick: RepliconTick,
    pub buffered: Seq<BufferedMutate<Seq<u8>>>,
    pub mutate_ticks: Option<MutateTicks>,
    pub spawned: Set<Entity>,
}

impl State {
    /// Nothing was received.
    pub open spec fn fresh(track_mutate_messages: bool) -> State {
        State {
            entity_map: Map::empty(),
            update_tick: RepliconTick(0),
            buffered: Seq::empty(),
            mutate_ticks: if track_mutate_messages {
                Some(MutateTicks::none())
            } else {
                None
            },
            spawned: Set::empty(),
        }
    }

    /// As the context of messages from this client.
    pub open spec fn context(self, source: Entity) -> Context {
        Context {
            entity_map: self.entity_map,
            update_tick: self.update_tick,
            buffered: self.buffered,
            mutate_ticks: self.mutate_ticks,
            source: Some(source),
            spawned: Some(self.spawned),
        }
    }
}

impl View for ReceiveState {
    type V = State;

    closed spec fn view(&self) -> State {
        State {
            entity_map: self.entity_map@,
            update_tick: self.update_tick.0,
            buffered: self.buffered_mutations@,
            mutate_ticks: ticks_view(self.mutate_ticks),
            spawned: members(self.spawned_entities),
        }
    }
}

impl ReceiveState {
    pub closed spec fn wf(&self) -> bool {
        &&& self.entity_map.wf()
        &&& self.mutate_ticks matches Some(mutate_ticks) ==> mutate_ticks.wf()
    }

    /// State of a client from which nothing was received.
    pub fn new(track_mutate_messages: bool) -> (state: ReceiveState)
        ensures
            state.wf(),
            state@ == State::fresh(track_mutate_messages),
    {
        let mutate_ticks = if track_mutate_messages {
            Some(ServerMutateTicks::new())
        } else {
            None
        };
        ReceiveState {
            entity_map: ServerEntityMap::new(),
            update_tick: ServerUpdateTick(RepliconTick(0)),
            buffered_mutations: BufferedMutations::new(),
            mutate_ticks,
            spawned_entities: set_new(),
        }
    }

    /// The context for messages from this client.
    pub fn into_context(self, source: Entity) -> (context: ReceiveContext)
        requires
            self.wf(),
        ensures
            context.wf(),
            context@ == self@.context(source),
    {
        ReceiveContext {
            entity_map: self.entity_map,
            update_tick: self.update_tick,
            buffered_mutations: self.buffered_mutations,
            mutate_ticks: self.mutate_ticks,
            source: Some(source),
            spawned_entities: Some(self.spawned_entities),
        }
    }

    /// The state that is left once the messages of a context are received.
    pub fn from_context(context: ReceiveContext) -> (state: ReceiveState)
        requires
            context.wf(),
            context.spawned_entities is Some,
        ensures
            state.wf(),
            state@ == context@.state(),
    {
        ReceiveState {
            entity_map: context.entity_map,
            update_tick: context.update_tick,
            buffered_mutations: context.buffered_mutations,
            mutate_ticks: context.mutate_ticks,
            spawned_entities: context.spawned_entities.unwrap(),
        }
    }

    /// What is known of mutate messages, where they are tracked.
    pub fn mutate_ticks(&self) -> (mutate_ticks: Option<&ServerMutateTicks>)
        requires
            self.wf(),
        ensures
            match mutate_ticks {
                Some(mutate_ticks) => mutate_ticks.wf() && self@.mutate_ticks == Some(
                    mutate_ticks@,
                ),
                None => self@.mutate_ticks is None,
            },
    {
        self.mutate_ticks.as_ref()
    }

    /// The entities that were spawned for the client, each once.
    pub fn into_spawned_entities(self) -> (entities: Vec<Entity>)
        ensures
            entities@.no_duplicates(),
            entities@.to_set() == self@.spawned,
    {
        set_into_vec(self.spawned_entities)
    }
}

/// Buffering a message loses none and invents none: the buffer holds what it held, each message as
/// often as before, and the new one besides.
pub proof fn lemma_buffering_adds_one(
    buffered: Seq<BufferedMutate<Seq<u8>>>,
    mutation: BufferedMutate<Seq<u8>>,
)
    ensures
        with_mutation(buffered, mutation).to_multiset() == buffered.to_multiset().insert(mutation),
        with_mutation(buffered, mutation).len() == buffered.len() + 1,
{
    let after = with_mutation(buffered, mutation);
    let at = later_messages(buffered, mutation.message_tick);
    lemma_later_messages(buffered, mutation.message_tick);
    assert(after[at] == mutation);
    assert(after.remove(at) =~= buffered);
    vstd::seq_lib::to_multiset_remove(after, at);
    after.to_multiset_ensures();
    assert(after.contains(mutation));
    assert(after.to_multiset().remove(mutation).insert(mutation) =~= after.to_multiset());
}

/// A new message stands behind those at the start of the buffer that are later than it, and before
/// one that is not. The others keep their order.
pub proof fn lemma_buffered_behind_later_ones(
    buffered: Seq<BufferedMutate<Seq<u8>>>,
    mutation: BufferedMutate<Seq<u8>>,
)
    ensures
        exists|at: int|
            {
                &&& 0 <= at <= buffered.len()
                &&& with_mutation(buffered, mutation) == buffered.take(at).push(mutation)
                    + #[trigger] buffered.skip(at)
                &&& forall|i: int|
                    0 <= i < at ==> mutation.message_tick.before(
                        (#[trigger] buffered[i]).message_tick,
                    )
                &&& at < buffered.len() ==> !mutation.message_tick.before(
                    buffered[at].message_tick,
                )
            },
{
    let at = later_messages(buffered, mutation.message_tick);
    lemma_later_messages(buffered, mutation.message_tick);
    assert(with_mutation(buffered, mutation) =~= buffered.take(at).push(mutation) + buffered.skip(
        at,
    ));
}

/// Every message of the buffer is either ready or waits, as often as it is there.
pub proof fn lemma_split_loses_nothing(
    buffered: Seq<BufferedMutate<Seq<u8>>>,
    update_tick: RepliconTick,
)
    ensures
        ready_messages(buffered, update_tick).to_multiset().add(
            waiting_messages(buffered, update_tick).to_multiset(),
        ) == buffered.to_multiset(),
    decreases buffered.len(),
{
    reveal(Seq::filter);
    if buffered.len() == 0 {
        buffered.to_multiset_ensures();
        assert(ready_messages(buffered, update_tick) =~= buffered);
        assert(waiting_messages(buffered, update_tick) =~= buffered);
        assert(buffered.to_multiset() =~= vstd::multiset::Multiset::empty());
        assert(buffered.to_multiset().add(buffered.to_multiset()) =~= buffered.to_multiset());
    } else {
        let front = buffered.drop_last();
        let ready = ready_messages(front, update_tick);
        let waiting = waiting_messages(front, update_tick);
        lemma_split_loses_nothing(front, update_tick);
        lemma_split_last(buffered, update_tick);
        assert(front.push(buffered.last()) =~= buffered);
        vstd::seq_lib::to_multiset_build(front, buffered.last());
        vstd::seq_lib::to_multiset_build(ready, buffered.last());
        vstd::seq_lib::to_multiset_build(waiting, buffered.last());
        assert(ready_messages(buffered, update_tick).to_multiset().add(
            waiting_messages(buffered, update_tick).to_multiset(),
        ) =~= buffered.to_multiset());
    }
}

/// A message is ready if and only if it is in the buffer and its update tick is not later than the
/// given one. It waits if and only if it is in the buffer and its update tick is later.
pub proof fn lemma_ready_or_waiting(
    buffered: Seq<BufferedMutate<Seq<u8>>>,
    update_tick: RepliconTick,
    mutation: BufferedMutate<Seq<u8>>,
)
    ensures
        ready_messages(buffered, update_tick).contains(mutation) <==> buffered.contains(mutation)
            && !mutation.update_tick.after(update_tick),
        waiting_messages(buffered, update_tick).contains(mutation) <==> buffered.contains(mutation)
            && mutation.update_tick.after(update_tick),
        buffered.len() == 0 ==> ready_messages(buffered, update_tick).len() == 0
            && waiting_messages(buffered, update_tick).len() == 0,
    decreases buffered.len(),
{
    reveal(Seq::filter);
    if buffered.len() > 0 {
        let front = buffered.drop_last();
        let last = buffered.last();
        lemma_ready_or_waiting(front, update_tick, mutation);
        lemma_split_last(buffered, update_tick);
        broadcast use vstd::seq_lib::group_seq_properties;

        assert(front.push(last) =~= buffered);
    }
}

/// What is kept of a client between two rounds is all of its context: every part is what it was at
/// the end of the turn.
pub proof fn lemma_all_of_a_context_is_kept(context: Context)
    requires
        context.spawned is Some,
    ensures
        context.state().entity_map == context.entity_map,
        context.state().update_tick == context.update_tick,
        context.state().buffered == context.buffered,
        context.state().mutate_ticks == context.mutate_ticks,
        Some(context.state().spawned) == context.spawned,
{
}

/// The context of a client's messages has every part of what was kept, and whose messages they are.
/// Once it is kept again, nothing has changed.
pub proof fn lemma_kept_state_becomes_the_context(state: State, source: Entity)
    ensures
        state.context(source).entity_map == state.entity_map,
        state.context(source).update_tick == state.update_tick,
        state.context(source).buffered == state.buffered,
        state.context(source).mutate_ticks == state.mutate_ticks,
        state.context(source).spawned == Some(state.spawned),
        state.context(source).source == Some(source),
        state.context(source).state() == state,
{
}

/// The state that is kept of a client gives back the very context that its turn ended with.
pub proof fn lemma_context_comes_back(context: Context, source: Entity)
    requires
        context.source == Some(source),
        context.spawned is Some,
    ensures
        context.state().context(source) == context,
{
}

/// A client from which nothing was received has no entities, no waiting messages and the first
/// tick. Ticks are tracked if that was asked for, and nothing arrived of them.
pub proof fn lemma_fresh_state(track_mutate_messages: bool)
    ensures
        ({
            let fresh = State::fresh(track_mutate_messages);
            &&& forall|entity: Entity| !#[trigger] fresh.entity_map.contains_key(entity)
            &&& fresh.update_tick == RepliconTick(0)
            &&& fresh.buffered.len() == 0
            &&& forall|entity: Entity| !#[trigger] fresh.spawned.contains(entity)
            &&& fresh.mutate_ticks is Some <==> track_mutate_messages
            &&& fresh.mutate_ticks matches Some(ticks) ==> {
                &&& ticks.last_tick == RepliconTick(0)
                &&& ticks.slots.len() == 64
                &&& forall|i: int|
                    0 <= i < 64 ==> (#[trigger] ticks.slots[i]).received == 0
                        && ticks.slots[i].count == 0
            }
        }),
{
}

/// An entity that was spawned stands for the sender's entity from then on, and is known to have
/// been spawned where that is kept. What stands for others, and all else, stays as it was.
pub proof fn lemma_spawned_entity_is_noted(
    context: Context,
    server_entity: Entity,
    client_entity: Entity,
)
    ensures
        ({
            let after = context.with_spawned(server_entity, client_entity);
            &&& after.entity_map == context.entity_map.insert(server_entity, client_entity)
            &&& after.spawned is Some <==> context.spawned is Some
            &&& context.spawned matches Some(known) ==> after.spawned == Some(
                known.insert(client_entity),
            )
            &&& after.update_tick == context.update_tick
            &&& after.buffered == context.buffered
            &&& after.mutate_ticks == context.mutate_ticks
            &&& after.source == context.source
        }),
{
}

} // verus!
