//! What holds of receiving, whatever a sender sends and whatever the caller answers.

use vstd::prelude::*;

use crate::client::ClientReplicationStats;
use crate::confirm_history::ConfirmHistory;
use crate::context::{
    comparable_from, latest_first, lemma_latest_first, lemma_latest_ready_first, waiting_messages,
    with_mutation, BufferedMutate, Context,
};
use crate::entity::Entity;
use crate::message::{read_block_header, read_mutate_header, read_update_header, Stage};
use crate::receiving::{
    confirm_tick, decide_mutations, Action, Cursor, Decision, EntityInfo, Origin, Phase,
    ReceiveError, Receiving,
};
use crate::replication::{RemoteEntity, ReplicatedFrom};
use crate::tick::RepliconTick;
use crate::wire::read_entity;

verus! {

/// What a caller can tell the machine.
pub enum Reply {
    /// It did what it was asked to.
    Proceed,
    /// It looked at an entity.
    Inspected(Option<EntityInfo>),
    /// It spawned an entity.
    Spawned(Entity),
    /// It despawned an entity, or the entity no longer existed.
    Despawned(bool),
    /// It wrote a component, or could not.
    Written(Option<Seq<u8>>),
    /// It spawned an entity for a sender's entity which a component refers to.
    Referred { server_entity: Entity, client_entity: Entity },
}

impl Receiving {
    /// The machine can be told this.
    pub open spec fn accepts(self, reply: Reply) -> bool {
        match reply {
            Reply::Proceed => !self.waits(),
            Reply::Inspected(_) => self.phase is Inspecting,
            Reply::Spawned(_) => self.phase is Spawning,
            Reply::Despawned(_) => self.phase is Despawning,
            Reply::Written(_) => self.phase is Writing,
            Reply::Referred { .. } => true,
        }
    }

    /// The step that the machine takes when it is told this.
    pub open spec fn step(self, reply: Reply) -> (Receiving, Action<Seq<u8>>) {
        match reply {
            Reply::Proceed => self.proceed(),
            Reply::Inspected(info) => self.inspected(info),
            Reply::Spawned(entity) => self.spawned(entity),
            Reply::Despawned(existed) => self.despawned(existed),
            Reply::Written(outcome) => self.written(outcome),
            Reply::Referred { server_entity, client_entity } => (
                self.with_context(self.context.with_spawned(server_entity, client_entity)),
                Action::Proceed,
            ),
        }
    }

    /// Where the machine is once it was told all this.
    pub open spec fn run(self, replies: Seq<Reply>) -> Receiving
        decreases replies.len(),
    {
        if replies.len() == 0 {
            self
        } else {
            self.run(replies.drop_last()).step(replies.last()).0
        }
    }

    /// The machine can be told all this, one after the other.
    pub open spec fn accepts_all(self, replies: Seq<Reply>) -> bool
        decreases replies.len(),
    {
        replies.len() > 0 ==> {
            &&& self.accepts_all(replies.drop_last())
            &&& self.run(replies.drop_last()).accepts(replies.last())
        }
    }

    /// Where the machine is in the array that is applied.
    pub open spec fn cursor(self) -> Option<Cursor<Seq<u8>>> {
        match self.phase {
            Phase::NextItem(cursor) => Some(cursor),
            Phase::Inspecting { cursor, .. } => Some(cursor),
            Phase::Spawning { cursor, .. } => Some(cursor),
            Phase::Despawning(cursor) => Some(cursor),
            Phase::NextComponent { cursor, .. } => Some(cursor),
            Phase::Writing { cursor, .. } => Some(cursor),
            _ => None,
        }
    }

    /// The array that is applied.
    pub open spec fn origin(self) -> Option<Origin> {
        match self.cursor() {
            Some(cursor) => Some(cursor.origin),
            None => None,
        }
    }

    /// Mutate messages are applied, or were.
    pub open spec fn in_mutations(self) -> bool {
        ||| self.phase is NextMutate
        ||| self.phase is MutateEnd
        ||| self.phase is Finished
        ||| self.origin() matches Some(origin) && origin is Mutate
    }

    /// Update messages were applied.
    pub open spec fn past_updates(self) -> bool {
        self.phase is Buffering || self.in_mutations()
    }

    /// What holds from the start on.
    pub open spec fn inv(self) -> bool {
        &&& self.past_updates() ==> self.updates.len() == 0
        &&& self.in_mutations() ==> {
            &&& self.mutations.len() == 0
            &&& forall|i: int|
                0 <= i < self.context.buffered.len() ==> (
                #[trigger] self.context.buffered[i]).update_tick.after(self.context.update_tick)
            &&& forall|i: int|
                0 <= i < self.ready.len() ==> !(#[trigger] self.ready[i]).update_tick.after(
                    self.context.update_tick,
                )
        }
        &&& self.phase is Finished ==> self.ready.len() == 0
        &&& match self.phase {
            Phase::Inspecting { cursor, .. } => match cursor.origin {
                Origin::Update { stage, .. } => stage is Removals || stage is Changes,
                Origin::Mutate { .. } => true,
            },
            Phase::Spawning { cursor, .. } => match cursor.origin {
                Origin::Update { stage, .. } => stage is Changes,
                Origin::Mutate { .. } => false,
            },
            Phase::Despawning(cursor) => match cursor.origin {
                Origin::Update { stage, .. } => stage is Despawns,
                Origin::Mutate { .. } => false,
            },
            _ => true,
        }
    }
}

proof fn lemma_step_keeps_inv(s: Receiving, reply: Reply)
    requires
        s.inv(),
        s.accepts(reply),
    ensures
        s.step(reply).0.inv(),
{
    let next = s.step(reply).0;
    if s.phase is Buffering && reply is Proceed && s.mutations.len() == 0 {
        let buffered = s.context.buffered;
        let tick = s.context.update_tick;
        assert forall|i: int| 0 <= i < next.context.buffered.len() implies (
        #[trigger] next.context.buffered[i]).update_tick.after(tick) by {
            buffered.lemma_filter_pred(
                |mutation: BufferedMutate<Seq<u8>>| mutation.update_tick.after(tick),
                i,
            );
        }
        assert forall|i: int| 0 <= i < next.ready.len() implies !(
        #[trigger] next.ready[i]).update_tick.after(tick) by {
            buffered.lemma_filter_pred(
                |mutation: BufferedMutate<Seq<u8>>| !mutation.update_tick.after(tick),
                i,
            );
        }
    }
}

/// Whatever the caller answers, the machine keeps to its order.
pub proof fn lemma_run_keeps_inv(s: Receiving, replies: Seq<Reply>)
    requires
        s.inv(),
        s.accepts_all(replies),
    ensures
        s.run(replies).inv(),
    decreases replies.len(),
{
    if replies.len() > 0 {
        lemma_run_keeps_inv(s, replies.drop_last());
        lemma_step_keeps_inv(s.run(replies.drop_last()), replies.last());
    }
}

/// Update messages are applied first: none is left once a mutate message is read or applied.
pub proof fn lemma_updates_come_first(
    context: Context,
    stats: Option<ClientReplicationStats>,
    signatures: Map<u64, Entity>,
    updates: Seq<Seq<u8>>,
    mutations: Seq<Seq<u8>>,
    replies: Seq<Reply>,
)
    requires
        Receiving::start(context, stats, signatures, updates, mutations).accepts_all(replies),
    ensures
        ({
            let end = Receiving::start(context, stats, signatures, updates, mutations).run(replies);
            end.past_updates() ==> end.updates.len() == 0
        }),
{
    lemma_run_keeps_inv(
        Receiving::start(context, stats, signatures, updates, mutations),
        replies,
    );
}

/// A mutate message is applied only if its update tick, or a later one, has appeared in an update
/// message. At the end only messages that wait for a later one are left.
pub proof fn lemma_mutations_wait(
    context: Context,
    stats: Option<ClientReplicationStats>,
    signatures: Map<u64, Entity>,
    updates: Seq<Seq<u8>>,
    mutations: Seq<Seq<u8>>,
    replies: Seq<Reply>,
)
    requires
        Receiving::start(context, stats, signatures, updates, mutations).accepts_all(replies),
    ensures
        ({
            let end = Receiving::start(context, stats, signatures, updates, mutations).run(replies);
            &&& end.phase is NextMutate && end.ready.len() > 0 ==> !end.ready[0].update_tick.after(
                end.context.update_tick,
            )
            &&& end.phase is Finished ==> {
                &&& end.updates.len() == 0
                &&& end.mutations.len() == 0
                &&& end.ready.len() == 0
                &&& forall|i: int|
                    0 <= i < end.context.buffered.len() ==> (
                    #[trigger] end.context.buffered[i]).update_tick.after(end.context.update_tick)
            }
        }),
{
    lemma_run_keeps_inv(
        Receiving::start(context, stats, signatures, updates, mutations),
        replies,
    );
}

/// Mutate messages do not change the update tick, and nothing is read of update messages after
/// them.
pub proof fn lemma_mutations_keep_update_tick(s: Receiving, replies: Seq<Reply>)
    requires
        s.inv(),
        s.past_updates(),
        s.accepts_all(replies),
    ensures
        s.run(replies).context.update_tick == s.context.update_tick,
        s.run(replies).past_updates() || s.run(replies).phase is Overrun,
    decreases replies.len(),
{
    if replies.len() > 0 {
        let before = replies.drop_last();
        lemma_mutations_keep_update_tick(s, before);
        lemma_run_keeps_inv(s, before);
    }
}

/// Once the mutate messages are read, those whose update tick is still to come stay as they are,
/// in their order, and the others leave.
pub proof fn lemma_waiting_mutations_stay(s: Receiving, replies: Seq<Reply>)
    requires
        s.inv(),
        s.phase is Buffering,
        s.mutations.len() == 0,
        s.accepts_all(replies),
    ensures
        ({
            let end = s.run(replies);
            ||| end.phase is Buffering && end.context.buffered == s.context.buffered
                && end.context.update_tick == s.context.update_tick && end.mutations.len() == 0
            ||| (end.in_mutations() || end.phase is Overrun) && end.context.buffered
                == waiting_messages(s.context.buffered, s.context.update_tick)
        }),
    decreases replies.len(),
{
    if replies.len() > 0 {
        let before = replies.drop_last();
        lemma_waiting_mutations_stay(s, before);
        lemma_run_keeps_inv(s, before);
    }
}

/// The ticks of all messages that can be read lie in one half of the range, from this tick on.
pub open spec fn readable_from(
    messages: Seq<Seq<u8>>,
    counted: bool,
    base: RepliconTick,
) -> bool {
    forall|i: int|
        0 <= i < messages.len() ==> match read_mutate_header(#[trigger] messages[i], counted) {
            Ok((header, _)) => header.message_tick.distance(base) < 0x8000_0000,
            Err(_) => true,
        }
}

impl Receiving {
    /// The messages that wait and those that are applied have the latest first, and the ticks of
    /// all messages can be compared.
    pub open spec fn ordered(self, base: RepliconTick) -> bool {
        &&& latest_first(self.context.buffered)
        &&& comparable_from(self.context.buffered, base)
        &&& readable_from(self.mutations, self.context.mutate_ticks is Some, base)
        &&& latest_first(self.ready)
    }
}

proof fn lemma_waiting_comparable(
    buffered: Seq<BufferedMutate<Seq<u8>>>,
    update_tick: RepliconTick,
    base: RepliconTick,
)
    requires
        comparable_from(buffered, base),
    ensures
        comparable_from(waiting_messages(buffered, update_tick), base),
{
    let waiting = waiting_messages(buffered, update_tick);
    assert forall|i: int| 0 <= i < waiting.len() implies (
    #[trigger] waiting[i]).message_tick.distance(base) < 0x8000_0000 by {
        assert(waiting.contains(waiting[i]));
        buffered.lemma_filter_contains_rev(
            |mutation: BufferedMutate<Seq<u8>>| mutation.update_tick.after(update_tick),
            waiting[i],
        );
        let k = buffered.index_of(waiting[i]);
        assert(buffered[k] == waiting[i]);
    }
}

proof fn lemma_buffering_keeps_order(s: Receiving, base: RepliconTick)
    requires
        s.ordered(base),
        s.phase is Buffering,
        s.mutations.len() > 0,
    ensures
        s.proceed().0.ordered(base),
{
    let next = s.proceed().0;
    let counted = s.context.mutate_ticks is Some;
    let message = s.mutations[0];
    assert forall|i: int| 0 <= i < next.mutations.len() implies match read_mutate_header(
        #[trigger] next.mutations[i],
        counted,
    ) {
        Ok((header, _)) => header.message_tick.distance(base) < 0x8000_0000,
        Err(_) => true,
    } by {
        assert(next.mutations[i] == s.mutations[i + 1]);
    }
    if let Ok((header, rest)) = read_mutate_header(message, counted) {
        let mutation = BufferedMutate {
            update_tick: header.update_tick,
            message_tick: header.message_tick,
            messages_count: header.messages_count,
            message: rest,
        };
        let all = s.context.buffered.push(mutation);
        assert forall|i: int| 0 <= i < all.len() implies (#[trigger] all[i]).message_tick.distance(
            base,
        ) < 0x8000_0000 by {
            if i < s.context.buffered.len() {
                assert(all[i] == s.context.buffered[i]);
            }
        }
        lemma_latest_first(s.context.buffered, mutation, base);
        assert(next.context.buffered == with_mutation(s.context.buffered, mutation));
    }
}

proof fn lemma_step_keeps_order(s: Receiving, reply: Reply, base: RepliconTick)
    requires
        s.ordered(base),
        s.accepts(reply),
    ensures
        s.step(reply).0.ordered(base),
{
    let next = s.step(reply).0;
    if s.phase is Buffering && reply is Proceed {
        if s.mutations.len() > 0 {
            lemma_buffering_keeps_order(s, base);
        } else {
            lemma_latest_ready_first(s.context.buffered, s.context.update_tick);
            lemma_waiting_comparable(s.context.buffered, s.context.update_tick, base);
        }
    } else if s.phase is NextMutate && reply is Proceed && s.ready.len() > 0 {
        assert forall|i: int, j: int| 0 <= i < j < next.ready.len() implies !(
        #[trigger] next.ready[i]).message_tick.before((#[trigger] next.ready[j]).message_tick) by {
            assert(next.ready[i] == s.ready[i + 1]);
            assert(next.ready[j] == s.ready[j + 1]);
        }
    } else {
        s.lemma_keeps_messages(reply);
    }
}

impl Receiving {
    /// Only reading mutate messages, and taking them out to be applied, changes which there are.
    pub(crate) proof fn lemma_keeps_messages(self, reply: Reply)
        requires
            self.accepts(reply),
            !(reply is Proceed && (self.phase is Buffering || self.phase is NextMutate
                && self.ready.len() > 0)),
        ensures
            self.step(reply).0.context.buffered == self.context.buffered,
            self.step(reply).0.mutations == self.mutations,
            self.step(reply).0.ready == self.ready,
            self.step(reply).0.context.mutate_ticks is Some == self.context.mutate_ticks is Some,
    {
    }
}

proof fn lemma_run_keeps_order(s: Receiving, replies: Seq<Reply>, base: RepliconTick)
    requires
        s.ordered(base),
        s.accepts_all(replies),
    ensures
        s.run(replies).ordered(base),
    decreases replies.len(),
{
    if replies.len() > 0 {
        let before = replies.drop_last();
        lemma_run_keeps_order(s, before, base);
        lemma_step_keeps_order(s.run(before), replies.last(), base);
    }
}

/// A buffer that has its latest messages first still has at every point of a round, and the
/// messages are applied the latest first. At the end only messages are left that wait for a later
/// update tick.
///
/// The ticks that are buffered and read must be comparable: of ticks more than half the range
/// apart none comes first.
pub proof fn lemma_latest_mutations_come_first(
    context: Context,
    stats: Option<ClientReplicationStats>,
    signatures: Map<u64, Entity>,
    updates: Seq<Seq<u8>>,
    mutations: Seq<Seq<u8>>,
    replies: Seq<Reply>,
    base: RepliconTick,
)
    requires
        latest_first(context.buffered),
        comparable_from(context.buffered, base),
        readable_from(mutations, context.mutate_ticks is Some, base),
        Receiving::start(context, stats, signatures, updates, mutations).accepts_all(replies),
    ensures
        ({
            let end = Receiving::start(context, stats, signatures, updates, mutations).run(replies);
            &&& latest_first(end.context.buffered)
            &&& latest_first(end.ready)
            &&& end.phase is Finished ==> forall|i: int|
                0 <= i < end.context.buffered.len() ==> (
                #[trigger] end.context.buffered[i]).update_tick.after(end.context.update_tick)
        }),
{
    let start = Receiving::start(context, stats, signatures, updates, mutations);
    lemma_run_keeps_order(start, replies, base);
    lemma_run_keeps_inv(start, replies);
}

/// Whether statistics are collected changes nothing else.
pub proof fn lemma_stats_only_count(
    s: Receiving,
    stats: Option<ClientReplicationStats>,
    reply: Reply,
)
    requires
        s.accepts(reply),
    ensures
        ({
            let other = Receiving { stats, ..s };
            &&& other.step(reply).1 == s.step(reply).1
            &&& other.step(reply).0 == (Receiving {
                stats: other.step(reply).0.stats,
                ..s.step(reply).0
            })
            &&& other.step(reply).0.stats is Some <==> stats is Some
        }),
{
}

impl Cursor<Seq<u8>> {
    /// The array goes on from the same place, whatever was counted.
    pub open spec fn same_place(self, other: Cursor<Seq<u8>>) -> bool {
        &&& self.message == other.message
        &&& self.tick == other.tick
        &&& self.origin == other.origin
    }
}

impl Receiving {
    /// Data about the components of an entity is applied.
    pub open spec fn in_block(self) -> bool {
        ||| self.phase is Inspecting
        ||| self.phase is Spawning
        ||| self.phase is NextComponent
        ||| self.phase is Writing
    }

    /// Where the array goes on behind the data.
    pub open spec fn behind_block(self) -> Cursor<Seq<u8>> {
        match self.phase {
            Phase::Inspecting { cursor, size, .. } => cursor.with_message(
                cursor.message.skip(size as int),
            ),
            Phase::Spawning { cursor, size, .. } => cursor.with_message(
                cursor.message.skip(size as int),
            ),
            Phase::NextComponent { cursor, .. } => cursor,
            Phase::Writing { cursor, .. } => cursor,
            _ => arbitrary(),
        }
    }

    /// The data ends within its message.
    pub open spec fn block_fits(self) -> bool {
        match self.phase {
            Phase::Inspecting { cursor, size, .. } => size <= cursor.message.len(),
            Phase::Spawning { cursor, size, .. } => size <= cursor.message.len(),
            _ => true,
        }
    }
}

/// Where the next item of an array starts is decided by the size that precedes the data, whatever
/// is found out about the entity and whatever the components make of the data. Only data that
/// cannot be applied ends the message early.
pub proof fn lemma_blocks_end_where_they_say(s: Receiving, reply: Reply)
    requires
        s.in_block(),
        s.block_fits(),
        s.accepts(reply),
    ensures
        ({
            let (next, action) = s.step(reply);
            ||| next.in_block() && next.block_fits() && next.behind_block().same_place(
                s.behind_block(),
            )
            ||| next.phase matches Phase::NextItem(cursor) && cursor.same_place(s.behind_block())
            ||| action is UpdateFailed && next.phase is NextUpdate
            ||| action is MutateFailed && next.phase is MutateEnd
        }),
{
}

/// Data that reaches beyond the end of its message stops the machine, and is not applied.
pub proof fn lemma_overrun_stops(s: Receiving, reply: Reply)
    requires
        s.phase is Overrun,
        s.accepts(reply),
    ensures
        s.step(reply).0.phase is Overrun,
        s.step(reply).1 is Overrun || reply is Referred,
{
}

/// Mutations that are not later than what the entity has are ignored, unless a marker asks for
/// them: the entity is neither confirmed nor written, and the array goes on behind the data.
pub proof fn lemma_outdated_mutations_are_ignored(
    s: Receiving,
    cursor: Cursor<Seq<u8>>,
    entity: Entity,
    size: usize,
    info: EntityInfo,
    history: ConfirmHistory,
)
    requires
        s.phase == (Phase::Inspecting { cursor, entity, size }),
        s.block_fits(),
        cursor.origin is Mutate,
        info.history == Some(history),
        !info.need_history,
        !cursor.tick.after(history.last_tick),
    ensures
        s.inspected(Some(info)) == (s.at(Phase::NextItem(s.behind_block())), Action::<
            Seq<u8>,
        >::Proceed),
{
}

/// Mutations that are applied are confirmed, and the entity's last tick never goes back.
pub proof fn lemma_mutations_confirm(
    history: ConfirmHistory,
    need_history: bool,
    tick: RepliconTick,
)
    ensures
        match decide_mutations(history, need_history, tick) {
            Decision::Newer(after) => {
                &&& tick.after(history.last_tick)
                &&& after.last_tick == tick
                &&& after.has(tick)
            },
            Decision::Outdated(after) => {
                &&& need_history
                &&& !tick.after(history.last_tick)
                &&& after.last_tick == history.last_tick
                &&& after.has(tick)
            },
            Decision::Ignore => !tick.after(history.last_tick),
        },
{
    if tick.after(history.last_tick) {
        history.lemma_moved_has(tick);
    } else if need_history && history.last_tick.distance(tick) < 64 {
        history.lemma_marked_has(history.last_tick.distance(tick) as u32, tick);
    }
}

/// Of two mutations of an entity with this last tick it is settled which is the later one, and
/// which are later than what the entity has.
///
/// That is so of all different ticks in one half of the range. Ticks that span more of it may come
/// after each other in a circle.
pub open spec fn settled(last_tick: RepliconTick, one: RepliconTick, other: RepliconTick) -> bool {
    &&& one.after(last_tick) && other.after(last_tick) ==> one.after(other) || other.after(one)
    &&& one.after(last_tick) && other.after(one) ==> other.after(last_tick)
    &&& other.after(last_tick) && one.after(other) ==> one.after(last_tick)
}

/// Different ticks in one half of the range are settled.
pub proof fn lemma_settled(
    last_tick: RepliconTick,
    one: RepliconTick,
    other: RepliconTick,
    base: RepliconTick,
)
    requires
        one != other,
        last_tick.distance(base) < 0x8000_0000,
        one.distance(base) < 0x8000_0000,
        other.distance(base) < 0x8000_0000,
    ensures
        settled(last_tick, one, other),
{
}

impl Receiving {
    /// The machine waits to be told about an entity that is mutated, and the data about it ends
    /// within the message.
    pub open spec fn mutates(self) -> bool {
        &&& self.phase matches Phase::Inspecting { cursor, .. } && cursor.origin is Mutate
        &&& self.block_fits()
    }

    /// What is known of an entity and what a component of it holds, once mutations that overwrite
    /// the component were applied.
    pub open spec fn overwritten<V>(self, info: EntityInfo, value: V, new: V) -> (EntityInfo, V) {
        let (next, action) = self.inspected(Some(info));
        match action {
            Action::Confirm { history, .. } => (
                EntityInfo { history: Some(history), need_history: info.need_history },
                match next.phase {
                    Phase::NextComponent { block, .. } if block.kind is Write => new,
                    _ => value,
                },
            ),
            _ => (info, value),
        }
    }
}

/// Two mutations of an entity, each of which overwrites a component, leave it with the same value
/// and the same last tick in whichever order they come. Where a marker asks for outdated mutations,
/// the whole history is the same too; otherwise the earlier tick is in it only if it came first.
pub proof fn lemma_mutations_commute<V>(
    one: Receiving,
    other: Receiving,
    info: EntityInfo,
    value: V,
    one_value: V,
    other_value: V,
)
    requires
        one.mutates(),
        other.mutates(),
        info.history matches Some(history) && settled(
            history.last_tick,
            one.cursor()->Some_0.tick,
            other.cursor()->Some_0.tick,
        ),
    ensures
        ({
            let (info_one, value_one) = one.overwritten(info, value, one_value);
            let (info_other, value_other) = other.overwritten(info, value, other_value);
            let (end, end_value) = other.overwritten(info_one, value_one, other_value);
            let (end_other, end_value_other) = one.overwritten(info_other, value_other, one_value);
            &&& end_value == end_value_other
            &&& end.history is Some && end_other.history is Some
            &&& end.history->Some_0.last_tick == end_other.history->Some_0.last_tick
            &&& info.need_history ==> end == end_other
        }),
{
    let history = info.history->Some_0;
    let last = history.last_tick;
    let first = one.cursor()->Some_0.tick;
    let second = other.cursor()->Some_0.tick;
    if first.after(last) && second.after(last) {
        if second.after(first) {
            history.lemma_moved_twice(first, second);
        } else {
            history.lemma_moved_twice(second, first);
        }
    } else if first.after(last) {
        history.lemma_marked_and_moved(second, first);
    } else if second.after(last) {
        history.lemma_marked_and_moved(first, second);
    } else {
        history.lemma_marked_twice(
            last.distance(first) as u32,
            last.distance(second) as u32,
        );
    }
}

/// An update message whose flags or tick cannot be read is reported, and changes nothing of the
/// round but how many messages and bytes were received.
pub proof fn lemma_unreadable_updates_only_count(s: Receiving)
    requires
        s.phase is NextUpdate,
        s.updates.len() > 0,
        read_update_header(s.updates[0]) is Err,
    ensures
        s.proceed() == (
            Receiving {
                updates: s.updates.skip(1),
                stats: match s.stats {
                    Some(stats) => Some(stats.with_message(s.updates[0].len() as usize)),
                    None => None,
                },
                ..s
            },
            Action::<Seq<u8>>::UpdateFailed {
                stage: None,
                error: ReceiveError::Wire(read_update_header(s.updates[0])->Err_0),
            },
        ),
{
}

/// A despawn of an entity that nothing stands for only takes its bytes from the message. So does a
/// second despawn of one entity, whether or not the first found anything to despawn.
pub proof fn lemma_despawned_once(
    s: Receiving,
    first: Cursor<Seq<u8>>,
    existed: bool,
    second: Cursor<Seq<u8>>,
)
    requires
        read_entity(first.message) matches Ok((entity, _)) && read_entity(second.message) matches Ok(
            (again, _),
        ) && entity == again,
    ensures
        ({
            let begun = s.apply_despawn(first).0;
            let after = if begun.phase is Despawning {
                begun.despawned(existed).0
            } else {
                begun
            };
            let rest = read_entity(second.message)->Ok_0.1;
            after.apply_despawn(second) == (
                after.at(Phase::NextItem(second.with_message(rest))),
                Action::<Seq<u8>>::Proceed,
            )
        }),
{
    let entity = read_entity(first.message)->Ok_0.0;
    let left = s.context.entity_map.remove(entity);
    assert(left.remove(entity) =~= left);
}

/// An update message confirms the entities that it changes for its own tick.
pub proof fn lemma_updates_confirm(history: Option<ConfirmHistory>, tick: RepliconTick)
    ensures
        confirm_tick(history, tick).last_tick == tick,
        confirm_tick(history, tick).has(tick),
{
    match history {
        Some(history) => history.lemma_moved_has(tick),
        None => ConfirmHistory::lemma_first_has(tick),
    }
}

/// An entity is spawned only for a sender's entity that nothing stands for. It carries the
/// sender's entity, and the client that sent it where there is one.
pub proof fn lemma_spawned_entities_carry_their_origin(s: Receiving, reply: Reply)
    requires
        s.accepts(reply),
    ensures
        s.step(reply).1 matches Action::Spawn(bundle) ==> {
            &&& !s.context.entity_map.contains_key(bundle.remote_entity.0)
            &&& bundle.replicated_from == match s.context.source {
                Some(source) => Some(ReplicatedFrom(source)),
                None => None,
            }
            &&& s.step(reply).0.phase matches Phase::Spawning { server_entity, .. }
                && bundle.remote_entity == RemoteEntity(server_entity)
        },
{
}

/// A sender's entity is spawned once: what was spawned stands for it from then on.
pub proof fn lemma_spawned_once(
    s: Receiving,
    entity: Entity,
    server_entity: Entity,
    later: Cursor<Seq<u8>>,
)
    requires
        s.phase matches Phase::Spawning { server_entity: spawning, .. } && spawning
            == server_entity,
        read_block_header(later.message) matches Ok((header, _)) && header.server_entity
            == server_entity,
    ensures
        s.spawned(entity).0.context.entity_map.get(server_entity) == Some(entity),
        s.spawned(entity).0.apply_changes(later).1 == Action::<Seq<u8>>::Inspect(entity),
{
}

/// The entities that the caller spawned.
pub open spec fn spawned_entities(replies: Seq<Reply>) -> Set<Entity>
    decreases replies.len(),
{
    if replies.len() == 0 {
        Set::empty()
    } else {
        match replies.last() {
            Reply::Spawned(entity) => spawned_entities(replies.drop_last()).insert(entity),
            Reply::Referred { client_entity, .. } => spawned_entities(replies.drop_last()).insert(
                client_entity,
            ),
            _ => spawned_entities(replies.drop_last()),
        }
    }
}

/// An item of an array is counted where it takes effect, and only there: where an entity comes to
/// stand for the sender's, where an entity was despawned that still existed, and where the
/// components of an entity begin to be applied. The count starts anew with each array.
pub proof fn lemma_only_effects_are_counted(s: Receiving, reply: Reply)
    requires
        s.accepts(reply),
    ensures
        ({
            let (next, action) = s.step(reply);
            match (s.cursor(), next.cursor()) {
                (Some(before), Some(after)) => after.len == if action is Mark || action is Confirm
                    || reply == Reply::Despawned(true) {
                    before.len.wrapping_add(1)
                } else {
                    before.len
                },
                (None, Some(after)) => after.len == 0,
                _ => true,
            }
        }),
{
}

/// At the end of an array the items that took effect are added to the statistics of their kind. No
/// other step changes how many mappings, despawns and changed entities there were.
pub proof fn lemma_arrays_are_counted_at_their_end(s: Receiving, reply: Reply)
    requires
        s.accepts(reply),
        s.stats is Some,
    ensures
        ({
            let before = s.stats->Some_0;
            let after = s.step(reply).0.stats->Some_0;
            match (s.phase, reply) {
                (Phase::NextItem(cursor), Reply::Proceed) if cursor.at_end() =>
                    match cursor.origin {
                        Origin::Update { stage: Stage::Mappings, .. } => after
                            == before.with_mappings(cursor.len),
                        Origin::Update { stage: Stage::Despawns, .. } => after
                            == before.with_despawns(cursor.len),
                        _ => after == before.with_entities(cursor.len),
                    },
                _ => {
                    &&& after.mappings == before.mappings
                    &&& after.despawns == before.despawns
                    &&& after.entities_changed == before.entities_changed
                },
            }
        }),
{
}

/// A step spawns no entity but the one that the caller spawned.
pub(crate) proof fn lemma_step_spawned(s: Receiving, reply: Reply)
    requires
        s.context.spawned is Some,
        s.accepts(reply),
    ensures
        s.step(reply).0.context.source == s.context.source,
        s.step(reply).0.context.spawned == Some(
            match reply {
                Reply::Spawned(entity) => s.context.spawned->Some_0.insert(entity),
                Reply::Referred { client_entity, .. } => s.context.spawned->Some_0.insert(
                    client_entity,
                ),
                _ => s.context.spawned->Some_0,
            },
        ),
{
    s.lemma_keeps_sender();
    match reply {
        Reply::Proceed => {
            assert(s.step(reply).0.context.spawned == s.context.spawned);
        },
        Reply::Inspected(info) => {
            assert(s.step(reply).0.context == s.context);
        },
        Reply::Spawned(entity) => {},
        Reply::Despawned(existed) => {
            assert(s.step(reply).0.context == s.context);
        },
        Reply::Written(outcome) => {
            assert(s.step(reply).0.context == s.context);
        },
        Reply::Referred { .. } => {},
    }
}

/// A server's context knows all entities that were spawned for its client, and no others.
pub proof fn lemma_spawned_entities_are_known(s: Receiving, replies: Seq<Reply>)
    requires
        s.context.spawned is Some,
        s.accepts_all(replies),
    ensures
        s.run(replies).context.spawned == Some(
            s.context.spawned->Some_0.union(spawned_entities(replies)),
        ),
        s.run(replies).context.source == s.context.source,
    decreases replies.len(),
{
    let known = s.context.spawned->Some_0;
    if replies.len() == 0 {
        assert(known.union(Set::empty()) =~= known);
    } else {
        let before = replies.drop_last();
        lemma_spawned_entities_are_known(s, before);
        lemma_step_spawned(s.run(before), replies.last());
        assert(s.run(replies).context.spawned->Some_0 =~= known.union(spawned_entities(replies)));
    }
}

} // verus!
