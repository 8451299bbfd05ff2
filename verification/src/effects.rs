//! What each step of receiving does.
//!
//! Each law takes one kind of step, whoever the sender is and whatever else the machine knows. It
//! says what the caller is asked to do, what the machine knows afterwards, and that nothing else
//! has changed.

use vstd::prelude::*;

use crate::client::{ClientReplicationStats, Remote};
use crate::confirm_history::ConfirmHistory;
use crate::context::{
    lemma_buffered_behind_later_ones, lemma_buffering_adds_one, lemma_split_loses_nothing,
    BufferedMutate, Context,
};
use crate::entity::Entity;
use crate::message::{
    lemma_arrays_in_order, place, read_block_header, read_mapping, read_mutate_header,
    read_update_header, FnsId, Stage, UpdateMessageFlags,
};
use crate::mutate_ticks::{lemma_confirm_counts, lemma_confirm_keeps_others};
use crate::receiving::{
    Action, BlockKind, Cursor, EntityInfo, Origin, Phase, ReceiveError, Receiving, SpawnBundle,
};
use crate::replication::{RemoteEntity, ReplicatedFrom};
use crate::tick::RepliconTick;
use crate::wire::{read_entity, read_usize, varint_bytes};

verus! {

/// One more message of this many bytes was received, where that is counted.
pub open spec fn one_more_message(
    before: Option<ClientReplicationStats>,
    after: Option<ClientReplicationStats>,
    bytes: nat,
) -> bool {
    match (before, after) {
        (Some(before), Some(after)) => {
            &&& after.messages == before.messages.wrapping_add(1)
            &&& after.bytes == before.bytes.wrapping_add(bytes as usize)
            &&& after.entities_changed == before.entities_changed
            &&& after.components_changed == before.components_changed
            &&& after.mappings == before.mappings
            &&& after.despawns == before.despawns
        },
        (None, None) => true,
        _ => false,
    }
}

/// The array has an item left: one of those that were announced, or, where none were, a byte of the
/// message.
pub open spec fn has_item(cursor: Cursor<Seq<u8>>) -> bool {
    match cursor.origin {
        Origin::Update { left: Some(left), .. } => left > 0,
        Origin::Update { left: None, .. } => cursor.message.len() > 0,
        Origin::Mutate { .. } => cursor.message.len() > 0,
    }
}

/// The array goes on with one item less, where they were announced, and this left of its message.
pub open spec fn goes_on(before: Cursor<Seq<u8>>, after: Cursor<Seq<u8>>, message: Seq<u8>) -> bool {
    &&& after.message == message
    &&& after.tick == before.tick
    &&& match (before.origin, after.origin) {
        (
            Origin::Update { stage, rest, left },
            Origin::Update { stage: after_stage, rest: after_rest, left: after_left },
        ) => {
            &&& after_stage == stage
            &&& after_rest == rest
            &&& match (left, after_left) {
                (Some(left), Some(after_left)) => after_left == left - 1,
                (None, None) => true,
                _ => false,
            }
        },
        (Origin::Mutate { messages_count }, Origin::Mutate { messages_count: after_count }) =>
            after_count == messages_count,
        _ => false,
    }
}

/// The array goes on from behind the data, with this many items that took effect.
pub open spec fn goes_on_behind(
    before: Cursor<Seq<u8>>,
    after: Cursor<Seq<u8>>,
    size: usize,
    len: usize,
) -> bool {
    &&& after.message == before.message.skip(size as int)
    &&& after.tick == before.tick
    &&& after.origin == before.origin
    &&& after.len == len
}

/// The stage of an update message's array.
pub open spec fn stage_of(cursor: Cursor<Seq<u8>>) -> Option<Stage> {
    match cursor.origin {
        Origin::Update { stage, .. } => Some(stage),
        Origin::Mutate { .. } => None,
    }
}

impl Receiving {
    /// The machine is elsewhere, and otherwise knows what the other does.
    pub open spec fn only_elsewhere(self, before: Receiving) -> bool {
        self == (Receiving { phase: self.phase, ..before })
    }

    /// The rest of the array's message is given up for this reason, and nothing else changes.
    pub open spec fn gives_up(
        self,
        cursor: Cursor<Seq<u8>>,
        error: ReceiveError,
        step: (Receiving, Action<Seq<u8>>),
    ) -> bool {
        &&& step.0.only_elsewhere(self)
        &&& match cursor.origin {
            Origin::Update { stage, .. } => {
                &&& step.0.phase is NextUpdate
                &&& step.1 matches Action::UpdateFailed { stage: Some(failed), error: reported }
                    && failed == stage && reported == error
            },
            Origin::Mutate { messages_count } => {
                &&& step.0.phase matches Phase::MutateEnd { tick, messages_count: count } && tick
                    == cursor.tick && count == messages_count
                &&& step.1 matches Action::MutateFailed { tick, error: reported } && tick
                    == cursor.tick && reported == error
            },
        }
    }

    /// The data is passed over, or stops the machine where it reaches beyond its message. Nothing
    /// else changes.
    pub open spec fn passes_over(
        self,
        cursor: Cursor<Seq<u8>>,
        size: usize,
        step: (Receiving, Action<Seq<u8>>),
    ) -> bool {
        &&& step.0.only_elsewhere(self)
        &&& if size <= cursor.message.len() {
            &&& step.1 is Proceed
            &&& step.0.phase matches Phase::NextItem(after) && goes_on_behind(
                cursor,
                after,
                size,
                cursor.len,
            )
        } else {
            step.1 is Overrun && step.0.phase is Overrun
        }
    }

    /// The entity is confirmed for the message's tick and exactly its data is begun, which counts as
    /// one more item that took effect. Data that reaches beyond its message stops the machine.
    pub open spec fn applies(
        self,
        cursor: Cursor<Seq<u8>>,
        entity: Entity,
        size: usize,
        kind: BlockKind,
        step: (Receiving, Action<Seq<u8>>),
    ) -> bool {
        if size <= cursor.message.len() {
            &&& step.1 matches Action::Confirm { entity: confirmed, tick, .. } && confirmed
                == entity && tick == cursor.tick
            &&& step.0.phase matches Phase::NextComponent { cursor: after, block } && {
                &&& goes_on_behind(cursor, after, size, cursor.len.wrapping_add(1))
                &&& block.entity == entity
                &&& block.kind == kind
                &&& block.len == 0
                &&& block.data == cursor.message.take(size as int)
            }
        } else {
            step.1 is Overrun && step.0.phase is Overrun
        }
    }
}

/// An update message is taken from the front and counted. If its start can be read, its tick is the
/// last one received and its arrays come next; otherwise it is reported and given up.
pub proof fn lemma_update_message_is_begun(s: Receiving)
    requires
        s.phase is NextUpdate,
        s.updates.len() > 0,
    ensures
        ({
            let (next, action) = s.proceed();
            &&& next == (Receiving {
                updates: s.updates.skip(1),
                stats: next.stats,
                context: Context { update_tick: next.context.update_tick, ..s.context },
                phase: next.phase,
                ..s
            })
            &&& one_more_message(s.stats, next.stats, s.updates[0].len())
            &&& match read_update_header(s.updates[0]) {
                Ok((header, rest)) => {
                    &&& next.context.update_tick == header.tick
                    &&& next.phase matches Phase::NextArray { message, tick, flags } && message
                        == rest && tick == header.tick && flags == header.flags
                    &&& action is Proceed
                },
                Err(error) => {
                    &&& next.context.update_tick == s.context.update_tick
                    &&& next.phase is NextUpdate
                    &&& action matches Action::UpdateFailed { stage: None, error: reported }
                        && reported == ReceiveError::Wire(error)
                },
            }
        }),
{
}

/// Behind the last update message the mutate messages are read, and acknowledged if there are any.
pub proof fn lemma_updates_are_over(s: Receiving)
    requires
        s.phase is NextUpdate,
        s.updates.len() == 0,
    ensures
        ({
            let (next, action) = s.proceed();
            &&& next == (Receiving { acks: next.acks, phase: next.phase, ..s })
            &&& next.phase is Buffering
            &&& next.acks is Some <==> s.mutations.len() > 0
            &&& next.acks matches Some(acks) ==> acks.len() == 0
            &&& action is Proceed
        }),
{
}

/// The arrays of an update message come in their order, each once. The last one goes on to the end
/// of the message, and each of the others starts with the number of its items. Without an array
/// left, the next message comes.
pub proof fn lemma_arrays_are_begun(
    s: Receiving,
    message: Seq<u8>,
    tick: RepliconTick,
    flags: UpdateMessageFlags,
)
    requires
        s.phase == (Phase::NextArray { message, tick, flags }),
    ensures
        ({
            let (next, action) = s.proceed();
            &&& next.only_elsewhere(s)
            &&& match next.phase {
                Phase::NextItem(cursor) => {
                    &&& action is Proceed
                    &&& cursor.tick == tick
                    &&& cursor.len == 0
                    &&& cursor.origin matches Origin::Update { stage, rest, left } && {
                        &&& flags.has(stage)
                        &&& forall|other: Stage|
                            #![trigger flags.has(other)]
                            {
                                &&& flags.has(other) ==> place(stage) <= place(other)
                                &&& rest.has(other) <==> flags.has(other) && place(stage) < place(
                                    other,
                                )
                            }
                        &&& left is None ==> cursor.message == message && forall|other: Stage|
                            flags.has(other) ==> other == stage
                        &&& left matches Some(count) ==> {
                            &&& read_usize(message) matches Ok((announced, rest)) && announced
                                == count && cursor.message == rest
                            &&& exists|other: Stage| flags.has(other) && other != stage
                        }
                    }
                },
                Phase::NextUpdate => match action {
                    Action::UpdateFailed { stage, error } => {
                        &&& stage matches Some(stage) && flags.has(stage) && forall|other: Stage|
                            flags.has(other) ==> place(stage) <= place(other)
                        &&& exists|other: Stage| flags.has(other) && Some(other) != stage
                        &&& read_usize(message) matches Err(cause) && error == ReceiveError::Wire(
                            cause,
                        )
                    },
                    Action::Proceed => forall|other: Stage| !flags.has(other),
                    _ => false,
                },
                _ => false,
            }
        }),
{
    if let Some(stage) = flags.first_stage() {
        let rest = flags.later(stage);
        assert forall|other: Stage|
            #![trigger flags.has(other)]
            {
                &&& flags.has(other) ==> place(stage) <= place(other)
                &&& rest.has(other) <==> flags.has(other) && place(stage) < place(other)
            } by {
            lemma_arrays_in_order(flags, stage, other);
        }
        if let Some(second) = rest.first_stage() {
            lemma_arrays_in_order(rest, second, second);
            assert(flags.has(second) && second != stage);
        } else {
            assert forall|other: Stage| flags.has(other) implies other == stage by {
                lemma_arrays_in_order(rest, other, other);
            }
        }
    } else {
        assert forall|other: Stage| !flags.has(other) by {
            lemma_arrays_in_order(flags, other, other);
        }
    }
}

/// Behind the last item of an array its items that took effect are counted, and the next array, or
/// the end of the mutate message, comes with what is left of the message.
pub proof fn lemma_array_is_over(s: Receiving, cursor: Cursor<Seq<u8>>)
    requires
        s.phase == Phase::NextItem(cursor),
        !has_item(cursor),
    ensures
        ({
            let (next, action) = s.proceed();
            &&& next == (Receiving { stats: next.stats, phase: next.phase, ..s })
            &&& action is Proceed
            &&& match cursor.origin {
                Origin::Update { rest, .. } => next.phase matches Phase::NextArray {
                    message,
                    tick,
                    flags,
                } && message == cursor.message && tick == cursor.tick && flags == rest,
                Origin::Mutate { messages_count } => next.phase matches Phase::MutateEnd {
                    tick,
                    messages_count: count,
                } && tick == cursor.tick && count == messages_count,
            }
            &&& match (s.stats, next.stats) {
                (Some(before), Some(after)) => {
                    let mappings = stage_of(cursor) == Some(Stage::Mappings);
                    let despawns = stage_of(cursor) == Some(Stage::Despawns);
                    &&& after.mappings == if mappings {
                        before.mappings.wrapping_add(cursor.len)
                    } else {
                        before.mappings
                    }
                    &&& after.despawns == if despawns {
                        before.despawns.wrapping_add(cursor.len)
                    } else {
                        before.despawns
                    }
                    &&& after.entities_changed == if mappings || despawns {
                        before.entities_changed
                    } else {
                        before.entities_changed.wrapping_add(cursor.len)
                    }
                    &&& after.components_changed == before.components_changed
                    &&& after.messages == before.messages
                    &&& after.bytes == before.bytes
                },
                (None, None) => true,
                _ => false,
            }
        }),
{
}

/// A mapping whose hash is known lets the entity under it stand for the sender's, which is asked to
/// be marked as such. Any other mapping has no effect.
pub proof fn lemma_mapping_is_applied(s: Receiving, cursor: Cursor<Seq<u8>>)
    requires
        s.phase == Phase::NextItem(cursor),
        has_item(cursor),
        stage_of(cursor) == Some(Stage::Mappings),
    ensures
        ({
            let (next, action) = s.proceed();
            match read_mapping(cursor.message) {
                Ok((mapping, rest)) => {
                    &&& next.phase matches Phase::NextItem(after) && goes_on(cursor, after, rest)
                        && after.len == if s.signatures.contains_key(mapping.hash) {
                        cursor.len.wrapping_add(1)
                    } else {
                        cursor.len
                    }
                    &&& if s.signatures.contains_key(mapping.hash) {
                        let entity = s.signatures[mapping.hash];
                        &&& next == (Receiving {
                            context: Context { entity_map: next.context.entity_map, ..s.context },
                            phase: next.phase,
                            ..s
                        })
                        &&& next.context.entity_map == s.context.entity_map.insert(
                            mapping.server_entity,
                            entity,
                        )
                        &&& action matches Action::Mark {
                            entity: marked,
                            remote: Remote,
                            remote_entity,
                        } && marked == entity && remote_entity == RemoteEntity(
                            mapping.server_entity,
                        )
                    } else {
                        next.only_elsewhere(s) && action is Proceed
                    }
                },
                Err(error) => s.gives_up(cursor, ReceiveError::Wire(error), s.proceed()),
            }
        }),
{
}

/// A despawn of a sender's entity that something stands for asks for exactly that entity to be
/// despawned, with the message's tick, whoever the sender is. Afterwards nothing stands for the
/// sender's entity and no signature leads to what did. All others stay. A despawn of an entity
/// that nothing stands for has no effect.
pub proof fn lemma_despawn_is_applied(s: Receiving, cursor: Cursor<Seq<u8>>)
    requires
        s.phase == Phase::NextItem(cursor),
        has_item(cursor),
        stage_of(cursor) == Some(Stage::Despawns),
    ensures
        ({
            let (next, action) = s.proceed();
            match read_entity(cursor.message) {
                Ok((server_entity, rest)) => if s.context.entity_map.contains_key(server_entity) {
                    let entity = s.context.entity_map[server_entity];
                    &&& action matches Action::Despawn { entity: despawned, tick } && despawned
                        == entity && tick == cursor.tick
                    &&& next == (Receiving {
                        context: Context { entity_map: next.context.entity_map, ..s.context },
                        signatures: next.signatures,
                        phase: next.phase,
                        ..s
                    })
                    &&& next.phase matches Phase::Despawning(after) && goes_on(cursor, after, rest)
                        && after.len == cursor.len
                    &&& forall|other: Entity|
                        {
                            &&& #[trigger] next.context.entity_map.contains_key(other)
                                <==> s.context.entity_map.contains_key(other) && other
                                != server_entity
                            &&& other != server_entity && s.context.entity_map.contains_key(other)
                                ==> next.context.entity_map[other] == s.context.entity_map[other]
                        }
                    &&& forall|hash: u64|
                        {
                            &&& #[trigger] next.signatures.contains_key(hash)
                                <==> s.signatures.contains_key(hash) && s.signatures[hash] != entity
                            &&& next.signatures.contains_key(hash) ==> next.signatures[hash]
                                == s.signatures[hash]
                        }
                } else {
                    &&& action is Proceed
                    &&& next.only_elsewhere(s)
                    &&& next.phase matches Phase::NextItem(after) && goes_on(cursor, after, rest)
                        && after.len == cursor.len
                },
                Err(error) => s.gives_up(cursor, ReceiveError::Wire(error), s.proceed()),
            }
        }),
{
    if let Ok((server_entity, _)) = read_entity(cursor.message) {
        if !s.context.entity_map.contains_key(server_entity) {
            assert(s.context.entity_map.remove(server_entity) =~= s.context.entity_map);
        }
    }
}

/// Removals for a sender's entity that something stands for ask to look at it, and for no other.
/// For an entity that nothing stands for they give up the message.
pub proof fn lemma_removals_are_begun(s: Receiving, cursor: Cursor<Seq<u8>>)
    requires
        s.phase == Phase::NextItem(cursor),
        has_item(cursor),
        stage_of(cursor) == Some(Stage::Removals),
    ensures
        ({
            let (next, action) = s.proceed();
            match read_block_header(cursor.message) {
                Ok((header, rest)) => if s.context.entity_map.contains_key(header.server_entity) {
                    &&& next.only_elsewhere(s)
                    &&& action matches Action::Inspect(entity) && entity
                        == s.context.entity_map[header.server_entity]
                    &&& next.phase matches Phase::Inspecting { cursor: after, entity, size } && {
                        &&& goes_on(cursor, after, rest) && after.len == cursor.len
                        &&& entity == s.context.entity_map[header.server_entity]
                        &&& size == header.data_size
                    }
                } else {
                    s.gives_up(
                        cursor,
                        ReceiveError::UnknownEntity(header.server_entity),
                        s.proceed(),
                    )
                },
                Err(error) => s.gives_up(cursor, ReceiveError::Wire(error), s.proceed()),
            }
        }),
{
}

/// Changes of a sender's entity that something stands for ask to look at it, and for no other. For
/// an entity that nothing stands for one is asked to be spawned, with the components of a received
/// entity.
pub proof fn lemma_changes_are_begun(s: Receiving, cursor: Cursor<Seq<u8>>)
    requires
        s.phase == Phase::NextItem(cursor),
        has_item(cursor),
        stage_of(cursor) == Some(Stage::Changes),
    ensures
        ({
            let (next, action) = s.proceed();
            match read_block_header(cursor.message) {
                Ok((header, rest)) => {
                    &&& next.only_elsewhere(s)
                    &&& if s.context.entity_map.contains_key(header.server_entity) {
                        &&& action matches Action::Inspect(entity) && entity
                            == s.context.entity_map[header.server_entity]
                        &&& next.phase matches Phase::Inspecting { cursor: after, entity, size }
                            && {
                            &&& goes_on(cursor, after, rest) && after.len == cursor.len
                            &&& entity == s.context.entity_map[header.server_entity]
                            &&& size == header.data_size
                        }
                    } else {
                        &&& action matches Action::Spawn(bundle) && bundle.remote_entity
                            == RemoteEntity(header.server_entity) && match s.context.source {
                            Some(source) => bundle.replicated_from == Some(ReplicatedFrom(source)),
                            None => bundle.replicated_from is None,
                        }
                        &&& next.phase matches Phase::Spawning {
                            cursor: after,
                            server_entity,
                            size,
                        } && {
                            &&& goes_on(cursor, after, rest) && after.len == cursor.len
                            &&& server_entity == header.server_entity
                            &&& size == header.data_size
                        }
                    }
                },
                Err(error) => s.gives_up(cursor, ReceiveError::Wire(error), s.proceed()),
            }
        }),
{
}

/// Mutations of a sender's entity that something stands for ask to look at it, and for no other.
/// Those of an entity that nothing stands for are passed over.
pub proof fn lemma_mutations_are_begun(s: Receiving, cursor: Cursor<Seq<u8>>)
    requires
        s.phase == Phase::NextItem(cursor),
        has_item(cursor),
        cursor.origin is Mutate,
    ensures
        ({
            let (next, action) = s.proceed();
            match read_block_header(cursor.message) {
                Ok((header, rest)) => if s.context.entity_map.contains_key(header.server_entity) {
                    &&& next.only_elsewhere(s)
                    &&& action matches Action::Inspect(entity) && entity
                        == s.context.entity_map[header.server_entity]
                    &&& next.phase matches Phase::Inspecting { cursor: after, entity, size } && {
                        &&& goes_on(cursor, after, rest) && after.len == cursor.len
                        &&& entity == s.context.entity_map[header.server_entity]
                        &&& size == header.data_size
                    }
                } else {
                    s.passes_over(
                        (Cursor { message: rest, ..cursor }),
                        header.data_size,
                        s.proceed(),
                    )
                },
                Err(error) => s.gives_up(cursor, ReceiveError::Wire(error), s.proceed()),
            }
        }),
{
}

/// What stands for a referred entity is spawned with the same components as what is spawned for
/// changes.
pub proof fn lemma_spawn_bundle(s: Receiving, server_entity: Entity)
    ensures
        s.spawn_bundle(server_entity) == (SpawnBundle {
            remote: Remote,
            remote_entity: RemoteEntity(server_entity),
            replicated_from: match s.context.source {
                Some(source) => Some(ReplicatedFrom(source)),
                None => None,
            },
        }),
{
}

/// Data about an entity that no longer exists is passed over.
pub proof fn lemma_vanished_entities_are_passed_over(
    s: Receiving,
    cursor: Cursor<Seq<u8>>,
    entity: Entity,
    size: usize,
)
    requires
        s.phase == (Phase::Inspecting { cursor, entity, size }),
    ensures
        s.passes_over(cursor, size, s.inspected(None)),
{
}

/// An update message applies its data to an entity that exists: removals remove components and
/// changes write them. The entity is confirmed for the message's tick, on top of what it was
/// confirmed for.
pub proof fn lemma_updates_are_applied(
    s: Receiving,
    cursor: Cursor<Seq<u8>>,
    entity: Entity,
    size: usize,
    info: EntityInfo,
)
    requires
        s.phase == (Phase::Inspecting { cursor, entity, size }),
        cursor.origin is Update,
    ensures
        ({
            let (next, action) = s.inspected(Some(info));
            &&& next.only_elsewhere(s)
            &&& s.applies(
                cursor,
                entity,
                size,
                if stage_of(cursor) == Some(Stage::Removals) {
                    BlockKind::Remove
                } else {
                    BlockKind::Write
                },
                (next, action),
            )
            &&& action matches Action::Confirm { history, .. } ==> {
                &&& history.last_tick == cursor.tick
                &&& history.has(cursor.tick)
                &&& forall|other: RepliconTick|
                    0 < cursor.tick.distance(other) < 64 ==> (#[trigger] history.has(other)
                        <==> match info.history {
                        Some(before) => !cursor.tick.before(before.last_tick) && before.has(other)
                            && before.last_tick.distance(other) < 64,
                        None => false,
                    })
            }
        }),
{
    let tick = cursor.tick;
    match info.history {
        Some(before) => {
            before.lemma_moved_has(tick);
            assert forall|other: RepliconTick| 0 < tick.distance(other) < 64 implies (
            #[trigger] before.moved(tick).has(other) <==> !tick.before(before.last_tick)
                && before.has(other) && before.last_tick.distance(other) < 64) by {
                before.lemma_moved_confirms_nothing_else(tick, other);
            }
        },
        None => {
            ConfirmHistory::lemma_first_has(tick);
            assert forall|other: RepliconTick| 0 < tick.distance(other) < 64 implies !(
            #[trigger] ConfirmHistory::first(tick).has(other)) by {
                ConfirmHistory::lemma_first_confirms_nothing_else(tick, other);
            }
        },
    }
}

/// Mutations that are later than what the entity has are written, and make their tick the last one.
/// Others are handed on if and only if a marker asks for them and they are fewer than 64 ticks old;
/// then their tick is confirmed and the last one stays. All else is passed over, and mutations of an
/// entity without a history give up the message.
pub proof fn lemma_mutations_are_applied(
    s: Receiving,
    cursor: Cursor<Seq<u8>>,
    entity: Entity,
    size: usize,
    info: EntityInfo,
)
    requires
        s.phase == (Phase::Inspecting { cursor, entity, size }),
        cursor.origin is Mutate,
    ensures
        ({
            let step = s.inspected(Some(info));
            let tick = cursor.tick;
            match info.history {
                None => s.gives_up(cursor, ReceiveError::MissingHistory(entity), step),
                Some(before) => if tick.after(before.last_tick) {
                    &&& step.0.only_elsewhere(s)
                    &&& s.applies(cursor, entity, size, BlockKind::Write, step)
                    &&& step.1 matches Action::Confirm { history, .. } ==> {
                        &&& history.last_tick == tick
                        &&& history.has(tick)
                        &&& forall|other: RepliconTick|
                            0 < tick.distance(other) < 64 ==> (#[trigger] history.has(other)
                                <==> before.has(other) && before.last_tick.distance(other) < 64)
                    }
                } else if info.need_history && before.last_tick.distance(tick) < 64 {
                    &&& step.0.only_elsewhere(s)
                    &&& s.applies(cursor, entity, size, BlockKind::Outdated, step)
                    &&& step.1 matches Action::Confirm { history, .. } ==> {
                        &&& history.last_tick == before.last_tick
                        &&& history.has(tick)
                        &&& forall|other: RepliconTick|
                            other != tick ==> (#[trigger] history.has(other) <==> before.has(other))
                    }
                } else {
                    s.passes_over(cursor, size, step)
                },
            }
        }),
{
    let tick = cursor.tick;
    if let Some(before) = info.history {
        if tick.after(before.last_tick) {
            before.lemma_moved_has(tick);
            assert forall|other: RepliconTick| 0 < tick.distance(other) < 64 implies (
            #[trigger] before.moved(tick).has(other) <==> before.has(other)
                && before.last_tick.distance(other) < 64) by {
                before.lemma_moved_confirms_nothing_else(tick, other);
            }
        } else if before.last_tick.distance(tick) < 64 {
            let ago = before.last_tick.distance(tick) as u32;
            before.lemma_marked_has(ago, tick);
            assert forall|other: RepliconTick| other != tick implies (
            #[trigger] before.marked(ago).has(other) <==> before.has(other)) by {
                before.lemma_marked_confirms_nothing_else(ago, other);
            }
        }
    }
}

/// An entity that was spawned for changes stands for the sender's entity, and its data is written.
/// It is confirmed for the message's tick, and for no other that is known.
pub proof fn lemma_spawned_entity_is_written(
    s: Receiving,
    cursor: Cursor<Seq<u8>>,
    server_entity: Entity,
    size: usize,
    entity: Entity,
)
    requires
        s.phase == (Phase::Spawning { cursor, server_entity, size }),
    ensures
        ({
            let (next, action) = s.spawned(entity);
            &&& next == (Receiving {
                context: Context {
                    entity_map: s.context.entity_map.insert(server_entity, entity),
                    spawned: match s.context.spawned {
                        Some(known) => Some(known.insert(entity)),
                        None => None,
                    },
                    ..s.context
                },
                phase: next.phase,
                ..s
            })
            &&& s.applies(cursor, entity, size, BlockKind::Write, (next, action))
            &&& action matches Action::Confirm { history, .. } ==> {
                &&& history.last_tick == cursor.tick
                &&& history.has(cursor.tick)
                &&& forall|other: RepliconTick|
                    0 < cursor.tick.distance(other) < 64 ==> !(#[trigger] history.has(other))
            }
        }),
{
    let tick = cursor.tick;
    ConfirmHistory::lemma_first_has(tick);
    assert forall|other: RepliconTick| 0 < tick.distance(other) < 64 implies !(
    #[trigger] ConfirmHistory::first(tick).has(other)) by {
        ConfirmHistory::lemma_first_confirms_nothing_else(tick, other);
    }
}

/// A despawn counts as an item that took effect if and only if the entity still existed. The array
/// goes on where it was, and nothing else changes.
pub proof fn lemma_despawn_is_counted(s: Receiving, cursor: Cursor<Seq<u8>>, existed: bool)
    requires
        s.phase == Phase::Despawning(cursor),
    ensures
        ({
            let (next, action) = s.despawned(existed);
            &&& next.only_elsewhere(s)
            &&& action is Proceed
            &&& next.phase matches Phase::NextItem(after) && {
                &&& after.message == cursor.message
                &&& after.tick == cursor.tick
                &&& after.origin == cursor.origin
                &&& after.len == if existed {
                    cursor.len.wrapping_add(1)
                } else {
                    cursor.len
                }
            }
        }),
{
}

/// A component that was written is followed by what the caller left of the data, of the same entity
/// and in the same way. One that could not be written gives up the message.
pub proof fn lemma_written_component_is_followed(
    s: Receiving,
    cursor: Cursor<Seq<u8>>,
    entity: Entity,
    kind: BlockKind,
    len: usize,
    outcome: Option<Seq<u8>>,
)
    requires
        s.phase == (Phase::Writing { cursor, entity, kind, len }),
    ensures
        ({
            let step = s.written(outcome);
            match outcome {
                Some(left) => {
                    &&& step.0.only_elsewhere(s)
                    &&& step.1 is Proceed
                    &&& step.0.phase matches Phase::NextComponent { cursor: after, block } && {
                        &&& after == cursor
                        &&& block.entity == entity
                        &&& block.kind == kind
                        &&& block.len == len.wrapping_add(1)
                        &&& block.data == left
                    }
                },
                None => s.gives_up(cursor, ReceiveError::Component, step),
            }
        }),
{
}

/// A component whose number can be read is removed, or handed to be written with all the data behind
/// its number. Afterwards exactly that data is left. Data whose number cannot be read gives up the
/// message.
pub proof fn lemma_component_is_applied(
    s: Receiving,
    cursor: Cursor<Seq<u8>>,
    entity: Entity,
    kind: BlockKind,
    len: usize,
    data: Seq<u8>,
)
    requires
        s.phase matches Phase::NextComponent { cursor: at, block } && at == cursor && block.entity
            == entity && block.kind == kind && block.len == len && block.data == data,
        data.len() > 0,
    ensures
        ({
            let (next, action) = s.proceed();
            match read_usize(data) {
                Ok((number, rest)) => {
                    &&& next.only_elsewhere(s)
                    &&& if kind is Remove {
                        &&& action matches Action::Remove { entity: changed, fns_id, tick }
                            && changed == entity && fns_id == FnsId(number) && tick == cursor.tick
                        &&& next.phase matches Phase::NextComponent { cursor: after, block } && {
                            &&& after == cursor
                            &&& block.entity == entity
                            &&& block.kind == kind
                            &&& block.len == len.wrapping_add(1)
                            &&& block.data == rest
                        }
                    } else {
                        &&& action matches Action::Write {
                            entity: changed,
                            fns_id,
                            tick,
                            outdated,
                            data: handed,
                        } && {
                            &&& changed == entity
                            &&& fns_id == FnsId(number)
                            &&& tick == cursor.tick
                            &&& outdated == (kind is Outdated)
                            &&& handed == rest
                        }
                        &&& next.phase matches Phase::Writing {
                            cursor: after,
                            entity: changed,
                            kind: after_kind,
                            len: after_len,
                        } && after == cursor && changed == entity && after_kind == kind && after_len
                            == len
                    }
                },
                Err(error) => s.gives_up(cursor, ReceiveError::Wire(error), s.proceed()),
            }
        }),
{
}

/// Once all data about an entity is used up, its components are counted and what was collected for
/// it is applied. The array goes on.
pub proof fn lemma_block_is_over(
    s: Receiving,
    cursor: Cursor<Seq<u8>>,
    entity: Entity,
    len: usize,
)
    requires
        s.phase matches Phase::NextComponent { cursor: at, block } && at == cursor && block.entity
            == entity && block.len == len && block.data.len() == 0,
    ensures
        ({
            let (next, action) = s.proceed();
            &&& next == (Receiving { stats: next.stats, phase: Phase::NextItem(cursor), ..s })
            &&& action matches Action::Flush(flushed) && flushed == entity
            &&& match (s.stats, next.stats) {
                (Some(before), Some(after)) => after == (ClientReplicationStats {
                    components_changed: before.components_changed.wrapping_add(len),
                    ..before
                }),
                (None, None) => true,
                _ => false,
            }
        }),
{
}

/// A mutate message is taken from the front and counted. If its start can be read, the message is
/// added to those that wait, which loses none of them, and its index to the acknowledgments;
/// otherwise it is reported.
pub proof fn lemma_mutate_message_is_buffered(s: Receiving)
    requires
        s.phase is Buffering,
        s.mutations.len() > 0,
    ensures
        ({
            let (next, action) = s.proceed();
            &&& next == (Receiving {
                mutations: s.mutations.skip(1),
                stats: next.stats,
                acks: next.acks,
                context: Context { buffered: next.context.buffered, ..s.context },
                ..s
            })
            &&& one_more_message(s.stats, next.stats, s.mutations[0].len())
            &&& match read_mutate_header(s.mutations[0], s.context.mutate_ticks is Some) {
                Ok((header, rest)) => {
                    &&& action is Proceed
                    &&& next.context.buffered.to_multiset() == s.context.buffered.to_multiset().insert(
                        BufferedMutate {
                            update_tick: header.update_tick,
                            message_tick: header.message_tick,
                            messages_count: header.messages_count,
                            message: rest,
                        },
                    )
                    &&& match (s.acks, next.acks) {
                        (Some(before), Some(after)) => after == before + varint_bytes(
                            header.index.0 as nat,
                        ),
                        (None, None) => true,
                        _ => false,
                    }
                },
                Err(error) => {
                    &&& action matches Action::BufferFailed(reported) && reported
                        == ReceiveError::Wire(error)
                    &&& next.context.buffered == s.context.buffered
                    &&& next.acks == s.acks
                },
            }
        }),
{
    if let Ok((header, rest)) = read_mutate_header(
        s.mutations[0],
        s.context.mutate_ticks is Some,
    ) {
        lemma_buffering_adds_one(
            s.context.buffered,
            BufferedMutate {
                update_tick: header.update_tick,
                message_tick: header.message_tick,
                messages_count: header.messages_count,
                message: rest,
            },
        );
    }
}

/// Once all mutate messages are read, those that are due are taken out and the others go on waiting,
/// so that none is lost and none is there twice.
pub proof fn lemma_due_messages_are_taken_out(s: Receiving)
    requires
        s.phase is Buffering,
        s.mutations.len() == 0,
    ensures
        ({
            let (next, action) = s.proceed();
            let due = next.ready;
            let waiting = next.context.buffered;
            &&& next == (Receiving {
                ready: due,
                context: Context { buffered: waiting, ..s.context },
                phase: next.phase,
                ..s
            })
            &&& next.phase is NextMutate
            &&& action is Proceed
            &&& due.to_multiset().add(waiting.to_multiset()) == s.context.buffered.to_multiset()
            &&& forall|i: int|
                0 <= i < due.len() ==> !(#[trigger] due[i]).update_tick.after(s.context.update_tick)
            &&& forall|i: int|
                0 <= i < waiting.len() ==> (#[trigger] waiting[i]).update_tick.after(
                    s.context.update_tick,
                )
        }),
{
    let buffered = s.context.buffered;
    let tick = s.context.update_tick;
    let next = s.proceed().0;
    lemma_split_loses_nothing(buffered, tick);
    assert forall|i: int| 0 <= i < next.ready.len() implies !(
    #[trigger] next.ready[i]).update_tick.after(tick) by {
        buffered.lemma_filter_pred(
            |mutation: BufferedMutate<Seq<u8>>| !mutation.update_tick.after(tick),
            i,
        );
    }
    assert forall|i: int| 0 <= i < next.context.buffered.len() implies (
    #[trigger] next.context.buffered[i]).update_tick.after(tick) by {
        buffered.lemma_filter_pred(
            |mutation: BufferedMutate<Seq<u8>>| mutation.update_tick.after(tick),
            i,
        );
    }
}

/// The due messages are applied from the first to the last, each with all of its bytes. Behind the
/// last one everything is received.
pub proof fn lemma_due_messages_are_applied(s: Receiving)
    requires
        s.phase is NextMutate,
    ensures
        ({
            let (next, action) = s.proceed();
            if s.ready.len() > 0 {
                &&& next == (Receiving { ready: s.ready.skip(1), phase: next.phase, ..s })
                &&& action is Proceed
                &&& next.phase matches Phase::NextItem(cursor) && {
                    &&& cursor.message == s.ready[0].message
                    &&& cursor.tick == s.ready[0].message_tick
                    &&& cursor.len == 0
                    &&& cursor.origin matches Origin::Mutate { messages_count } && messages_count
                        == s.ready[0].messages_count
                }
            } else {
                &&& next.only_elsewhere(s)
                &&& next.phase is Finished
                &&& action is Finished
            }
        }),
{
}

/// At the end of a mutate message its tick is reported if and only if mutate messages are counted,
/// the tick is new or one of the last ones, and as many of its messages arrived, with this one, as
/// the message says that there are. In particular the only message of a new tick is reported. What
/// is known of the other ticks stays.
pub proof fn lemma_complete_ticks_are_reported(
    s: Receiving,
    tick: RepliconTick,
    messages_count: usize,
)
    requires
        s.phase matches Phase::MutateEnd { tick: ended, messages_count: count } && ended == tick
            && count == messages_count,
        s.context.mutate_ticks matches Some(ticks) ==> ticks.slots.len() == 64,
    ensures
        ({
            let (next, action) = s.proceed();
            &&& next == (Receiving {
                context: Context { mutate_ticks: next.context.mutate_ticks, ..s.context },
                phase: next.phase,
                ..s
            })
            &&& next.phase is NextMutate
            &&& next.context.mutate_ticks is Some <==> s.context.mutate_ticks is Some
            &&& action is Proceed || action == Action::<Seq<u8>>::MutateTickReceived(tick)
            &&& match (s.context.mutate_ticks, next.context.mutate_ticks) {
                (Some(before), Some(after)) => {
                    let new = tick.after(before.last_tick);
                    let counted = new || before.last_tick.distance(tick) < 64;
                    let arrived = if new {
                        1
                    } else {
                        before.slots[before.last_tick.distance(tick)].received.wrapping_add(1)
                    };
                    &&& action is MutateTickReceived <==> counted && arrived == messages_count
                    &&& counted ==> {
                        &&& after.last_tick.distance(tick) < 64
                        &&& after.slots[after.last_tick.distance(tick)].received == arrived
                        &&& after.slots[after.last_tick.distance(tick)].count == messages_count
                    }
                    &&& !counted ==> after == before
                    &&& after.slots.len() == 64
                    &&& after.last_tick == if new {
                        tick
                    } else {
                        before.last_tick
                    }
                    &&& forall|other: RepliconTick|
                        #![trigger after.last_tick.distance(other)]
                        other != tick && !other.after(before.last_tick)
                            && before.last_tick.distance(other) < 64 && after.last_tick.distance(
                            other,
                        ) < 64 ==> after.slots[after.last_tick.distance(other)]
                            == before.slots[before.last_tick.distance(other)]
                    &&& forall|other: RepliconTick|
                        #![trigger after.last_tick.distance(other)]
                        new && 0 < tick.distance(other) < 64 && tick.distance(other)
                            < tick.distance(before.last_tick) ==> {
                            &&& after.slots[after.last_tick.distance(other)].received == 0
                            &&& after.slots[after.last_tick.distance(other)].count == 0
                        }
                },
                _ => action is Proceed,
            }
        }),
{
    if let Some(ticks) = s.context.mutate_ticks {
        lemma_confirm_counts(ticks, tick, messages_count);
        let after = ticks.confirmed(tick, messages_count);
        assert forall|other: RepliconTick|
            #![trigger after.last_tick.distance(other)]
            other != tick && !other.after(ticks.last_tick) && ticks.last_tick.distance(other) < 64
                && after.last_tick.distance(other)
                < 64 implies after.slots[after.last_tick.distance(other)]
            == ticks.slots[ticks.last_tick.distance(other)] by {
            lemma_confirm_keeps_others(ticks, tick, messages_count, other);
        }
    }
}

/// A machine that has received everything, or that was stopped, stays so.
pub proof fn lemma_the_end_stays(s: Receiving)
    ensures
        s.phase is Finished ==> s.proceed() == (s, Action::<Seq<u8>>::Finished),
        s.phase is Overrun ==> s.proceed() == (s, Action::<Seq<u8>>::Overrun),
{
}

/// The machine waits for an answer after it has asked for something to be looked at, spawned,
/// despawned or written, and only then.
pub proof fn lemma_waits_for_answers(s: Receiving)
    ensures
        s.waits() <==> s.phase is Inspecting || s.phase is Spawning || s.phase is Despawning
            || s.phase is Writing,
        !s.waits() ==> {
            let (next, action) = s.proceed();
            &&& next.phase is Inspecting <==> action is Inspect
            &&& next.phase is Spawning <==> action is Spawn
            &&& next.phase is Despawning <==> action is Despawn
            &&& next.phase is Writing <==> action is Write
        },
{
}

/// A mutate message that is buffered stands behind those at the start of the buffer that are later
/// than it, and before one that is not. The others keep their order.
pub proof fn lemma_buffered_message_has_its_place(s: Receiving)
    requires
        s.phase is Buffering,
        s.mutations.len() > 0,
        read_mutate_header(s.mutations[0], s.context.mutate_ticks is Some) is Ok,
    ensures
        ({
            let buffered = s.context.buffered;
            let (header, rest) = read_mutate_header(
                s.mutations[0],
                s.context.mutate_ticks is Some,
            )->Ok_0;
            exists|at: int|
                {
                    &&& 0 <= at <= buffered.len()
                    &&& s.proceed().0.context.buffered == buffered.take(at).push(
                        BufferedMutate {
                            update_tick: header.update_tick,
                            message_tick: header.message_tick,
                            messages_count: header.messages_count,
                            message: rest,
                        },
                    ) + #[trigger] buffered.skip(at)
                    &&& forall|i: int|
                        0 <= i < at ==> header.message_tick.before(
                            (#[trigger] buffered[i]).message_tick,
                        )
                    &&& at < buffered.len() ==> !header.message_tick.before(
                        buffered[at].message_tick,
                    )
                }
        }),
{
    let (header, rest) = read_mutate_header(
        s.mutations[0],
        s.context.mutate_ticks is Some,
    )->Ok_0;
    lemma_buffered_behind_later_ones(
        s.context.buffered,
        BufferedMutate {
            update_tick: header.update_tick,
            message_tick: header.message_tick,
            messages_count: header.messages_count,
            message: rest,
        },
    );
}

/// The messages that are due, and those that go on waiting, keep the order that they had.
pub proof fn lemma_messages_keep_their_order(s: Receiving)
    requires
        s.phase is Buffering,
        s.mutations.len() == 0,
    ensures
        keeps_order(s.context.buffered, s.proceed().0.ready),
        keeps_order(s.context.buffered, s.proceed().0.context.buffered),
{
    let buffered = s.context.buffered;
    let tick = s.context.update_tick;
    lemma_filter_keeps_order(
        buffered,
        |mutation: BufferedMutate<Seq<u8>>| !mutation.update_tick.after(tick),
    );
    lemma_filter_keeps_order(
        buffered,
        |mutation: BufferedMutate<Seq<u8>>| mutation.update_tick.after(tick),
    );
}

/// Some of the messages, in the order that they have among all.
pub open spec fn keeps_order(
    all: Seq<BufferedMutate<Seq<u8>>>,
    some: Seq<BufferedMutate<Seq<u8>>>,
) -> bool
    decreases all.len(),
{
    if all.len() == 0 {
        some.len() == 0
    } else {
        ||| keeps_order(all.drop_last(), some)
        ||| some.len() > 0 && some.last() == all.last() && keeps_order(
            all.drop_last(),
            some.drop_last(),
        )
    }
}

proof fn lemma_filter_keeps_order(
    all: Seq<BufferedMutate<Seq<u8>>>,
    pred: spec_fn(BufferedMutate<Seq<u8>>) -> bool,
)
    ensures
        keeps_order(all, all.filter(pred)),
    decreases all.len(),
{
    reveal(Seq::filter);
    if all.len() > 0 {
        let front = all.drop_last().filter(pred);
        lemma_filter_keeps_order(all.drop_last(), pred);
        if pred(all.last()) {
            assert(front.push(all.last()).drop_last() =~= front);
        }
    }
}

} // verus!
