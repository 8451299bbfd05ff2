//! How a sender's messages are received, as a machine.
//!
//! Whatever touches the world that holds the entities is left to the caller: the machine says what
//! to do as an [`Action`], and goes on once it is told how that went. [`Receiving`] is what the
//! machine knows, and its functions are the steps.

use bytes::Bytes;
use vstd::prelude::*;

use crate::client::{ClientReplicationStats, Remote};
use crate::confirm_history::ConfirmHistory;
use crate::context::{ready_messages, waiting_messages, with_mutation, BufferedMutate, Context};
use crate::entity::Entity;
use crate::message::{
    read_block_header, read_mapping, read_mutate_header, read_update_header, FnsId, Stage,
    UpdateMessageFlags,
};
use crate::replication::{RemoteEntity, ReplicatedFrom};
use crate::signature::without_entity;
use crate::tick::RepliconTick;
use crate::wire::{contents, read_entity, read_usize, varint_bytes, WireError};

verus! {

/// Why a message, or the rest of it, was not applied.
#[derive(Clone, Copy, Debug, PartialEq, Eq, Structural)]
pub enum ReceiveError {
    /// A field could not be read.
    Wire(WireError),
    /// Components were removed from an entity that nothing stands for.
    UnknownEntity(Entity),
    /// Components were mutated of an entity that no update message was received for.
    MissingHistory(Entity),
    /// A component could not be written.
    Component,
}

/// What the caller finds out about an entity.
#[derive(Clone, Copy, Debug, PartialEq, Eq, Structural)]
pub struct EntityInfo {
    /// The ticks for which the entity was replicated.
    pub history: Option<ConfirmHistory>,
    /// Whether the entity has a marker that asks for outdated mutations too.
    pub need_history: bool,
}

/// Components of an entity that is spawned for a sender's.
#[derive(Clone, Copy, Debug, PartialEq, Eq, Structural)]
pub struct SpawnBundle {
    pub remote: Remote,
    pub remote_entity: RemoteEntity,
    /// The client that sent it, on a server.
    pub replicated_from: Option<ReplicatedFrom>,
}

/// What the caller has to do next.
///
/// After [`Inspect`](Action::Inspect), [`Spawn`](Action::Spawn), [`Despawn`](Action::Despawn) and
/// [`Write`](Action::Write) the machine waits to be told what came of it.
pub enum Action<B> {
    /// Nothing.
    Proceed,
    /// Look at the entity. Its markers are those that the next components are written by.
    Inspect(Entity),
    /// Spawn an entity with these components. Its markers are those that the next components are
    /// written by.
    Spawn(SpawnBundle),
    /// Put these components on an entity that already stood for the sender's.
    Mark { entity: Entity, remote: Remote, remote_entity: RemoteEntity },
    /// Despawn the entity, if it still exists.
    Despawn { entity: Entity, tick: RepliconTick },
    /// Put the history on the entity, and report that it was replicated for the tick.
    Confirm { entity: Entity, history: ConfirmHistory, tick: RepliconTick },
    /// Remove a component from the entity.
    Remove { entity: Entity, fns_id: FnsId, tick: RepliconTick },
    /// Write a component of the entity, or, where `outdated`, hand it to a marker that keeps
    /// history. The component is at the start of the data.
    Write { entity: Entity, fns_id: FnsId, tick: RepliconTick, outdated: bool, data: B },
    /// Apply what was collected for the entity.
    Flush(Entity),
    /// Report that all mutate messages of the tick were received.
    MutateTickReceived(RepliconTick),
    /// Report that an update message was not applied from this array on, or not at all.
    UpdateFailed { stage: Option<Stage>, error: ReceiveError },
    /// Report that a mutate message could not be read.
    BufferFailed(ReceiveError),
    /// Report that the rest of a mutate message was not applied.
    MutateFailed { tick: RepliconTick, error: ReceiveError },
    /// A size in a message reaches beyond its end. The machine goes no further.
    Overrun,
    /// All messages are received.
    Finished,
}

impl View for Action<Bytes> {
    type V = Action<Seq<u8>>;

    open spec fn view(&self) -> Action<Seq<u8>> {
        match *self {
            Action::Proceed => Action::Proceed,
            Action::Inspect(entity) => Action::Inspect(entity),
            Action::Spawn(bundle) => Action::Spawn(bundle),
            Action::Mark { entity, remote, remote_entity } => Action::Mark {
                entity,
                remote,
                remote_entity,
            },
            Action::Despawn { entity, tick } => Action::Despawn { entity, tick },
            Action::Confirm { entity, history, tick } => Action::Confirm { entity, history, tick },
            Action::Remove { entity, fns_id, tick } => Action::Remove { entity, fns_id, tick },
            Action::Write { entity, fns_id, tick, outdated, data } => Action::Write {
                entity,
                fns_id,
                tick,
                outdated,
                data: contents(data),
            },
            Action::Flush(entity) => Action::Flush(entity),
            Action::MutateTickReceived(tick) => Action::MutateTickReceived(tick),
            Action::UpdateFailed { stage, error } => Action::UpdateFailed { stage, error },
            Action::BufferFailed(error) => Action::BufferFailed(error),
            Action::MutateFailed { tick, error } => Action::MutateFailed { tick, error },
            Action::Overrun => Action::Overrun,
            Action::Finished => Action::Finished,
        }
    }
}

/// Which message an array belongs to.
#[derive(Clone, Copy, Debug, PartialEq, Eq, Structural)]
pub enum Origin {
    /// An update message.
    Update {
        stage: Stage,
        /// The arrays that come after this one.
        rest: UpdateMessageFlags,
        /// How many items of the array are left. The last array of a message has no count: it goes
        /// on to the message's end.
        left: Option<usize>,
    },
    /// A mutate message, which has a single array that goes on to its end.
    Mutate { messages_count: usize },
}

/// An array in the middle of being applied.
pub struct Cursor<B> {
    /// What is left of the message.
    pub message: B,
    pub tick: RepliconTick,
    /// How many items took effect.
    pub len: usize,
    pub origin: Origin,
}

impl View for Cursor<Bytes> {
    type V = Cursor<Seq<u8>>;

    open spec fn view(&self) -> Cursor<Seq<u8>> {
        Cursor {
            message: contents(self.message),
            tick: self.tick,
            len: self.len,
            origin: self.origin,
        }
    }
}

/// What is done with the components in a block of data.
#[derive(Clone, Copy, Debug, PartialEq, Eq, Structural)]
pub enum BlockKind {
    /// They are removed.
    Remove,
    /// They are written.
    Write,
    /// They are handed to a marker that keeps history.
    Outdated,
}

/// Data about the components of an entity in the middle of being applied.
pub struct Block<B> {
    pub entity: Entity,
    pub kind: BlockKind,
    /// How many components were applied.
    pub len: usize,
    /// What is left of the data.
    pub data: B,
}

impl View for Block<Bytes> {
    type V = Block<Seq<u8>>;

    open spec fn view(&self) -> Block<Seq<u8>> {
        Block { entity: self.entity, kind: self.kind, len: self.len, data: contents(self.data) }
    }
}

/// Where the machine is.
pub enum Phase<B> {
    /// Before an update message, or behind the last one.
    NextUpdate,
    /// Before an array of an update message, or behind the last one.
    NextArray { message: B, tick: RepliconTick, flags: UpdateMessageFlags },
    /// Before an item of an array, or behind the last one.
    NextItem(Cursor<B>),
    /// Waiting to be told about an entity, with this much data about its components.
    Inspecting { cursor: Cursor<B>, entity: Entity, size: usize },
    /// Waiting for an entity to be spawned, with this much data about its components.
    Spawning { cursor: Cursor<B>, server_entity: Entity, size: usize },
    /// Waiting for an entity to be despawned.
    Despawning(Cursor<B>),
    /// Before a component, or behind the last one.
    NextComponent { cursor: Cursor<B>, block: Block<B> },
    /// Waiting for a component to be written, with the others behind it.
    Writing { cursor: Cursor<B>, entity: Entity, kind: BlockKind, len: usize },
    /// Before a mutate message that was not read yet, or behind the last one.
    Buffering,
    /// Before a mutate message that is ready to be applied, or behind the last one.
    NextMutate,
    /// Behind a mutate message.
    MutateEnd { tick: RepliconTick, messages_count: usize },
    /// Behind everything.
    Finished,
    /// At a size that reaches beyond the end of its message.
    Overrun,
}

impl View for Phase<Bytes> {
    type V = Phase<Seq<u8>>;

    open spec fn view(&self) -> Phase<Seq<u8>> {
        match *self {
            Phase::NextUpdate => Phase::NextUpdate,
            Phase::NextArray { message, tick, flags } => Phase::NextArray {
                message: contents(message),
                tick,
                flags,
            },
            Phase::NextItem(cursor) => Phase::NextItem(cursor@),
            Phase::Inspecting { cursor, entity, size } => Phase::Inspecting {
                cursor: cursor@,
                entity,
                size,
            },
            Phase::Spawning { cursor, server_entity, size } => Phase::Spawning {
                cursor: cursor@,
                server_entity,
                size,
            },
            Phase::Despawning(cursor) => Phase::Despawning(cursor@),
            Phase::NextComponent { cursor, block } => Phase::NextComponent {
                cursor: cursor@,
                block: block@,
            },
            Phase::Writing { cursor, entity, kind, len } => Phase::Writing {
                cursor: cursor@,
                entity,
                kind,
                len,
            },
            Phase::Buffering => Phase::Buffering,
            Phase::NextMutate => Phase::NextMutate,
            Phase::MutateEnd { tick, messages_count } => Phase::MutateEnd { tick, messages_count },
            Phase::Finished => Phase::Finished,
            Phase::Overrun => Phase::Overrun,
        }
    }
}

/// What the machine knows.
#[verifier::ext_equal]
pub struct Receiving {
    pub context: Context,
    pub stats: Option<ClientReplicationStats>,
    pub signatures: Map<u64, Entity>,
    /// Update messages that were not begun.
    pub updates: Seq<Seq<u8>>,
    /// Mutate messages that were not read.
    pub mutations: Seq<Seq<u8>>,
    /// Indices of the mutate messages that were read, where there were any messages to read.
    pub acks: Option<Seq<u8>>,
    /// Mutate messages that can be applied.
    pub ready: Seq<BufferedMutate<Seq<u8>>>,
    pub phase: Phase<Seq<u8>>,
}

impl Cursor<Seq<u8>> {
    /// Behind the last item.
    pub open spec fn at_end(self) -> bool {
        match self.origin {
            Origin::Update { left: Some(left), .. } => left == 0,
            _ => self.message.len() == 0,
        }
    }

    /// With one more item begun.
    pub open spec fn begun(self) -> Cursor<Seq<u8>> {
        Cursor {
            message: self.message,
            tick: self.tick,
            len: self.len,
            origin: match self.origin {
                Origin::Update { stage, rest, left: Some(left) } => Origin::Update {
                    stage,
                    rest,
                    left: Some((left - 1) as usize),
                },
                origin => origin,
            },
        }
    }

    /// With one more item that took effect.
    pub open spec fn counted(self) -> Cursor<Seq<u8>> {
        Cursor {
            message: self.message,
            tick: self.tick,
            len: self.len.wrapping_add(1),
            origin: self.origin,
        }
    }

    /// With this left of the message.
    pub open spec fn with_message(self, message: Seq<u8>) -> Cursor<Seq<u8>> {
        Cursor { message, tick: self.tick, len: self.len, origin: self.origin }
    }
}

/// The history once the entity was replicated for the tick.
pub open spec fn confirm_tick(
    history: Option<ConfirmHistory>,
    tick: RepliconTick,
) -> ConfirmHistory {
    match history {
        Some(history) => history.moved(tick),
        None => ConfirmHistory::first(tick),
    }
}

/// What becomes of mutations of an entity.
#[derive(Clone, Copy, Debug, PartialEq, Eq, Structural)]
pub enum Decision {
    /// They are later than what the entity has: they are written.
    Newer(ConfirmHistory),
    /// They are not later, and a marker asks for them.
    Outdated(ConfirmHistory),
    /// They are not later and nobody asks for them, or they are too old.
    Ignore,
}

/// What becomes of mutations for the tick, of an entity with this history.
pub open spec fn decide_mutations(
    history: ConfirmHistory,
    need_history: bool,
    tick: RepliconTick,
) -> Decision {
    let ago = history.last_tick.distance(tick);
    if tick.after(history.last_tick) {
        Decision::Newer(history.moved(tick))
    } else if need_history && ago < 64 {
        Decision::Outdated(history.marked(ago as u32))
    } else {
        Decision::Ignore
    }
}

impl Receiving {
    /// Elsewhere.
    pub open spec fn at(self, phase: Phase<Seq<u8>>) -> Receiving {
        Receiving { phase, ..self }
    }

    /// With this context.
    pub open spec fn with_context(self, context: Context) -> Receiving {
        Receiving { context, ..self }
    }

    /// With these statistics, where they are collected.
    pub open spec fn counting(
        self,
        count: spec_fn(ClientReplicationStats) -> ClientReplicationStats,
    ) -> Receiving {
        Receiving {
            stats: match self.stats {
                Some(stats) => Some(count(stats)),
                None => None,
            },
            ..self
        }
    }

    /// With one more message received.
    pub open spec fn counting_message(self, message: Seq<u8>) -> Receiving {
        self.counting(
            |stats: ClientReplicationStats| stats.with_message(message.len() as usize),
        )
    }

    /// With the items of an array counted that took effect.
    pub open spec fn counting_items(self, cursor: Cursor<Seq<u8>>) -> Receiving {
        self.counting(
            |stats: ClientReplicationStats|
                match cursor.origin {
                    Origin::Update { stage: Stage::Mappings, .. } => stats.with_mappings(cursor.len),
                    Origin::Update { stage: Stage::Despawns, .. } => stats.with_despawns(cursor.len),
                    _ => stats.with_entities(cursor.len),
                },
        )
    }

    /// The machine before the first message.
    pub open spec fn start(
        context: Context,
        stats: Option<ClientReplicationStats>,
        signatures: Map<u64, Entity>,
        updates: Seq<Seq<u8>>,
        mutations: Seq<Seq<u8>>,
    ) -> Receiving {
        Receiving {
            context,
            stats,
            signatures,
            updates,
            mutations,
            acks: None,
            ready: Seq::empty(),
            phase: Phase::NextUpdate,
        }
    }

    /// The rest of an array's message is given up.
    pub open spec fn failed(self, cursor: Cursor<Seq<u8>>, error: ReceiveError) -> (
        Receiving,
        Action<Seq<u8>>,
    ) {
        match cursor.origin {
            Origin::Update { stage, .. } => (
                self.at(Phase::NextUpdate),
                Action::UpdateFailed { stage: Some(stage), error },
            ),
            Origin::Mutate { messages_count } => (
                self.at(Phase::MutateEnd { tick: cursor.tick, messages_count }),
                Action::MutateFailed { tick: cursor.tick, error },
            ),
        }
    }

    /// A block of data is passed over.
    pub open spec fn skipped(self, cursor: Cursor<Seq<u8>>, size: usize) -> (
        Receiving,
        Action<Seq<u8>>,
    ) {
        if size <= cursor.message.len() {
            (
                self.at(Phase::NextItem(cursor.with_message(cursor.message.skip(size as int)))),
                Action::Proceed,
            )
        } else {
            (self.at(Phase::Overrun), Action::Overrun)
        }
    }

    /// A block of data is begun, once the entity is confirmed. The entity counts as changed.
    pub open spec fn opened(
        self,
        cursor: Cursor<Seq<u8>>,
        entity: Entity,
        size: usize,
        kind: BlockKind,
        history: ConfirmHistory,
    ) -> (Receiving, Action<Seq<u8>>) {
        if size <= cursor.message.len() {
            (
                self.at(
                    Phase::NextComponent {
                        cursor: cursor.with_message(cursor.message.skip(size as int)).counted(),
                        block: Block {
                            entity,
                            kind,
                            len: 0,
                            data: cursor.message.take(size as int),
                        },
                    },
                ),
                Action::Confirm { entity, history, tick: cursor.tick },
            )
        } else {
            (self.at(Phase::Overrun), Action::Overrun)
        }
    }

    /// An update message is begun.
    pub open spec fn apply_update_message(self, message: Seq<u8>) -> (
        Receiving,
        Action<Seq<u8>>,
    ) {
        let counted = self.counting_message(message);
        match read_update_header(message) {
            Ok((header, rest)) => (
                counted.with_context(Context { update_tick: header.tick, ..self.context }).at(
                    Phase::NextArray { message: rest, tick: header.tick, flags: header.flags },
                ),
                Action::Proceed,
            ),
            Err(error) => (
                counted.at(Phase::NextUpdate),
                Action::UpdateFailed { stage: None, error: ReceiveError::Wire(error) },
            ),
        }
    }

    /// The next array of an update message is begun. All but the last start with their length.
    pub open spec fn begin_array(
        self,
        message: Seq<u8>,
        tick: RepliconTick,
        flags: UpdateMessageFlags,
    ) -> (Receiving, Action<Seq<u8>>) {
        match flags.first_stage() {
            None => (self.at(Phase::NextUpdate), Action::Proceed),
            Some(stage) => {
                let rest = flags.later(stage);
                if rest.first_stage() is None {
                    (
                        self.at(
                            Phase::NextItem(
                                Cursor {
                                    message,
                                    tick,
                                    len: 0,
                                    origin: Origin::Update { stage, rest, left: None },
                                },
                            ),
                        ),
                        Action::Proceed,
                    )
                } else {
                    match read_usize(message) {
                        Ok((left, message)) => (
                            self.at(
                                Phase::NextItem(
                                    Cursor {
                                        message,
                                        tick,
                                        len: 0,
                                        origin: Origin::Update { stage, rest, left: Some(left) },
                                    },
                                ),
                            ),
                            Action::Proceed,
                        ),
                        Err(error) => (
                            self.at(Phase::NextUpdate),
                            Action::UpdateFailed {
                                stage: Some(stage),
                                error: ReceiveError::Wire(error),
                            },
                        ),
                    }
                }
            },
        }
    }

    /// An item of an array, or its end.
    pub open spec fn apply_array(self, cursor: Cursor<Seq<u8>>) -> (Receiving, Action<Seq<u8>>) {
        if cursor.at_end() {
            let counted = self.counting_items(cursor);
            match cursor.origin {
                Origin::Update { rest, .. } => (
                    counted.at(
                        Phase::NextArray {
                            message: cursor.message,
                            tick: cursor.tick,
                            flags: rest,
                        },
                    ),
                    Action::Proceed,
                ),
                Origin::Mutate { messages_count } => (
                    counted.at(Phase::MutateEnd { tick: cursor.tick, messages_count }),
                    Action::Proceed,
                ),
            }
        } else {
            let cursor = cursor.begun();
            match cursor.origin {
                Origin::Update { stage: Stage::Mappings, .. } => self.apply_entity_mapping(cursor),
                Origin::Update { stage: Stage::Despawns, .. } => self.apply_despawn(cursor),
                Origin::Update { stage: Stage::Removals, .. } => self.apply_removals(cursor),
                Origin::Update { stage: Stage::Changes, .. } => self.apply_changes(cursor),
                Origin::Mutate { .. } => self.apply_mutations(cursor),
            }
        }
    }

    /// An entity of this side stands for the sender's if its signature is known.
    pub open spec fn apply_entity_mapping(self, cursor: Cursor<Seq<u8>>) -> (
        Receiving,
        Action<Seq<u8>>,
    ) {
        match read_mapping(cursor.message) {
            Ok((mapping, rest)) => {
                let cursor = cursor.with_message(rest);
                match self.signatures.get(mapping.hash) {
                    Some(entity) => (
                        self.at(Phase::NextItem(cursor.counted())).with_context(
                            Context {
                                entity_map: self.context.entity_map.insert(
                                    mapping.server_entity,
                                    entity,
                                ),
                                ..self.context
                            },
                        ),
                        Action::Mark {
                            entity,
                            remote: Remote,
                            remote_entity: RemoteEntity(mapping.server_entity),
                        },
                    ),
                    None => (self.at(Phase::NextItem(cursor)), Action::Proceed),
                }
            },
            Err(error) => self.failed(cursor, ReceiveError::Wire(error)),
        }
    }

    /// What stands for the sender's entity no longer does, and goes.
    pub open spec fn apply_despawn(self, cursor: Cursor<Seq<u8>>) -> (Receiving, Action<Seq<u8>>) {
        match read_entity(cursor.message) {
            Ok((server_entity, rest)) => {
                let cursor = cursor.with_message(rest);
                let next = self.with_context(
                    Context {
                        entity_map: self.context.entity_map.remove(server_entity),
                        ..self.context
                    },
                );
                match self.context.entity_map.get(server_entity) {
                    Some(entity) => (
                        Receiving {
                            signatures: without_entity(self.signatures, entity),
                            ..next
                        }.at(Phase::Despawning(cursor)),
                        Action::Despawn { entity, tick: cursor.tick },
                    ),
                    None => (next.at(Phase::NextItem(cursor)), Action::Proceed),
                }
            },
            Err(error) => self.failed(cursor, ReceiveError::Wire(error)),
        }
    }

    /// The caller despawned an entity, or it no longer existed.
    pub open spec fn despawned(self, existed: bool) -> (Receiving, Action<Seq<u8>>) {
        match self.phase {
            Phase::Despawning(cursor) => (
                self.at(
                    Phase::NextItem(
                        if existed {
                            cursor.counted()
                        } else {
                            cursor
                        },
                    ),
                ),
                Action::Proceed,
            ),
            _ => (self, Action::Proceed),
        }
    }

    /// Components are removed from the entity that stands for the sender's. There must be one.
    pub open spec fn apply_removals(self, cursor: Cursor<Seq<u8>>) -> (
        Receiving,
        Action<Seq<u8>>,
    ) {
        match read_block_header(cursor.message) {
            Ok((header, rest)) => match self.context.entity_map.get(header.server_entity) {
                Some(entity) => (
                    self.at(
                        Phase::Inspecting {
                            cursor: cursor.with_message(rest),
                            entity,
                            size: header.data_size,
                        },
                    ),
                    Action::Inspect(entity),
                ),
                None => self.failed(cursor, ReceiveError::UnknownEntity(header.server_entity)),
            },
            Err(error) => self.failed(cursor, ReceiveError::Wire(error)),
        }
    }

    /// What is spawned for a sender's entity.
    pub open spec fn spawn_bundle(self, server_entity: Entity) -> SpawnBundle {
        SpawnBundle {
            remote: Remote,
            remote_entity: RemoteEntity(server_entity),
            replicated_from: match self.context.source {
                Some(source) => Some(ReplicatedFrom(source)),
                None => None,
            },
        }
    }

    /// Components are written to the entity that stands for the sender's. If there is none, one is
    /// spawned.
    pub open spec fn apply_changes(self, cursor: Cursor<Seq<u8>>) -> (Receiving, Action<Seq<u8>>) {
        match read_block_header(cursor.message) {
            Ok((header, rest)) => match self.context.entity_map.get(header.server_entity) {
                Some(entity) => (
                    self.at(
                        Phase::Inspecting {
                            cursor: cursor.with_message(rest),
                            entity,
                            size: header.data_size,
                        },
                    ),
                    Action::Inspect(entity),
                ),
                None => (
                    self.at(
                        Phase::Spawning {
                            cursor: cursor.with_message(rest),
                            server_entity: header.server_entity,
                            size: header.data_size,
                        },
                    ),
                    Action::Spawn(self.spawn_bundle(header.server_entity)),
                ),
            },
            Err(error) => self.failed(cursor, ReceiveError::Wire(error)),
        }
    }

    /// Components are mutated of the entity that stands for the sender's, if there is one.
    pub open spec fn apply_mutations(self, cursor: Cursor<Seq<u8>>) -> (
        Receiving,
        Action<Seq<u8>>,
    ) {
        match read_block_header(cursor.message) {
            Ok((header, rest)) => match self.context.entity_map.get(header.server_entity) {
                Some(entity) => (
                    self.at(
                        Phase::Inspecting {
                            cursor: cursor.with_message(rest),
                            entity,
                            size: header.data_size,
                        },
                    ),
                    Action::Inspect(entity),
                ),
                None => self.skipped(cursor.with_message(rest), header.data_size),
            },
            Err(error) => self.failed(cursor, ReceiveError::Wire(error)),
        }
    }

    /// The caller looked at an entity; `None` stands for one that no longer exists.
    pub open spec fn inspected(self, info: Option<EntityInfo>) -> (Receiving, Action<Seq<u8>>) {
        match self.phase {
            Phase::Inspecting { cursor, entity, size } => match info {
                None => self.skipped(cursor, size),
                Some(info) => match cursor.origin {
                    Origin::Update { stage, .. } => self.opened(
                        cursor,
                        entity,
                        size,
                        if stage is Removals {
                            BlockKind::Remove
                        } else {
                            BlockKind::Write
                        },
                        confirm_tick(info.history, cursor.tick),
                    ),
                    Origin::Mutate { .. } => match info.history {
                        None => self.failed(cursor, ReceiveError::MissingHistory(entity)),
                        Some(history) => match decide_mutations(
                            history,
                            info.need_history,
                            cursor.tick,
                        ) {
                            Decision::Newer(history) => self.opened(
                                cursor,
                                entity,
                                size,
                                BlockKind::Write,
                                history,
                            ),
                            Decision::Outdated(history) => self.opened(
                                cursor,
                                entity,
                                size,
                                BlockKind::Outdated,
                                history,
                            ),
                            Decision::Ignore => self.skipped(cursor, size),
                        },
                    },
                },
            },
            _ => (self, Action::Proceed),
        }
    }

    /// The caller spawned an entity.
    pub open spec fn spawned(self, entity: Entity) -> (Receiving, Action<Seq<u8>>) {
        match self.phase {
            Phase::Spawning { cursor, server_entity, size } => self.with_context(
                self.context.with_spawned(server_entity, entity),
            ).opened(cursor, entity, size, BlockKind::Write, confirm_tick(None, cursor.tick)),
            _ => (self, Action::Proceed),
        }
    }

    /// A component of a block, or its end.
    pub open spec fn apply_component(self, cursor: Cursor<Seq<u8>>, block: Block<Seq<u8>>) -> (
        Receiving,
        Action<Seq<u8>>,
    ) {
        if block.data.len() == 0 {
            (
                self.counting(
                    |stats: ClientReplicationStats| stats.with_components(block.len),
                ).at(Phase::NextItem(cursor)),
                Action::Flush(block.entity),
            )
        } else {
            match read_usize(block.data) {
                Err(error) => self.failed(cursor, ReceiveError::Wire(error)),
                Ok((fns_id, data)) => if block.kind is Remove {
                    (
                        self.at(
                            Phase::NextComponent {
                                cursor,
                                block: Block {
                                    entity: block.entity,
                                    kind: block.kind,
                                    len: block.len.wrapping_add(1),
                                    data,
                                },
                            },
                        ),
                        Action::Remove {
                            entity: block.entity,
                            fns_id: FnsId(fns_id),
                            tick: cursor.tick,
                        },
                    )
                } else {
                    (
                        self.at(
                            Phase::Writing {
                                cursor,
                                entity: block.entity,
                                kind: block.kind,
                                len: block.len,
                            },
                        ),
                        Action::Write {
                            entity: block.entity,
                            fns_id: FnsId(fns_id),
                            tick: cursor.tick,
                            outdated: block.kind is Outdated,
                            data,
                        },
                    )
                },
            }
        }
    }

    /// The caller wrote a component and left this of the data, or could not write it.
    pub open spec fn written(self, outcome: Option<Seq<u8>>) -> (Receiving, Action<Seq<u8>>) {
        match self.phase {
            Phase::Writing { cursor, entity, kind, len } => match outcome {
                Some(data) => (
                    self.at(
                        Phase::NextComponent {
                            cursor,
                            block: Block { entity, kind, len: len.wrapping_add(1), data },
                        },
                    ),
                    Action::Proceed,
                ),
                None => self.failed(cursor, ReceiveError::Component),
            },
            _ => (self, Action::Proceed),
        }
    }

    /// All update messages were applied.
    pub open spec fn updates_done(self) -> (Receiving, Action<Seq<u8>>) {
        (
            Receiving {
                acks: if self.mutations.len() > 0 {
                    Some(Seq::empty())
                } else {
                    None
                },
                ..self
            }.at(Phase::Buffering),
            Action::Proceed,
        )
    }

    /// A mutate message is read and put with those that wait; its index is acknowledged.
    pub open spec fn buffer_mutate_message(self, message: Seq<u8>) -> (
        Receiving,
        Action<Seq<u8>>,
    ) {
        let counted = self.counting_message(message).at(Phase::Buffering);
        match read_mutate_header(message, self.context.mutate_ticks is Some) {
            Ok((header, rest)) => (
                Receiving {
                    acks: match self.acks {
                        Some(acks) => Some(acks + varint_bytes(header.index.0 as nat)),
                        None => None,
                    },
                    ..counted
                }.with_context(
                    Context {
                        buffered: with_mutation(
                            self.context.buffered,
                            BufferedMutate {
                                update_tick: header.update_tick,
                                message_tick: header.message_tick,
                                messages_count: header.messages_count,
                                message: rest,
                            },
                        ),
                        ..self.context
                    },
                ),
                Action::Proceed,
            ),
            Err(error) => (counted, Action::BufferFailed(ReceiveError::Wire(error))),
        }
    }

    /// The messages whose update tick was received are taken out to be applied.
    pub open spec fn apply_mutate_messages(self) -> (Receiving, Action<Seq<u8>>) {
        (
            Receiving {
                ready: ready_messages(self.context.buffered, self.context.update_tick),
                ..self
            }.with_context(
                Context {
                    buffered: waiting_messages(self.context.buffered, self.context.update_tick),
                    ..self.context
                },
            ).at(Phase::NextMutate),
            Action::Proceed,
        )
    }

    /// A mutate message is begun.
    pub open spec fn apply_mutate_message(self, mutation: BufferedMutate<Seq<u8>>) -> (
        Receiving,
        Action<Seq<u8>>,
    ) {
        (
            self.at(
                Phase::NextItem(
                    Cursor {
                        message: mutation.message,
                        tick: mutation.message_tick,
                        len: 0,
                        origin: Origin::Mutate { messages_count: mutation.messages_count },
                    },
                ),
            ),
            Action::Proceed,
        )
    }

    /// A mutate message is done with, applied or not.
    pub open spec fn mutate_end(self, tick: RepliconTick, messages_count: usize) -> (
        Receiving,
        Action<Seq<u8>>,
    ) {
        let next = self.at(Phase::NextMutate);
        match self.context.mutate_ticks {
            Some(mutate_ticks) => {
                let confirmed = mutate_ticks.confirmed(tick, messages_count);
                (
                    next.with_context(Context { mutate_ticks: Some(confirmed), ..self.context }),
                    if confirmed.complete(tick) {
                        Action::MutateTickReceived(tick)
                    } else {
                        Action::Proceed
                    },
                )
            },
            None => (next, Action::Proceed),
        }
    }

    /// The machine waits to be told what came of the last action.
    pub open spec fn waits(self) -> bool {
        ||| self.phase is Inspecting
        ||| self.phase is Spawning
        ||| self.phase is Despawning
        ||| self.phase is Writing
    }

    /// The next step of a machine that does not wait.
    pub open spec fn proceed(self) -> (Receiving, Action<Seq<u8>>) {
        match self.phase {
            Phase::NextUpdate => if self.updates.len() > 0 {
                Receiving { updates: self.updates.skip(1), ..self }.apply_update_message(
                    self.updates[0],
                )
            } else {
                self.updates_done()
            },
            Phase::NextArray { message, tick, flags } => self.begin_array(message, tick, flags),
            Phase::NextItem(cursor) => self.apply_array(cursor),
            Phase::NextComponent { cursor, block } => self.apply_component(cursor, block),
            Phase::Buffering => if self.mutations.len() > 0 {
                Receiving { mutations: self.mutations.skip(1), ..self }.buffer_mutate_message(
                    self.mutations[0],
                )
            } else {
                self.apply_mutate_messages()
            },
            Phase::NextMutate => if self.ready.len() > 0 {
                Receiving { ready: self.ready.skip(1), ..self }.apply_mutate_message(self.ready[0])
            } else {
                (self.at(Phase::Finished), Action::Finished)
            },
            Phase::MutateEnd { tick, messages_count } => self.mutate_end(tick, messages_count),
            Phase::Finished => (self, Action::Finished),
            Phase::Overrun => (self, Action::Overrun),
            _ => (self, Action::Proceed),
        }
    }

    /// No step changes whose messages are received, or what was spawned for them, but for an entity
    /// that the caller spawned.
    pub proof fn lemma_keeps_sender(self)
        ensures
            self.proceed().0.context.source == self.context.source,
            self.proceed().0.context.spawned == self.context.spawned,
            forall|info: Option<EntityInfo>|
                (#[trigger] self.inspected(info)).0.context == self.context,
            forall|existed: bool|
                (#[trigger] self.despawned(existed)).0.context == self.context,
            forall|outcome: Option<Seq<u8>>|
                (#[trigger] self.written(outcome)).0.context == self.context,
    {
        match self.phase {
            Phase::NextUpdate => {},
            Phase::NextArray { message, tick, flags } => {},
            Phase::NextItem(cursor) => {},
            Phase::NextComponent { cursor, block } => {},
            Phase::Buffering => {},
            Phase::NextMutate => {},
            Phase::MutateEnd { tick, messages_count } => {},
            _ => {},
        }
    }
}

} // verus!
