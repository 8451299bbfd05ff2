//! Receiving a sender's messages.

use bytes::Bytes;
use vstd::prelude::*;

use crate::client::{ClientReplicationStats, Remote, ServerUpdateTick};
use crate::confirm_history::ConfirmHistory;
use crate::context::{BufferedMutate, BufferedMutations, ReceiveContext};
use crate::entity::Entity;
use crate::message::{
    block_header_from_buf, mapping_from_buf, mutate_header_from_buf, update_header_from_buf, FnsId,
    Stage, UpdateMessageFlags,
};
use crate::receiving::{
    Action, Block, BlockKind, Cursor, Decision, EntityInfo, Origin, Phase, ReceiveError, Receiving,
    SpawnBundle,
};
use crate::replication::{RemoteEntity, ReplicatedFrom};
use crate::signature::SignatureMap;
use crate::tick::RepliconTick;
use crate::wire::{
    bytes_advance, bytes_has_remaining, bytes_len, bytes_split_to, contents, entity_from_buf,
    u16_to_buf, usize_from_buf,
};

verus! {

/// What messages hold.
pub open spec fn all_contents(messages: Seq<Bytes>) -> Seq<Seq<u8>> {
    messages.map_values(|message: Bytes| contents(message))
}

/// Messages that were received and not applied yet.
pub struct ReceivedReplicationMessages {
    pub updates: Vec<Bytes>,
    pub mutations: Vec<Bytes>,
}

/// What the messages in a [`ReceivedReplicationMessages`] hold.
#[verifier::ext_equal]
pub struct Messages {
    pub updates: Seq<Seq<u8>>,
    pub mutations: Seq<Seq<u8>>,
}

impl Messages {
    /// No messages.
    pub open spec fn none() -> Messages {
        Messages { updates: Seq::empty(), mutations: Seq::empty() }
    }
}

impl View for ReceivedReplicationMessages {
    type V = Messages;

    open spec fn view(&self) -> Messages {
        Messages {
            updates: all_contents(self.updates@),
            mutations: all_contents(self.mutations@),
        }
    }
}

impl ReceivedReplicationMessages {
    /// No messages.
    pub fn new() -> (messages: ReceivedReplicationMessages)
        ensures
            messages@ == Messages::none(),
    {
        let messages = ReceivedReplicationMessages { updates: Vec::new(), mutations: Vec::new() };
        assert(messages@ =~= Messages::none());
        messages
    }

    /// Drops all messages.
    pub fn clear(&mut self)
        ensures
            final(self)@ == Messages::none(),
    {
        self.updates.clear();
        self.mutations.clear();
        assert(self@ =~= Messages::none());
    }

    /// Whether there is no message.
    pub fn is_empty(&self) -> (empty: bool)
        ensures
            empty == (self@ == Messages::none()),
    {
        proof {
            if self@.updates.len() == 0 && self@.mutations.len() == 0 {
                assert(self@ =~= Messages::none());
            }
        }
        self.updates.is_empty() && self.mutations.is_empty()
    }
}

/// What is shared by the contexts of all senders.
pub struct ReceiveParams {
    pub signature_map: SignatureMap,
    /// Statistics, where they are collected.
    pub stats: Option<ClientReplicationStats>,
}

/// A sender's messages in the middle of being received.
///
/// The caller does what each [`Action`] says and goes on until it is
/// [`Finished`](Action::Finished).
pub struct Receive {
    context: ReceiveContext,
    params: ReceiveParams,
    messages: ReceivedReplicationMessages,
    acks: Option<Vec<u8>>,
    ready: BufferedMutations,
    phase: Phase<Bytes>,
}

impl View for Receive {
    type V = Receiving;

    closed spec fn view(&self) -> Receiving {
        Receiving {
            context: self.context@,
            stats: self.params.stats,
            signatures: self.params.signature_map@,
            updates: all_contents(self.messages.updates@),
            mutations: all_contents(self.messages.mutations@),
            acks: match self.acks {
                Some(acks) => Some(acks@),
                None => None,
            },
            ready: self.ready@,
            phase: self.phase@,
        }
    }
}

/// Takes the first message out.
fn take_first(messages: &mut Vec<Bytes>) -> (first: Option<Bytes>)
    ensures
        match first {
            Some(first) => all_contents(old(messages)@).len() > 0 && contents(first) == all_contents(
                old(messages)@,
            )[0] && all_contents(final(messages)@) == all_contents(old(messages)@).skip(1),
            None => all_contents(old(messages)@).len() == 0 && *final(messages) == *old(messages),
        },
{
    if messages.len() == 0 {
        None
    } else {
        let first = messages.remove(0);
        assert(all_contents(messages@) =~= all_contents(old(messages)@).skip(1));
        Some(first)
    }
}

/// The history once the entity was replicated for the tick.
pub fn confirm_tick(history: Option<ConfirmHistory>, tick: RepliconTick) -> (confirmed:
    ConfirmHistory)
    ensures
        confirmed == crate::receiving::confirm_tick(history, tick),
{
    match history {
        Some(history) => {
            let mut history = history;
            history.set_last_tick(tick);
            history
        },
        None => ConfirmHistory::new(tick),
    }
}

/// What becomes of mutations for the tick, of an entity with this history.
pub fn decide_mutations(history: ConfirmHistory, need_history: bool, tick: RepliconTick) -> (decision:
    Decision)
    ensures
        decision == crate::receiving::decide_mutations(history, need_history, tick),
{
    let mut history = history;
    if tick.is_after(history.last_tick()) {
        history.set_last_tick(tick);
        return Decision::Newer(history);
    }
    if !need_history {
        return Decision::Ignore;
    }
    let ago = history.last_tick().since(tick);
    if ago >= 64 {
        return Decision::Ignore;
    }
    history.set(ago);
    Decision::Outdated(history)
}

impl Cursor<Bytes> {
    fn is_at_end(&self) -> (end: bool)
        ensures
            end == self@.at_end(),
    {
        match self.origin {
            Origin::Update { left: Some(left), .. } => left == 0,
            _ => !bytes_has_remaining(&self.message),
        }
    }

    fn begin(self) -> (begun: Cursor<Bytes>)
        requires
            !self@.at_end(),
        ensures
            begun@ == self@.begun(),
    {
        let origin = match self.origin {
            Origin::Update { stage, rest, left: Some(left) } => Origin::Update {
                stage,
                rest,
                left: Some(left - 1),
            },
            origin => origin,
        };
        Cursor { message: self.message, tick: self.tick, len: self.len, origin }
    }

    fn count(self) -> (counted: Cursor<Bytes>)
        ensures
            counted@ == self@.counted(),
    {
        Cursor {
            message: self.message,
            tick: self.tick,
            len: self.len.wrapping_add(1),
            origin: self.origin,
        }
    }
}

impl Receive {
    pub closed spec fn wf(&self) -> bool {
        &&& self.context.wf()
        &&& self.params.signature_map.wf()
    }

    /// Begins to receive a sender's messages.
    ///
    /// Update messages are applied first. A mutate message is applied once its update tick has
    /// appeared in an update message, and waits until then; those that were read are acknowledged.
    pub fn apply_replication(
        context: ReceiveContext,
        params: ReceiveParams,
        messages: ReceivedReplicationMessages,
    ) -> (receive: Receive)
        requires
            context.wf(),
            params.signature_map.wf(),
        ensures
            receive.wf(),
            receive@ == Receiving::start(
                context@,
                params.stats,
                params.signature_map@,
                messages@.updates,
                messages@.mutations,
            ),
    {
        Receive {
            context,
            params,
            messages,
            acks: None,
            ready: BufferedMutations::new(),
            phase: Phase::NextUpdate,
        }
    }

    /// Counts a message.
    fn count_message(&mut self, message: &Bytes)
        requires
            old(self).wf(),
        ensures
            final(self).wf(),
            final(self)@ == old(self)@.counting_message(contents(*message)),
    {
        let len = bytes_len(message);
        if let Some(stats) = &mut self.params.stats {
            stats.messages = stats.messages.wrapping_add(1);
            stats.bytes = stats.bytes.wrapping_add(len);
        }
    }

    /// Gives up the rest of an array's message.
    fn fail(&mut self, cursor: Cursor<Bytes>, error: ReceiveError) -> (action: Action<Bytes>)
        requires
            old(self).wf(),
        ensures
            final(self).wf(),
            (final(self)@, action@) == old(self)@.failed(cursor@, error),
    {
        match cursor.origin {
            Origin::Update { stage, .. } => {
                self.phase = Phase::NextUpdate;
                Action::UpdateFailed { stage: Some(stage), error }
            },
            Origin::Mutate { messages_count } => {
                self.phase = Phase::MutateEnd { tick: cursor.tick, messages_count };
                Action::MutateFailed { tick: cursor.tick, error }
            },
        }
    }

    /// Passes over a block of data.
    fn skip_block(&mut self, cursor: Cursor<Bytes>, size: usize) -> (action: Action<Bytes>)
        requires
            old(self).wf(),
        ensures
            final(self).wf(),
            (final(self)@, action@) == old(self)@.skipped(cursor@, size),
    {
        let mut cursor = cursor;
        if size > bytes_len(&cursor.message) {
            self.phase = Phase::Overrun;
            return Action::Overrun;
        }
        bytes_advance(&mut cursor.message, size);
        self.phase = Phase::NextItem(cursor);
        Action::Proceed
    }

    /// Begins a block of data.
    fn open_block(
        &mut self,
        cursor: Cursor<Bytes>,
        entity: Entity,
        size: usize,
        kind: BlockKind,
        history: ConfirmHistory,
    ) -> (action: Action<Bytes>)
        requires
            old(self).wf(),
        ensures
            final(self).wf(),
            (final(self)@, action@) == old(self)@.opened(cursor@, entity, size, kind, history),
    {
        let mut cursor = cursor;
        if size > bytes_len(&cursor.message) {
            self.phase = Phase::Overrun;
            return Action::Overrun;
        }
        let data = bytes_split_to(&mut cursor.message, size);
        let tick = cursor.tick;
        self.phase = Phase::NextComponent {
            cursor: cursor.count(),
            block: Block { entity, kind, len: 0, data },
        };
        Action::Confirm { entity, history, tick }
    }

    /// Reads the start of an update message.
    fn apply_update_message(&mut self, message: Bytes) -> (action: Action<Bytes>)
        requires
            old(self).wf(),
        ensures
            final(self).wf(),
            (final(self)@, action@) == old(self)@.apply_update_message(contents(message)),
    {
        let mut message = message;
        self.count_message(&message);
        match update_header_from_buf(&mut message) {
            Ok(header) => {
                self.context.update_tick = ServerUpdateTick(header.tick);
                self.phase = Phase::NextArray { message, tick: header.tick, flags: header.flags };
                Action::Proceed
            },
            Err(error) => {
                self.phase = Phase::NextUpdate;
                Action::UpdateFailed { stage: None, error: ReceiveError::Wire(error) }
            },
        }
    }

    /// Begins the next array of an update message.
    fn begin_array(&mut self, message: Bytes, tick: RepliconTick, flags: UpdateMessageFlags) -> (action:
        Action<Bytes>)
        requires
            old(self).wf(),
        ensures
            final(self).wf(),
            (final(self)@, action@) == old(self)@.begin_array(contents(message), tick, flags),
    {
        let mut message = message;
        let stage = match flags.first() {
            Some(stage) => stage,
            None => {
                self.phase = Phase::NextUpdate;
                return Action::Proceed;
            },
        };
        let rest = flags.after(stage);
        let left = if rest.first().is_none() {
            None
        } else {
            match usize_from_buf(&mut message) {
                Ok(left) => Some(left),
                Err(error) => {
                    self.phase = Phase::NextUpdate;
                    return Action::UpdateFailed {
                        stage: Some(stage),
                        error: ReceiveError::Wire(error),
                    };
                },
            }
        };
        self.phase = Phase::NextItem(
            Cursor { message, tick, len: 0, origin: Origin::Update { stage, rest, left } },
        );
        Action::Proceed
    }

    /// Applies an item of an array, or ends the array.
    fn apply_array(&mut self, cursor: Cursor<Bytes>) -> (action: Action<Bytes>)
        requires
            old(self).wf(),
        ensures
            final(self).wf(),
            (final(self)@, action@) == old(self)@.apply_array(cursor@),
    {
        if cursor.is_at_end() {
            let len = cursor.len;
            if let Some(stats) = &mut self.params.stats {
                match cursor.origin {
                    Origin::Update { stage: Stage::Mappings, .. } => {
                        stats.mappings = stats.mappings.wrapping_add(len);
                    },
                    Origin::Update { stage: Stage::Despawns, .. } => {
                        stats.despawns = stats.despawns.wrapping_add(len);
                    },
                    _ => {
                        stats.entities_changed = stats.entities_changed.wrapping_add(len);
                    },
                }
            }
            match cursor.origin {
                Origin::Update { rest, .. } => {
                    self.phase = Phase::NextArray {
                        message: cursor.message,
                        tick: cursor.tick,
                        flags: rest,
                    };
                },
                Origin::Mutate { messages_count } => {
                    self.phase = Phase::MutateEnd { tick: cursor.tick, messages_count };
                },
            }
            return Action::Proceed;
        }
        let cursor = cursor.begin();
        match cursor.origin {
            Origin::Update { stage: Stage::Mappings, .. } => self.apply_entity_mapping(cursor),
            Origin::Update { stage: Stage::Despawns, .. } => self.apply_despawn(cursor),
            Origin::Update { stage: Stage::Removals, .. } => self.apply_removals(cursor),
            Origin::Update { stage: Stage::Changes, .. } => self.apply_changes(cursor),
            Origin::Mutate { .. } => self.apply_mutations(cursor),
        }
    }

    /// Lets an entity of this side stand for the sender's by comparing the hashes of their
    /// signatures.
    fn apply_entity_mapping(&mut self, cursor: Cursor<Bytes>) -> (action: Action<Bytes>)
        requires
            old(self).wf(),
        ensures
            final(self).wf(),
            (final(self)@, action@) == old(self)@.apply_entity_mapping(cursor@),
    {
        let mut cursor = cursor;
        let mapping = match mapping_from_buf(&mut cursor.message) {
            Ok(mapping) => mapping,
            Err(error) => return self.fail(cursor, ReceiveError::Wire(error)),
        };
        match self.params.signature_map.get(mapping.hash) {
            Some(entity) => {
                self.phase = Phase::NextItem(cursor.count());
                self.context.entity_map.insert(mapping.server_entity, entity);
                Action::Mark {
                    entity,
                    remote: Remote,
                    remote_entity: RemoteEntity(mapping.server_entity),
                }
            },
            None => {
                self.phase = Phase::NextItem(cursor);
                Action::Proceed
            },
        }
    }

    /// Lets what stands for the sender's entity go.
    fn apply_despawn(&mut self, cursor: Cursor<Bytes>) -> (action: Action<Bytes>)
        requires
            old(self).wf(),
        ensures
            final(self).wf(),
            (final(self)@, action@) == old(self)@.apply_despawn(cursor@),
    {
        let mut cursor = cursor;
        let server_entity = match entity_from_buf(&mut cursor.message) {
            Ok(entity) => entity,
            Err(error) => return self.fail(cursor, ReceiveError::Wire(error)),
        };
        let tick = cursor.tick;
        match self.context.entity_map.remove(server_entity) {
            Some(entity) => {
                self.params.signature_map.remove(entity);
                self.phase = Phase::Despawning(cursor);
                Action::Despawn { entity, tick }
            },
            None => {
                self.phase = Phase::NextItem(cursor);
                Action::Proceed
            },
        }
    }

    /// Begins to remove components of an entity.
    fn apply_removals(&mut self, cursor: Cursor<Bytes>) -> (action: Action<Bytes>)
        requires
            old(self).wf(),
        ensures
            final(self).wf(),
            (final(self)@, action@) == old(self)@.apply_removals(cursor@),
    {
        let mut cursor = cursor;
        let header = match block_header_from_buf(&mut cursor.message) {
            Ok(header) => header,
            Err(error) => return self.fail(cursor, ReceiveError::Wire(error)),
        };
        match self.context.entity_map.get(header.server_entity) {
            Some(entity) => {
                self.phase = Phase::Inspecting { cursor, entity, size: header.data_size };
                Action::Inspect(entity)
            },
            None => self.fail(cursor, ReceiveError::UnknownEntity(header.server_entity)),
        }
    }

    /// Begins to write components of an entity, which is spawned if need be.
    fn apply_changes(&mut self, cursor: Cursor<Bytes>) -> (action: Action<Bytes>)
        requires
            old(self).wf(),
        ensures
            final(self).wf(),
            (final(self)@, action@) == old(self)@.apply_changes(cursor@),
    {
        let mut cursor = cursor;
        let header = match block_header_from_buf(&mut cursor.message) {
            Ok(header) => header,
            Err(error) => return self.fail(cursor, ReceiveError::Wire(error)),
        };
        match self.context.entity_map.get(header.server_entity) {
            Some(entity) => {
                self.phase = Phase::Inspecting { cursor, entity, size: header.data_size };
                Action::Inspect(entity)
            },
            None => {
                self.phase = Phase::Spawning {
                    cursor,
                    server_entity: header.server_entity,
                    size: header.data_size,
                };
                Action::Spawn(self.spawn_bundle(header.server_entity))
            },
        }
    }

    /// Begins to mutate components of an entity.
    fn apply_mutations(&mut self, cursor: Cursor<Bytes>) -> (action: Action<Bytes>)
        requires
            old(self).wf(),
        ensures
            final(self).wf(),
            (final(self)@, action@) == old(self)@.apply_mutations(cursor@),
    {
        let mut cursor = cursor;
        let header = match block_header_from_buf(&mut cursor.message) {
            Ok(header) => header,
            Err(error) => return self.fail(cursor, ReceiveError::Wire(error)),
        };
        match self.context.entity_map.get(header.server_entity) {
            Some(entity) => {
                self.phase = Phase::Inspecting { cursor, entity, size: header.data_size };
                Action::Inspect(entity)
            },
            None => self.skip_block(cursor, header.data_size),
        }
    }

    /// Applies a component of a block, or ends the block.
    fn apply_component(&mut self, cursor: Cursor<Bytes>, block: Block<Bytes>) -> (action: Action<
        Bytes,
    >)
        requires
            old(self).wf(),
        ensures
            final(self).wf(),
            (final(self)@, action@) == old(self)@.apply_component(cursor@, block@),
    {
        let mut block = block;
        if !bytes_has_remaining(&block.data) {
            if let Some(stats) = &mut self.params.stats {
                stats.components_changed = stats.components_changed.wrapping_add(block.len);
            }
            self.phase = Phase::NextItem(cursor);
            return Action::Flush(block.entity);
        }
        let fns_id = match usize_from_buf(&mut block.data) {
            Ok(fns_id) => FnsId(fns_id),
            Err(error) => return self.fail(cursor, ReceiveError::Wire(error)),
        };
        let entity = block.entity;
        let tick = cursor.tick;
        match block.kind {
            BlockKind::Remove => {
                block.len = block.len.wrapping_add(1);
                self.phase = Phase::NextComponent { cursor, block };
                Action::Remove { entity, fns_id, tick }
            },
            kind => {
                self.phase = Phase::Writing { cursor, entity, kind, len: block.len };
                let outdated = matches!(kind, BlockKind::Outdated);
                Action::Write { entity, fns_id, tick, outdated, data: block.data }
            },
        }
    }

    /// Reads a mutate message and puts it with those that wait.
    fn buffer_mutate_message(&mut self, message: Bytes) -> (action: Action<Bytes>)
        requires
            old(self).wf(),
        ensures
            final(self).wf(),
            (final(self)@, action@) == old(self)@.buffer_mutate_message(contents(message)),
    {
        let mut message = message;
        self.count_message(&message);
        self.phase = Phase::Buffering;
        match mutate_header_from_buf(&mut message, self.context.mutate_ticks.is_some()) {
            Ok(header) => {
                self.context.buffered_mutations.insert(
                    BufferedMutate {
                        update_tick: header.update_tick,
                        message_tick: header.message_tick,
                        messages_count: header.messages_count,
                        message,
                    },
                );
                if let Some(acks) = &mut self.acks {
                    u16_to_buf(header.index.0, acks);
                }
                Action::Proceed
            },
            Err(error) => Action::BufferFailed(ReceiveError::Wire(error)),
        }
    }

    /// Takes out the mutate messages whose update tick was received.
    fn apply_mutate_messages(&mut self) -> (action: Action<Bytes>)
        requires
            old(self).wf(),
        ensures
            final(self).wf(),
            (final(self)@, action@) == old(self)@.apply_mutate_messages(),
    {
        self.ready = self.context.buffered_mutations.take_ready(self.context.update_tick.0);
        self.phase = Phase::NextMutate;
        Action::Proceed
    }

    /// Counts a mutate message that is done with.
    fn end_mutate(&mut self, tick: RepliconTick, messages_count: usize) -> (action: Action<Bytes>)
        requires
            old(self).wf(),
        ensures
            final(self).wf(),
            (final(self)@, action@) == old(self)@.mutate_end(tick, messages_count),
    {
        self.phase = Phase::NextMutate;
        if let Some(mutate_ticks) = &mut self.context.mutate_ticks {
            if mutate_ticks.confirm(tick, messages_count) {
                return Action::MutateTickReceived(tick);
            }
        }
        Action::Proceed
    }

    /// What is spawned for a sender's entity.
    pub fn spawn_bundle(&self, server_entity: Entity) -> (bundle: SpawnBundle)
        ensures
            bundle == self@.spawn_bundle(server_entity),
    {
        let replicated_from = match self.context.source {
            Some(source) => Some(ReplicatedFrom(source)),
            None => None,
        };
        SpawnBundle { remote: Remote, remote_entity: RemoteEntity(server_entity), replicated_from }
    }

    /// Goes on after an action that the machine does not wait for.
    pub fn proceed(&mut self) -> (action: Action<Bytes>)
        requires
            old(self).wf(),
            !old(self)@.waits(),
        ensures
            final(self).wf(),
            (final(self)@, action@) == old(self)@.proceed(),
    {
        let mut phase = Phase::Finished;
        core::mem::swap(&mut self.phase, &mut phase);
        match phase {
            Phase::NextUpdate => match take_first(&mut self.messages.updates) {
                Some(message) => self.apply_update_message(message),
                None => {
                    if !self.messages.mutations.is_empty() {
                        self.acks = Some(Vec::new());
                    } else {
                        self.acks = None;
                    }
                    self.phase = Phase::Buffering;
                    Action::Proceed
                },
            },
            Phase::NextArray { message, tick, flags } => self.begin_array(message, tick, flags),
            Phase::NextItem(cursor) => self.apply_array(cursor),
            Phase::NextComponent { cursor, block } => self.apply_component(cursor, block),
            Phase::Buffering => match take_first(&mut self.messages.mutations) {
                Some(message) => self.buffer_mutate_message(message),
                None => self.apply_mutate_messages(),
            },
            Phase::NextMutate => match self.ready.take_first() {
                Some(mutation) => {
                    self.phase = Phase::NextItem(
                        Cursor {
                            message: mutation.message,
                            tick: mutation.message_tick,
                            len: 0,
                            origin: Origin::Mutate { messages_count: mutation.messages_count },
                        },
                    );
                    Action::Proceed
                },
                None => Action::Finished,
            },
            Phase::MutateEnd { tick, messages_count } => self.end_mutate(tick, messages_count),
            Phase::Overrun => {
                self.phase = Phase::Overrun;
                Action::Overrun
            },
            _ => Action::Finished,
        }
    }

    /// Goes on after [`Action::Inspect`] with what was found; `None` stands for an entity that no
    /// longer exists.
    pub fn inspected(&mut self, info: Option<EntityInfo>) -> (action: Action<Bytes>)
        requires
            old(self).wf(),
            old(self)@.phase is Inspecting,
        ensures
            final(self).wf(),
            (final(self)@, action@) == old(self)@.inspected(info),
    {
        let mut phase = Phase::Finished;
        core::mem::swap(&mut self.phase, &mut phase);
        let (cursor, entity, size) = match phase {
            Phase::Inspecting { cursor, entity, size } => (cursor, entity, size),
            _ => return Action::Proceed,
        };
        let info = match info {
            Some(info) => info,
            None => return self.skip_block(cursor, size),
        };
        match cursor.origin {
            Origin::Update { stage, .. } => {
                let kind = if matches!(stage, Stage::Removals) {
                    BlockKind::Remove
                } else {
                    BlockKind::Write
                };
                let history = confirm_tick(info.history, cursor.tick);
                self.open_block(cursor, entity, size, kind, history)
            },
            Origin::Mutate { .. } => {
                let history = match info.history {
                    Some(history) => history,
                    None => return self.fail(cursor, ReceiveError::MissingHistory(entity)),
                };
                match decide_mutations(history, info.need_history, cursor.tick) {
                    Decision::Newer(history) => self.open_block(
                        cursor,
                        entity,
                        size,
                        BlockKind::Write,
                        history,
                    ),
                    Decision::Outdated(history) => self.open_block(
                        cursor,
                        entity,
                        size,
                        BlockKind::Outdated,
                        history,
                    ),
                    Decision::Ignore => self.skip_block(cursor, size),
                }
            },
        }
    }

    /// Goes on after [`Action::Spawn`] with the entity that was spawned.
    pub fn spawned(&mut self, entity: Entity) -> (action: Action<Bytes>)
        requires
            old(self).wf(),
            old(self)@.phase is Spawning,
        ensures
            final(self).wf(),
            (final(self)@, action@) == old(self)@.spawned(entity),
    {
        let mut phase = Phase::Finished;
        core::mem::swap(&mut self.phase, &mut phase);
        match phase {
            Phase::Spawning { cursor, server_entity, size } => {
                self.context.record_spawned(server_entity, entity);
                let history = confirm_tick(None, cursor.tick);
                self.open_block(cursor, entity, size, BlockKind::Write, history)
            },
            _ => Action::Proceed,
        }
    }

    /// Goes on after [`Action::Despawn`]; `false` stands for an entity that no longer existed.
    pub fn despawned(&mut self, existed: bool) -> (action: Action<Bytes>)
        requires
            old(self).wf(),
            old(self)@.phase is Despawning,
        ensures
            final(self).wf(),
            (final(self)@, action@) == old(self)@.despawned(existed),
    {
        let mut phase = Phase::Finished;
        core::mem::swap(&mut self.phase, &mut phase);
        if let Phase::Despawning(cursor) = phase {
            self.phase = Phase::NextItem(
                if existed {
                    cursor.count()
                } else {
                    cursor
                },
            );
        }
        Action::Proceed
    }

    /// Goes on after [`Action::Write`] with what is left of the data; `None` stands for a
    /// component that could not be written.
    pub fn written(&mut self, outcome: Option<Bytes>) -> (action: Action<Bytes>)
        requires
            old(self).wf(),
            old(self)@.phase is Writing,
        ensures
            final(self).wf(),
            (final(self)@, action@) == old(self)@.written(
                match outcome {
                    Some(data) => Some(contents(data)),
                    None => None,
                },
            ),
    {
        let mut phase = Phase::Finished;
        core::mem::swap(&mut self.phase, &mut phase);
        match phase {
            Phase::Writing { cursor, entity, kind, len } => match outcome {
                Some(data) => {
                    self.phase = Phase::NextComponent {
                        cursor,
                        block: Block { entity, kind, len: len.wrapping_add(1), data },
                    };
                    Action::Proceed
                },
                None => self.fail(cursor, ReceiveError::Component),
            },
            _ => Action::Proceed,
        }
    }

    /// The entity that stands for a sender's entity which a component refers to.
    pub fn mapped(&self, server_entity: Entity) -> (client_entity: Option<Entity>)
        requires
            self.wf(),
        ensures
            client_entity == self@.context.entity_map.get(server_entity),
    {
        self.context.entity_map.get(server_entity)
    }

    /// Notes that an entity was spawned for a sender's entity which a component refers to.
    pub fn record_spawned(&mut self, server_entity: Entity, client_entity: Entity)
        requires
            old(self).wf(),
        ensures
            final(self).wf(),
            final(self)@ == old(self)@.with_context(
                old(self)@.context.with_spawned(server_entity, client_entity),
            ),
    {
        self.context.record_spawned(server_entity, client_entity);
    }

    /// Ends receiving: gives back what was handed in, and the acknowledgments to be sent.
    pub fn finish(self) -> (parts: (ReceiveContext, ReceiveParams, Option<Vec<u8>>))
        requires
            self.wf(),
        ensures
            parts.0.wf(),
            parts.0@ == self@.context,
            parts.1.signature_map.wf(),
            parts.1.signature_map@ == self@.signatures,
            parts.1.stats == self@.stats,
            match parts.2 {
                Some(acks) => self@.acks == Some(acks@),
                None => self@.acks is None,
            },
    {
        (self.context, self.params, self.acks)
    }
}

} // verus!
