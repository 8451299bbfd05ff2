//! Headers of messages and of their parts.

use bytes::Bytes;
use vstd::prelude::*;

use crate::entity::Entity;
use crate::tick::RepliconTick;
use crate::wire::{
    contents, entity_bytes, entity_from_buf, hash_bytes, hash_from_buf, lemma_entity_round_trip,
    lemma_hash_round_trip, lemma_u16_round_trip, lemma_u32_round_trip, lemma_usize_round_trip,
    read_entity, read_hash, read_u16, read_u32, read_u8, read_usize, u16_from_buf, u32_from_buf,
    u8_from_buf, usize_from_buf, varint_bytes, WireError,
};

verus! {

/// Arrays that an update message can have, in the order in which it has them.
#[derive(Clone, Copy, Debug, PartialEq, Eq, Structural)]
pub enum Stage {
    /// Entities that stand for the sender's, by the hashes of their signatures.
    Mappings,
    /// Entities that were despawned.
    Despawns,
    /// Components that were removed from entities.
    Removals,
    /// Components that were inserted or changed, with the entities that were spawned.
    Changes,
}

/// Which arrays an update message has.
#[derive(Clone, Copy, Debug, PartialEq, Eq, Structural)]
pub struct UpdateMessageFlags {
    pub mappings: bool,
    pub despawns: bool,
    pub removals: bool,
    pub changes: bool,
}

impl UpdateMessageFlags {
    /// The arrays that a byte stands for, from the lowest bit on. Other bits mean nothing.
    pub open spec fn of(bits: u8) -> UpdateMessageFlags {
        UpdateMessageFlags {
            mappings: bits % 2 == 1,
            despawns: bits / 2 % 2 == 1,
            removals: bits / 4 % 2 == 1,
            changes: bits / 8 % 2 == 1,
        }
    }

    /// The first array.
    pub open spec fn first_stage(self) -> Option<Stage> {
        if self.mappings {
            Some(Stage::Mappings)
        } else if self.despawns {
            Some(Stage::Despawns)
        } else if self.removals {
            Some(Stage::Removals)
        } else if self.changes {
            Some(Stage::Changes)
        } else {
            None
        }
    }

    /// The arrays after the given one.
    pub open spec fn later(self, stage: Stage) -> UpdateMessageFlags {
        UpdateMessageFlags {
            mappings: false,
            despawns: self.despawns && stage is Mappings,
            removals: self.removals && (stage is Mappings || stage is Despawns),
            changes: self.changes && !(stage is Changes),
        }
    }

    /// The arrays that a byte stands for.
    pub fn from_bits(bits: u8) -> (flags: UpdateMessageFlags)
        ensures
            flags == UpdateMessageFlags::of(bits),
    {
        UpdateMessageFlags {
            mappings: bits % 2 == 1,
            despawns: bits / 2 % 2 == 1,
            removals: bits / 4 % 2 == 1,
            changes: bits / 8 % 2 == 1,
        }
    }

    /// The first array.
    pub fn first(self) -> (stage: Option<Stage>)
        ensures
            stage == self.first_stage(),
    {
        if self.mappings {
            Some(Stage::Mappings)
        } else if self.despawns {
            Some(Stage::Despawns)
        } else if self.removals {
            Some(Stage::Removals)
        } else if self.changes {
            Some(Stage::Changes)
        } else {
            None
        }
    }

    /// The arrays after the given one.
    pub fn after(self, stage: Stage) -> (rest: UpdateMessageFlags)
        ensures
            rest == self.later(stage),
    {
        let is_mappings = matches!(stage, Stage::Mappings);
        UpdateMessageFlags {
            mappings: false,
            despawns: self.despawns && is_mappings,
            removals: self.removals && (is_mappings || matches!(stage, Stage::Despawns)),
            changes: self.changes && !matches!(stage, Stage::Changes),
        }
    }
}

/// Index by which the sender finds a mutate message that is acknowledged.
#[derive(Clone, Copy, Debug, PartialEq, Eq, Structural)]
pub struct MutateIndex(pub u16);

/// Number of a component's functions for writing and removing it.
#[derive(Clone, Copy, Debug, PartialEq, Eq, Structural)]
pub struct FnsId(pub usize);

/// What an update message starts with.
#[derive(Clone, Copy, Debug, PartialEq, Eq, Structural)]
pub struct UpdateHeader {
    pub flags: UpdateMessageFlags,
    pub tick: RepliconTick,
}

/// What a mutate message starts with.
#[derive(Clone, Copy, Debug, PartialEq, Eq, Structural)]
pub struct MutateHeader {
    /// The update message that must be applied before.
    pub update_tick: RepliconTick,
    pub message_tick: RepliconTick,
    /// How many messages the tick's mutations were split into.
    pub messages_count: usize,
    pub index: MutateIndex,
}

/// An entity of the sender and its hash.
#[derive(Clone, Copy, Debug, PartialEq, Eq, Structural)]
pub struct Mapping {
    pub server_entity: Entity,
    pub hash: u64,
}

/// An entity of the sender and the size of the data about its components.
#[derive(Clone, Copy, Debug, PartialEq, Eq, Structural)]
pub struct BlockHeader {
    pub server_entity: Entity,
    pub data_size: usize,
}

/// What a reader of several fields does: it gives them and drops them from the message. Where one
/// is missing it says why, and nothing is said of what is left of the message.
pub open spec fn parses<T>(
    expected: Result<(T, Seq<u8>), WireError>,
    field: Result<T, WireError>,
    after: Seq<u8>,
) -> bool {
    match expected {
        Ok((value, rest)) => field == Ok::<T, WireError>(value) && after == rest,
        Err(error) => field == Err::<T, WireError>(error),
    }
}

pub open spec fn read_update_header(s: Seq<u8>) -> Result<(UpdateHeader, Seq<u8>), WireError> {
    match crate::wire::read_u8(s) {
        Ok((bits, rest)) => match crate::wire::read_u32(rest) {
            Ok((tick, rest)) => Ok(
                (
                    UpdateHeader { flags: UpdateMessageFlags::of(bits), tick: RepliconTick(tick) },
                    rest,
                ),
            ),
            Err(error) => Err(error),
        },
        Err(error) => Err(error),
    }
}

/// The number of messages is there only where mutate messages are counted.
pub open spec fn read_messages_count(s: Seq<u8>, counted: bool) -> Result<
    (usize, Seq<u8>),
    WireError,
> {
    if counted {
        crate::wire::read_usize(s)
    } else {
        Ok((1usize, s))
    }
}

pub open spec fn read_mutate_header(s: Seq<u8>, counted: bool) -> Result<
    (MutateHeader, Seq<u8>),
    WireError,
> {
    match crate::wire::read_u32(s) {
        Ok((update_tick, rest)) => match crate::wire::read_u32(rest) {
            Ok((message_tick, rest)) => match read_messages_count(rest, counted) {
                Ok((messages_count, rest)) => match crate::wire::read_u16(rest) {
                    Ok((index, rest)) => Ok(
                        (
                            MutateHeader {
                                update_tick: RepliconTick(update_tick),
                                message_tick: RepliconTick(message_tick),
                                messages_count,
                                index: MutateIndex(index),
                            },
                            rest,
                        ),
                    ),
                    Err(error) => Err(error),
                },
                Err(error) => Err(error),
            },
            Err(error) => Err(error),
        },
        Err(error) => Err(error),
    }
}

pub open spec fn read_mapping(s: Seq<u8>) -> Result<(Mapping, Seq<u8>), WireError> {
    match crate::wire::read_entity(s) {
        Ok((server_entity, rest)) => match crate::wire::read_hash(rest) {
            Ok((hash, rest)) => Ok((Mapping { server_entity, hash }, rest)),
            Err(error) => Err(error),
        },
        Err(error) => Err(error),
    }
}

pub open spec fn read_block_header(s: Seq<u8>) -> Result<(BlockHeader, Seq<u8>), WireError> {
    match crate::wire::read_entity(s) {
        Ok((server_entity, rest)) => match crate::wire::read_usize(rest) {
            Ok((data_size, rest)) => Ok((BlockHeader { server_entity, data_size }, rest)),
            Err(error) => Err(error),
        },
        Err(error) => Err(error),
    }
}

pub(crate) fn update_header_from_buf(message: &mut Bytes) -> (header: Result<UpdateHeader, WireError>)
    ensures
        parses(read_update_header(contents(*old(message))), header, contents(*final(message))),
{
    let flags = match u8_from_buf(message) {
        Ok(bits) => UpdateMessageFlags::from_bits(bits),
        Err(error) => return Err(error),
    };
    match u32_from_buf(message) {
        Ok(tick) => Ok(UpdateHeader { flags, tick: RepliconTick(tick) }),
        Err(error) => Err(error),
    }
}

pub(crate) fn mutate_header_from_buf(message: &mut Bytes, counted: bool) -> (header: Result<
    MutateHeader,
    WireError,
>)
    ensures
        parses(
            read_mutate_header(contents(*old(message)), counted),
            header,
            contents(*final(message)),
        ),
{
    let update_tick = match u32_from_buf(message) {
        Ok(tick) => RepliconTick(tick),
        Err(error) => return Err(error),
    };
    let message_tick = match u32_from_buf(message) {
        Ok(tick) => RepliconTick(tick),
        Err(error) => return Err(error),
    };
    let messages_count = if counted {
        match usize_from_buf(message) {
            Ok(count) => count,
            Err(error) => return Err(error),
        }
    } else {
        1
    };
    match u16_from_buf(message) {
        Ok(index) => Ok(
            MutateHeader { update_tick, message_tick, messages_count, index: MutateIndex(index) },
        ),
        Err(error) => Err(error),
    }
}

pub(crate) fn mapping_from_buf(message: &mut Bytes) -> (mapping: Result<Mapping, WireError>)
    ensures
        parses(read_mapping(contents(*old(message))), mapping, contents(*final(message))),
{
    let server_entity = match entity_from_buf(message) {
        Ok(entity) => entity,
        Err(error) => return Err(error),
    };
    match hash_from_buf(message) {
        Ok(hash) => Ok(Mapping { server_entity, hash }),
        Err(error) => Err(error),
    }
}

pub(crate) fn block_header_from_buf(message: &mut Bytes) -> (header: Result<BlockHeader, WireError>)
    ensures
        parses(read_block_header(contents(*old(message))), header, contents(*final(message))),
{
    let server_entity = match entity_from_buf(message) {
        Ok(entity) => entity,
        Err(error) => return Err(error),
    };
    match usize_from_buf(message) {
        Ok(data_size) => Ok(BlockHeader { server_entity, data_size }),
        Err(error) => Err(error),
    }
}

impl UpdateMessageFlags {
    /// The message has the array.
    pub open spec fn has(self, stage: Stage) -> bool {
        match stage {
            Stage::Mappings => self.mappings,
            Stage::Despawns => self.despawns,
            Stage::Removals => self.removals,
            Stage::Changes => self.changes,
        }
    }
}

/// Where an array comes in the order of all arrays.
pub open spec fn place(stage: Stage) -> int {
    match stage {
        Stage::Mappings => 0,
        Stage::Despawns => 1,
        Stage::Removals => 2,
        Stage::Changes => 3,
    }
}

/// Each array has a bit of its own, in the order of the arrays from the lowest bit on.
pub proof fn lemma_flags(bits: u8, stage: Stage)
    ensures
        UpdateMessageFlags::of(bits).has(stage) <==> bits & (1u8 << place(stage) as u8) != 0,
{
    assert(bits % 2 == 1 <==> bits & (1u8 << 0u8) != 0) by (bit_vector);
    assert(bits / 2 % 2 == 1 <==> bits & (1u8 << 1u8) != 0) by (bit_vector);
    assert(bits / 4 % 2 == 1 <==> bits & (1u8 << 2u8) != 0) by (bit_vector);
    assert(bits / 8 % 2 == 1 <==> bits & (1u8 << 3u8) != 0) by (bit_vector);
}

/// The first array is the one that no other comes before, and there is one unless there is none at
/// all. After an array come those that have a later place.
pub proof fn lemma_arrays_in_order(flags: UpdateMessageFlags, stage: Stage, other: Stage)
    ensures
        flags.first_stage() == Some(stage) ==> flags.has(stage) && (flags.has(other) ==> place(
            stage,
        ) <= place(other)),
        flags.has(stage) ==> flags.first_stage() is Some,
        flags.later(stage).has(other) <==> flags.has(other) && place(stage) < place(other),
{
}

/// What is written at the start of an update message is read, and what follows it is left.
pub proof fn lemma_update_header_round_trip(bits: u8, tick: u32, rest: Seq<u8>)
    ensures
        read_update_header(seq![bits] + varint_bytes(tick as nat) + rest) matches Ok((header, left))
            && header.flags == UpdateMessageFlags::of(bits) && header.tick == RepliconTick(tick)
            && left == rest,
{
    let s = seq![bits] + varint_bytes(tick as nat) + rest;
    assert(s.skip(1) =~= varint_bytes(tick as nat) + rest);
    lemma_u32_round_trip(tick, rest);
}

/// What a sender writes at the start of a mutate message. How many messages there are of its tick
/// is there only where they are counted.
pub open spec fn mutate_header_bytes(header: MutateHeader, counted: bool) -> Seq<u8> {
    varint_bytes(header.update_tick.0 as nat) + varint_bytes(header.message_tick.0 as nat) + (
    if counted {
        varint_bytes(header.messages_count as nat)
    } else {
        Seq::empty()
    }) + varint_bytes(header.index.0 as nat)
}

/// What is written at the start of a mutate message is read, and what follows it is left. Where
/// messages are not counted, there is one of each tick.
pub proof fn lemma_mutate_header_round_trip(header: MutateHeader, counted: bool, rest: Seq<u8>)
    requires
        counted || header.messages_count == 1,
    ensures
        read_mutate_header(mutate_header_bytes(header, counted) + rest, counted) == Ok::<
            (MutateHeader, Seq<u8>),
            WireError,
        >((header, rest)),
{
    let s = mutate_header_bytes(header, counted) + rest;
    let update = varint_bytes(header.update_tick.0 as nat);
    let message = varint_bytes(header.message_tick.0 as nat);
    let count = if counted {
        varint_bytes(header.messages_count as nat)
    } else {
        Seq::empty()
    };
    let index = varint_bytes(header.index.0 as nat);
    assert(s =~= update + (message + (count + (index + rest))));
    lemma_u32_round_trip(header.update_tick.0, message + (count + (index + rest)));
    lemma_u32_round_trip(header.message_tick.0, count + (index + rest));
    if counted {
        lemma_usize_round_trip(header.messages_count, index + rest);
    } else {
        assert(count + (index + rest) =~= index + rest);
    }
    lemma_u16_round_trip(header.index.0, rest);
}

/// What is written for a mapping is read, and what follows it is left.
pub proof fn lemma_mapping_round_trip(mapping: Mapping, rest: Seq<u8>)
    requires
        mapping.server_entity.slot() < u32::MAX,
    ensures
        read_mapping(entity_bytes(mapping.server_entity) + hash_bytes(mapping.hash) + rest) == Ok::<
            (Mapping, Seq<u8>),
            WireError,
        >((mapping, rest)),
{
    let entity = entity_bytes(mapping.server_entity);
    let hash = hash_bytes(mapping.hash);
    assert(entity + hash + rest =~= entity + (hash + rest));
    lemma_entity_round_trip(mapping.server_entity, hash + rest);
    lemma_hash_round_trip(mapping.hash, rest);
}

/// What is written before the data about an entity is read, and what follows it is left.
pub proof fn lemma_block_header_round_trip(header: BlockHeader, rest: Seq<u8>)
    requires
        header.server_entity.slot() < u32::MAX,
    ensures
        read_block_header(
            entity_bytes(header.server_entity) + varint_bytes(header.data_size as nat) + rest,
        ) == Ok::<(BlockHeader, Seq<u8>), WireError>((header, rest)),
{
    let entity = entity_bytes(header.server_entity);
    let size = varint_bytes(header.data_size as nat);
    assert(entity + size + rest =~= entity + (size + rest));
    lemma_entity_round_trip(header.server_entity, size + rest);
    lemma_usize_round_trip(header.data_size, rest);
}

/// A header of several fields is read if and only if each of them is, in their order, and with
/// their values. The first that is not says why.
pub proof fn lemma_header_fields(s: Seq<u8>)
    ensures
        match (read_update_header(s), read_u8(s)) {
            (result, Err(error)) => result == Err::<(UpdateHeader, Seq<u8>), WireError>(error),
            (result, Ok((bits, rest))) => match read_u32(rest) {
                Ok((tick, rest)) => result matches Ok((header, left)) && header.tick.0 == tick
                    && header.flags == UpdateMessageFlags::of(bits) && left == rest,
                Err(error) => result == Err::<(UpdateHeader, Seq<u8>), WireError>(error),
            },
        },
        match (read_mapping(s), read_entity(s)) {
            (result, Err(error)) => result == Err::<(Mapping, Seq<u8>), WireError>(error),
            (result, Ok((entity, rest))) => match read_hash(rest) {
                Ok((hash, rest)) => result matches Ok((mapping, left)) && mapping.server_entity
                    == entity && mapping.hash == hash && left == rest,
                Err(error) => result == Err::<(Mapping, Seq<u8>), WireError>(error),
            },
        },
        match (read_block_header(s), read_entity(s)) {
            (result, Err(error)) => result == Err::<(BlockHeader, Seq<u8>), WireError>(error),
            (result, Ok((entity, rest))) => match read_usize(rest) {
                Ok((size, rest)) => result matches Ok((header, left)) && header.server_entity
                    == entity && header.data_size == size && left == rest,
                Err(error) => result == Err::<(BlockHeader, Seq<u8>), WireError>(error),
            },
        },
{
}

/// A mutate message is read if and only if each field of its start is, in their order, and with
/// their values. The first that is not says why.
pub proof fn lemma_mutate_header_fields(s: Seq<u8>, counted: bool)
    ensures
        match (read_mutate_header(s, counted), read_u32(s)) {
            (result, Err(error)) => result == Err::<(MutateHeader, Seq<u8>), WireError>(error),
            (result, Ok((update_tick, rest))) => match read_u32(rest) {
                Err(error) => result == Err::<(MutateHeader, Seq<u8>), WireError>(error),
                Ok((message_tick, rest)) => {
                    let count = if counted {
                        read_usize(rest)
                    } else {
                        Ok((1usize, rest))
                    };
                    match count {
                        Err(error) => result == Err::<(MutateHeader, Seq<u8>), WireError>(error),
                        Ok((count, rest)) => match read_u16(rest) {
                            Err(error) => result == Err::<(MutateHeader, Seq<u8>), WireError>(
                                error,
                            ),
                            Ok((index, rest)) => result matches Ok((header, left))
                                && header.update_tick.0 == update_tick && header.message_tick.0
                                == message_tick && header.messages_count == count && header.index.0
                                == index && left == rest,
                        },
                    }
                },
            },
        },
{
}

} // verus!
