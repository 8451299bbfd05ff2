//! Reading the fields of a message.
//!
//! Integers are `postcard` varints: seven bits to a byte, the lowest first, with the top bit set
//! on every byte but the last. The spec functions `read_*` take the bytes that are left of a
//! message and give the field at their start with what is left after it.

use bytes::Bytes;
use vstd::prelude::*;

use crate::entity::Entity;

verus! {

/// Why a field could not be read.
#[derive(Clone, Copy, Debug, PartialEq, Eq, Structural)]
pub enum WireError {
    /// The message ended inside the field.
    UnexpectedEnd,
    /// The varint has more bytes, or a larger value, than its type allows.
    BadVarint,
    /// The slot is none that an entity can have.
    BadEntity,
    /// The count or size does not fit in `usize`.
    BadSize,
}

/// Shared immutable bytes of the `bytes` crate.
#[verifier::external_type_specification]
#[verifier::external_body]
pub struct ExBytes(Bytes);

/// What a `Bytes` holds.
pub uninterp spec fn contents(message: Bytes) -> Seq<u8>;

/// `Bytes::len`: the number of bytes.
#[verifier::external_body]
pub(crate) fn bytes_len(message: &Bytes) -> (len: usize)
    ensures
        len == contents(*message).len(),
{
    message.len()
}

/// `Buf::has_remaining` on `Bytes`: whether it holds a byte.
#[verifier::external_body]
pub(crate) fn bytes_has_remaining(message: &Bytes) -> (remaining: bool)
    ensures
        remaining == (contents(*message).len() > 0),
{
    bytes::Buf::has_remaining(message)
}

/// `Bytes::deref`: the bytes as a slice.
#[verifier::external_body]
fn bytes_deref(message: &Bytes) -> (slice: &[u8])
    ensures
        slice@ == contents(*message),
{
    core::ops::Deref::deref(message)
}

/// `Buf::advance` on `Bytes`: drops the first `count` bytes. It panics where there are fewer.
#[verifier::external_body]
pub(crate) fn bytes_advance(message: &mut Bytes, count: usize)
    requires
        count <= contents(*old(message)).len(),
    ensures
        contents(*final(message)) == contents(*old(message)).skip(count as int),
{
    bytes::Buf::advance(message, count)
}

/// `Bytes::split_to`: the first `at` bytes leave and come back. It panics where there are fewer.
#[verifier::external_body]
pub(crate) fn bytes_split_to(message: &mut Bytes, at: usize) -> (head: Bytes)
    requires
        at <= contents(*old(message)).len(),
    ensures
        contents(head) == contents(*old(message)).take(at as int),
        contents(*final(message)) == contents(*old(message)).skip(at as int),
{
    message.split_to(at)
}

/// A varint of at most `limit` bytes.
pub open spec fn read_varint(s: Seq<u8>, limit: nat) -> Result<(nat, Seq<u8>), WireError>
    decreases limit,
{
    if limit == 0 {
        Err(WireError::BadVarint)
    } else if s.len() == 0 {
        Err(WireError::UnexpectedEnd)
    } else if s[0] < 128 {
        Ok((s[0] as nat, s.skip(1)))
    } else {
        match read_varint(s.skip(1), (limit - 1) as nat) {
            Ok((high, rest)) => Ok(((s[0] - 128) as nat + 128 * high, rest)),
            Err(error) => Err(error),
        }
    }
}

pub open spec fn read_u16(s: Seq<u8>) -> Result<(u16, Seq<u8>), WireError> {
    match read_varint(s, 3) {
        Ok((value, rest)) => if value <= u16::MAX {
            Ok((value as u16, rest))
        } else {
            Err(WireError::BadVarint)
        },
        Err(error) => Err(error),
    }
}

pub open spec fn read_u32(s: Seq<u8>) -> Result<(u32, Seq<u8>), WireError> {
    match read_varint(s, 5) {
        Ok((value, rest)) => if value <= u32::MAX {
            Ok((value as u32, rest))
        } else {
            Err(WireError::BadVarint)
        },
        Err(error) => Err(error),
    }
}

pub open spec fn read_u64(s: Seq<u8>) -> Result<(u64, Seq<u8>), WireError> {
    match read_varint(s, 10) {
        Ok((value, rest)) => if value <= u64::MAX {
            Ok((value as u64, rest))
        } else {
            Err(WireError::BadVarint)
        },
        Err(error) => Err(error),
    }
}

/// A single byte, which stands for itself.
pub open spec fn read_u8(s: Seq<u8>) -> Result<(u8, Seq<u8>), WireError> {
    if s.len() == 0 {
        Err(WireError::UnexpectedEnd)
    } else {
        Ok((s[0], s.skip(1)))
    }
}

/// Eight bytes, which stand for themselves.
pub open spec fn read_array(s: Seq<u8>) -> Result<(Seq<u8>, Seq<u8>), WireError> {
    if s.len() < 8 {
        Err(WireError::UnexpectedEnd)
    } else {
        Ok((s.take(8), s.skip(8)))
    }
}

/// `postcard::take_from_bytes::<u8>`: the first byte and the others.
#[verifier::external_body]
fn take_u8(input: &[u8]) -> (field: Result<(u8, &[u8]), WireError>)
    ensures
        match field {
            Ok((value, rest)) => read_u8(input@) == (Ok::<(u8, Seq<u8>), WireError>((value, rest@))),
            Err(error) => read_u8(input@) == (Err::<(u8, Seq<u8>), WireError>(error)),
        },
{
    match postcard::take_from_bytes::<u8>(input) {
        Ok(field) => Ok(field),
        Err(postcard::Error::DeserializeUnexpectedEnd) => Err(WireError::UnexpectedEnd),
        Err(_) => Err(WireError::BadVarint),
    }
}

/// `postcard::take_from_bytes::<[u8; 8]>`: the first eight bytes and the others.
#[verifier::external_body]
fn take_array(input: &[u8]) -> (field: Result<([u8; 8], &[u8]), WireError>)
    ensures
        match field {
            Ok((value, rest)) => read_array(input@) == (Ok::<(Seq<u8>, Seq<u8>), WireError>(
                (value@, rest@),
            )),
            Err(error) => read_array(input@) == (Err::<(Seq<u8>, Seq<u8>), WireError>(error)),
        },
{
    match postcard::take_from_bytes::<[u8; 8]>(input) {
        Ok(field) => Ok(field),
        Err(postcard::Error::DeserializeUnexpectedEnd) => Err(WireError::UnexpectedEnd),
        Err(_) => Err(WireError::BadVarint),
    }
}

/// `postcard::take_from_bytes::<u16>`: the value of the varint at the start, with the bytes after
/// it, and which of two errors comes where there is none.
#[verifier::external_body]
fn take_u16(input: &[u8]) -> (field: Result<(u16, &[u8]), WireError>)
    ensures
        match field {
            Ok((value, rest)) => read_u16(input@) == (Ok::<(u16, Seq<u8>), WireError>(
                (value, rest@),
            )),
            Err(error) => read_u16(input@) == (Err::<(u16, Seq<u8>), WireError>(error)),
        },
{
    match postcard::take_from_bytes::<u16>(input) {
        Ok(field) => Ok(field),
        Err(postcard::Error::DeserializeUnexpectedEnd) => Err(WireError::UnexpectedEnd),
        Err(_) => Err(WireError::BadVarint),
    }
}

/// `postcard::take_from_bytes::<u32>`: as [`take_u16`], with the limits of `u32`.
#[verifier::external_body]
fn take_u32(input: &[u8]) -> (field: Result<(u32, &[u8]), WireError>)
    ensures
        match field {
            Ok((value, rest)) => read_u32(input@) == (Ok::<(u32, Seq<u8>), WireError>(
                (value, rest@),
            )),
            Err(error) => read_u32(input@) == (Err::<(u32, Seq<u8>), WireError>(error)),
        },
{
    match postcard::take_from_bytes::<u32>(input) {
        Ok(field) => Ok(field),
        Err(postcard::Error::DeserializeUnexpectedEnd) => Err(WireError::UnexpectedEnd),
        Err(_) => Err(WireError::BadVarint),
    }
}

/// `postcard::take_from_bytes::<u64>`: as [`take_u16`], with the limits of `u64`.
#[verifier::external_body]
fn take_u64(input: &[u8]) -> (field: Result<(u64, &[u8]), WireError>)
    ensures
        match field {
            Ok((value, rest)) => read_u64(input@) == (Ok::<(u64, Seq<u8>), WireError>(
                (value, rest@),
            )),
            Err(error) => read_u64(input@) == (Err::<(u64, Seq<u8>), WireError>(error)),
        },
{
    match postcard::take_from_bytes::<u64>(input) {
        Ok(field) => Ok(field),
        Err(postcard::Error::DeserializeUnexpectedEnd) => Err(WireError::UnexpectedEnd),
        Err(_) => Err(WireError::BadVarint),
    }
}

/// A count or a size: a `u64` that must fit in `usize`.
pub open spec fn read_usize(s: Seq<u8>) -> Result<(usize, Seq<u8>), WireError> {
    match read_u64(s) {
        Ok((value, rest)) => if value <= usize::MAX {
            Ok((value as usize, rest))
        } else {
            Err(WireError::BadSize)
        },
        Err(error) => Err(error),
    }
}

/// An entity: its slot doubled, plus one where a generation follows. Without one it is zero.
pub open spec fn read_entity(s: Seq<u8>) -> Result<(Entity, Seq<u8>), WireError> {
    match read_u64(s) {
        Ok((flagged, rest)) => {
            let generation = if flagged % 2 == 1 {
                read_u32(rest)
            } else {
                Ok((0u32, rest))
            };
            match generation {
                Ok((generation, rest)) => if flagged / 2 < u32::MAX {
                    Ok((Entity::of((flagged / 2) as u32, generation), rest))
                } else {
                    Err(WireError::BadEntity)
                },
                Err(error) => Err(error),
            }
        },
        Err(error) => Err(error),
    }
}

/// The number that eight bytes hold, the lowest byte first.
pub open spec fn little_endian(s: Seq<u8>) -> int {
    s[0] + s[1] * 0x100 + s[2] * 0x1_0000 + s[3] * 0x100_0000 + s[4] * 0x1_0000_0000 + s[5]
        * 0x100_0000_0000 + s[6] * 0x1_0000_0000_0000 + s[7] * 0x100_0000_0000_0000
}

/// A hash: eight bytes, the lowest first.
pub open spec fn read_hash(s: Seq<u8>) -> Result<(u64, Seq<u8>), WireError> {
    match read_array(s) {
        Ok((value, rest)) => Ok((little_endian(value) as u64, rest)),
        Err(error) => Err(error),
    }
}

/// What a reader does: it gives the field and drops it from the message; where there is none it
/// leaves the message as it was.
pub open spec fn reads<T>(
    expected: Result<(T, Seq<u8>), WireError>,
    field: Result<T, WireError>,
    before: Seq<u8>,
    after: Seq<u8>,
) -> bool {
    match expected {
        Ok((value, rest)) => field == Ok::<T, WireError>(value) && after == rest,
        Err(error) => field == Err::<T, WireError>(error) && after == before,
    }
}

/// A varint is at least one byte of the message.
pub proof fn lemma_read_varint_rest(s: Seq<u8>, limit: nat)
    ensures
        read_varint(s, limit) matches Ok((_, rest)) ==> rest.len() < s.len() && rest == s.skip(
            s.len() - rest.len(),
        ),
    decreases limit,
{
    if limit > 0 && s.len() > 0 && s[0] >= 128 {
        lemma_read_varint_rest(s.skip(1), (limit - 1) as nat);
        if let Ok((_, rest)) = read_varint(s, limit) {
            assert(s.skip(1).skip(s.skip(1).len() - rest.len()) =~= s.skip(s.len() - rest.len()));
        }
    }
}

/// Drops the bytes of a message before its last `left` ones.
fn keep_last(message: &mut Bytes, left: usize)
    requires
        left <= contents(*old(message)).len(),
    ensures
        contents(*final(message)) == contents(*old(message)).skip(
            contents(*old(message)).len() - left,
        ),
{
    let used = bytes_len(message) - left;
    bytes_advance(message, used);
}

pub fn u8_from_buf(message: &mut Bytes) -> (field: Result<u8, WireError>)
    ensures
        reads(
            read_u8(contents(*old(message))),
            field,
            contents(*old(message)),
            contents(*final(message)),
        ),
{
    let (value, left) = match take_u8(bytes_deref(message)) {
        Ok((value, rest)) => (value, rest.len()),
        Err(error) => return Err(error),
    };
    keep_last(message, left);
    Ok(value)
}

pub fn u16_from_buf(message: &mut Bytes) -> (field: Result<u16, WireError>)
    ensures
        reads(
            read_u16(contents(*old(message))),
            field,
            contents(*old(message)),
            contents(*final(message)),
        ),
{
    proof {
        lemma_read_varint_rest(contents(*message), 3);
    }
    let (value, left) = match take_u16(bytes_deref(message)) {
        Ok((value, rest)) => (value, rest.len()),
        Err(error) => return Err(error),
    };
    keep_last(message, left);
    Ok(value)
}

pub fn u32_from_buf(message: &mut Bytes) -> (field: Result<u32, WireError>)
    ensures
        reads(
            read_u32(contents(*old(message))),
            field,
            contents(*old(message)),
            contents(*final(message)),
        ),
{
    proof {
        lemma_read_varint_rest(contents(*message), 5);
    }
    let (value, left) = match take_u32(bytes_deref(message)) {
        Ok((value, rest)) => (value, rest.len()),
        Err(error) => return Err(error),
    };
    keep_last(message, left);
    Ok(value)
}

pub fn usize_from_buf(message: &mut Bytes) -> (field: Result<usize, WireError>)
    ensures
        reads(
            read_usize(contents(*old(message))),
            field,
            contents(*old(message)),
            contents(*final(message)),
        ),
{
    proof {
        lemma_read_varint_rest(contents(*message), 10);
    }
    let (value, left) = match take_u64(bytes_deref(message)) {
        Ok((value, rest)) => (value, rest.len()),
        Err(error) => return Err(error),
    };
    if value > usize::MAX as u64 {
        return Err(WireError::BadSize);
    }
    keep_last(message, left);
    Ok(value as usize)
}

pub fn entity_from_buf(message: &mut Bytes) -> (field: Result<Entity, WireError>)
    ensures
        reads(
            read_entity(contents(*old(message))),
            field,
            contents(*old(message)),
            contents(*final(message)),
        ),
{
    let ghost s = contents(*message);
    proof {
        lemma_read_varint_rest(s, 10);
    }
    let input = bytes_deref(message);
    let (flagged, rest) = match take_u64(input) {
        Ok(field) => field,
        Err(error) => return Err(error),
    };
    proof {
        lemma_read_varint_rest(rest@, 5);
    }
    let (generation, left) = if flagged % 2 == 1 {
        match take_u32(rest) {
            Ok((generation, rest)) => (generation, rest.len()),
            Err(error) => return Err(error),
        }
    } else {
        (0u32, rest.len())
    };
    if flagged / 2 >= u32::MAX as u64 {
        return Err(WireError::BadEntity);
    }
    match Entity::from_parts((flagged / 2) as u32, generation) {
        Some(entity) => {
            proof {
                if flagged % 2 == 1 {
                    assert(rest@.skip(rest@.len() - left) =~= s.skip(s.len() - left));
                }
            }
            keep_last(message, left);
            Ok(entity)
        },
        None => Err(WireError::BadEntity),
    }
}

pub fn hash_from_buf(message: &mut Bytes) -> (field: Result<u64, WireError>)
    ensures
        reads(
            read_hash(contents(*old(message))),
            field,
            contents(*old(message)),
            contents(*final(message)),
        ),
{
    let (bytes, left) = match take_array(bytes_deref(message)) {
        Ok((bytes, rest)) => (bytes, rest.len()),
        Err(error) => return Err(error),
    };
    keep_last(message, left);
    Ok(
        bytes[0] as u64 + bytes[1] as u64 * 0x100 + bytes[2] as u64 * 0x1_0000 + bytes[3] as u64
            * 0x100_0000 + bytes[4] as u64 * 0x1_0000_0000 + bytes[5] as u64 * 0x100_0000_0000
            + bytes[6] as u64 * 0x1_0000_0000_0000 + bytes[7] as u64 * 0x100_0000_0000_0000,
    )
}

/// The bytes of a varint.
pub open spec fn varint_bytes(value: nat) -> Seq<u8>
    decreases value,
{
    if value < 128 {
        seq![value as u8]
    } else {
        seq![(value % 128 + 128) as u8] + varint_bytes(value / 128)
    }
}

/// Errors of `postcard`.
#[verifier::external_type_specification]
#[verifier::external_body]
pub struct ExPostcardError(postcard::Error);

/// `postcard::to_extend` with a `u16` and a `Vec<u8>`: the bytes of the varint are put behind what
/// the vector held. Writing to a vector does not fail.
#[verifier::external_body]
fn extend_u16(value: u16, output: Vec<u8>) -> (extended: Result<Vec<u8>, postcard::Error>)
    ensures
        extended is Ok,
        extended->Ok_0@ == output@ + varint_bytes(value as nat),
{
    postcard::to_extend(&value, output)
}

/// Puts a varint behind what the buffer holds.
pub fn u16_to_buf(value: u16, output: &mut Vec<u8>)
    ensures
        final(output)@ == old(output)@ + varint_bytes(value as nat),
{
    let mut written: Vec<u8> = Vec::new();
    core::mem::swap(output, &mut written);
    match extend_u16(value, written) {
        Ok(extended) => {
            *output = extended;
        },
        Err(_) => {},
    }
}

proof fn lemma_varint_round_trip(value: nat, limit: nat, rest: Seq<u8>)
    requires
        limit > 0,
        value < vstd::arithmetic::power2::pow2(7 * limit),
    ensures
        read_varint(varint_bytes(value) + rest, limit) == Ok::<(nat, Seq<u8>), WireError>(
            (value, rest),
        ),
    decreases value,
{
    let s = varint_bytes(value) + rest;
    vstd::arithmetic::power2::lemma2_to64();
    if value < 128 {
        assert(s.skip(1) =~= rest);
    } else {
        assert(value / 128 < vstd::arithmetic::power2::pow2((7 * (limit - 1)) as nat)) by {
            vstd::arithmetic::power2::lemma_pow2_adds(7, (7 * (limit - 1)) as nat);
        }
        lemma_varint_round_trip(value / 128, (limit - 1) as nat, rest);
        assert(s.skip(1) =~= varint_bytes(value / 128) + rest);
    }
}

/// Reading a `u16` gives the value that was written and leaves what follows it.
pub proof fn lemma_u16_round_trip(value: u16, rest: Seq<u8>)
    ensures
        read_u16(varint_bytes(value as nat) + rest) == Ok::<(u16, Seq<u8>), WireError>(
            (value, rest),
        ),
{
    vstd::arithmetic::power2::lemma2_to64();
    lemma_varint_round_trip(value as nat, 3, rest);
}

/// Reading a `u32` gives the value that was written and leaves what follows it.
pub proof fn lemma_u32_round_trip(value: u32, rest: Seq<u8>)
    ensures
        read_u32(varint_bytes(value as nat) + rest) == Ok::<(u32, Seq<u8>), WireError>(
            (value, rest),
        ),
{
    vstd::arithmetic::power2::lemma2_to64();
    vstd::arithmetic::power2::lemma_pow2_adds(32, 3);
    assert(vstd::arithmetic::power2::pow2(35) == 0x1_0000_0000 * 8);
    lemma_varint_round_trip(value as nat, 5, rest);
}

/// Reading a `u64` gives the value that was written and leaves what follows it.
pub proof fn lemma_u64_round_trip(value: u64, rest: Seq<u8>)
    ensures
        read_u64(varint_bytes(value as nat) + rest) == Ok::<(u64, Seq<u8>), WireError>(
            (value, rest),
        ),
{
    vstd::arithmetic::power2::lemma2_to64();
    vstd::arithmetic::power2::lemma_pow2_adds(64, 6);
    assert(vstd::arithmetic::power2::pow2(70) == 0x1_0000_0000_0000_0000 * 64);
    lemma_varint_round_trip(value as nat, 10, rest);
}

/// Reading a count or a size gives the value that was written and leaves what follows it.
pub proof fn lemma_usize_round_trip(value: usize, rest: Seq<u8>)
    ensures
        read_usize(varint_bytes(value as nat) + rest) == Ok::<(usize, Seq<u8>), WireError>(
            (value, rest),
        ),
{
    lemma_u64_round_trip(value as u64, rest);
}

/// What a sender writes for an entity.
pub open spec fn entity_bytes(entity: Entity) -> Seq<u8> {
    if entity.reuses() == 0 {
        varint_bytes(2 * entity.slot() as nat)
    } else {
        varint_bytes(2 * entity.slot() as nat + 1) + varint_bytes(entity.reuses() as nat)
    }
}

/// Reading an entity gives the entity that was written and leaves what follows it.
pub proof fn lemma_entity_round_trip(entity: Entity, rest: Seq<u8>)
    requires
        entity.slot() < u32::MAX,
    ensures
        read_entity(entity_bytes(entity) + rest) == Ok::<(Entity, Seq<u8>), WireError>(
            (entity, rest),
        ),
{
    entity.lemma_of(entity.slot(), entity.reuses());
    if entity.reuses() == 0 {
        lemma_u64_round_trip((2 * entity.slot()) as u64, rest);
    } else {
        let generation = varint_bytes(entity.reuses() as nat);
        lemma_u64_round_trip((2 * entity.slot() + 1) as u64, generation + rest);
        lemma_u32_round_trip(entity.reuses(), rest);
        assert(entity_bytes(entity) + rest =~= varint_bytes(2 * entity.slot() as nat + 1) + (
        generation + rest));
    }
}

/// An entity is read if and only if both of its numbers are and the slot is one that an entity can
/// have. It has that slot, and the generation where one is announced; without one it is zero.
pub proof fn lemma_entity_fields(s: Seq<u8>)
    ensures
        match (read_entity(s), read_u64(s)) {
            (result, Err(error)) => result == Err::<(Entity, Seq<u8>), WireError>(error),
            (result, Ok((flagged, rest))) => if flagged % 2 == 0 {
                match result {
                    Ok((entity, left)) => entity.slot() == flagged / 2 && entity.slot() < u32::MAX
                        && entity.reuses() == 0 && left == rest,
                    Err(error) => error == WireError::BadEntity && flagged / 2 >= u32::MAX,
                }
            } else {
                match (result, read_u32(rest)) {
                    (result, Err(error)) => result == Err::<(Entity, Seq<u8>), WireError>(error),
                    (Ok((entity, left)), Ok((generation, end))) => entity.slot() == flagged / 2
                        && entity.slot() < u32::MAX && entity.reuses() == generation && left
                        == end,
                    (Err(error), Ok(_)) => error == WireError::BadEntity && flagged / 2
                        >= u32::MAX,
                }
            },
        },
{
    if let Ok((entity, _)) = read_entity(s) {
        entity.lemma_of(entity.slot(), entity.reuses());
        if let Ok((flagged, rest)) = read_u64(s) {
            if flagged % 2 == 0 {
                entity.lemma_of((flagged / 2) as u32, 0);
            } else if let Ok((generation, _)) = read_u32(rest) {
                entity.lemma_of((flagged / 2) as u32, generation);
            }
        }
    }
}

/// What a sender writes for a hash.
pub open spec fn hash_bytes(hash: u64) -> Seq<u8> {
    seq![
        (hash % 0x100) as u8,
        (hash / 0x100 % 0x100) as u8,
        (hash / 0x1_0000 % 0x100) as u8,
        (hash / 0x100_0000 % 0x100) as u8,
        (hash / 0x1_0000_0000 % 0x100) as u8,
        (hash / 0x100_0000_0000 % 0x100) as u8,
        (hash / 0x1_0000_0000_0000 % 0x100) as u8,
        (hash / 0x100_0000_0000_0000 % 0x100) as u8,
    ]
}

/// Reading a hash gives the hash that was written and leaves what follows it. A message with fewer
/// bytes than a hash has none.
pub proof fn lemma_hash_round_trip(hash: u64, rest: Seq<u8>)
    ensures
        read_hash(hash_bytes(hash) + rest) == Ok::<(u64, Seq<u8>), WireError>((hash, rest)),
        rest.len() < 8 ==> read_hash(rest) == Err::<(u64, Seq<u8>), WireError>(
            WireError::UnexpectedEnd,
        ),
        read_hash(rest) is Ok <==> rest.len() >= 8,
{
    let s = hash_bytes(hash) + rest;
    assert(s.take(8) =~= hash_bytes(hash));
    assert(s.skip(8) =~= rest);
    assert(hash % 0x100 + hash / 0x100 % 0x100 * 0x100 + hash / 0x1_0000 % 0x100 * 0x1_0000 + hash
        / 0x100_0000 % 0x100 * 0x100_0000 + hash / 0x1_0000_0000 % 0x100 * 0x1_0000_0000 + hash
        / 0x100_0000_0000 % 0x100 * 0x100_0000_0000 + hash / 0x1_0000_0000_0000 % 0x100
        * 0x1_0000_0000_0000 + hash / 0x100_0000_0000_0000 % 0x100 * 0x100_0000_0000_0000 == hash)
        by (bit_vector);
    assert(little_endian(hash_bytes(hash)) == hash);
}

/// A count or a size is read if and only if a `u64` is that fits in `usize`, and with its value.
pub proof fn lemma_usize_fields(s: Seq<u8>)
    ensures
        match (read_usize(s), read_u64(s)) {
            (result, Err(error)) => result == Err::<(usize, Seq<u8>), WireError>(error),
            (Ok((size, left)), Ok((value, rest))) => size == value && left == rest,
            (Err(error), Ok((value, _))) => error == WireError::BadSize && value > usize::MAX,
        },
{
}

} // verus!
