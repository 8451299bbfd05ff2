//! Receiving comes to an end.

use vstd::prelude::*;

use crate::context::{
    lemma_later_messages, lemma_split_last, ready_messages, with_mutation, BufferedMutate,
};
use crate::laws::Reply;
use crate::message::{
    read_block_header, read_mapping, read_mutate_header, read_update_header, Stage,
    UpdateMessageFlags,
};
use crate::receiving::{Action, Origin, Phase, Receiving};
use crate::tick::RepliconTick;
use crate::wire::{lemma_read_varint_rest, read_entity, read_usize};

verus! {

/// The bytes of messages, with one more for each message.
pub open spec fn size_of_all(messages: Seq<Seq<u8>>) -> nat
    decreases messages.len(),
{
    if messages.len() == 0 {
        0
    } else {
        size_of_all(messages.skip(1)) + messages[0].len() + 1
    }
}

/// The bytes of buffered messages, with one more for each message.
pub open spec fn size_of_buffered(buffered: Seq<BufferedMutate<Seq<u8>>>) -> nat
    decreases buffered.len(),
{
    if buffered.len() == 0 {
        0
    } else {
        size_of_buffered(buffered.drop_last()) + buffered.last().message.len() + 1
    }
}

/// How many arrays there are.
pub open spec fn count_arrays(flags: UpdateMessageFlags) -> nat {
    (if flags.mappings {
        1nat
    } else {
        0
    }) + (if flags.despawns {
        1nat
    } else {
        0
    }) + (if flags.removals {
        1nat
    } else {
        0
    }) + (if flags.changes {
        1nat
    } else {
        0
    })
}

/// How far an array is from the end of its message, apart from the bytes.
pub open spec fn array_rank(origin: Origin) -> nat {
    match origin {
        Origin::Update { rest, .. } => 8 + 2 * count_arrays(rest),
        Origin::Mutate { .. } => 3,
    }
}

impl Receiving {
    /// How far the machine is from its end, apart from the bytes.
    pub open spec fn rank(self) -> nat {
        match self.phase {
            Phase::NextUpdate => 6,
            Phase::NextArray { flags, .. } => 7 + 2 * count_arrays(flags),
            Phase::NextItem(cursor) => array_rank(cursor.origin),
            Phase::NextComponent { cursor, .. } => array_rank(cursor.origin) + 1,
            Phase::Buffering => 5,
            Phase::NextMutate => 1,
            Phase::MutateEnd { .. } => 2,
            _ => 0,
        }
    }

    /// The bytes of the message that is applied.
    pub open spec fn open_bytes(self) -> nat {
        match self.phase {
            Phase::NextArray { message, .. } => message.len(),
            Phase::NextItem(cursor) => cursor.message.len(),
            Phase::NextComponent { cursor, block } => cursor.message.len() + block.data.len(),
            _ => 0,
        }
    }

    /// The bytes that are still to be read, with one more for each message.
    pub open spec fn bytes_left(self) -> nat {
        size_of_all(self.updates) + size_of_all(self.mutations) + size_of_buffered(self.ready) + (
        if self.in_mutations() || self.phase is Overrun {
            0
        } else {
            size_of_buffered(self.context.buffered)
        }) + self.open_bytes()
    }

    /// How far the machine is from its end.
    pub open spec fn distance(self) -> nat {
        20 * self.bytes_left() + self.rank()
    }

    /// A step, with the caller's answer where the machine waits for one.
    pub open spec fn round(self, answer: Reply) -> Receiving {
        let (next, _) = self.proceed();
        if next.waits() {
            next.step(answer).0
        } else {
            next
        }
    }

    /// The answer is one to what the machine asks next, and a component that is written leaves no
    /// more of the data than it was handed.
    pub open spec fn answered(self, answer: Reply) -> bool {
        let (next, action) = self.proceed();
        next.waits() ==> {
            &&& next.accepts(answer)
            &&& !(answer is Referred)
            &&& answer matches Reply::Written(Some(left)) ==> (action matches Action::Write {
                data,
                ..
            } && left.len() <= data.len())
        }
    }
}

proof fn lemma_size_insert(
    buffered: Seq<BufferedMutate<Seq<u8>>>,
    at: int,
    mutation: BufferedMutate<Seq<u8>>,
)
    requires
        0 <= at <= buffered.len(),
    ensures
        size_of_buffered(buffered.insert(at, mutation)) == size_of_buffered(buffered)
            + mutation.message.len() + 1,
    decreases buffered.len(),
{
    let after = buffered.insert(at, mutation);
    if at == buffered.len() {
        assert(after.drop_last() =~= buffered);
    } else {
        assert(after.drop_last() =~= buffered.drop_last().insert(at, mutation));
        lemma_size_insert(buffered.drop_last(), at, mutation);
    }
}

proof fn lemma_size_ready(buffered: Seq<BufferedMutate<Seq<u8>>>, update_tick: RepliconTick)
    ensures
        size_of_buffered(ready_messages(buffered, update_tick)) <= size_of_buffered(buffered),
    decreases buffered.len(),
{
    reveal(Seq::filter);
    if buffered.len() > 0 {
        lemma_split_last(buffered, update_tick);
        lemma_size_ready(buffered.drop_last(), update_tick);
        let ready = ready_messages(buffered.drop_last(), update_tick);
        assert(ready.push(buffered.last()).drop_last() =~= ready);
    }
}

proof fn lemma_size_first(buffered: Seq<BufferedMutate<Seq<u8>>>)
    requires
        buffered.len() > 0,
    ensures
        size_of_buffered(buffered) == size_of_buffered(buffered.skip(1)) + buffered[0].message.len()
            + 1,
    decreases buffered.len(),
{
    if buffered.len() > 1 {
        lemma_size_first(buffered.drop_last());
        assert(buffered.drop_last().skip(1) =~= buffered.skip(1).drop_last());
    } else {
        assert(buffered.skip(1) =~= Seq::empty());
        assert(buffered.drop_last() =~= Seq::empty());
    }
}

proof fn lemma_read_entity_rest(s: Seq<u8>)
    ensures
        read_entity(s) matches Ok((_, rest)) ==> rest.len() < s.len(),
{
    lemma_read_varint_rest(s, 10);
    if let Ok((_, rest)) = crate::wire::read_varint(s, 10) {
        lemma_read_varint_rest(rest, 5);
    }
}

proof fn lemma_read_rest(s: Seq<u8>)
    ensures
        read_usize(s) matches Ok((_, rest)) ==> rest.len() < s.len(),
        read_entity(s) matches Ok((_, rest)) ==> rest.len() < s.len(),
        read_block_header(s) matches Ok((_, rest)) ==> rest.len() < s.len(),
        read_mapping(s) matches Ok((_, rest)) ==> rest.len() < s.len(),
        read_update_header(s) matches Ok((_, rest)) ==> rest.len() < s.len(),
{
    lemma_read_entity_rest(s);
    lemma_read_varint_rest(s, 10);
    if let Ok((_, rest)) = read_entity(s) {
        lemma_read_varint_rest(rest, 10);
    }
    if s.len() > 0 {
        lemma_read_varint_rest(s.skip(1), 5);
    }
}

proof fn lemma_read_mutate_header_rest(s: Seq<u8>, counted: bool)
    ensures
        read_mutate_header(s, counted) matches Ok((_, rest)) ==> rest.len() < s.len(),
{
    lemma_read_varint_rest(s, 5);
    if let Ok((_, rest)) = crate::wire::read_u32(s) {
        lemma_read_varint_rest(rest, 5);
        if let Ok((_, rest)) = crate::wire::read_u32(rest) {
            lemma_read_varint_rest(rest, 10);
            if let Ok((_, rest)) = crate::message::read_messages_count(rest, counted) {
                lemma_read_varint_rest(rest, 3);
            }
        }
    }
}

/// An item of an array, or its end, brings the machine closer to its end.
proof fn lemma_item_gets_closer(s: Receiving, answer: Reply)
    requires
        s.inv(),
        s.phase is NextItem,
        s.answered(answer),
    ensures
        !s.round(answer).waits(),
        s.round(answer).distance() < s.distance(),
{
    if let Phase::NextItem(cursor) = s.phase {
        lemma_read_rest(cursor.message);
        if !cursor.at_end() {
            match cursor.origin {
                Origin::Update { stage, .. } => match stage {
                    Stage::Mappings => {},
                    Stage::Despawns => {},
                    Stage::Removals => {},
                    Stage::Changes => {},
                },
                Origin::Mutate { .. } => {},
            }
        }
    }
}

/// Receiving comes to an end: each round brings the machine closer to it, whatever is sent and
/// whatever the caller answers, as long as components do not lengthen the data that they are read
/// from.
pub proof fn lemma_every_round_gets_closer(s: Receiving, answer: Reply)
    requires
        s.inv(),
        !s.waits(),
        !(s.phase is Finished),
        !(s.phase is Overrun),
        s.answered(answer),
    ensures
        !s.round(answer).waits(),
        s.round(answer).distance() < s.distance(),
{
    match s.phase {
        Phase::NextUpdate => {
            if s.updates.len() > 0 {
                lemma_read_rest(s.updates[0]);
            }
        },
        Phase::NextArray { message, tick, flags } => {
            lemma_read_rest(message);
        },
        Phase::NextItem(_) => {
            lemma_item_gets_closer(s, answer);
        },
        Phase::NextComponent { cursor, block } => {
            lemma_read_rest(block.data);
        },
        Phase::Buffering => {
            if s.mutations.len() > 0 {
                let message = s.mutations[0];
                let counted = s.context.mutate_ticks is Some;
                lemma_read_mutate_header_rest(message, counted);
                if let Ok((header, rest)) = read_mutate_header(message, counted) {
                    let mutation = BufferedMutate {
                        update_tick: header.update_tick,
                        message_tick: header.message_tick,
                        messages_count: header.messages_count,
                        message: rest,
                    };
                    lemma_later_messages(s.context.buffered, header.message_tick);
                    lemma_size_insert(
                        s.context.buffered,
                        crate::context::later_messages(s.context.buffered, header.message_tick),
                        mutation,
                    );
                    assert(s.round(answer).context.buffered == with_mutation(
                        s.context.buffered,
                        mutation,
                    ));
                }
            } else {
                lemma_size_ready(s.context.buffered, s.context.update_tick);
            }
        },
        Phase::NextMutate => {
            if s.ready.len() > 0 {
                lemma_size_first(s.ready);
            }
        },
        _ => {},
    }
}

} // verus!
