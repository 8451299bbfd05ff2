//! Mutate messages are acknowledged.

use vstd::prelude::*;

use crate::client::ClientReplicationStats;
use crate::context::Context;
use crate::entity::Entity;
use crate::laws::Reply;
use crate::message::read_mutate_header;
use crate::receiving::Receiving;
use crate::wire::{lemma_read_varint_rest, lemma_u16_round_trip, read_u16, varint_bytes};

verus! {

/// The indices of the mutate messages that can be read, in their order.
pub open spec fn readable_indices(messages: Seq<Seq<u8>>, counted: bool) -> Seq<u16>
    decreases messages.len(),
{
    if messages.len() == 0 {
        Seq::empty()
    } else {
        let indices = readable_indices(messages.drop_last(), counted);
        match read_mutate_header(messages.last(), counted) {
            Ok((header, _)) => indices.push(header.index.0),
            Err(_) => indices,
        }
    }
}

/// The bytes that acknowledge these indices.
pub open spec fn acknowledgment(indices: Seq<u16>) -> Seq<u8>
    decreases indices.len(),
{
    if indices.len() == 0 {
        Seq::empty()
    } else {
        acknowledgment(indices.drop_last()) + varint_bytes(indices.last() as nat)
    }
}

/// The indices that a sender reads in an acknowledgment, up to the first that it cannot read.
pub open spec fn acknowledged_indices(acks: Seq<u8>) -> Seq<u16>
    decreases acks.len(),
{
    match read_u16(acks) {
        Ok((index, rest)) => {
            proof {
                lemma_read_varint_rest(acks, 3);
            }
            seq![index] + acknowledged_indices(rest)
        },
        Err(_) => Seq::empty(),
    }
}

/// What acknowledges messages, where there are any.
pub open spec fn acks_for(messages: Seq<Seq<u8>>, counted: bool, read: int) -> Option<Seq<u8>> {
    if messages.len() == 0 {
        None
    } else {
        Some(acknowledgment(readable_indices(messages.take(read), counted)))
    }
}

impl Receiving {
    /// How the acknowledgments stand when these were the mutate messages of the round, which say
    /// how many there are of a tick where they are counted.
    pub open spec fn acknowledges(self, messages: Seq<Seq<u8>>, counted: bool) -> bool {
        let read = messages.len() - self.mutations.len();
        &&& self.context.mutate_ticks is Some == counted
        &&& self.mutations.len() <= messages.len()
        &&& self.mutations == messages.skip(read)
        &&& self.past_updates() ==> self.acks == acks_for(messages, counted, read)
        &&& self.in_mutations() ==> self.mutations.len() == 0
        &&& !self.past_updates() && !(self.phase is Overrun) ==> read == 0
    }
}

proof fn lemma_step_acknowledges(
    s: Receiving,
    reply: Reply,
    messages: Seq<Seq<u8>>,
    counted: bool,
)
    requires
        s.acknowledges(messages, counted),
        s.accepts(reply),
    ensures
        s.step(reply).0.acknowledges(messages, counted),
{
    let read = messages.len() - s.mutations.len();
    let next = s.step(reply).0;
    if s.phase is NextUpdate && s.updates.len() == 0 {
        assert(messages.take(0) =~= Seq::empty());
    }
    if s.phase is Buffering && reply is Proceed && s.mutations.len() > 0 {
        let taken = messages.take(read + 1);
        assert(taken.drop_last() =~= messages.take(read));
        assert(s.mutations[0] == taken.last());
        assert(next.mutations =~= messages.skip(read + 1));
        let indices = readable_indices(taken.drop_last(), counted);
        if let Ok((header, _)) = read_mutate_header(taken.last(), counted) {
            assert(indices.push(header.index.0).drop_last() =~= indices);
        }
    }
}

/// Whatever the caller answers, a round of receiving acknowledges every mutate message that can be
/// read by its index, in the order in which the messages came, and no other. Without mutate
/// messages there is no acknowledgment.
pub proof fn lemma_readable_mutations_are_acknowledged(
    context: Context,
    stats: Option<ClientReplicationStats>,
    signatures: Map<u64, Entity>,
    updates: Seq<Seq<u8>>,
    mutations: Seq<Seq<u8>>,
    replies: Seq<Reply>,
)
    requires
        Receiving::start(context, stats, signatures, updates, mutations).accepts_all(replies),
    ensures
        ({
            let end = Receiving::start(context, stats, signatures, updates, mutations).run(replies);
            end.phase is Finished ==> end.acks == if mutations.len() == 0 {
                None
            } else {
                Some(acknowledgment(readable_indices(mutations, context.mutate_ticks is Some)))
            }
        }),
{
    let start = Receiving::start(context, stats, signatures, updates, mutations);
    assert(mutations.skip(0) =~= mutations);
    lemma_run_acknowledges(start, replies, mutations, context.mutate_ticks is Some);
    assert(mutations.take(mutations.len() as int) =~= mutations);
}

proof fn lemma_run_acknowledges(
    s: Receiving,
    replies: Seq<Reply>,
    messages: Seq<Seq<u8>>,
    counted: bool,
)
    requires
        s.acknowledges(messages, counted),
        s.accepts_all(replies),
    ensures
        s.run(replies).acknowledges(messages, counted),
    decreases replies.len(),
{
    if replies.len() > 0 {
        let before = replies.drop_last();
        lemma_run_acknowledges(s, before, messages, counted);
        lemma_step_acknowledges(s.run(before), replies.last(), messages, counted);
    }
}

proof fn lemma_acknowledgment_front(indices: Seq<u16>)
    requires
        indices.len() > 0,
    ensures
        acknowledgment(indices) == varint_bytes(indices[0] as nat) + acknowledgment(
            indices.skip(1),
        ),
    decreases indices.len(),
{
    if indices.len() == 1 {
        assert(indices.drop_last() =~= Seq::empty());
        assert(indices.skip(1) =~= Seq::empty());
        assert(acknowledgment(indices) =~= varint_bytes(indices[0] as nat) + acknowledgment(
            indices.skip(1),
        ));
    } else {
        lemma_acknowledgment_front(indices.drop_last());
        assert(indices.drop_last().skip(1) =~= indices.skip(1).drop_last());
        assert(acknowledgment(indices) =~= varint_bytes(indices[0] as nat) + acknowledgment(
            indices.skip(1),
        ));
    }
}

/// A sender reads in an acknowledgment the indices that were put in it.
pub proof fn lemma_acknowledgments_are_read(indices: Seq<u16>)
    ensures
        acknowledged_indices(acknowledgment(indices)) == indices,
    decreases indices.len(),
{
    let acks = acknowledgment(indices);
    if indices.len() > 0 {
        lemma_acknowledgment_front(indices);
        lemma_u16_round_trip(indices[0], acknowledgment(indices.skip(1)));
        lemma_acknowledgments_are_read(indices.skip(1));
        assert(acknowledged_indices(acks) == seq![indices[0]] + acknowledged_indices(
            acknowledgment(indices.skip(1)),
        ));
        assert(seq![indices[0]] + indices.skip(1) =~= indices);
    } else {
        assert(acks.len() == 0);
        assert(acknowledged_indices(acks) =~= indices);
    }
}

} // verus!
