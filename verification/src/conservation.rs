//! No mutate message is lost, and none is made up.

use vstd::multiset::Multiset;
use vstd::prelude::*;

use crate::client::ClientReplicationStats;
use crate::context::{BufferedMutate, Context};
use crate::effects::{
    lemma_due_messages_are_applied, lemma_due_messages_are_taken_out,
    lemma_mutate_message_is_buffered,
};
use crate::entity::Entity;
use crate::laws::{lemma_run_keeps_inv, Reply};
use crate::message::read_mutate_header;
use crate::receiving::Receiving;

verus! {

/// The mutate messages that can be read, in their order.
pub open spec fn readable_messages(messages: Seq<Seq<u8>>, counted: bool) -> Seq<
    BufferedMutate<Seq<u8>>,
>
    decreases messages.len(),
{
    if messages.len() == 0 {
        Seq::empty()
    } else {
        let others = readable_messages(messages.skip(1), counted);
        match read_mutate_header(messages[0], counted) {
            Ok((header, rest)) => seq![
                BufferedMutate {
                    update_tick: header.update_tick,
                    message_tick: header.message_tick,
                    messages_count: header.messages_count,
                    message: rest,
                },
            ] + others,
            Err(_) => others,
        }
    }
}

impl Receiving {
    /// The mutate messages that were applied, or begun to be.
    pub open spec fn applied(self, replies: Seq<Reply>) -> Seq<BufferedMutate<Seq<u8>>>
        decreases replies.len(),
    {
        if replies.len() == 0 {
            Seq::empty()
        } else {
            let before = self.run(replies.drop_last());
            let applied = self.applied(replies.drop_last());
            if before.phase is NextMutate && before.ready.len() > 0 && replies.last() is Proceed {
                applied.push(before.ready[0])
            } else {
                applied
            }
        }
    }

    /// The mutate messages that are not applied: those to be read that can be, those that are due
    /// and those that wait.
    pub open spec fn unapplied(self) -> Multiset<BufferedMutate<Seq<u8>>> {
        readable_messages(
            self.mutations,
            self.context.mutate_ticks is Some,
        ).to_multiset().add(self.ready.to_multiset()).add(self.context.buffered.to_multiset())
    }

    /// Nothing is due before all mutate messages are read.
    pub open spec fn nothing_due_yet(self) -> bool {
        !self.in_mutations() && !(self.phase is Overrun) ==> self.ready.len() == 0
    }
}

/// The messages that a step begins to apply.
pub open spec fn begun(s: Receiving, reply: Reply) -> Multiset<BufferedMutate<Seq<u8>>> {
    if s.phase is NextMutate && s.ready.len() > 0 && reply is Proceed {
        Multiset::singleton(s.ready[0])
    } else {
        Multiset::empty()
    }
}

proof fn lemma_step_loses_nothing(s: Receiving, reply: Reply)
    requires
        s.nothing_due_yet(),
        s.accepts(reply),
    ensures
        s.step(reply).0.nothing_due_yet(),
        s.step(reply).0.unapplied().add(begun(s, reply)) == s.unapplied(),
{
    let next = s.step(reply).0;
    let counted = s.context.mutate_ticks is Some;
    if s.phase is Buffering && reply is Proceed {
        if s.mutations.len() > 0 {
            lemma_mutate_message_is_buffered(s);
            if let Ok((header, rest)) = read_mutate_header(s.mutations[0], counted) {
                let mutation = BufferedMutate {
                    update_tick: header.update_tick,
                    message_tick: header.message_tick,
                    messages_count: header.messages_count,
                    message: rest,
                };
                lemma_first_counts(mutation, readable_messages(next.mutations, counted));
            }
        } else {
            lemma_due_messages_are_taken_out(s);
            s.ready.to_multiset_ensures();
            assert(s.ready.to_multiset() =~= Multiset::empty());
        }
    } else if s.phase is NextMutate && reply is Proceed && s.ready.len() > 0 {
        lemma_due_messages_are_applied(s);
        lemma_first_counts(s.ready[0], s.ready.skip(1));
        assert(seq![s.ready[0]] + s.ready.skip(1) =~= s.ready);
    } else {
        s.lemma_keeps_messages(reply);
    }
    assert(next.unapplied().add(begun(s, reply)) =~= s.unapplied());
}

proof fn lemma_first_counts(
    first: BufferedMutate<Seq<u8>>,
    others: Seq<BufferedMutate<Seq<u8>>>,
)
    ensures
        (seq![first] + others).to_multiset() == others.to_multiset().insert(first),
{
    let all = seq![first] + others;
    assert(all.remove(0) =~= others);
    vstd::seq_lib::to_multiset_remove(all, 0);
    all.to_multiset_ensures();
    assert(all.contains(all[0]));
    assert(all.to_multiset().remove(first).insert(first) =~= all.to_multiset());
}

proof fn lemma_run_loses_nothing(s: Receiving, replies: Seq<Reply>)
    requires
        s.nothing_due_yet(),
        s.accepts_all(replies),
    ensures
        s.run(replies).nothing_due_yet(),
        s.run(replies).unapplied().add(s.applied(replies).to_multiset()) == s.unapplied(),
    decreases replies.len(),
{
    if replies.len() == 0 {
        s.applied(replies).to_multiset_ensures();
        assert(s.applied(replies).to_multiset() =~= Multiset::empty());
        assert(s.unapplied().add(Multiset::empty()) =~= s.unapplied());
    } else {
        let before = replies.drop_last();
        let mid = s.run(before);
        lemma_run_loses_nothing(s, before);
        lemma_step_loses_nothing(mid, replies.last());
        if mid.phase is NextMutate && mid.ready.len() > 0 && replies.last() is Proceed {
            vstd::seq_lib::to_multiset_build(s.applied(before), mid.ready[0]);
        }
        assert(s.run(replies).unapplied().add(s.applied(replies).to_multiset())
            =~= s.unapplied());
    }
}

/// Over a round every mutate message that waited or that can be read is either applied or left
/// waiting, exactly as often as it was there, whatever the caller answers.
pub proof fn lemma_no_mutation_is_lost(
    context: Context,
    stats: Option<ClientReplicationStats>,
    signatures: Map<u64, Entity>,
    updates: Seq<Seq<u8>>,
    mutations: Seq<Seq<u8>>,
    replies: Seq<Reply>,
)
    requires
        Receiving::start(context, stats, signatures, updates, mutations).accepts_all(replies),
    ensures
        ({
            let start = Receiving::start(context, stats, signatures, updates, mutations);
            let end = start.run(replies);
            end.phase is Finished ==> start.applied(replies).to_multiset().add(
                end.context.buffered.to_multiset(),
            ) == context.buffered.to_multiset().add(
                readable_messages(mutations, context.mutate_ticks is Some).to_multiset(),
            )
        }),
{
    let start = Receiving::start(context, stats, signatures, updates, mutations);
    let end = start.run(replies);
    lemma_run_loses_nothing(start, replies);
    lemma_run_keeps_inv(start, replies);
    start.ready.to_multiset_ensures();
    assert(start.ready.to_multiset() =~= Multiset::empty());
    if end.phase is Finished {
        end.ready.to_multiset_ensures();
        assert(end.ready.to_multiset() =~= Multiset::empty());
        let unread = readable_messages(end.mutations, end.context.mutate_ticks is Some);
        unread.to_multiset_ensures();
        assert(unread.to_multiset() =~= Multiset::empty());
        let applied = start.applied(replies).to_multiset();
        let waiting = end.context.buffered.to_multiset();
        let read = readable_messages(mutations, context.mutate_ticks is Some).to_multiset();
        assert(end.unapplied() =~= waiting);
        assert(start.unapplied() =~= read.add(context.buffered.to_multiset()));
        assert(applied.add(waiting) =~= waiting.add(applied));
        assert(read.add(context.buffered.to_multiset()) =~= context.buffered.to_multiset().add(read));
    }
}

} // verus!
