//! What each step of a server that receives from its clients does.

use bytes::Bytes;
use vstd::prelude::*;

use crate::channels::ClientToServerReplicationChannels;
use crate::client::ClientReplicationStats;
use crate::context::{BufferedMutations, Context, ReceiveContext};
use crate::entity::Entity;
use crate::entity_map::members;
use crate::laws::Reply;
use crate::peers::{lemma_prepared_empty, queue_of, sent_contents, Peers, ReceiveContexts};
use crate::receive::all_contents;
use crate::receiving::{Action, Phase, Receiving};
use crate::serving::{
    has_to_receive, params_view, Params, ServerAction, Serving, ServingPhase,
};
use crate::tick::RepliconTick;
use crate::wire::contents;

verus! {

/// Receiving begins with what it is handed, before the first update message, and with nothing to
/// acknowledge and nothing due.
pub proof fn lemma_receiving_starts(
    context: Context,
    stats: Option<ClientReplicationStats>,
    signatures: Map<u64, Entity>,
    updates: Seq<Seq<u8>>,
    mutations: Seq<Seq<u8>>,
)
    ensures
        ({
            let start = Receiving::start(context, stats, signatures, updates, mutations);
            &&& start.context == context
            &&& start.stats == stats
            &&& start.signatures == signatures
            &&& start.updates == updates
            &&& start.mutations == mutations
            &&& start.acks is None
            &&& start.ready.len() == 0
            &&& start.phase is NextUpdate
        }),
{
}

/// The client's turn begins with all that was kept of it and all that it sent, or with nothing kept
/// if it had no context. The contexts and messages of the others stay, and the client leaves the
/// queue.
pub proof fn lemma_turn_begins(s: Serving, client: Entity, params: Params)
    requires
        s.phase == ServingPhase::NextClient(params),
        s.queue.len() > 0,
        s.queue[0] == client,
    ensures
        ({
            let (next, action) = s.proceed();
            let messages = queue_of(s.peers.queues, client);
            &&& action is Proceed
            &&& next.channels == s.channels
            &&& next.track_mutate_messages == s.track_mutate_messages
            &&& next.queue == s.queue.skip(1)
            &&& next.peers.updates == s.peers.updates
            &&& next.peers.mutations == s.peers.mutations
            &&& queue_of(next.peers.queues, client).updates.len() == 0
            &&& queue_of(next.peers.queues, client).mutations.len() == 0
            &&& forall|other: Entity|
                #![trigger queue_of(next.peers.queues, other)]
                {
                    &&& next.peers.queues.contains_key(other) <==> s.peers.queues.contains_key(
                        other,
                    )
                    &&& other != client ==> queue_of(next.peers.queues, other) == queue_of(
                        s.peers.queues,
                        other,
                    )
                }
            &&& forall|other: Entity|
                other != client ==> #[trigger] next.contexts.get(other) == s.contexts.get(other)
            &&& next.phase matches ServingPhase::Client { client: current, receiving } && {
                &&& current == client
                &&& receiving.updates == messages.updates
                &&& receiving.mutations == messages.mutations
                &&& receiving.stats == params.stats
                &&& receiving.signatures == params.signatures
                &&& receiving.phase is NextUpdate
                &&& receiving.acks is None
                &&& receiving.ready.len() == 0
                &&& receiving.context.source == Some(client)
                &&& if s.contexts.contains_key(client) {
                    let kept = s.contexts[client];
                    &&& receiving.context.entity_map == kept.entity_map
                    &&& receiving.context.update_tick == kept.update_tick
                    &&& receiving.context.buffered == kept.buffered
                    &&& receiving.context.mutate_ticks == kept.mutate_ticks
                    &&& receiving.context.spawned == Some(kept.spawned)
                } else {
                    &&& receiving.context.entity_map == Map::<Entity, Entity>::empty()
                    &&& receiving.context.update_tick == RepliconTick(0)
                    &&& receiving.context.buffered.len() == 0
                    &&& receiving.context.mutate_ticks is Some <==> s.track_mutate_messages
                    &&& receiving.context.spawned == Some(Set::<Entity>::empty())
                }
            }
        }),
{
}

/// In a client's turn the server takes the step that receiving takes, and hands on what is asked
/// for as asked for that client. Until everything is received nothing else changes.
pub proof fn lemma_turn_goes_on(s: Serving, client: Entity, receiving: Receiving, reply: Reply)
    requires
        s.phase == (ServingPhase::Client { client, receiving }),
        receiving.accepts(reply),
        !(receiving.step(reply).1 is Finished),
    ensures
        s.step(reply).0 == (Serving {
            phase: ServingPhase::Client { client, receiving: receiving.step(reply).0 },
            ..s
        }),
        !(reply is Referred) ==> s.step(reply).1 == (ServerAction::<Seq<u8>, Seq<u8>>::Client {
            client,
            action: receiving.step(reply).1,
        }),
        reply is Referred ==> s.step(reply).1 is Proceed,
{
}

/// At the end of a client's turn every part of its context is kept, and the contexts of the others
/// stay. The client is sent its acknowledgments if there are any, and nobody else is.
pub proof fn lemma_turn_ends(s: Serving, client: Entity, receiving: Receiving, reply: Reply)
    requires
        s.phase == (ServingPhase::Client { client, receiving }),
        receiving.accepts(reply),
        receiving.step(reply).1 is Finished,
        receiving.step(reply).0.context.spawned is Some,
    ensures
        ({
            let end = receiving.step(reply).0;
            let (next, action) = s.step(reply);
            &&& next == (Serving { contexts: next.contexts, phase: next.phase, ..s })
            &&& next.phase matches ServingPhase::NextClient(params) && params.stats == end.stats
                && params.signatures == end.signatures
            &&& next.contexts.contains_key(client)
            &&& next.contexts[client].entity_map == end.context.entity_map
            &&& next.contexts[client].update_tick == end.context.update_tick
            &&& next.contexts[client].buffered == end.context.buffered
            &&& next.contexts[client].mutate_ticks == end.context.mutate_ticks
            &&& Some(next.contexts[client].spawned) == end.context.spawned
            &&& forall|other: Entity|
                other != client ==> #[trigger] next.contexts.get(other) == s.contexts.get(other)
            &&& match end.acks {
                Some(acks) => action == (ServerAction::<Seq<u8>, Seq<u8>>::SendAcks {
                    client,
                    channel: s.channels.mutation_acks,
                    acks,
                }),
                None => action is Proceed,
            }
        }),
{
}

/// A client whose turn ended has the same context when its next turn begins, in whatever state the
/// server is then, as long as what was kept of the client is the same.
pub proof fn lemma_context_lasts_until_the_next_turn(
    s: Serving,
    client: Entity,
    receiving: Receiving,
    reply: Reply,
    later: Serving,
    params: Params,
)
    requires
        s.phase == (ServingPhase::Client { client, receiving }),
        receiving.accepts(reply),
        receiving.step(reply).1 is Finished,
        receiving.step(reply).0.context.spawned is Some,
        receiving.step(reply).0.context.source == Some(client),
        later.phase == ServingPhase::NextClient(params),
        later.queue.len() > 0,
        later.queue[0] == client,
        later.contexts.get(client) == s.step(reply).0.contexts.get(client),
    ensures
        later.proceed().0.phase matches ServingPhase::Client { client: current, receiving: begun }
            && current == client && begun.context == receiving.step(reply).0.context,
{
}

/// Behind the last client the queues of clients that have a context are kept as they are, and no
/// others. Nothing else changes, and the end stays.
pub proof fn lemma_all_turns_are_over(s: Serving, params: Params)
    requires
        s.phase == ServingPhase::NextClient(params),
        s.queue.len() == 0,
    ensures
        ({
            let (next, action) = s.proceed();
            &&& action is Finished
            &&& next.phase == ServingPhase::Finished(params)
            &&& next.contexts == s.contexts
            &&& next.channels == s.channels
            &&& next.track_mutate_messages == s.track_mutate_messages
            &&& next.queue == s.queue
            &&& next.peers.updates == s.peers.updates
            &&& next.peers.mutations == s.peers.mutations
            &&& forall|client: Entity|
                {
                    &&& #[trigger] next.peers.queues.contains_key(client)
                        <==> s.peers.queues.contains_key(client) && s.contexts.contains_key(client)
                    &&& next.peers.queues.contains_key(client) ==> next.peers.queues[client]
                        == s.peers.queues[client]
                }
            &&& next.proceed() == (next, ServerAction::<Seq<u8>, Seq<u8>>::Finished)
        }),
{
}

/// The server waits for an answer if and only if the client's messages do.
pub proof fn lemma_server_waits(s: Serving)
    ensures
        match s.phase {
            ServingPhase::Client { receiving, .. } => s.waits() == receiving.waits(),
            _ => !s.waits(),
        },
{
}

/// What is shared by all clients is handed over as it is.
pub proof fn lemma_params_view(params: crate::receive::ReceiveParams)
    ensures
        params_view(params).stats == params.stats,
        params_view(params).signatures == params.signature_map@,
{
}

/// An action asks for what it stands for: the same, with the same entities, ticks and bytes.
pub proof fn lemma_actions_mean_what_they_say(action: Action<Bytes>)
    ensures
        match (action, action@) {
            (Action::Proceed, Action::Proceed) => true,
            (Action::Inspect(a), Action::Inspect(b)) => a == b,
            (Action::Spawn(a), Action::Spawn(b)) => a == b,
            (
                Action::Mark { entity: a, remote_entity: ra, .. },
                Action::Mark { entity: b, remote_entity: rb, .. },
            ) => a == b && ra == rb,
            (Action::Despawn { entity: a, tick: ta }, Action::Despawn { entity: b, tick: tb }) => a
                == b && ta == tb,
            (
                Action::Confirm { entity: a, history: ha, tick: ta },
                Action::Confirm { entity: b, history: hb, tick: tb },
            ) => a == b && ha == hb && ta == tb,
            (
                Action::Remove { entity: a, fns_id: fa, tick: ta },
                Action::Remove { entity: b, fns_id: fb, tick: tb },
            ) => a == b && fa == fb && ta == tb,
            (
                Action::Write { entity: a, fns_id: fa, tick: ta, outdated: oa, data: da },
                Action::Write { entity: b, fns_id: fb, tick: tb, outdated: ob, data: db },
            ) => a == b && fa == fb && ta == tb && oa == ob && contents(da) == db,
            (Action::Flush(a), Action::Flush(b)) => a == b,
            (Action::MutateTickReceived(a), Action::MutateTickReceived(b)) => a == b,
            (
                Action::UpdateFailed { stage: a, error: ea },
                Action::UpdateFailed { stage: b, error: eb },
            ) => a == b && ea == eb,
            (Action::BufferFailed(a), Action::BufferFailed(b)) => a == b,
            (
                Action::MutateFailed { tick: a, error: ea },
                Action::MutateFailed { tick: b, error: eb },
            ) => a == b && ea == eb,
            (Action::Overrun, Action::Overrun) => true,
            (Action::Finished, Action::Finished) => true,
            _ => false,
        },
{
}

/// An action of a server asks for what it stands for, for the same client.
pub proof fn lemma_server_actions_mean_what_they_say(action: ServerAction<Bytes, Vec<u8>>)
    ensures
        match (action, action@) {
            (ServerAction::Proceed, ServerAction::Proceed) => true,
            (
                ServerAction::Client { client: a, action: asked },
                ServerAction::Client { client: b, action: meant },
            ) => a == b && asked@ == meant,
            (
                ServerAction::SendAcks { client: a, channel: ca, acks: aa },
                ServerAction::SendAcks { client: b, channel: cb, acks: ab },
            ) => a == b && ca == cb && aa@ == ab,
            (ServerAction::Finished, ServerAction::Finished) => true,
            _ => false,
        },
{
}

/// Messages hold their bytes in the order in which they came.
pub proof fn lemma_messages_in_order(messages: Seq<Bytes>, sent: Seq<(Entity, Bytes)>)
    ensures
        all_contents(messages).len() == messages.len(),
        forall|i: int|
            0 <= i < messages.len() ==> #[trigger] all_contents(messages)[i] == contents(
                messages[i],
            ),
        sent_contents(sent).len() == sent.len(),
        forall|i: int|
            0 <= i < sent.len() ==> (#[trigger] sent_contents(sent)[i]).0 == sent[i].0
                && sent_contents(sent)[i].1 == contents(sent[i].1),
{
}

/// Waiting messages are known by their ticks, their count and their bytes, in their order.
pub proof fn lemma_waiting_messages_in_order(buffered: BufferedMutations)
    ensures
        buffered@.len() == buffered.0@.len(),
        forall|i: int|
            0 <= i < buffered.0@.len() ==> {
                let waiting = #[trigger] buffered@[i];
                &&& waiting.update_tick == buffered.0@[i].update_tick
                &&& waiting.message_tick == buffered.0@[i].message_tick
                &&& waiting.messages_count == buffered.0@[i].messages_count
                &&& waiting.message == contents(buffered.0@[i].message)
            },
{
}

/// A context is known by all of its parts.
pub proof fn lemma_context_parts(context: ReceiveContext)
    ensures
        context@.entity_map == context.entity_map@,
        context@.update_tick == context.update_tick.0,
        context@.buffered == context.buffered_mutations@,
        match (context@.mutate_ticks, context.mutate_ticks) {
            (Some(known), Some(ticks)) => known == ticks@,
            (None, None) => true,
            _ => false,
        },
        context@.source == context.source,
        match (context@.spawned, context.spawned_entities) {
            (Some(known), Some(entities)) => known == members(entities),
            (None, None) => true,
            _ => false,
        },
{
}

/// Contexts are known by the clients that have one.
pub proof fn lemma_contexts_by_client(contexts: ReceiveContexts, client: Entity)
    ensures
        contexts@.contains_key(client) <==> contexts.0@.contains_key(client),
        contexts@.contains_key(client) ==> contexts@[client] == contexts.0@[client]@,
{
}

/// With another context, or elsewhere, a machine knows everything else that it did.
pub proof fn lemma_with_context(s: Receiving, context: Context, phase: Phase<Seq<u8>>)
    ensures
        s.with_context(context) == (Receiving { context, ..s }),
        s.at(phase) == (Receiving { phase, ..s }),
{
}

/// A server has something to receive if and only if it receives from clients and a message came.
pub proof fn lemma_has_to_receive(
    channels: Option<ClientToServerReplicationChannels>,
    peers: Peers,
)
    ensures
        has_to_receive(channels, peers) <==> channels is Some && (peers.updates.len() > 0
            || peers.mutations.len() > 0),
{
    lemma_prepared_empty(peers);
}

} // verus!
