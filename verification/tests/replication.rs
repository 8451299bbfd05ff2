use std::collections::BTreeMap;

use bytes::Bytes;
use replicon_receive::channels::RepliconChannels;
use replicon_receive::client::{
    AuthMethod, BuildStep, ClientPlugin, ClientReplicationStats, ClientResource, ClientSchedule,
    ClientSystem, ServerUpdateTick,
};
use replicon_receive::confirm_history::ConfirmHistory;
use replicon_receive::context::{BufferedMutations, ReceiveContext, ServerEntityMap};
use replicon_receive::entity::Entity;
use replicon_receive::message::{FnsId, Stage};
use replicon_receive::mutate_ticks::ServerMutateTicks;
use replicon_receive::peers::{
    add_receive_context, enable_receive_from_clients, remove_receive_context,
    sync_receive_contexts, PeerReceivedMessages, ReceiveContexts,
};
use replicon_receive::receive::{Receive, ReceiveParams, ReceivedReplicationMessages};
use replicon_receive::receiving::{Action, EntityInfo, ReceiveError, SpawnBundle};
use replicon_receive::replication::{RemoteEntity, ReplicatedFrom};
use replicon_receive::serving::{
    must_receive, receive_replication_from_clients, ServerAction, ServerState,
};
use replicon_receive::signature::SignatureMap;
use replicon_receive::tick::RepliconTick;
use replicon_receive::wire::WireError;

const MARKER: usize = 0;
const BOOL: usize = 1;
const REFERENCE: usize = 2;
const BROKEN: usize = 3;

fn entity(index: u32) -> Entity {
    Entity::from_parts(index, 0).unwrap()
}

fn number(value: u64, bytes: &mut Vec<u8>) {
    let mut buffer = [0u8; 10];
    bytes.extend_from_slice(postcard::to_slice(&value, &mut buffer).unwrap());
}

/// What a sender writes for an entity.
fn put_entity(entity: Entity, bytes: &mut Vec<u8>) {
    let (index, generation) = (entity.index(), entity.generation());
    number(((index as u64) << 1) | (generation > 0) as u64, bytes);
    if generation > 0 {
        number(generation as u64, bytes);
    }
}

/// What a sender writes for an entity and its components.
fn put_block(entity: Entity, components: &[(usize, u8)], bytes: &mut Vec<u8>) {
    let mut data = Vec::new();
    for (fns_id, value) in components {
        number(*fns_id as u64, &mut data);
        data.push(*value);
    }
    put_entity(entity, bytes);
    number(data.len() as u64, bytes);
    bytes.extend(data);
}

fn changes_message(tick: u32, entities: &[(Entity, &[(usize, u8)])]) -> Vec<u8> {
    let mut bytes = vec![8];
    number(tick as u64, &mut bytes);
    for (entity, components) in entities {
        put_block(*entity, components, &mut bytes);
    }
    bytes
}

struct Mutate<'a> {
    update_tick: u32,
    tick: u32,
    count: Option<usize>,
    index: u16,
    entities: &'a [(Entity, &'a [(usize, u8)])],
}

fn mutate_message(mutate: Mutate) -> Vec<u8> {
    let mut bytes = Vec::new();
    number(mutate.update_tick as u64, &mut bytes);
    number(mutate.tick as u64, &mut bytes);
    if let Some(count) = mutate.count {
        number(count as u64, &mut bytes);
    }
    number(mutate.index as u64, &mut bytes);
    for (entity, components) in mutate.entities {
        put_block(*entity, components, &mut bytes);
    }
    bytes
}

#[derive(Default, Debug, Clone, PartialEq)]
struct Components {
    remote: bool,
    remote_entity: Option<RemoteEntity>,
    replicated_from: Option<ReplicatedFrom>,
    history: Option<ConfirmHistory>,
    need_history: bool,
    values: BTreeMap<usize, u8>,
    outdated: Vec<(usize, u8, RepliconTick)>,
}

/// World that does what it is asked to.
#[derive(Default)]
struct World {
    entities: BTreeMap<(u32, u32), Components>,
    spawned: u32,
    replicated: Vec<(Entity, RepliconTick)>,
    mutate_ticks: Vec<RepliconTick>,
    errors: Vec<(Option<Stage>, ReceiveError)>,
    overrun: bool,
    flushed: Vec<Entity>,
    order: Vec<&'static str>,
}

fn key(entity: Entity) -> (u32, u32) {
    (entity.index(), entity.generation())
}

impl World {
    fn spawn(&mut self) -> Entity {
        let entity = entity(100 + self.spawned);
        self.spawned += 1;
        self.entities.insert(key(entity), Components::default());
        entity
    }

    fn spawn_bundle(&mut self, bundle: SpawnBundle) -> Entity {
        let entity = self.spawn();
        let components = self.get_mut(entity);
        components.remote = true;
        components.remote_entity = Some(bundle.remote_entity);
        components.replicated_from = bundle.replicated_from;
        entity
    }

    fn get_mut(&mut self, entity: Entity) -> &mut Components {
        self.entities.get_mut(&key(entity)).unwrap()
    }

    fn info(&self, entity: Entity) -> Option<EntityInfo> {
        self.entities.get(&key(entity)).map(|components| EntityInfo {
            history: components.history,
            need_history: components.need_history,
        })
    }

    /// Values of a component on received entities.
    fn remote_values(&self, component: usize) -> Vec<u8> {
        let mut values: Vec<u8> = self
            .entities
            .values()
            .filter(|components| components.remote)
            .filter_map(|components| components.values.get(&component).copied())
            .collect();
        values.sort_unstable();
        values
    }

    /// Values of a component on received entities, with the clients that they come from.
    fn remote_values_from(&self, component: usize) -> Vec<(u8, (u32, u32))> {
        let mut values: Vec<_> = self
            .entities
            .values()
            .filter(|components| components.remote)
            .filter_map(|components| {
                let value = components.values.get(&component)?;
                let source = components.replicated_from?;
                Some((*value, key(source.0)))
            })
            .collect();
        values.sort_unstable();
        values
    }

    /// Whether there was an entity to despawn.
    fn despawn(&mut self, entity: Entity) -> bool {
        self.order.push("despawn");
        self.entities.remove(&key(entity)).is_some()
    }

    /// Does what needs no answer.
    fn perform(&mut self, action: Action<Bytes>) {
        match action {
            Action::Mark {
                entity,
                remote_entity,
                ..
            } => {
                let components = self.get_mut(entity);
                components.remote = true;
                components.remote_entity = Some(remote_entity);
            }
            Action::Confirm {
                entity,
                history,
                tick,
            } => {
                self.get_mut(entity).history = Some(history);
                self.replicated.push((entity, tick));
            }
            Action::Remove { entity, fns_id, .. } => {
                self.get_mut(entity).values.remove(&fns_id.0);
            }
            Action::Flush(entity) => self.flushed.push(entity),
            Action::MutateTickReceived(tick) => self.mutate_ticks.push(tick),
            Action::UpdateFailed { stage, error } => self.errors.push((stage, error)),
            Action::BufferFailed(error) => self.errors.push((None, error)),
            Action::MutateFailed { error, .. } => self.errors.push((None, error)),
            Action::Overrun => self.overrun = true,
            _ => {}
        }
    }

    /// Reads a component of one byte and writes it.
    fn write(
        &mut self,
        entity: Entity,
        fns_id: FnsId,
        tick: RepliconTick,
        outdated: bool,
        mut data: Bytes,
    ) -> Option<Bytes> {
        if fns_id.0 == BROKEN || data.is_empty() {
            return None;
        }
        let value = data.split_to(1)[0];
        let components = self.get_mut(entity);
        if outdated {
            components.outdated.push((fns_id.0, value, tick));
        } else {
            components.values.insert(fns_id.0, value);
        }
        Some(data)
    }

    fn receive(&mut self, receive: &mut Receive) {
        let mut action = receive.proceed();
        loop {
            action = match action {
                Action::Finished => return,
                Action::Overrun => {
                    self.overrun = true;
                    return;
                }
                Action::Inspect(entity) => {
                    let info = self.info(entity);
                    receive.inspected(info)
                }
                Action::Spawn(bundle) => {
                    let entity = self.spawn_bundle(bundle);
                    receive.spawned(entity)
                }
                Action::Despawn { entity, .. } => {
                    let existed = self.despawn(entity);
                    receive.despawned(existed)
                }
                Action::Write {
                    entity,
                    fns_id,
                    tick,
                    outdated,
                    data,
                } => {
                    self.order.push("write");
                    if fns_id.0 == REFERENCE {
                        let referred = Entity::from_parts(data[0] as u32, 0).unwrap();
                        if receive.mapped(referred).is_none() {
                            let bundle = receive.spawn_bundle(referred);
                            let spawned = self.spawn_bundle(bundle);
                            receive.record_spawned(referred, spawned);
                        }
                    }
                    let left = self.write(entity, fns_id, tick, outdated, data);
                    receive.written(left)
                }
                action => {
                    self.perform(action);
                    receive.proceed()
                }
            };
        }
    }
}

/// A client that receives from a server.
struct Client {
    world: World,
    context: Option<ReceiveContext>,
    params: Option<ReceiveParams>,
    plugin: ClientPlugin,
    update: u32,
}

impl Client {
    fn new(plugin: ClientPlugin, track_mutate_messages: bool) -> Client {
        Client {
            world: World::default(),
            context: Some(ReceiveContext::from_server(
                ServerEntityMap::new(),
                ServerUpdateTick(RepliconTick(0)),
                BufferedMutations::new(),
                track_mutate_messages.then(ServerMutateTicks::new),
            )),
            params: Some(ReceiveParams {
                signature_map: SignatureMap::new(),
                stats: Some(ClientReplicationStats::default()),
            }),
            plugin,
            update: 0,
        }
    }

    fn receive(&mut self, updates: Vec<Vec<u8>>, mutations: Vec<Vec<u8>>) -> Option<Vec<u8>> {
        let messages = ReceivedReplicationMessages {
            updates: updates.into_iter().map(Bytes::from).collect(),
            mutations: mutations.into_iter().map(Bytes::from).collect(),
        };
        let mut receive = Receive::apply_replication(
            self.context.take().unwrap(),
            self.params.take().unwrap(),
            messages,
        );
        self.world.receive(&mut receive);
        let (context, params, acks) = receive.finish();
        self.context = Some(context);
        self.params = Some(params);
        acks
    }

    fn mapped(&self, server_entity: Entity) -> Entity {
        self.context
            .as_ref()
            .unwrap()
            .entity_map
            .get(server_entity)
            .unwrap()
    }

    fn components(&mut self, server_entity: Entity) -> &mut Components {
        let entity = self.mapped(server_entity);
        self.world.get_mut(entity)
    }

    fn stats(&self) -> ClientReplicationStats {
        self.params.as_ref().unwrap().stats.unwrap()
    }

    /// The update message for the server, which is sent only if the client was set up for it.
    fn sent(&mut self, entities: &[(Entity, &[(usize, u8)])]) -> Vec<Vec<u8>> {
        let sends = self
            .plugin
            .build(AuthMethod::Unchecked)
            .iter()
            .any(|step| matches!(step, BuildStep::EnableSendToServer { .. }));
        if !sends {
            return Vec::new();
        }
        self.update += 1;
        vec![changes_message(self.update, entities)]
    }
}

fn client() -> Client {
    Client::new(ClientPlugin::new(), false)
}

/// A server that its clients replicate to.
struct Server {
    world: World,
    channels: RepliconChannels,
    contexts: Option<ReceiveContexts>,
    peers: Option<PeerReceivedMessages>,
    params: Option<ReceiveParams>,
    track_mutate_messages: bool,
    acks: Vec<(Entity, usize, Vec<u8>)>,
}

impl Server {
    fn new(receive_from_clients: bool, track_mutate_messages: bool) -> Server {
        let mut channels = RepliconChannels::new();
        let contexts = receive_from_clients.then(|| {
            let mut contexts = ReceiveContexts::new();
            enable_receive_from_clients(
                &mut channels,
                &mut contexts,
                &Vec::new(),
                track_mutate_messages,
            );
            contexts
        });
        Server {
            world: World::default(),
            channels,
            contexts,
            peers: Some(PeerReceivedMessages::new()),
            params: Some(ReceiveParams {
                signature_map: SignatureMap::new(),
                stats: None,
            }),
            track_mutate_messages,
            acks: Vec::new(),
        }
    }

    fn connect(&mut self) -> Entity {
        let client = self.world.spawn();
        add_receive_context(&mut self.contexts, client, self.track_mutate_messages);
        client
    }

    fn disconnect(&mut self, client: Entity) {
        for entity in remove_receive_context(&mut self.contexts, client) {
            self.world.entities.remove(&key(entity));
        }
        self.world.entities.remove(&key(client));
    }

    fn insert_received(&mut self, client: Entity, updates: Vec<Vec<u8>>, mutations: Vec<Vec<u8>>) {
        let peers = self.peers.as_mut().unwrap();
        for message in updates {
            peers.updates.push((client, Bytes::from(message)));
        }
        for message in mutations {
            peers.mutations.push((client, Bytes::from(message)));
        }
    }

    fn update(&mut self) {
        let Some(contexts) = self.contexts.take() else {
            return;
        };
        let state = ServerState {
            contexts,
            peers: self.peers.take().unwrap(),
            params: self.params.take().unwrap(),
        };
        let state = match receive_replication_from_clients(
            self.channels.client_to_server,
            state,
            self.track_mutate_messages,
        ) {
            Ok(mut receive) => {
                let mut action = receive.proceed();
                loop {
                    action = match action {
                        ServerAction::Finished => break,
                        ServerAction::Proceed => receive.proceed(),
                        ServerAction::SendAcks {
                            client,
                            channel,
                            acks,
                        } => {
                            self.acks.push((client, channel, acks));
                            receive.proceed()
                        }
                        ServerAction::Client { action, .. } => match action {
                            Action::Inspect(entity) => {
                                let info = self.world.info(entity);
                                receive.inspected(info)
                            }
                            Action::Spawn(bundle) => {
                                let entity = self.world.spawn_bundle(bundle);
                                receive.spawned(entity)
                            }
                            Action::Despawn { entity, .. } => {
                                let existed = self.world.despawn(entity);
                                receive.despawned(existed)
                            }
                            Action::Write {
                                entity,
                                fns_id,
                                tick,
                                outdated,
                                data,
                            } => {
                                if fns_id.0 == REFERENCE {
                                    let referred = Entity::from_parts(data[0] as u32, 0).unwrap();
                                    if receive.mapped(referred).is_none() {
                                        let bundle = receive.spawn_bundle(referred).unwrap();
                                        let spawned = self.world.spawn_bundle(bundle);
                                        receive.record_spawned(referred, spawned);
                                    }
                                }
                                let left = self.world.write(entity, fns_id, tick, outdated, data);
                                receive.written(left)
                            }
                            Action::Overrun => panic!("size out of bounds"),
                            action => {
                                self.world.perform(action);
                                receive.proceed()
                            }
                        },
                    };
                }
                match receive.finish() {
                    Ok(state) => state,
                    Err(_) => panic!("all clients should be served"),
                }
            }
            Err(state) => state,
        };
        self.contexts = Some(state.contexts);
        self.peers = Some(state.peers);
        self.params = Some(state.params);
    }
}

#[test]
fn two_senders_distinct_entities() {
    let mut receiver = Server::new(true, false);
    let connection_a = receiver.connect();
    let connection_b = receiver.connect();

    let entity_a = entity(0);
    let entity_b = entity(0);
    assert_eq!(
        entity_a, entity_b,
        "both senders should use the same raw entity ID to exercise map collisions"
    );

    receiver.insert_received(
        connection_a,
        vec![changes_message(1, &[(entity_a, &[(MARKER, 1)])])],
        vec![],
    );
    receiver.insert_received(
        connection_b,
        vec![changes_message(1, &[(entity_b, &[(MARKER, 2)])])],
        vec![],
    );
    receiver.update();

    assert_eq!(receiver.world.remote_values(MARKER), vec![1, 2]);
}

#[test]
fn two_senders_same_tick_mutations() {
    let mut receiver = Server::new(true, true);
    let connection_a = receiver.connect();
    let connection_b = receiver.connect();

    let entity_a = entity(0);
    let entity_b = entity(0);
    assert_eq!(
        entity_a, entity_b,
        "both senders should use the same raw entity ID to exercise map collisions"
    );
    for (connection, entity) in [(connection_a, entity_a), (connection_b, entity_b)] {
        receiver.insert_received(
            connection,
            vec![changes_message(1, &[(entity, &[(BOOL, 0)])])],
            vec![],
        );
    }
    receiver.update();

    let tick_a = 2;
    let tick_b = 2;
    assert_eq!(tick_a, tick_b, "mutation ticks should align across senders");
    for (connection, entity, tick) in [
        (connection_a, entity_a, tick_a),
        (connection_b, entity_b, tick_b),
    ] {
        let message = mutate_message(Mutate {
            update_tick: 1,
            tick,
            count: Some(1),
            index: 0,
            entities: &[(entity, &[(BOOL, 1)])],
        });
        receiver.insert_received(connection, vec![], vec![message]);
    }
    receiver.update();

    let values = receiver.world.remote_values(BOOL);
    assert_eq!(values.iter().filter(|value| **value == 1).count(), 2);

    let contexts = receiver.contexts.as_ref().unwrap();
    assert_eq!(contexts.0.keys().len(), 2);
    for client in contexts.0.keys() {
        let mutate_ticks = contexts
            .get(client)
            .unwrap()
            .mutate_ticks()
            .expect("mutate tracking should be enabled per sender");
        assert!(
            mutate_ticks.contains(RepliconTick(tick_a)),
            "each sender should track its own mutation confirmations"
        );
    }
}

#[test]
fn client_to_server_replication_requires_client_opt_in() {
    let mut server = Server::new(true, false);
    let mut client = Client::new(ClientPlugin::new(), false);
    let connection = server.connect();

    let sent = client.sent(&[(entity(0), &[(MARKER, 0)])]);
    server.insert_received(connection, sent, vec![]);
    server.update();

    assert_eq!(server.world.remote_values(MARKER).len(), 0);
}

#[test]
fn client_to_server_replication_requires_server_opt_in() {
    let server = Server::new(false, false);

    assert_eq!(server.channels.client_channels, 1);
    assert_eq!(server.channels.server_channels, 2);
}

#[test]
fn client_to_server_opt_in_replicates_spawned_entity() {
    let mut server = Server::new(true, false);
    let mut client = Client::new(ClientPlugin::new().with_send_to_server(true), false);
    let connection = server.connect();

    let sent = client.sent(&[(entity(0), &[(MARKER, 0)])]);
    server.insert_received(connection, sent, vec![]);
    server.update();

    assert_eq!(server.world.remote_values(MARKER).len(), 1);
}

#[test]
fn mixed_direction_server_and_clients_replicate_different_entities() {
    const CLIENT_ACTION: usize = MARKER;
    const SERVER_STATE_MARKER: usize = BOOL;

    let mut server = Server::new(true, false);
    let mut client_a = Client::new(ClientPlugin::new().with_send_to_server(true), false);
    let mut client_b = Client::new(ClientPlugin::new().with_send_to_server(true), false);
    let client_a_id = server.connect();
    let client_b_id = server.connect();

    let sent_a = client_a.sent(&[(entity(0), &[(CLIENT_ACTION, 1)])]);
    let sent_b = client_b.sent(&[(entity(0), &[(CLIENT_ACTION, 2)])]);
    server.insert_received(client_a_id, sent_a, vec![]);
    server.insert_received(client_b_id, sent_b, vec![]);
    server.update();
    let update = changes_message(1, &[(entity(5), &[(SERVER_STATE_MARKER, 7)])]);
    client_a.receive(vec![update.clone()], vec![]);
    client_b.receive(vec![update], vec![]);

    assert_eq!(
        server.world.remote_values_from(CLIENT_ACTION),
        vec![(1, key(client_a_id)), (2, key(client_b_id))]
    );
    assert_eq!(client_a.world.remote_values(SERVER_STATE_MARKER), vec![7]);
    assert_eq!(client_b.world.remote_values(SERVER_STATE_MARKER), vec![7]);
    assert!(client_a.world.remote_values(CLIENT_ACTION).is_empty());
    assert!(client_b.world.remote_values(CLIENT_ACTION).is_empty());
}

#[test]
fn disconnect_cleans_up_only_that_clients_received_entities() {
    let mut server = Server::new(true, false);
    let mut client_a = Client::new(ClientPlugin::new().with_send_to_server(true), false);
    let mut client_b = Client::new(ClientPlugin::new().with_send_to_server(true), false);
    let client_a_id = server.connect();
    let client_b_id = server.connect();

    let sent_a = client_a.sent(&[(entity(0), &[(MARKER, 1)])]);
    let sent_b = client_b.sent(&[(entity(0), &[(MARKER, 2)])]);
    server.insert_received(client_a_id, sent_a, vec![]);
    server.insert_received(client_b_id, sent_b, vec![]);
    server.update();
    assert_eq!(
        server.world.remote_values_from(MARKER),
        vec![(1, key(client_a_id)), (2, key(client_b_id))]
    );

    server.disconnect(client_a_id);

    assert_eq!(
        server.world.remote_values_from(MARKER),
        vec![(2, key(client_b_id))]
    );
}

/// A client that received this entity with its marker at tick 1.
fn client_with(server_entity: Entity, value: u8) -> Client {
    let mut client = client();
    client.receive(
        vec![changes_message(1, &[(server_entity, &[(MARKER, value)])])],
        vec![],
    );
    client
}

fn mutation(update_tick: u32, tick: u32, index: u16, server_entity: Entity, value: u8) -> Vec<u8> {
    mutate_message(Mutate {
        update_tick,
        tick,
        count: None,
        index,
        entities: &[(server_entity, &[(MARKER, value)])],
    })
}

fn update_tick(client: &Client) -> u32 {
    client.context.as_ref().unwrap().update_tick.0 .0
}

fn buffered(client: &Client) -> usize {
    client.context.as_ref().unwrap().buffered_mutations.0.len()
}

#[test]
fn spawned_entity_is_remote() {
    let mut client = client_with(entity(3), 9);
    let spawned = client.mapped(entity(3));
    let components = client.components(entity(3));
    assert!(components.remote);
    assert_eq!(components.remote_entity, Some(RemoteEntity(entity(3))));
    assert_eq!(components.replicated_from, None);
    assert_eq!(
        components.history,
        Some(ConfirmHistory::new(RepliconTick(1)))
    );
    assert_eq!(components.values[&MARKER], 9);
    assert_eq!(client.world.replicated, vec![(spawned, RepliconTick(1))]);
    assert_eq!(client.world.flushed, vec![spawned]);
    assert_eq!(update_tick(&client), 1);
}

#[test]
fn known_entity_is_not_spawned_again() {
    let mut client = client_with(entity(3), 1);
    let spawned = client.mapped(entity(3));
    client.receive(
        vec![changes_message(2, &[(entity(3), &[(MARKER, 2), (BOOL, 1)])])],
        vec![],
    );
    assert_eq!(client.mapped(entity(3)), spawned);
    assert_eq!(client.world.spawned, 1);
    let components = client.components(entity(3));
    assert_eq!(components.values[&MARKER], 2);
    assert_eq!(components.values[&BOOL], 1);
    assert_eq!(components.history.unwrap().last_tick(), RepliconTick(2));
}

#[test]
fn entity_with_generation() {
    let reused = Entity::from_parts(7, 300).unwrap();
    let mut client = client_with(reused, 4);
    assert_eq!(
        client.components(reused).remote_entity,
        Some(RemoteEntity(reused))
    );
    assert_eq!(
        client.context.as_ref().unwrap().entity_map.get(entity(7)),
        None
    );
}

#[test]
fn updates_are_applied_before_mutations() {
    let mut client = client();
    let acks = client.receive(
        vec![changes_message(1, &[(entity(0), &[(MARKER, 1)])])],
        vec![mutation(1, 2, 0, entity(0), 2)],
    );
    assert_eq!(acks, Some(vec![0]));
    assert_eq!(client.components(entity(0)).values[&MARKER], 2);
    assert_eq!(update_tick(&client), 1);
    assert_eq!(buffered(&client), 0);
}

#[test]
fn mutations_wait_for_their_update() {
    let mut client = client_with(entity(0), 1);
    let acks = client.receive(vec![], vec![mutation(2, 3, 5, entity(0), 3)]);
    assert_eq!(acks, Some(vec![5]));
    assert_eq!(client.components(entity(0)).values[&MARKER], 1);
    assert_eq!(buffered(&client), 1);

    let acks = client.receive(
        vec![changes_message(2, &[(entity(1), &[(MARKER, 7)])])],
        vec![],
    );
    assert_eq!(acks, None);
    assert_eq!(client.components(entity(0)).values[&MARKER], 3);
    assert_eq!(buffered(&client), 0);
    assert_eq!(update_tick(&client), 2);
}

#[test]
fn only_due_mutations_leave_the_buffer() {
    let mut client = client_with(entity(0), 1);
    client.receive(
        vec![],
        vec![
            mutation(4, 5, 0, entity(0), 5),
            mutation(1, 2, 1, entity(0), 2),
            mutation(3, 4, 2, entity(0), 4),
        ],
    );
    assert_eq!(client.components(entity(0)).values[&MARKER], 2);
    let waiting: Vec<u32> = client
        .context
        .as_ref()
        .unwrap()
        .buffered_mutations
        .0
        .iter()
        .map(|mutation| mutation.message_tick.0)
        .collect();
    assert_eq!(waiting, vec![5, 4]);
}

#[test]
fn latest_mutation_is_applied_first() {
    let mut client = client_with(entity(0), 1);
    client.receive(
        vec![],
        vec![
            mutation(1, 2, 0, entity(0), 2),
            mutation(1, 4, 1, entity(0), 4),
            mutation(1, 3, 2, entity(0), 3),
        ],
    );
    assert_eq!(client.components(entity(0)).values[&MARKER], 4);
    assert_eq!(client.world.replicated.len(), 2);
    let history = client.components(entity(0)).history.unwrap();
    assert_eq!(history.last_tick(), RepliconTick(4));
    assert!(!history.contains(RepliconTick(3)));
}

#[test]
fn outdated_mutations_go_to_markers_that_need_history() {
    let mut client = client_with(entity(0), 1);
    client.components(entity(0)).need_history = true;
    client.receive(
        vec![],
        vec![
            mutation(1, 4, 0, entity(0), 4),
            mutation(1, 3, 1, entity(0), 3),
        ],
    );
    let components = client.components(entity(0));
    assert_eq!(components.values[&MARKER], 4);
    assert_eq!(components.outdated, vec![(MARKER, 3, RepliconTick(3))]);
    let history = components.history.unwrap();
    assert_eq!(history.last_tick(), RepliconTick(4));
    assert!(history.contains(RepliconTick(3)));
    assert!(!history.contains(RepliconTick(2)));
    assert!(history.contains(RepliconTick(1)));
}

#[test]
fn mutations_older_than_the_history_are_discarded() {
    let mut client = client_with(entity(0), 1);
    client.components(entity(0)).need_history = true;
    client.receive(vec![], vec![mutation(1, 100, 0, entity(0), 100)]);
    client.receive(vec![], vec![mutation(1, 36, 1, entity(0), 36)]);
    assert!(client.components(entity(0)).outdated.is_empty());
    client.receive(vec![], vec![mutation(1, 37, 2, entity(0), 37)]);
    assert_eq!(
        client.components(entity(0)).outdated,
        vec![(MARKER, 37, RepliconTick(37))]
    );
}

#[test]
fn mutations_without_history_fail() {
    let mut client = client_with(entity(0), 1);
    client.components(entity(0)).history = None;
    let spawned = client.mapped(entity(0));
    let acks = client.receive(vec![], vec![mutation(1, 2, 8, entity(0), 2)]);
    assert_eq!(acks, Some(vec![8]));
    assert_eq!(
        client.world.errors,
        vec![(None, ReceiveError::MissingHistory(spawned))]
    );
    assert_eq!(client.components(entity(0)).values[&MARKER], 1);
    assert_eq!(buffered(&client), 0);
}

#[test]
fn ignored_mutations_do_not_hide_the_next_entity() {
    let mut client = client();
    client.receive(
        vec![changes_message(
            1,
            &[
                (entity(0), &[(MARKER, 1)]),
                (entity(1), &[(MARKER, 1)]),
                (entity(2), &[(MARKER, 1)]),
            ],
        )],
        vec![],
    );
    let despawned = client.mapped(entity(1));
    client.world.entities.remove(&key(despawned));
    client.receive(
        vec![],
        vec![mutate_message(Mutate {
            update_tick: 1,
            tick: 2,
            count: None,
            index: 0,
            entities: &[
                (entity(9), &[(MARKER, 2), (BOOL, 1)]),
                (entity(1), &[(MARKER, 2)]),
                (entity(2), &[(MARKER, 2)]),
            ],
        })],
    );
    assert_eq!(client.components(entity(0)).values[&MARKER], 1);
    assert_eq!(client.components(entity(2)).values[&MARKER], 2);
    assert!(client.world.errors.is_empty());
    assert_eq!(client.stats().entities_changed, 4);
    assert_eq!(client.stats().components_changed, 4);
}

#[test]
fn changes_of_despawned_entities_are_ignored() {
    let mut client = client_with(entity(0), 1);
    let despawned = client.mapped(entity(0));
    client.world.entities.remove(&key(despawned));
    client.receive(
        vec![changes_message(
            2,
            &[(entity(0), &[(MARKER, 2)]), (entity(1), &[(MARKER, 3)])],
        )],
        vec![],
    );
    assert_eq!(client.mapped(entity(0)), despawned);
    assert_eq!(client.world.remote_values(MARKER), vec![3]);
}

#[test]
fn all_arrays_of_an_update_message() {
    let mut client = client();
    client.receive(
        vec![changes_message(
            1,
            &[
                (entity(0), &[(MARKER, 1)]),
                (entity(1), &[(MARKER, 2), (BOOL, 1)]),
            ],
        )],
        vec![],
    );
    let existing = client.world.spawn();
    client
        .params
        .as_mut()
        .unwrap()
        .signature_map
        .insert(existing, 0x1122_3344_5566_7788);

    let mut message = vec![1 + 2 + 4 + 8];
    number(2, &mut message);
    number(2, &mut message);
    put_entity(entity(5), &mut message);
    message.extend(0x1122_3344_5566_7788u64.to_le_bytes());
    put_entity(entity(6), &mut message);
    message.extend(0x99u64.to_le_bytes());
    number(2, &mut message);
    put_entity(entity(0), &mut message);
    put_entity(entity(42), &mut message);
    number(1, &mut message);
    put_entity(entity(1), &mut message);
    number(1, &mut message);
    number(BOOL as u64, &mut message);
    put_block(entity(5), &[(MARKER, 5)], &mut message);
    client.receive(vec![message], vec![]);

    assert!(client.world.errors.is_empty());
    assert_eq!(client.mapped(entity(5)), existing);
    let components = client.components(entity(5));
    assert!(components.remote);
    assert_eq!(components.remote_entity, Some(RemoteEntity(entity(5))));
    assert_eq!(components.values[&MARKER], 5);
    let map = &client.context.as_ref().unwrap().entity_map;
    assert_eq!(map.get(entity(6)), None);
    assert_eq!(map.get(entity(0)), None);
    assert_eq!(client.world.remote_values(MARKER), vec![2, 5]);
    assert!(client.world.remote_values(BOOL).is_empty());
    assert_eq!(client.world.spawned, 3);

    let stats = client.stats();
    assert_eq!(stats.mappings, 1);
    assert_eq!(stats.despawns, 1);
    assert_eq!(stats.entities_changed, 4);
    assert_eq!(stats.components_changed, 5);
    assert_eq!(stats.messages, 2);
}

#[test]
fn despawn_forgets_the_signature() {
    let mut client = client();
    let existing = client.world.spawn();
    let signatures = &mut client.params.as_mut().unwrap().signature_map;
    signatures.insert(existing, 77);

    let mut message = vec![1];
    number(1, &mut message);
    put_entity(entity(5), &mut message);
    message.extend(77u64.to_le_bytes());
    client.receive(vec![message], vec![]);
    assert_eq!(client.mapped(entity(5)), existing);

    let mut message = vec![2];
    number(2, &mut message);
    put_entity(entity(5), &mut message);
    client.receive(vec![message], vec![]);
    assert!(client.world.entities.is_empty());
    assert_eq!(client.params.as_ref().unwrap().signature_map.get(77), None);
}

#[test]
fn removal_for_unknown_entity_fails() {
    let mut client = client();
    let mut message = vec![4 + 8];
    number(1, &mut message);
    number(1, &mut message);
    put_entity(entity(0), &mut message);
    number(1, &mut message);
    number(MARKER as u64, &mut message);
    put_block(entity(1), &[(MARKER, 1)], &mut message);
    client.receive(
        vec![
            message,
            changes_message(2, &[(entity(2), &[(MARKER, 2)])]),
        ],
        vec![],
    );
    assert_eq!(
        client.world.errors,
        vec![(
            Some(Stage::Removals),
            ReceiveError::UnknownEntity(entity(0))
        )]
    );
    assert_eq!(client.world.remote_values(MARKER), vec![2]);
    assert_eq!(update_tick(&client), 2);
}

#[test]
fn component_that_cannot_be_written_fails_the_message() {
    let mut client = client();
    client.receive(
        vec![changes_message(
            1,
            &[
                (entity(0), &[(MARKER, 1), (BROKEN, 0), (BOOL, 1)]),
                (entity(1), &[(MARKER, 2)]),
            ],
        )],
        vec![],
    );
    assert_eq!(
        client.world.errors,
        vec![(Some(Stage::Changes), ReceiveError::Component)]
    );
    assert!(client.world.flushed.is_empty());
    assert_eq!(client.world.remote_values(MARKER), vec![1]);
    assert_eq!(client.stats().entities_changed, 0);
    assert_eq!(client.stats().components_changed, 0);
}

#[test]
fn unreadable_messages_fail() {
    let mut client = client();
    let mut bad_tick = vec![8];
    bad_tick.extend([0xff; 5]);
    let mut bad_entity = vec![8, 1];
    number(u32::MAX as u64 * 2, &mut bad_entity);
    let mut bad_count = vec![1 + 8, 1];
    bad_count.extend([0xff; 9]);
    bad_count.push(2);
    client.receive(vec![vec![], bad_tick, bad_entity, bad_count], vec![]);
    assert_eq!(
        client.world.errors,
        vec![
            (None, ReceiveError::Wire(WireError::UnexpectedEnd)),
            (None, ReceiveError::Wire(WireError::BadVarint)),
            (
                Some(Stage::Changes),
                ReceiveError::Wire(WireError::BadEntity)
            ),
            (
                Some(Stage::Mappings),
                ReceiveError::Wire(WireError::BadVarint)
            ),
        ]
    );
    assert_eq!(client.stats().messages, 4);
    assert_eq!(client.stats().bytes, 6 + 7 + 12);
}

#[test]
fn readable_mutations_are_acknowledged() {
    let mut client = client_with(entity(0), 1);
    let acks = client.receive(
        vec![],
        vec![
            mutation(1, 2, 300, entity(0), 2),
            vec![1, 3],
            mutation(1, 4, 7, entity(0), 4),
        ],
    );
    assert_eq!(acks, Some(vec![0xac, 0x02, 7]));
    assert_eq!(
        client.world.errors,
        vec![(None, ReceiveError::Wire(WireError::UnexpectedEnd))]
    );
    let acks = client.receive(vec![], vec![vec![]]);
    assert_eq!(acks, Some(vec![]));
}

#[test]
fn sizes_beyond_the_message_stop_receiving() {
    let mut client = client_with(entity(0), 1);
    let mut message = vec![8];
    number(2, &mut message);
    put_entity(entity(0), &mut message);
    number(3, &mut message);
    message.extend([MARKER as u8, 2]);
    client.receive(
        vec![
            message,
            changes_message(3, &[(entity(0), &[(MARKER, 3)])]),
        ],
        vec![],
    );
    assert!(client.world.overrun);
    assert_eq!(client.components(entity(0)).values[&MARKER], 1);
    assert_eq!(client.world.replicated.len(), 1);
}

#[test]
fn empty_flags_only_set_the_tick() {
    let mut client = client();
    client.receive(vec![vec![0, 6]], vec![]);
    assert_eq!(update_tick(&client), 6);
    assert!(client.world.errors.is_empty());
}

#[test]
fn ticks_with_all_mutate_messages_are_reported() {
    let mut client = Client::new(ClientPlugin::new(), true);
    client.receive(
        vec![changes_message(1, &[(entity(0), &[(MARKER, 1)])])],
        vec![],
    );
    let part = |index: u16| {
        mutate_message(Mutate {
            update_tick: 1,
            tick: 2,
            count: Some(2),
            index,
            entities: &[(entity(0), &[(MARKER, 2)])],
        })
    };
    client.receive(vec![], vec![part(0)]);
    assert!(client.world.mutate_ticks.is_empty());
    client.receive(vec![], vec![part(1)]);
    assert_eq!(client.world.mutate_ticks, vec![RepliconTick(2)]);
    let ticks = client
        .context
        .as_ref()
        .unwrap()
        .mutate_ticks
        .as_ref()
        .unwrap();
    assert!(ticks.contains(RepliconTick(2)));
    assert!(!ticks.contains(RepliconTick(3)));
}

#[test]
fn statistics_are_collected_only_if_present() {
    let mut client = client();
    client.params.as_mut().unwrap().stats = None;
    client.receive(
        vec![changes_message(1, &[(entity(0), &[(MARKER, 1)])])],
        vec![],
    );
    assert_eq!(client.params.as_ref().unwrap().stats, None);
    assert_eq!(client.world.remote_values(MARKER), vec![1]);
}

#[test]
fn referred_entities_are_spawned_for_the_sender() {
    let mut server = Server::new(true, false);
    let sender = server.connect();
    let other = server.connect();
    server.insert_received(
        sender,
        vec![changes_message(1, &[(entity(0), &[(REFERENCE, 9)])])],
        vec![],
    );
    server.insert_received(
        other,
        vec![changes_message(1, &[(entity(9), &[(MARKER, 4)])])],
        vec![],
    );
    server.update();
    assert_eq!(server.world.spawned, 5);

    server.insert_received(
        sender,
        vec![changes_message(2, &[(entity(9), &[(MARKER, 3)])])],
        vec![],
    );
    server.update();
    assert_eq!(server.world.spawned, 5);
    assert_eq!(server.world.remote_values(MARKER), vec![3, 4]);

    server.disconnect(sender);
    assert_eq!(
        server.world.remote_values_from(MARKER),
        vec![(4, key(other))]
    );
    assert_eq!(server.world.entities.len(), 2);
}

#[test]
fn acknowledgments_go_to_the_client_on_their_channel() {
    let mut server = Server::new(true, false);
    let sender = server.connect();
    let other = server.connect();
    server.insert_received(
        sender,
        vec![changes_message(1, &[(entity(0), &[(MARKER, 1)])])],
        vec![mutation(1, 2, 6, entity(0), 2)],
    );
    server.insert_received(
        other,
        vec![changes_message(1, &[(entity(0), &[(MARKER, 8)])])],
        vec![],
    );
    server.update();
    let channels = server.channels.client_to_server.unwrap();
    assert_eq!(server.acks, vec![(sender, channels.mutation_acks, vec![6])]);
    assert_eq!(server.world.remote_values(MARKER), vec![2, 8]);
}

#[test]
fn nothing_is_received_without_channels_or_messages() {
    let mut channels = RepliconChannels::new();
    let created = channels.create_client_to_server_replication_channels();
    let state = || ServerState {
        contexts: ReceiveContexts::new(),
        peers: PeerReceivedMessages::new(),
        params: ReceiveParams {
            signature_map: SignatureMap::new(),
            stats: None,
        },
    };
    let mut unwanted = state();
    unwanted
        .peers
        .updates
        .push((entity(1), Bytes::from(vec![0, 1])));
    assert!(must_receive(Some(created), &unwanted.peers));
    assert!(!must_receive(None, &unwanted.peers));
    match receive_replication_from_clients(None, unwanted, false) {
        Ok(_) => panic!("the server should not receive"),
        Err(state) => assert_eq!(state.peers.updates.len(), 1),
    }
    assert!(!must_receive(Some(created), &state().peers));
    assert!(receive_replication_from_clients(Some(created), state(), false).is_err());
}

#[test]
fn contexts_follow_the_connected_clients() {
    let mut contexts = ReceiveContexts::new();
    let mut channels = RepliconChannels::new();
    enable_receive_from_clients(
        &mut channels,
        &mut contexts,
        &vec![entity(1), entity(2)],
        true,
    );
    sync_receive_contexts(&mut contexts, &vec![entity(2), entity(3)], false);
    assert!(contexts.get(entity(1)).is_none());
    assert!(contexts.get(entity(2)).unwrap().mutate_ticks().is_some());
    assert!(contexts.get(entity(3)).unwrap().mutate_ticks().is_none());

    let mut none = None;
    add_receive_context(&mut none, entity(4), false);
    assert!(none.is_none());
    assert!(remove_receive_context(&mut none, entity(4)).is_empty());
}

#[test]
fn client_that_comes_back_starts_afresh() {
    let mut server = Server::new(true, false);
    let sender = server.connect();
    server.insert_received(
        sender,
        vec![changes_message(1, &[(entity(0), &[(MARKER, 1)])])],
        vec![],
    );
    server.update();
    server.disconnect(sender);
    assert!(server.world.remote_values(MARKER).is_empty());
    add_receive_context(&mut server.contexts, sender, false);
    server.insert_received(
        sender,
        vec![changes_message(1, &[(entity(0), &[(MARKER, 2)])])],
        vec![],
    );
    server.update();
    assert_eq!(server.world.remote_values(MARKER), vec![2]);
}

#[test]
fn plugin_decides_what_a_client_is_set_up_with() {
    let has = |plugin: &ClientPlugin, wanted: fn(&BuildStep) -> bool| {
        plugin.build(AuthMethod::Unchecked).iter().any(wanted)
    };
    let receives: fn(&BuildStep) -> bool =
        |step| matches!(step, BuildStep::InitResource(ClientResource::EntityMap));
    let plugin = ClientPlugin::new();
    assert!(has(&plugin, receives));
    assert_eq!(plugin.finish(true), Some(ClientResource::MutateTicks));
    assert_eq!(plugin.finish(false), None);
    let plugin = plugin.with_receive_from_server(false);
    assert!(!has(&plugin, receives));
    assert_eq!(plugin.finish(true), None);
    assert_eq!(plugin.build(AuthMethod::Custom).len(), 7);
    assert_eq!(plugin.build(AuthMethod::ProtocolCheck).len(), 9);
}

#[test]
fn client_and_server_wrappers_share_reverse_direction_state_in_one_app() {
    let plugin = ClientPlugin::new().with_send_to_server(true);
    let mut channels = RepliconChannels::new();
    for step in plugin.build(AuthMethod::Unchecked) {
        if let BuildStep::EnableSendToServer { .. } = step {
            channels.create_client_to_server_replication_channels();
        }
    }
    let mut contexts = ReceiveContexts::new();
    enable_receive_from_clients(&mut channels, &mut contexts, &vec![], false);
    assert_eq!(channels.client_channels, 3);
    assert_eq!(channels.server_channels, 3);

    let connection = entity(1);
    let mut contexts = Some(contexts);
    add_receive_context(&mut contexts, connection, false);
    let mut contexts = contexts.unwrap();
    for _ in 0..2 {
        sync_receive_contexts(&mut contexts, &vec![connection], false);
    }
    assert_eq!(contexts.0.keys().len(), 1);
}

#[test]
fn records_without_effect_are_not_counted() {
    let mut client = client();
    let mut mappings = vec![1];
    number(1, &mut mappings);
    put_entity(entity(5), &mut mappings);
    mappings.extend(77u64.to_le_bytes());
    let mut despawns = vec![2];
    number(2, &mut despawns);
    put_entity(entity(5), &mut despawns);
    client.receive(
        vec![mappings, despawns],
        vec![mutation(2, 3, 0, entity(5), 1)],
    );
    assert!(client.world.errors.is_empty());
    assert_eq!(
        client.stats(),
        ClientReplicationStats {
            messages: 3,
            bytes: client.stats().bytes,
            ..ClientReplicationStats::default()
        }
    );
}

#[test]
fn despawn_of_a_vanished_entity_is_not_counted() {
    let mut client = client();
    client.receive(
        vec![changes_message(
            1,
            &[(entity(0), &[(MARKER, 1)]), (entity(1), &[(MARKER, 2)])],
        )],
        vec![],
    );
    let vanished = client.mapped(entity(0));
    client.world.entities.remove(&key(vanished));
    let mut message = vec![2];
    number(2, &mut message);
    put_entity(entity(0), &mut message);
    put_entity(entity(1), &mut message);
    client.receive(vec![message], vec![]);
    assert!(client.world.entities.is_empty());
    assert_eq!(client.stats().despawns, 1);
    let map = &client.context.as_ref().unwrap().entity_map;
    assert_eq!(map.get(entity(0)), None);
    assert_eq!(map.get(entity(1)), None);
}

#[test]
fn outdated_mutations_are_counted_only_if_asked_for() {
    let mut client = client_with(entity(0), 1);
    client.receive(vec![], vec![mutation(1, 4, 0, entity(0), 4)]);
    assert_eq!(client.stats().entities_changed, 2);
    client.receive(vec![], vec![mutation(1, 3, 1, entity(0), 3)]);
    assert_eq!(client.stats().entities_changed, 2);
    client.components(entity(0)).need_history = true;
    client.receive(vec![], vec![mutation(1, 3, 2, entity(0), 3)]);
    assert_eq!(client.stats().entities_changed, 3);
}

#[test]
fn array_that_is_given_up_is_not_counted() {
    let mut client = client();
    let mut message = changes_message(1, &[(entity(0), &[(MARKER, 1)])]);
    message.push(0x80);
    client.receive(vec![message], vec![]);
    assert_eq!(client.world.remote_values(MARKER), vec![1]);
    assert_eq!(client.stats().entities_changed, 0);
    assert_eq!(client.stats().components_changed, 1);
}

#[test]
fn buffer_stays_ordered_over_rounds() {
    let mut client = client_with(entity(0), 1);
    client.receive(
        vec![],
        vec![
            mutation(9, 10, 0, entity(0), 10),
            mutation(5, 14, 1, entity(0), 14),
        ],
    );
    client.receive(
        vec![changes_message(5, &[(entity(1), &[(MARKER, 1)])])],
        vec![
            mutation(8, 12, 2, entity(0), 12),
            mutation(5, 6, 3, entity(0), 6),
        ],
    );
    let waiting: Vec<(u32, u32)> = client
        .context
        .as_ref()
        .unwrap()
        .buffered_mutations
        .0
        .iter()
        .map(|mutation| (mutation.update_tick.0, mutation.message_tick.0))
        .collect();
    assert_eq!(waiting, vec![(8, 12), (9, 10)]);
    assert_eq!(client.components(entity(0)).values[&MARKER], 14);
}

#[test]
fn clients_do_not_affect_each_other() {
    let receive = |messages: Vec<Vec<u8>>, mutations: Vec<Vec<u8>>| {
        let mut server = Server::new(true, false);
        let first = server.connect();
        let other = server.connect();
        server.insert_received(
            first,
            vec![changes_message(1, &[(entity(0), &[(MARKER, 1)])])],
            vec![mutation(1, 2, 6, entity(0), 2)],
        );
        server.insert_received(other, messages, mutations);
        server.update();
        let acks: Vec<Vec<u8>> = server
            .acks
            .iter()
            .filter(|(client, ..)| *client == first)
            .map(|(_, _, acks)| acks.clone())
            .collect();
        let values: Vec<u8> = server
            .world
            .remote_values_from(MARKER)
            .into_iter()
            .filter(|(_, source)| *source == key(first))
            .map(|(value, _)| value)
            .collect();
        (acks, values)
    };
    let expected = (vec![vec![6]], vec![2]);
    assert_eq!(receive(vec![], vec![]), expected);
    assert_eq!(receive(vec![vec![8, 0xff]], vec![vec![]]), expected);
    assert_eq!(
        receive(
            vec![changes_message(7, &[(entity(0), &[(MARKER, 9)])])],
            vec![mutation(7, 8, 1, entity(0), 10)]
        ),
        expected
    );
}

#[test]
fn reception_in_every_frame_asks_for_a_connection() {
    let receptions = |plugin: ClientPlugin| {
        plugin
            .build(AuthMethod::ProtocolCheck)
            .into_iter()
            .filter_map(|step| match step {
                BuildStep::AddSystem {
                    schedule,
                    system: ClientSystem::ReceiveReplication,
                    only_connected,
                    ..
                } => Some((schedule, only_connected)),
                BuildStep::AddSystem { only_connected, .. } => {
                    assert!(!only_connected);
                    None
                }
                _ => None,
            })
            .collect::<Vec<_>>()
    };
    assert_eq!(
        receptions(ClientPlugin::new()),
        vec![
            (ClientSchedule::PreUpdate, true),
            (ClientSchedule::OnConnected, false)
        ]
    );
    assert!(receptions(ClientPlugin::new().with_receive_from_server(false)).is_empty());
}

#[test]
fn mutations_come_in_any_order() {
    let end = |need_history: bool, order: [u32; 2]| {
        let mut client = client_with(entity(0), 1);
        client.components(entity(0)).need_history = need_history;
        for (index, tick) in order.into_iter().enumerate() {
            client.receive(
                vec![],
                vec![mutation(1, tick, index as u16, entity(0), tick as u8)],
            );
        }
        let components = client.components(entity(0));
        (components.values[&MARKER], components.history.unwrap())
    };
    let (value, history) = end(true, [5, 9]);
    assert_eq!(value, 9);
    assert_eq!(history.mask, 0b1_0001_0001);
    assert_eq!(end(true, [9, 5]), (value, history));

    let (value, history) = end(false, [9, 5]);
    assert_eq!(value, 9);
    assert_eq!(history.last_tick(), RepliconTick(9));
    assert!(!history.contains(RepliconTick(5)));
    assert!(end(false, [5, 9]).1.contains(RepliconTick(5)));
}

#[test]
fn unreadable_update_changes_nothing_else() {
    let mut client = client_with(entity(0), 1);
    let before = client.stats();
    client.receive(vec![vec![]], vec![]);
    assert_eq!(update_tick(&client), 1);
    assert_eq!(
        client.stats(),
        ClientReplicationStats {
            messages: before.messages + 1,
            ..before
        }
    );
    assert_eq!(client.components(entity(0)).values[&MARKER], 1);
}

#[test]
fn second_despawn_does_nothing() {
    let mut client = client_with(entity(0), 1);
    let mut message = vec![2];
    number(2, &mut message);
    put_entity(entity(0), &mut message);
    put_entity(entity(0), &mut message);
    client.receive(vec![message], vec![]);
    assert!(client.world.errors.is_empty());
    assert_eq!(client.world.order.iter().filter(|done| **done == "despawn").count(), 1);
    assert_eq!(client.stats().despawns, 1);
}
