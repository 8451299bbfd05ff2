use std::time::Duration;

use bytes::Bytes;
use replicon_receive::channels::RepliconChannels;
use replicon_receive::client::{
    AuthMethod, BuildStep, ClientPlugin, ClientReplicationStats, ClientState, ServerUpdateTick,
};
use replicon_receive::confirm_history::ConfirmHistory;
use replicon_receive::context::{BufferedMutate, BufferedMutations, ServerEntityMap};
use replicon_receive::entity::Entity;
use replicon_receive::entity_map::EntityMap;
use replicon_receive::message::{Stage, UpdateMessageFlags};
use replicon_receive::mutate_ticks::ServerMutateTicks;
use replicon_receive::signature::SignatureMap;
use replicon_receive::tick::RepliconTick;
use replicon_receive::wire::{
    entity_from_buf, hash_from_buf, u16_from_buf, u16_to_buf, u32_from_buf, u8_from_buf,
    usize_from_buf, WireError,
};

fn entity(index: u32) -> Entity {
    Entity::from_parts(index, 0).unwrap()
}

#[test]
fn entities_have_a_slot() {
    assert!(Entity::from_parts(u32::MAX, 1).is_none());
    let entity = Entity::from_parts(4, 9).unwrap();
    assert_eq!((entity.index(), entity.generation()), (4, 9));
}

#[test]
fn ticks_wrap_around() {
    let last = RepliconTick(u32::MAX);
    let first = RepliconTick(0);
    assert!(first.is_after(last));
    assert!(last.is_before(first));
    assert!(!first.is_before(last));
    assert!(!first.is_after(first));
    assert!(!first.is_before(first));
    assert_eq!(RepliconTick(3).since(last), 4);
    assert!(RepliconTick(0x7fff_ffff).is_after(first));
    assert!(RepliconTick(0x8000_0000).is_before(first));
}

#[test]
fn history_remembers_ticks() {
    let mut history = ConfirmHistory::new(RepliconTick(10));
    assert!(history.contains(RepliconTick(10)));
    assert!(!history.contains(RepliconTick(9)));
    assert!(!history.contains(RepliconTick(11)));
    history.set_last_tick(RepliconTick(13));
    assert_eq!(history.mask, 0b1001);
    assert!(history.contains(RepliconTick(10)));
    history.set(1);
    assert!(history.contains(RepliconTick(12)));
    assert!(!history.contains(RepliconTick(11)));
    history.set_last_tick(RepliconTick(77));
    assert_eq!(history.mask, 1);
    assert!(history.contains(RepliconTick(13)));
    assert!(!history.contains(RepliconTick(14)));
}

#[test]
fn mutate_ticks_count_messages() {
    let mut ticks = ServerMutateTicks::new();
    assert!(!ticks.contains(RepliconTick(0)));
    assert!(ticks.confirm(RepliconTick(5), 1));
    assert!(ticks.contains(RepliconTick(5)));
    assert!(!ticks.contains(RepliconTick(4)));
    assert!(!ticks.confirm(RepliconTick(4), 2));
    assert!(!ticks.contains(RepliconTick(4)));
    assert!(!ticks.confirm(RepliconTick(7), 3));
    assert!(ticks.contains(RepliconTick(5)));
    assert!(ticks.confirm(RepliconTick(4), 2));
    assert!(ticks.contains(RepliconTick(4)));
    assert!(!ticks.confirm(RepliconTick(500), 2));
    assert!(!ticks.confirm(RepliconTick(7), 3));
    assert!(ticks.contains(RepliconTick(7)));
    ticks.clear();
    assert!(!ticks.contains(RepliconTick(500)));
}

#[test]
fn entity_map_keeps_its_entries() {
    let mut map: EntityMap<u8> = EntityMap::new();
    for i in 0..5 {
        assert_eq!(map.insert(entity(i), i as u8), None);
    }
    assert_eq!(map.insert(entity(1), 11), Some(1));
    assert_eq!(map.remove(entity(0)), Some(0));
    assert_eq!(map.remove(entity(0)), None);
    assert_eq!(map.get(entity(0)), None);
    assert_eq!(map.get(entity(1)), Some(&11));
    assert_eq!(map.get(entity(4)), Some(&4));
    assert_eq!(map.get(Entity::from_parts(4, 1).unwrap()), None);
    *map.get_mut(entity(3)).unwrap() = 33;
    let mut keep: EntityMap<()> = EntityMap::new();
    keep.insert(entity(3), ());
    keep.insert(entity(4), ());
    keep.insert(entity(9), ());
    map.retain_in(&keep);
    let mut entries: Vec<(u32, u8)> = map
        .keys()
        .into_iter()
        .map(|entity| (entity.index(), *map.get(entity).unwrap()))
        .collect();
    entries.sort_unstable();
    assert_eq!(entries, vec![(3, 33), (4, 4)]);
    map.clear();
    assert!(!map.contains_key(entity(3)));
}

#[test]
fn signatures_are_found_by_hash() {
    let mut map = SignatureMap::new();
    map.insert(entity(1), 10);
    map.insert(entity(2), 20);
    assert_eq!(map.get(10), Some(entity(1)));
    map.insert(entity(2), 10);
    assert_eq!(map.get(10), Some(entity(2)));
    assert_eq!(map.get(20), None);
    map.remove(entity(1));
    assert_eq!(map.get(10), Some(entity(2)));
    map.remove(entity(2));
    assert_eq!(map.get(10), None);
}

#[test]
fn fields_are_read_in_turn() {
    let mut message = Bytes::from(vec![
        0x81, 0xac, 0x02, 0xff, 0xff, 0xff, 0xff, 0x0f, 0x80, 0x01, 0x0b, 0x05, 0x06, 1, 2, 3, 4, 5,
        6, 7, 8, 9,
    ]);
    assert_eq!(u8_from_buf(&mut message), Ok(0x81));
    assert_eq!(u16_from_buf(&mut message), Ok(300));
    assert_eq!(u32_from_buf(&mut message), Ok(u32::MAX));
    assert_eq!(usize_from_buf(&mut message), Ok(128));
    assert_eq!(
        entity_from_buf(&mut message),
        Ok(Entity::from_parts(5, 5).unwrap())
    );
    assert_eq!(entity_from_buf(&mut message), Ok(entity(3)));
    assert_eq!(hash_from_buf(&mut message), Ok(0x0807_0605_0403_0201));
    assert_eq!(&message[..], &[9]);
    assert_eq!(hash_from_buf(&mut message), Err(WireError::UnexpectedEnd));
    assert_eq!(&message[..], &[9]);
}

#[test]
fn fields_that_cannot_be_read() {
    let read = |bytes: &[u8]| Bytes::copy_from_slice(bytes);
    assert_eq!(u8_from_buf(&mut read(&[])), Err(WireError::UnexpectedEnd));
    assert_eq!(
        u16_from_buf(&mut read(&[0xff, 0xff])),
        Err(WireError::UnexpectedEnd)
    );
    assert_eq!(
        u16_from_buf(&mut read(&[0xff, 0xff, 0x04])),
        Err(WireError::BadVarint)
    );
    assert_eq!(
        u16_from_buf(&mut read(&[0xff, 0xff, 0x83, 0x00])),
        Err(WireError::BadVarint)
    );
    assert_eq!(u16_from_buf(&mut read(&[0xff, 0xff, 0x03])), Ok(u16::MAX));
    assert_eq!(u16_from_buf(&mut read(&[0x80, 0x80, 0x00])), Ok(0));
    assert_eq!(
        u32_from_buf(&mut read(&[0xff, 0xff, 0xff, 0xff, 0x10])),
        Err(WireError::BadVarint)
    );
    assert_eq!(
        usize_from_buf(&mut read(&[0xff; 10])),
        Err(WireError::BadVarint)
    );
    assert_eq!(
        entity_from_buf(&mut read(&[0xfe, 0xff, 0xff, 0xff, 0x1f])),
        Err(WireError::BadEntity)
    );
    assert_eq!(
        entity_from_buf(&mut read(&[0x03])),
        Err(WireError::UnexpectedEnd)
    );
}

#[test]
fn written_indices_are_read_back() {
    let mut bytes = vec![9];
    for index in [0, 127, 128, 16383, 16384, u16::MAX] {
        u16_to_buf(index, &mut bytes);
    }
    assert_eq!(bytes.len(), 1 + 1 + 1 + 2 + 2 + 3 + 3);
    let mut message = Bytes::from(bytes);
    assert_eq!(u8_from_buf(&mut message), Ok(9));
    for index in [0, 127, 128, 16383, 16384, u16::MAX] {
        assert_eq!(u16_from_buf(&mut message), Ok(index));
    }
    assert!(message.is_empty());
}

#[test]
fn flags_name_the_arrays_in_order() {
    let flags = UpdateMessageFlags::from_bits(0xf0 + 2 + 8);
    assert_eq!(flags.first(), Some(Stage::Despawns));
    let rest = flags.after(Stage::Despawns);
    assert_eq!(rest.first(), Some(Stage::Changes));
    assert_eq!(rest.after(Stage::Changes).first(), None);
    let all = UpdateMessageFlags::from_bits(15);
    assert_eq!(all.first(), Some(Stage::Mappings));
    assert_eq!(all.after(Stage::Mappings).first(), Some(Stage::Despawns));
    assert_eq!(all.after(Stage::Despawns).first(), Some(Stage::Removals));
    assert_eq!(UpdateMessageFlags::from_bits(0).first(), None);
}

fn waiting(update_tick: u32, message_tick: u32) -> BufferedMutate<Bytes> {
    BufferedMutate {
        update_tick: RepliconTick(update_tick),
        message_tick: RepliconTick(message_tick),
        messages_count: 1,
        message: Bytes::new(),
    }
}

fn ticks(buffered: &BufferedMutations) -> Vec<(u32, u32)> {
    buffered
        .0
        .iter()
        .map(|mutation| (mutation.update_tick.0, mutation.message_tick.0))
        .collect()
}

#[test]
fn buffer_has_the_latest_messages_first() {
    let mut buffered = BufferedMutations::new();
    for (update_tick, message_tick) in [(1, 3), (2, 5), (3, 5), (4, u32::MAX), (5, 4)] {
        buffered.insert(waiting(update_tick, message_tick));
    }
    assert_eq!(
        ticks(&buffered),
        vec![(3, 5), (2, 5), (5, 4), (1, 3), (4, u32::MAX)]
    );
    let ready = buffered.take_ready(RepliconTick(3));
    assert_eq!(ticks(&ready), vec![(3, 5), (2, 5), (1, 3)]);
    assert_eq!(ticks(&buffered), vec![(5, 4), (4, u32::MAX)]);
    buffered.clear();
    assert!(buffered.take_first().is_none());
}

#[test]
fn channels_are_shared_in_one_app() {
    let mut channels = RepliconChannels::new();
    let client = channels.create_client_to_server_replication_channels();
    let server = channels.create_client_to_server_replication_channels();
    assert_eq!(client, server);
    assert_eq!((client.updates, client.mutations, client.mutation_acks), (1, 2, 2));
    assert_eq!(channels.client_channels, 3);
    assert_eq!(channels.server_channels, 3);
}

#[test]
fn plugin_defaults_and_settings() {
    let plugin = ClientPlugin::default();
    assert!(plugin.receive_from_server);
    assert!(!plugin.send_to_server);
    assert_eq!(plugin.send_max_size, ClientPlugin::DEFAULT_SEND_MAX_SIZE);
    assert_eq!(plugin.mutations_timeout, Duration::from_secs(10));
    let plugin = plugin.with_send_to_server(true).with_send_max_size(500);
    assert!(plugin.receive_from_server);
    assert_eq!(
        plugin
            .build(AuthMethod::Unchecked)
            .iter()
            .filter(|step| match step {
                BuildStep::EnableSendToServer {
                    mutations_timeout,
                    max_size,
                } => *max_size == 500 && *mutations_timeout == Duration::from_secs(10),
                _ => false,
            })
            .count(),
        1
    );
}

#[test]
fn reset_forgets_what_was_received() {
    let mut entity_map = ServerEntityMap::new();
    entity_map.insert(entity(1), entity(2));
    let mut mutate_ticks = ServerMutateTicks::new();
    mutate_ticks.confirm(RepliconTick(3), 1);
    let mut buffered = BufferedMutations::new();
    buffered.insert(waiting(1, 2));
    let mut state = ClientState {
        update_tick: Some(ServerUpdateTick(RepliconTick(8))),
        entity_map: Some(entity_map),
        buffered_mutations: Some(buffered),
        mutate_ticks: Some(mutate_ticks),
        stats: Some(ClientReplicationStats {
            bytes: 4,
            ..ClientReplicationStats::default()
        }),
    };
    state.reset();
    assert_eq!(state.update_tick, Some(ServerUpdateTick::default()));
    assert_eq!(state.entity_map.unwrap().get(entity(1)), None);
    assert!(state.buffered_mutations.unwrap().0.is_empty());
    assert!(!state.mutate_ticks.unwrap().contains(RepliconTick(3)));
    assert_eq!(state.stats, Some(ClientReplicationStats::default()));

    let mut none = ClientState {
        update_tick: None,
        entity_map: None,
        buffered_mutations: None,
        mutate_ticks: None,
        stats: None,
    };
    none.reset();
    assert!(none.update_tick.is_none());
    assert!(none.stats.is_none());
}
