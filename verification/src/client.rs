//! Client settings and the state that a client keeps while it receives.

use vstd::prelude::*;

use core::time::Duration;

use crate::context::{BufferedMutate, BufferedMutations, ServerEntityMap};
use crate::entity::Entity;
use crate::mutate_ticks::{MutateTicks, ServerMutateTicks};
use crate::tick::RepliconTick;

verus! {

/// Marker for entities spawned by replication.
///
/// Put on each newly received entity.
#[derive(Clone, Copy, Debug, PartialEq, Eq, Structural)]
pub struct Remote;

/// Last received tick for update messages.
///
/// In other words, the last tick with a removal, insertion, spawn or despawn. Mutate messages do
/// not change it.
#[derive(Clone, Copy, Debug, PartialEq, Eq, Structural)]
pub struct ServerUpdateTick(pub RepliconTick);

/// What was received so far.
///
/// Only what took effect is counted. Entities, mappings and despawns are counted at the end of the
/// array of a message that they came in, so an array that is given up halfway adds nothing. The
/// counters wrap around at the end of their range.
#[derive(Clone, Copy, Debug, PartialEq, Eq, Structural)]
pub struct ClientReplicationStats {
    /// Incremented per entity that changes.
    pub entities_changed: usize,
    /// Incremented for every component that changes, at the end of its entity's data.
    pub components_changed: usize,
    /// Incremented per mapping added.
    pub mappings: usize,
    /// Incremented per entity that was despawned and still existed.
    pub despawns: usize,
    /// Replication messages received.
    pub messages: usize,
    /// Replication bytes received in message payloads.
    pub bytes: usize,
}

impl ClientReplicationStats {
    /// With one more message of this many bytes.
    pub open spec fn with_message(self, bytes: usize) -> ClientReplicationStats {
        ClientReplicationStats {
            messages: self.messages.wrapping_add(1),
            bytes: self.bytes.wrapping_add(bytes),
            ..self
        }
    }

    /// With this many more changed entities.
    pub open spec fn with_entities(self, len: usize) -> ClientReplicationStats {
        ClientReplicationStats { entities_changed: self.entities_changed.wrapping_add(len), ..self }
    }

    /// With this many more changed components.
    pub open spec fn with_components(self, len: usize) -> ClientReplicationStats {
        ClientReplicationStats {
            components_changed: self.components_changed.wrapping_add(len),
            ..self
        }
    }

    /// With this many more mappings.
    pub open spec fn with_mappings(self, len: usize) -> ClientReplicationStats {
        ClientReplicationStats { mappings: self.mappings.wrapping_add(len), ..self }
    }

    /// With this many more despawns.
    pub open spec fn with_despawns(self, len: usize) -> ClientReplicationStats {
        ClientReplicationStats { despawns: self.despawns.wrapping_add(len), ..self }
    }

    /// Nothing received.
    pub open spec fn zero() -> ClientReplicationStats {
        ClientReplicationStats {
            entities_changed: 0,
            components_changed: 0,
            mappings: 0,
            despawns: 0,
            messages: 0,
            bytes: 0,
        }
    }
}

impl Default for ClientReplicationStats {
    fn default() -> (stats: ClientReplicationStats)
        ensures
            stats == ClientReplicationStats::zero(),
    {
        ClientReplicationStats {
            entities_changed: 0,
            components_changed: 0,
            mappings: 0,
            despawns: 0,
            messages: 0,
            bytes: 0,
        }
    }
}

impl Default for ServerUpdateTick {
    fn default() -> (tick: ServerUpdateTick)
        ensures
            tick == ServerUpdateTick(RepliconTick(0)),
    {
        ServerUpdateTick(RepliconTick(0))
    }
}

impl Default for Remote {
    fn default() -> (remote: Remote)
        ensures
            remote == Remote,
    {
        Remote
    }
}

/// The duration of a number of seconds.
pub uninterp spec fn seconds(secs: u64) -> Duration;

/// `Duration::from_secs`: the duration depends on the number of seconds alone.
pub assume_specification[ Duration::from_secs ](secs: u64) -> (duration: Duration)
    ensures
        duration == seconds(secs),
;

/// Settings of a client.
pub struct ClientPlugin {
    /// Enables ordinary server-to-client replication receiving.
    pub receive_from_server: bool,
    /// Enables client-to-server replication sending.
    pub send_to_server: bool,
    /// Maximum size for mutate messages that the client sends to the server.
    pub send_max_size: usize,
    /// The time after which sent mutations will be considered lost if an acknowledgment is not
    /// received.
    pub mutations_timeout: Duration,
}

impl ClientPlugin {
    pub const DEFAULT_SEND_MAX_SIZE: usize = 1200;

    /// A client that receives and does not send.
    pub fn new() -> (plugin: ClientPlugin)
        ensures
            plugin == (ClientPlugin {
                receive_from_server: true,
                send_to_server: false,
                send_max_size: 1200,
                mutations_timeout: seconds(10),
            }),
    {
        ClientPlugin {
            receive_from_server: true,
            send_to_server: false,
            send_max_size: Self::DEFAULT_SEND_MAX_SIZE,
            mutations_timeout: Duration::from_secs(10),
        }
    }

    pub fn with_receive_from_server(self, receive_from_server: bool) -> (plugin: ClientPlugin)
        ensures
            plugin == (ClientPlugin { receive_from_server, ..self }),
    {
        ClientPlugin { receive_from_server, ..self }
    }

    pub fn with_send_to_server(self, send_to_server: bool) -> (plugin: ClientPlugin)
        ensures
            plugin == (ClientPlugin { send_to_server, ..self }),
    {
        ClientPlugin { send_to_server, ..self }
    }

    pub fn with_send_max_size(self, send_max_size: usize) -> (plugin: ClientPlugin)
        ensures
            plugin == (ClientPlugin { send_max_size, ..self }),
    {
        ClientPlugin { send_max_size, ..self }
    }
}

impl Default for ClientPlugin {
    fn default() -> (plugin: ClientPlugin)
        ensures
            plugin == (ClientPlugin {
                receive_from_server: true,
                send_to_server: false,
                send_max_size: 1200,
                mutations_timeout: seconds(10),
            }),
    {
        ClientPlugin::new()
    }
}

/// Sets of a client's systems.
#[derive(Clone, Copy, Debug, PartialEq, Eq, Structural, Hash)]
pub enum ClientSystems {
    /// Systems that receive packets from the messaging backend.
    ///
    /// Runs in `PreUpdate`.
    ReceivePackets,
    /// Systems that read received messages.
    ///
    /// Runs in `PreUpdate` and when the client connects, to avoid a delay of one frame.
    Receive,
    /// Systems that populate diagnostics.
    ///
    /// Runs in `PreUpdate` and when the client connects, to avoid a delay of one frame.
    Diagnostics,
    /// System that sends the hash of the protocol.
    ///
    /// Runs when the client connects.
    SendHash,
    /// Systems that write messages to be sent.
    ///
    /// Runs in `PostUpdate`.
    Send,
    /// Systems that send packets to the messaging backend.
    ///
    /// Runs in `PostUpdate`.
    SendPackets,
    /// Systems that reset the client.
    ///
    /// Runs when the client disconnects.
    Reset,
}

/// How a client proves to a server that it may connect.
#[derive(Clone, Copy, Debug, PartialEq, Eq, Structural)]
pub enum AuthMethod {
    /// Both sides compare hashes of their protocols.
    ProtocolCheck,
    /// The app decides.
    Custom,
    /// Every client may connect.
    Unchecked,
}

/// When systems run.
#[derive(Clone, Copy, Debug, PartialEq, Eq, Structural)]
pub enum ClientSchedule {
    PreUpdate,
    PostUpdate,
    /// When the client connects.
    OnConnected,
    /// When the client is no longer connected.
    OnDisconnected,
}

/// Systems of a client.
#[derive(Clone, Copy, Debug, PartialEq, Eq, Structural)]
pub enum ClientSystem {
    /// Receives replication.
    ReceiveReplication,
    /// Forgets what was received.
    Reset,
    /// Sends the hash of the protocol.
    SendProtocolHash,
}

/// Resources of a client.
#[derive(Clone, Copy, Debug, PartialEq, Eq, Structural)]
pub enum ClientResource {
    Messages,
    Stats,
    EntityMap,
    UpdateTick,
    BufferedMutations,
    MutateTicks,
    /// Reports of replicated entities.
    EntityReplicated,
    /// Reports of ticks for which all mutate messages were received.
    MutateTickReceived,
}

/// A step of setting up a client in an app.
pub enum BuildStep {
    /// Create a resource.
    InitResource(ClientResource),
    /// Let one set of systems run before another.
    Order { schedule: ClientSchedule, before: ClientSystems, after: ClientSystems },
    /// Add a system to a set.
    AddSystem {
        schedule: ClientSchedule,
        system: ClientSystem,
        set: ClientSystems,
        /// Whether the system runs only while the client is connected.
        only_connected: bool,
    },
    /// Let the client replicate to the server.
    EnableSendToServer { mutations_timeout: Duration, max_size: usize },
    /// Report it when the server finds that the protocols differ.
    ObserveProtocolMismatch,
}

/// Steps for every client.
pub open spec fn common_steps() -> Seq<BuildStep> {
    seq![
        BuildStep::InitResource(ClientResource::Messages),
        BuildStep::InitResource(ClientResource::Stats),
        BuildStep::Order {
            schedule: ClientSchedule::PreUpdate,
            before: ClientSystems::ReceivePackets,
            after: ClientSystems::Receive,
        },
        BuildStep::Order {
            schedule: ClientSchedule::PreUpdate,
            before: ClientSystems::Receive,
            after: ClientSystems::Diagnostics,
        },
        BuildStep::Order {
            schedule: ClientSchedule::OnConnected,
            before: ClientSystems::Receive,
            after: ClientSystems::Diagnostics,
        },
        BuildStep::Order {
            schedule: ClientSchedule::PostUpdate,
            before: ClientSystems::Send,
            after: ClientSystems::SendPackets,
        },
    ]
}

/// Steps for a client that receives.
pub open spec fn receive_steps() -> Seq<BuildStep> {
    seq![
        BuildStep::InitResource(ClientResource::EntityMap),
        BuildStep::InitResource(ClientResource::UpdateTick),
        BuildStep::InitResource(ClientResource::BufferedMutations),
        BuildStep::InitResource(ClientResource::EntityReplicated),
        BuildStep::InitResource(ClientResource::MutateTickReceived),
        BuildStep::AddSystem {
            schedule: ClientSchedule::PreUpdate,
            system: ClientSystem::ReceiveReplication,
            set: ClientSystems::Receive,
            only_connected: true,
        },
        BuildStep::AddSystem {
            schedule: ClientSchedule::OnConnected,
            system: ClientSystem::ReceiveReplication,
            set: ClientSystems::Receive,
            only_connected: false,
        },
    ]
}

/// Steps for a client whose protocol is checked.
pub open spec fn protocol_steps() -> Seq<BuildStep> {
    seq![
        BuildStep::ObserveProtocolMismatch,
        BuildStep::AddSystem {
            schedule: ClientSchedule::OnConnected,
            system: ClientSystem::SendProtocolHash,
            set: ClientSystems::SendHash,
            only_connected: false,
        },
    ]
}

impl ClientPlugin {
    /// The steps in which the client is set up.
    pub open spec fn build_steps(self, auth_method: AuthMethod) -> Seq<BuildStep> {
        common_steps() + (if self.receive_from_server {
            receive_steps()
        } else {
            Seq::empty()
        }) + (if self.send_to_server {
            seq![
                BuildStep::EnableSendToServer {
                    mutations_timeout: self.mutations_timeout,
                    max_size: self.send_max_size,
                },
            ]
        } else {
            Seq::empty()
        }) + seq![
            BuildStep::AddSystem {
                schedule: ClientSchedule::OnDisconnected,
                system: ClientSystem::Reset,
                set: ClientSystems::Reset,
                only_connected: false,
            },
        ] + (if auth_method is ProtocolCheck {
            protocol_steps()
        } else {
            Seq::empty()
        })
    }

    /// The steps in which the client is set up.
    pub fn build(&self, auth_method: AuthMethod) -> (steps: Vec<BuildStep>)
        ensures
            steps@ == self.build_steps(auth_method),
    {
        let mut steps: Vec<BuildStep> = Vec::new();
        steps.push(BuildStep::InitResource(ClientResource::Messages));
        steps.push(BuildStep::InitResource(ClientResource::Stats));
        steps.push(
            BuildStep::Order {
                schedule: ClientSchedule::PreUpdate,
                before: ClientSystems::ReceivePackets,
                after: ClientSystems::Receive,
            },
        );
        steps.push(
            BuildStep::Order {
                schedule: ClientSchedule::PreUpdate,
                before: ClientSystems::Receive,
                after: ClientSystems::Diagnostics,
            },
        );
        steps.push(
            BuildStep::Order {
                schedule: ClientSchedule::OnConnected,
                before: ClientSystems::Receive,
                after: ClientSystems::Diagnostics,
            },
        );
        steps.push(
            BuildStep::Order {
                schedule: ClientSchedule::PostUpdate,
                before: ClientSystems::Send,
                after: ClientSystems::SendPackets,
            },
        );
        assert(steps@ =~= common_steps());
        if self.receive_from_server {
            self.build_receive(&mut steps);
        }
        if self.send_to_server {
            steps.push(
                BuildStep::EnableSendToServer {
                    mutations_timeout: self.mutations_timeout,
                    max_size: self.send_max_size,
                },
            );
        }
        steps.push(
            BuildStep::AddSystem {
                schedule: ClientSchedule::OnDisconnected,
                system: ClientSystem::Reset,
                set: ClientSystems::Reset,
                only_connected: false,
            },
        );
        if matches!(auth_method, AuthMethod::ProtocolCheck) {
            steps.push(BuildStep::ObserveProtocolMismatch);
            steps.push(
                BuildStep::AddSystem {
                    schedule: ClientSchedule::OnConnected,
                    system: ClientSystem::SendProtocolHash,
                    set: ClientSystems::SendHash,
                    only_connected: false,
                },
            );
        }
        assert(steps@ =~= self.build_steps(auth_method));
        steps
    }

    /// Adds the steps for a client that receives.
    fn build_receive(&self, steps: &mut Vec<BuildStep>)
        ensures
            final(steps)@ == old(steps)@ + receive_steps(),
    {
        steps.push(BuildStep::InitResource(ClientResource::EntityMap));
        steps.push(BuildStep::InitResource(ClientResource::UpdateTick));
        steps.push(BuildStep::InitResource(ClientResource::BufferedMutations));
        steps.push(BuildStep::InitResource(ClientResource::EntityReplicated));
        steps.push(BuildStep::InitResource(ClientResource::MutateTickReceived));
        steps.push(
            BuildStep::AddSystem {
                schedule: ClientSchedule::PreUpdate,
                system: ClientSystem::ReceiveReplication,
                set: ClientSystems::Receive,
                only_connected: true,
            },
        );
        steps.push(
            BuildStep::AddSystem {
                schedule: ClientSchedule::OnConnected,
                system: ClientSystem::ReceiveReplication,
                set: ClientSystems::Receive,
                only_connected: false,
            },
        );
        assert(steps@ =~= old(steps)@ + receive_steps());
    }

    /// The resource that is created once everything is set up.
    pub fn finish(&self, track_mutate_messages: bool) -> (resource: Option<ClientResource>)
        ensures
            resource == if self.receive_from_server && track_mutate_messages {
                Some(ClientResource::MutateTicks)
            } else {
                None
            },
    {
        if self.receive_from_server && track_mutate_messages {
            Some(ClientResource::MutateTicks)
        } else {
            None
        }
    }

    /// A client receives in `PreUpdate` and when it connects, and only if that was asked for. What
    /// runs in every frame runs only while the client is connected.
    pub proof fn lemma_receives_while_connected(self, auth_method: AuthMethod)
        ensures
            ({
                let steps = self.build_steps(auth_method);
                let receives = |schedule: ClientSchedule, only_connected: bool| steps.contains(
                    BuildStep::AddSystem {
                        schedule,
                        system: ClientSystem::ReceiveReplication,
                        set: ClientSystems::Receive,
                        only_connected,
                    },
                );
                &&& self.receive_from_server <==> receives(ClientSchedule::PreUpdate, true)
                &&& self.receive_from_server <==> receives(ClientSchedule::OnConnected, false)
                &&& forall|i: int|
                    0 <= i < steps.len() ==> match #[trigger] steps[i] {
                        BuildStep::AddSystem { schedule, system, only_connected, .. } => {
                            &&& only_connected <==> schedule is PreUpdate
                            &&& schedule is PreUpdate ==> system is ReceiveReplication
                        },
                        _ => true,
                    }
            }),
    {
        let steps = self.build_steps(auth_method);
        if self.receive_from_server {
            assert(steps[11] == receive_steps()[5]);
            assert(steps[12] == receive_steps()[6]);
        }
    }

    /// A client replicates to the server only if that was asked for.
    pub proof fn lemma_send_is_opt_in(self, auth_method: AuthMethod)
        ensures
            self.send_to_server <==> exists|i: int|
                0 <= i < self.build_steps(auth_method).len() && #[trigger] self.build_steps(
                    auth_method,
                )[i] is EnableSendToServer,
    {
        let steps = self.build_steps(auth_method);
        if self.send_to_server {
            let i: int = if self.receive_from_server {
                13
            } else {
                6
            };
            assert(steps[i] is EnableSendToServer);
        }
    }
}

/// What a client keeps of what it received. It has only what it was set up with.
pub struct ClientState {
    pub update_tick: Option<ServerUpdateTick>,
    pub entity_map: Option<ServerEntityMap>,
    pub buffered_mutations: Option<BufferedMutations>,
    pub mutate_ticks: Option<ServerMutateTicks>,
    pub stats: Option<ClientReplicationStats>,
}

impl ClientState {
    /// Nothing is left of what was received.
    pub open spec fn forgotten(self) -> bool {
        &&& self.update_tick matches Some(tick) ==> tick == ServerUpdateTick(RepliconTick(0))
        &&& self.entity_map matches Some(entities) ==> entities.wf() && entities@
            == Map::<Entity, Entity>::empty()
        &&& self.buffered_mutations matches Some(mutations) ==> mutations@ == Seq::<
            BufferedMutate<Seq<u8>>,
        >::empty()
        &&& self.mutate_ticks matches Some(ticks) ==> ticks.wf() && ticks@ == MutateTicks::none()
        &&& self.stats matches Some(stats) ==> stats == ClientReplicationStats::zero()
    }

    /// Has what the other has.
    pub open spec fn same_parts(self, other: ClientState) -> bool {
        &&& self.update_tick is Some == other.update_tick is Some
        &&& self.entity_map is Some == other.entity_map is Some
        &&& self.buffered_mutations is Some == other.buffered_mutations is Some
        &&& self.mutate_ticks is Some == other.mutate_ticks is Some
        &&& self.stats is Some == other.stats is Some
    }

    /// Forgets what was received, when the client is no longer connected.
    pub fn reset(&mut self)
        ensures
            final(self).forgotten(),
            final(self).same_parts(*old(self)),
    {
        if let Some(update_tick) = &mut self.update_tick {
            *update_tick = ServerUpdateTick::default();
        }
        if let Some(entity_map) = &mut self.entity_map {
            entity_map.clear();
        }
        if let Some(buffered_mutations) = &mut self.buffered_mutations {
            buffered_mutations.clear();
        }
        if let Some(mutate_ticks) = &mut self.mutate_ticks {
            mutate_ticks.clear();
        }
        if let Some(stats) = &mut self.stats {
            *stats = ClientReplicationStats::default();
        }
    }
}

impl ClientPlugin {
    /// A client of this kind is set up with the step.
    pub open spec fn wants(self, auth_method: AuthMethod, step: BuildStep) -> bool {
        let checked = auth_method is ProtocolCheck;
        match step {
            BuildStep::InitResource(resource) => match resource {
                ClientResource::Messages | ClientResource::Stats => true,
                ClientResource::MutateTicks => false,
                _ => self.receive_from_server,
            },
            BuildStep::Order { schedule, before, after } => match schedule {
                ClientSchedule::PreUpdate => {
                    ||| before is ReceivePackets && after is Receive
                    ||| before is Receive && after is Diagnostics
                },
                ClientSchedule::PostUpdate => before is Send && after is SendPackets,
                ClientSchedule::OnConnected => before is Receive && after is Diagnostics,
                ClientSchedule::OnDisconnected => false,
            },
            BuildStep::AddSystem { schedule, system, set, only_connected } => match system {
                ClientSystem::ReceiveReplication => {
                    &&& self.receive_from_server
                    &&& set is Receive
                    &&& schedule is PreUpdate && only_connected || schedule is OnConnected
                        && !only_connected
                },
                ClientSystem::Reset => schedule is OnDisconnected && set is Reset
                    && !only_connected,
                ClientSystem::SendProtocolHash => checked && schedule is OnConnected
                    && set is SendHash && !only_connected,
            },
            BuildStep::EnableSendToServer { mutations_timeout, max_size } => {
                &&& self.send_to_server
                &&& mutations_timeout == self.mutations_timeout
                &&& max_size == self.send_max_size
            },
            BuildStep::ObserveProtocolMismatch => checked,
        }
    }

    /// A client is set up with what its settings ask for, with nothing else, and with nothing
    /// twice.
    pub proof fn lemma_set_up_as_asked(self, auth_method: AuthMethod, step: BuildStep)
        ensures
            self.build_steps(auth_method).contains(step) <==> self.wants(auth_method, step),
            self.build_steps(auth_method).no_duplicates(),
    {
        let steps = self.build_steps(auth_method);
        if self.wants(auth_method, step) {
            let received: int = if self.receive_from_server {
                7
            } else {
                0
            };
            let sent: int = if self.send_to_server {
                1
            } else {
                0
            };
            let i: int = match step {
                BuildStep::InitResource(resource) => match resource {
                    ClientResource::Messages => 0,
                    ClientResource::Stats => 1,
                    ClientResource::EntityMap => 6,
                    ClientResource::UpdateTick => 7,
                    ClientResource::BufferedMutations => 8,
                    ClientResource::EntityReplicated => 9,
                    _ => 10,
                },
                BuildStep::Order { schedule, before, .. } => match schedule {
                    ClientSchedule::PreUpdate => if before is Receive {
                        3
                    } else {
                        2
                    },
                    ClientSchedule::OnConnected => 4,
                    _ => 5,
                },
                BuildStep::AddSystem { schedule, system, .. } => match system {
                    ClientSystem::ReceiveReplication => if schedule is PreUpdate {
                        11
                    } else {
                        12
                    },
                    ClientSystem::Reset => 6 + received + sent,
                    ClientSystem::SendProtocolHash => 8 + received + sent,
                },
                BuildStep::EnableSendToServer { .. } => 6 + received,
                BuildStep::ObserveProtocolMismatch => 7 + received + sent,
            };
            assert(steps[i] == step);
        }
    }
}

/// Once a client has forgotten what it received, nothing is left of it.
pub proof fn lemma_forgotten(state: ClientState)
    requires
        state.forgotten(),
    ensures
        state.update_tick matches Some(tick) ==> tick.0 == RepliconTick(0),
        state.entity_map matches Some(entities) ==> forall|entity: Entity|
            !#[trigger] entities@.contains_key(entity),
        state.buffered_mutations matches Some(mutations) ==> mutations@.len() == 0,
        state.mutate_ticks matches Some(ticks) ==> {
            &&& ticks@.last_tick == RepliconTick(0)
            &&& ticks@.slots.len() == 64
            &&& forall|i: int|
                0 <= i < 64 ==> (#[trigger] ticks@.slots[i]).received == 0 && ticks@.slots[i].count
                    == 0
        },
        state.stats matches Some(stats) ==> {
            &&& stats.entities_changed == 0
            &&& stats.components_changed == 0
            &&& stats.mappings == 0
            &&& stats.despawns == 0
            &&& stats.messages == 0
            &&& stats.bytes == 0
        },
{
}

/// A client that forgets keeps every part that it was set up with, and gets no other.
pub proof fn lemma_same_parts(one: ClientState, other: ClientState)
    requires
        one.same_parts(other),
    ensures
        one.update_tick is Some <==> other.update_tick is Some,
        one.entity_map is Some <==> other.entity_map is Some,
        one.buffered_mutations is Some <==> other.buffered_mutations is Some,
        one.mutate_ticks is Some <==> other.mutate_ticks is Some,
        one.stats is Some <==> other.stats is Some,
{
}

} // verus!
