use vstd::prelude::*;

use crate::bus::{EventBus, RecvOutcome, Subscription};
use crate::events::{Cause, Event, EventKind, InstanceId, Lifecycle};
use crate::history::HistoryBuffers;
use crate::instance::{GameInstance, InstanceError};
use crate::monitor::MonitorReport;
use crate::ports::{PortAllocator, PortError};
use crate::registry::InstanceRegistry;
use crate::restore::{dir_ok, lemma_restored_size, restore_instances, restored_configs, RestoreError};
use crate::marker::{config_view, marker_spec, ConfigView, MarkerError};
use crate::ring::ring_push;

verus! {

/// The lowest port handed out to new instances.
pub const INSTANCE_PORT_START: u32 = 25565;

/// One past the highest port handed out to new instances.
pub const INSTANCE_PORT_END: u32 = 65535;

/// What a supervised loop does after one step.
#[derive(Debug, Clone, Copy, PartialEq, Eq, Structural)]
pub enum LoopControl {
    /// It handled something; it goes on at once.
    Continue,
    /// Nothing was there; it waits for more.
    Idle,
    /// Its source is gone; the loop ends.
    Exit,
}

/// The process-wide state: the instances, the claimed ports, the event bus
/// and the history, with the identity of this manager.
pub struct AppState {
    registry: InstanceRegistry,
    ports: PortAllocator,
    bus: EventBus,
    history: HistoryBuffers,
    uuid: String,
    up_since: i64,
    first_time_setup_key: Option<String>,
    known: Ghost<Set<InstanceId>>,
}

/// Whether some instance of `reg` that runs uses `port`.
pub open spec fn port_in_use(reg: Map<InstanceId, GameInstance>, port: u32) -> bool {
    exists|id: InstanceId| #[trigger] reg.contains_key(id) && reg[id].running_spec() && reg[id].config_spec().port == port
}

/// The log after `e` is published, where the bus takes it.
pub open spec fn log_after(bus: EventBus, e: Event) -> Seq<Event> {
    if !bus.is_closed_spec() && bus.published() < u64::MAX {
        bus.log().push(e)
    } else {
        bus.log()
    }
}

impl AppState {
    pub closed spec fn registry_spec(&self) -> InstanceRegistry {
        self.registry
    }

    pub closed spec fn ports_spec(&self) -> PortAllocator {
        self.ports
    }

    pub closed spec fn bus_spec(&self) -> EventBus {
        self.bus
    }

    pub closed spec fn history_spec(&self) -> HistoryBuffers {
        self.history
    }

    pub closed spec fn uuid_spec(&self) -> String {
        self.uuid
    }

    pub closed spec fn up_since_spec(&self) -> i64 {
        self.up_since
    }

    pub closed spec fn setup_key_spec(&self) -> Option<String> {
        self.first_time_setup_key
    }

    /// Every identifier that the registry has held.
    pub closed spec fn known_spec(&self) -> Set<InstanceId> {
        self.known@
    }

    pub closed spec fn wf(&self) -> bool {
        &&& self.registry@.dom().subset_of(self.known@)
        &&& forall|id: InstanceId| #[trigger] self.history.has_console(id) ==> self.known@.contains(id)
        &&& forall|id: InstanceId| #[trigger] self.history.has_reports(id) ==> self.known@.contains(id)
        &&& self.registry.wf()
        &&& self.bus.wf()
        &&& self.history.wf()
        &&& forall|id: InstanceId| #[trigger] self.registry@.contains_key(id) && self.registry@[id].running_spec()
            ==> self.ports@.contains(self.registry@[id].config_spec().port)
    }

    /// Builds the state at process start: restores the instances from the
    /// instance directories (see `restore_instances`), claims the port of
    /// every restored instance before any is handed out, then starts each
    /// instance flagged to start automatically, publishing each start on
    /// `bus`, which subscribers may already be reading.
    pub fn startup(
        bus: EventBus,
        markers: &Vec<Option<String>>,
        uuid: String,
        up_since: i64,
        first_time_setup_key: Option<String>,
    ) -> (r: Result<AppState, RestoreError>)
        requires
            bus.wf(),
        ensures
            r is Ok <==> forall|i: int| 0 <= i < markers@.len() ==> dir_ok(markers@, i),
            r matches Err(e) ==> {
                &&& e.dir < markers@.len()
                &&& markers@[e.dir as int] matches Some(t) && marker_spec(t@) == Err::<ConfigView, MarkerError>(e.kind)
                &&& forall|j: int| 0 <= j < e.dir ==> dir_ok(markers@, j)
            },
            r matches Ok(s) ==> {
                let configs = restored_configs(markers@);
                let reg = s.registry_spec()@;
                &&& s.wf()
                &&& reg.dom() == configs.dom()
                &&& forall|id: InstanceId| #[trigger] reg.contains_key(id) ==> config_view(reg[id].config_spec()) == configs[id]
                    && reg[id] is Minecraft && reg[id].running_spec() == configs[id].3
                &&& forall|id: InstanceId| #[trigger] configs.contains_key(id) ==> s.ports_spec()@.contains(configs[id].2)
                &&& forall|p: u32| #[trigger] s.ports_spec()@.contains(p) ==> exists|id: InstanceId|
                    #[trigger] configs.contains_key(id) && configs[id].2 == p
                &&& s.ports_spec().range_start_spec() == INSTANCE_PORT_START
                &&& s.ports_spec().range_end_spec() == INSTANCE_PORT_END
                &&& s.bus_spec().capacity_spec() == bus.capacity_spec()
                &&& s.bus_spec().is_closed_spec() == bus.is_closed_spec()
                &&& s.bus_spec().log().len() >= bus.log().len()
                &&& s.bus_spec().log().subrange(0, bus.log().len() as int) == bus.log()
                &&& !bus.is_closed_spec() && bus.published() + markers@.len() < u64::MAX ==>
                    forall|id: InstanceId| #[trigger] configs.contains_key(id) && configs[id].3 ==> exists|k: int|
                        bus.published() <= k < s.bus_spec().log().len()
                            && s.bus_spec().log()[k] == Event::lifecycle_spec(id, Lifecycle::Started, up_since, Cause::System)
                &&& s.uuid_spec() == uuid
                &&& s.up_since_spec() == up_since
                &&& s.setup_key_spec() == first_time_setup_key
            },
    {
        let reg = match restore_instances(markers) {
            Err(e) => return Err(e),
            Ok(reg) => reg,
        };
        let ghost configs = restored_configs(markers@);
        proof {
            lemma_restored_size(markers@);
        }
        let ids = reg.ids();
        let mut claimed: Vec<u32> = Vec::new();
        let mut i: usize = 0;
        while i < ids.len()
            invariant
                reg.wf(),
                i <= ids@.len(),
                ids@.to_set() == reg@.dom(),
                claimed@.len() == i,
                forall|j: int| 0 <= j < i ==> claimed@[j] == #[trigger] reg@[ids@[j]].config_spec().port,
            decreases ids.len() - i,
        {
            let id = ids[i];
            proof {
                assert(ids@.to_set().contains(id));
            }
            match reg.get(id) {
                Some(g) => claimed.push(g.port()),
                None => claimed.push(0),
            }
            i = i + 1;
        }
        let ports = PortAllocator::with_claimed(INSTANCE_PORT_START, INSTANCE_PORT_END, &claimed);
        let ghost bus0 = bus;
        let mut state = AppState {
            registry: reg,
            ports,
            bus,
            history: HistoryBuffers::new(),
            uuid,
            up_since,
            first_time_setup_key,
            known: Ghost(reg@.dom()),
        };
        proof {
            assert forall|id: InstanceId| #[trigger] configs.contains_key(id) implies state.ports@.contains(configs[id].2) by {
                assert(reg@.contains_key(id));
                assert(ids@.to_set().contains(id));
                let j = choose|j: int| 0 <= j < ids@.len() && ids@[j] == id;
                assert(claimed@[j] == reg@[ids@[j]].config_spec().port);
                assert(claimed@.contains(claimed@[j]));
            }
            assert forall|p: u32| #[trigger] state.ports@.contains(p) implies exists|id: InstanceId|
                #[trigger] configs.contains_key(id) && configs[id].2 == p by {
                assert(claimed@.to_set().contains(p));
                let j = choose|j: int| 0 <= j < claimed@.len() && claimed@[j] == p;
                assert(claimed@[j] == reg@[ids@[j]].config_spec().port);
                assert(ids@.to_set().contains(ids@[j]));
                assert(configs.contains_key(ids@[j]));
            }
            assert(state.bus.log().subrange(0, bus0.log().len() as int) =~= bus0.log());
        }
        let ghost ports0 = state.ports@;
        let mut i: usize = 0;
        while i < ids.len()
            invariant
                state.wf(),
                i <= ids@.len(),
                ids@.no_duplicates(),
                ids@.to_set() == configs.dom(),
                ids@.len() <= markers@.len(),
                state.registry@.dom() == configs.dom(),
                forall|id: InstanceId| #[trigger] state.registry@.contains_key(id) ==>
                    config_view(state.registry@[id].config_spec()) == configs[id] && state.registry@[id] is Minecraft
                        && state.registry@[id].running_spec() == (configs[id].3 && ids@.subrange(0, i as int).contains(id)),
                state.ports@ == ports0,
                forall|id: InstanceId| #[trigger] configs.contains_key(id) ==> ports0.contains(configs[id].2),
                state.ports.range_start_spec() == INSTANCE_PORT_START,
                state.ports.range_end_spec() == INSTANCE_PORT_END,
                state.bus.capacity_spec() == bus0.capacity_spec(),
                state.bus.is_closed_spec() == bus0.is_closed_spec(),
                bus0.log().len() <= state.bus.log().len() <= bus0.log().len() + i,
                state.bus.log().subrange(0, bus0.log().len() as int) == bus0.log(),
                !bus0.is_closed_spec() && bus0.published() + markers@.len() < u64::MAX ==>
                    forall|j: int| 0 <= j < i && #[trigger] configs[ids@[j]].3 ==> exists|k: int|
                        bus0.published() <= k < state.bus.log().len()
                            && state.bus.log()[k] == Event::lifecycle_spec(ids@[j], Lifecycle::Started, up_since, Cause::System),
                state.uuid == uuid,
                state.up_since == up_since,
                state.first_time_setup_key == first_time_setup_key,
            decreases ids.len() - i,
        {
            let id = ids[i];
            proof {
                assert(ids@.to_set().contains(id));
                assert(!ids@.subrange(0, i as int).contains(id)) by {
                    if ids@.subrange(0, i as int).contains(id) {
                        let j = choose|j: int| 0 <= j < i && ids@.subrange(0, i as int)[j] == id;
                        assert(ids@[j] == ids@[i as int]);
                    }
                }
                assert(ids@.subrange(0, i + 1) =~= ids@.subrange(0, i as int).push(id));
            }
            let auto = match state.registry.get(id) {
                Some(g) => g.auto_start(),
                None => false,
            };
            let ghost log_before = state.bus.log();
            if auto {
                let _ = state.start_instance(id, Cause::System, up_since);
                proof {
                    assert(state.ports@ =~= ports0);
                    if !bus0.is_closed_spec() && bus0.published() + markers@.len() < u64::MAX {
                        assert(state.bus.log() == log_before.push(Event::lifecycle_spec(id, Lifecycle::Started, up_since, Cause::System)));
                        assert forall|j: int| 0 <= j < i + 1 && #[trigger] configs[ids@[j]].3 implies exists|k: int|
                            bus0.published() <= k < state.bus.log().len()
                                && state.bus.log()[k] == Event::lifecycle_spec(ids@[j], Lifecycle::Started, up_since, Cause::System) by {
                            if j == i {
                                assert(state.bus.log()[log_before.len() as int] == Event::lifecycle_spec(ids@[j], Lifecycle::Started, up_since, Cause::System));
                            } else {
                                let k = choose|k: int| bus0.published() <= k < log_before.len()
                                    && log_before[k] == Event::lifecycle_spec(ids@[j], Lifecycle::Started, up_since, Cause::System);
                                assert(state.bus.log()[k] == log_before[k]);
                            }
                        }
                    }
                    assert(state.bus.log().subrange(0, bus0.log().len() as int) =~= log_before.subrange(0, bus0.log().len() as int));
                }
            }
            proof {
                assert(config_view(state.registry@[id].config_spec()) == configs[id]);
                assert(auto == configs[id].3);
                assert forall|k: InstanceId| #[trigger] state.registry@.contains_key(k) implies
                    config_view(state.registry@[k].config_spec()) == configs[k] && state.registry@[k] is Minecraft
                        && state.registry@[k].running_spec() == (configs[k].3 && ids@.subrange(0, i + 1).contains(k)) by {
                    if k != id {
                        assert(ids@.subrange(0, i + 1).contains(k) == ids@.subrange(0, i as int).contains(k));
                    } else {
                        assert(ids@.subrange(0, i + 1)[i as int] == id);
                    }
                }
            }
            i = i + 1;
        }
        proof {
            assert(ids@.subrange(0, ids@.len() as int) =~= ids@);
            if !bus0.is_closed_spec() && bus0.published() + markers@.len() < u64::MAX {
                assert forall|id: InstanceId| #[trigger] configs.contains_key(id) && configs[id].3 implies exists|k: int|
                    bus0.published() <= k < state.bus.log().len()
                        && state.bus.log()[k] == Event::lifecycle_spec(id, Lifecycle::Started, up_since, Cause::System) by {
                    assert(ids@.to_set().contains(id));
                    let j = choose|j: int| 0 <= j < ids@.len() && ids@[j] == id;
                    assert(configs[ids@[j]].3);
                }
            }
        }
        Ok(state)
    }

    pub fn registry(&self) -> (r: &InstanceRegistry)
        ensures
            *r == self.registry_spec(),
    {
        &self.registry
    }

    pub fn ports(&self) -> (r: &PortAllocator)
        ensures
            *r == self.ports_spec(),
    {
        &self.ports
    }

    pub fn bus(&self) -> (r: &EventBus)
        ensures
            *r == self.bus_spec(),
    {
        &self.bus
    }

    pub fn history(&self) -> (r: &HistoryBuffers)
        ensures
            *r == self.history_spec(),
    {
        &self.history
    }

    pub fn uuid(&self) -> (r: &String)
        ensures
            *r == self.uuid_spec(),
    {
        &self.uuid
    }

    pub fn up_since(&self) -> (r: i64)
        ensures
            r == self.up_since_spec(),
    {
        self.up_since
    }

    pub fn first_time_setup_key(&self) -> (r: &Option<String>)
        ensures
            *r == self.setup_key_spec(),
    {
        &self.first_time_setup_key
    }

    /// Forgets the setup key once the first owner exists.
    pub fn clear_setup_key(&mut self)
        ensures
            final(self).setup_key_spec() is None,
            final(self).registry_spec() == old(self).registry_spec(),
            final(self).ports_spec() == old(self).ports_spec(),
            final(self).bus_spec() == old(self).bus_spec(),
            final(self).history_spec() == old(self).history_spec(),
            old(self).wf() ==> final(self).wf(),
    {
        self.first_time_setup_key = None;
    }

    /// Publishes `event` on the bus; a closed bus, or one whose sequence
    /// numbers are spent, takes nothing.
    pub fn publish(&mut self, event: Event) -> (r: Option<u64>)
        requires
            old(self).wf(),
        ensures
            final(self).wf(),
            final(self).bus_spec().log() == log_after(old(self).bus_spec(), event),
            final(self).bus_spec().capacity_spec() == old(self).bus_spec().capacity_spec(),
            final(self).bus_spec().is_closed_spec() == old(self).bus_spec().is_closed_spec(),
            r is Some <==> !old(self).bus_spec().is_closed_spec() && old(self).bus_spec().published() < u64::MAX,
            r matches Some(seq) ==> seq == old(self).bus_spec().published(),
            final(self).registry_spec() == old(self).registry_spec(),
            final(self).ports_spec() == old(self).ports_spec(),
            final(self).history_spec() == old(self).history_spec(),
            final(self).uuid_spec() == old(self).uuid_spec(),
            final(self).up_since_spec() == old(self).up_since_spec(),
            final(self).setup_key_spec() == old(self).setup_key_spec(),
    {
        if self.bus.is_closed() || self.bus.published_count() == u64::MAX {
            return None;
        }
        match self.bus.publish(event) {
            Ok(seq) => Some(seq),
            Err(_) => None,
        }
    }

    /// A new subscriber to the bus, from the next event on.
    pub fn subscribe(&self) -> (r: Subscription)
        requires
            self.wf(),
        ensures
            r.next == self.bus_spec().published(),
    {
        self.bus.subscribe()
    }

    /// Closes the bus; the loops that read it end once they have read all.
    pub fn close_bus(&mut self)
        requires
            old(self).wf(),
        ensures
            final(self).wf(),
            final(self).bus_spec().is_closed_spec(),
            final(self).bus_spec().log() == old(self).bus_spec().log(),
            final(self).registry_spec() == old(self).registry_spec(),
            final(self).ports_spec() == old(self).ports_spec(),
            final(self).history_spec() == old(self).history_spec(),
            final(self).uuid_spec() == old(self).uuid_spec(),
            final(self).up_since_spec() == old(self).up_since_spec(),
            final(self).setup_key_spec() == old(self).setup_key_spec(),
    {
        self.bus.close();
    }

    /// Starts the instance `id`, claims its port if no one has, and
    /// publishes that it started. An instance that runs already, or one that
    /// is absent, leaves everything as it was.
    pub fn start_instance(&mut self, id: InstanceId, cause: Cause, now: i64) -> (r: Result<(), InstanceError>)
        requires
            old(self).wf(),
        ensures
            final(self).wf(),
            r is Ok <==> old(self).registry_spec()@.contains_key(id) && !old(self).registry_spec()@[id].running_spec(),
            r matches Err(e) ==> {
                &&& (e == InstanceError::NotFound <==> !old(self).registry_spec()@.contains_key(id))
                &&& final(self).registry_spec()@ == old(self).registry_spec()@
                &&& final(self).ports_spec()@ == old(self).ports_spec()@
                &&& final(self).bus_spec() == old(self).bus_spec()
            },
            r is Ok ==> {
                let g = old(self).registry_spec()@[id];
                &&& final(self).registry_spec()@ == old(self).registry_spec()@.insert(id, g.with_running(true))
                &&& final(self).ports_spec()@ == old(self).ports_spec()@.insert(g.config_spec().port)
                &&& final(self).bus_spec().log() == log_after(old(self).bus_spec(), Event::lifecycle_spec(id, Lifecycle::Started, now, cause))
            },
            final(self).history_spec() == old(self).history_spec(),
            final(self).ports_spec().range_start_spec() == old(self).ports_spec().range_start_spec(),
            final(self).ports_spec().range_end_spec() == old(self).ports_spec().range_end_spec(),
            final(self).bus_spec().is_closed_spec() == old(self).bus_spec().is_closed_spec(),
            final(self).bus_spec().capacity_spec() == old(self).bus_spec().capacity_spec(),
            final(self).uuid_spec() == old(self).uuid_spec(),
            final(self).up_since_spec() == old(self).up_since_spec(),
            final(self).setup_key_spec() == old(self).setup_key_spec(),
    {
        let port = match self.registry.get(id) {
            None => return Err(InstanceError::NotFound),
            Some(g) => g.port(),
        };
        match self.registry.start(id) {
            Err(e) => Err(e),
            Ok(()) => {
                if !self.ports.is_claimed(port) {
                    let _ = self.ports.reserve(port);
                }
                proof {
                    assert(self.ports@ =~= old(self).ports@.insert(port));
                    assert forall|k: InstanceId| #[trigger] self.registry@.contains_key(k) && self.registry@[k].running_spec()
                        implies self.ports@.contains(self.registry@[k].config_spec().port) by {
                        if k != id {
                            assert(old(self).registry@.contains_key(k));
                        }
                    }
                }
                self.publish(Event::lifecycle(id, Lifecycle::Started, now, cause));
                Ok(())
            },
        }
    }

    /// Stops the instance `id` and, if it ran, publishes that it stopped.
    /// Stopping one that is absent or stopped changes nothing. Its port
    /// stays claimed while it is configured. Returns whether it ran.
    pub fn stop_instance(&mut self, id: InstanceId, cause: Cause, now: i64) -> (r: bool)
        requires
            old(self).wf(),
        ensures
            final(self).wf(),
            r == (old(self).registry_spec()@.contains_key(id) && old(self).registry_spec()@[id].running_spec()),
            old(self).registry_spec()@.contains_key(id) ==> final(self).registry_spec()@
                == old(self).registry_spec()@.insert(id, old(self).registry_spec()@[id].with_running(false)),
            !old(self).registry_spec()@.contains_key(id) ==> final(self).registry_spec()@ == old(self).registry_spec()@,
            r ==> final(self).bus_spec().log() == log_after(old(self).bus_spec(), Event::lifecycle_spec(id, Lifecycle::Stopped, now, cause)),
            !r ==> final(self).bus_spec() == old(self).bus_spec(),
            final(self).ports_spec() == old(self).ports_spec(),
            final(self).history_spec() == old(self).history_spec(),
            final(self).bus_spec().is_closed_spec() == old(self).bus_spec().is_closed_spec(),
            final(self).bus_spec().capacity_spec() == old(self).bus_spec().capacity_spec(),
            final(self).uuid_spec() == old(self).uuid_spec(),
            final(self).up_since_spec() == old(self).up_since_spec(),
            final(self).setup_key_spec() == old(self).setup_key_spec(),
    {
        let was = self.registry.stop(id);
        proof {
            assert forall|k: InstanceId| #[trigger] self.registry@.contains_key(k) && self.registry@[k].running_spec()
                implies self.ports@.contains(self.registry@[k].config_spec().port) by {
                assert(k != id);
                assert(old(self).registry@.contains_key(k));
            }
        }
        if was {
            self.publish(Event::lifecycle(id, Lifecycle::Stopped, now, cause));
        }
        was
    }

    /// Hands out the lowest free port of the instance range.
    pub fn allocate_port(&mut self) -> (r: Result<u32, PortError>)
        requires
            old(self).wf(),
        ensures
            final(self).wf(),
            r matches Ok(p) ==> !old(self).ports_spec()@.contains(p) && final(self).ports_spec()@ == old(self).ports_spec()@.insert(p),
            r is Err ==> final(self).ports_spec()@ == old(self).ports_spec()@,
            final(self).registry_spec() == old(self).registry_spec(),
            final(self).bus_spec() == old(self).bus_spec(),
            final(self).history_spec() == old(self).history_spec(),
            final(self).uuid_spec() == old(self).uuid_spec(),
            final(self).up_since_spec() == old(self).up_since_spec(),
            final(self).setup_key_spec() == old(self).setup_key_spec(),
    {
        let r = self.ports.allocate();
        proof {
            assert forall|k: InstanceId| #[trigger] self.registry@.contains_key(k) && self.registry@[k].running_spec()
                implies self.ports@.contains(self.registry@[k].config_spec().port) by {
                assert(old(self).ports@.contains(self.registry@[k].config_spec().port));
            }
        }
        r
    }

    /// Whether an instance that runs uses `port`.
    pub fn port_in_use(&self, port: u32) -> (r: bool)
        requires
            self.wf(),
        ensures
            r == port_in_use(self.registry_spec()@, port),
    {
        let ids = self.registry.ids();
        let mut i: usize = 0;
        while i < ids.len()
            invariant
                self.wf(),
                i <= ids@.len(),
                ids@.to_set() == self.registry@.dom(),
                forall|j: int| 0 <= j < i ==> !(self.registry@[#[trigger] ids@[j]].running_spec()
                    && self.registry@[ids@[j]].config_spec().port == port),
            decreases ids.len() - i,
        {
            let id = ids[i];
            proof {
                assert(ids@.to_set().contains(id));
            }
            match self.registry.get(id) {
                Some(g) => {
                    if g.is_running() && g.port() == port {
                        return true;
                    }
                },
                None => {},
            }
            i = i + 1;
        }
        proof {
            if port_in_use(self.registry@, port) {
                let k = choose|k: InstanceId| #[trigger] self.registry@.contains_key(k) && self.registry@[k].running_spec()
                    && self.registry@[k].config_spec().port == port;
                assert(ids@.to_set().contains(k));
                let j = choose|j: int| 0 <= j < ids@.len() && ids@[j] == k;
                assert(!(self.registry@[ids@[j]].running_spec() && self.registry@[ids@[j]].config_spec().port == port));
            }
        }
        false
    }

    /// Gives `port` back, unless an instance that runs uses it; giving back
    /// a port that is not claimed changes nothing. Returns whether the port
    /// is now free.
    pub fn release_port(&mut self, port: u32) -> (r: bool)
        requires
            old(self).wf(),
        ensures
            final(self).wf(),
            r == !port_in_use(old(self).registry_spec()@, port),
            r ==> final(self).ports_spec()@ == old(self).ports_spec()@.remove(port),
            !r ==> final(self).ports_spec()@ == old(self).ports_spec()@,
            final(self).registry_spec() == old(self).registry_spec(),
            final(self).bus_spec() == old(self).bus_spec(),
            final(self).history_spec() == old(self).history_spec(),
            final(self).uuid_spec() == old(self).uuid_spec(),
            final(self).up_since_spec() == old(self).up_since_spec(),
            final(self).setup_key_spec() == old(self).setup_key_spec(),
    {
        if self.port_in_use(port) {
            return false;
        }
        self.ports.release(port);
        proof {
            assert forall|k: InstanceId| #[trigger] self.registry@.contains_key(k) && self.registry@[k].running_spec()
                implies self.ports@.contains(self.registry@[k].config_spec().port) by {
                assert(old(self).ports@.contains(self.registry@[k].config_spec().port));
                assert(self.registry@[k].config_spec().port != port);
            }
        }
        true
    }

    /// Files a monitor report for `id`; reports of instances that are not in
    /// the registry are dropped. Returns whether it was filed.
    pub fn record_report(&mut self, id: InstanceId, report: MonitorReport) -> (r: bool)
        requires
            old(self).wf(),
        ensures
            final(self).wf(),
            r == old(self).registry_spec()@.contains_key(id),
            r ==> final(self).history_spec().reports_spec(id)
                == ring_push(old(self).history_spec().reports_spec(id), crate::history::MONITOR_HISTORY as nat, report),
            r ==> final(self).history_spec().events_spec() == old(self).history_spec().events_spec(),
            r ==> forall|other: InstanceId| other != id ==>
                #[trigger] final(self).history_spec().reports_spec(other) == old(self).history_spec().reports_spec(other),
            !r ==> final(self).history_spec() == old(self).history_spec(),
            final(self).registry_spec() == old(self).registry_spec(),
            final(self).ports_spec() == old(self).ports_spec(),
            final(self).bus_spec() == old(self).bus_spec(),
            final(self).uuid_spec() == old(self).uuid_spec(),
            final(self).up_since_spec() == old(self).up_since_spec(),
            final(self).setup_key_spec() == old(self).setup_key_spec(),
    {
        if !self.registry.contains(id) {
            return false;
        }
        self.history.record_report(id, report);
        proof {
            assert forall|k: InstanceId| #[trigger] self.history.has_reports(k) implies self.known@.contains(k) by {
                if k != id {
                    assert(self.history.reports_spec(k) == old(self).history.reports_spec(k));
                    assert(old(self).history.has_reports(k));
                } else {
                    assert(self.registry@.dom().contains(k));
                }
            }
            assert forall|k: InstanceId| #[trigger] self.history.has_console(k) implies self.known@.contains(k) by {
                assert(self.history.console_spec(k) == old(self).history.console_spec(k));
                assert(old(self).history.has_console(k));
            }
        }
        true
    }

    /// One step of the history loop on `sub`: a delivered event is filed in
    /// the history (a console line only if its instance is in the registry),
    /// a lag is passed over, and a closed bus ends the loop.
    pub fn history_step(&mut self, sub: &mut Subscription) -> (r: LoopControl)
        requires
            old(self).wf(),
            old(sub).next <= old(self).bus_spec().published(),
        ensures
            final(self).wf(),
            final(sub).next <= final(self).bus_spec().published(),
            final(self).bus_spec() == old(self).bus_spec(),
            final(self).registry_spec() == old(self).registry_spec(),
            final(self).ports_spec() == old(self).ports_spec(),
            old(sub).next < old(self).bus_spec().published() ==> r == LoopControl::Continue
                && final(sub).next > old(sub).next,
            old(sub).next < old(self).bus_spec().first_kept() ==> final(sub).next == old(self).bus_spec().first_kept()
                && final(self).history_spec() == old(self).history_spec(),
            old(self).bus_spec().first_kept() <= old(sub).next < old(self).bus_spec().published() ==> {
                let e = old(self).bus_spec().log()[old(sub).next as int];
                &&& final(sub).next == old(sub).next + 1
                &&& match e.kind {
                    EventKind::ConsoleOutput { instance, .. } => if old(self).registry_spec()@.contains_key(instance) {
                        final(self).history_spec().console_spec(instance)
                            == ring_push(old(self).history_spec().console_spec(instance), crate::history::CONSOLE_HISTORY as nat, e)
                    } else {
                        final(self).history_spec() == old(self).history_spec()
                    },
                    _ => final(self).history_spec().events_spec()
                        == ring_push(old(self).history_spec().events_spec(), crate::history::EVENT_HISTORY as nat, e),
                }
            },
            old(sub).next == old(self).bus_spec().published() ==> final(sub).next == old(sub).next
                && final(self).history_spec() == old(self).history_spec()
                && (r == LoopControl::Exit <==> old(self).bus_spec().is_closed_spec())
                && (r == LoopControl::Idle <==> !old(self).bus_spec().is_closed_spec()),
            final(self).uuid_spec() == old(self).uuid_spec(),
            final(self).up_since_spec() == old(self).up_since_spec(),
            final(self).setup_key_spec() == old(self).setup_key_spec(),
    {
        let copy: Option<Event> = match self.bus.recv(sub) {
            RecvOutcome::Delivered { event, .. } => Some(event.duplicate()),
            RecvOutcome::Lagged { .. } => return LoopControl::Continue,
            RecvOutcome::Empty => return LoopControl::Idle,
            RecvOutcome::Closed => return LoopControl::Exit,
        };
        match copy {
            Some(e) => {
                let file = match &e.kind {
                    EventKind::ConsoleOutput { instance, .. } => self.registry.contains(*instance),
                    _ => true,
                };
                if file {
                    let ghost e0 = e;
                    self.history.record_event(e);
                    proof {
                        assert forall|k: InstanceId| #[trigger] self.history.has_reports(k) implies self.known@.contains(k) by {
                            assert(self.history.reports_spec(k) == old(self).history.reports_spec(k));
                            assert(old(self).history.has_reports(k));
                        }
                        assert forall|k: InstanceId| #[trigger] self.history.has_console(k) implies self.known@.contains(k) by {
                            match e0.kind {
                                EventKind::ConsoleOutput { instance, .. } => {
                                    if k != instance {
                                        assert(self.history.console_spec(k) == old(self).history.console_spec(k));
                                        assert(old(self).history.has_console(k));
                                    } else {
                                        assert(self.registry@.dom().contains(k));
                                    }
                                },
                                _ => {
                                    assert(self.history.console_spec(k) == old(self).history.console_spec(k));
                                    assert(old(self).history.has_console(k));
                                },
                            }
                        }
                    }
                }
                LoopControl::Continue
            },
            None => LoopControl::Continue,
        }
    }
}

/// What every well-formed state keeps: each identifier in the console or
/// monitor history is or was in the registry, and the port of every running
/// instance is claimed.
pub proof fn lemma_state_invariants(s: AppState, id: InstanceId)
    requires
        s.wf(),
    ensures
        s.registry_spec()@.dom().subset_of(s.known_spec()),
        s.history_spec().has_console(id) || s.history_spec().has_reports(id) ==> s.known_spec().contains(id),
        s.registry_spec()@.contains_key(id) && s.registry_spec()@[id].running_spec()
            ==> s.ports_spec()@.contains(s.registry_spec()@[id].config_spec().port),
{
}

} // verus!
