use vstd::prelude::*;

use crate::events::{Event, EventKind, InstanceId};
use crate::monitor::MonitorReport;
use crate::ring::{
    event_ring_capacity, event_ring_get, event_ring_items, event_ring_len, new_event_ring, new_report_ring,
    push_event, push_report, report_ring_capacity, report_ring_get, report_ring_items, report_ring_len, ring_push,
};
use ringbuffer::AllocRingBuffer;
use std::collections::HashMap;

verus! {

broadcast use vstd::std_specs::hash::group_hash_axioms;

/// How many events of all instances are kept.
pub const EVENT_HISTORY: usize = 512;

/// How many console lines are kept per instance.
pub const CONSOLE_HISTORY: usize = 1024;

/// How many monitor reports are kept per instance.
pub const MONITOR_HISTORY: usize = 64;

/// The in-memory history: the latest events, and per instance the latest
/// console lines and monitor reports, each in a ring of fixed capacity.
pub struct HistoryBuffers {
    events: AllocRingBuffer<Event>,
    console: HashMap<u128, AllocRingBuffer<Event>>,
    monitor: HashMap<u128, AllocRingBuffer<MonitorReport>>,
}

impl HistoryBuffers {
    /// The events kept, oldest first (console lines are kept per instance).
    pub closed spec fn events_spec(&self) -> Seq<Event> {
        event_ring_items(self.events)
    }

    /// Whether console lines of `id` were ever kept.
    pub closed spec fn has_console(&self, id: InstanceId) -> bool {
        self.console@.contains_key(id.value)
    }

    /// The console lines kept for `id`, oldest first.
    pub closed spec fn console_spec(&self, id: InstanceId) -> Seq<Event> {
        if self.console@.contains_key(id.value) {
            event_ring_items(self.console@[id.value])
        } else {
            Seq::empty()
        }
    }

    /// Whether monitor reports of `id` were ever kept.
    pub closed spec fn has_reports(&self, id: InstanceId) -> bool {
        self.monitor@.contains_key(id.value)
    }

    /// The monitor reports kept for `id`, oldest first.
    pub closed spec fn reports_spec(&self, id: InstanceId) -> Seq<MonitorReport> {
        if self.monitor@.contains_key(id.value) {
            report_ring_items(self.monitor@[id.value])
        } else {
            Seq::empty()
        }
    }

    pub closed spec fn wf(&self) -> bool {
        &&& event_ring_capacity(self.events) == EVENT_HISTORY
        &&& event_ring_items(self.events).len() <= EVENT_HISTORY
        &&& forall|k: u128| #[trigger] self.console@.contains_key(k) ==>
            event_ring_capacity(self.console@[k]) == CONSOLE_HISTORY
                && event_ring_items(self.console@[k]).len() <= CONSOLE_HISTORY
        &&& forall|k: u128| #[trigger] self.monitor@.contains_key(k) ==>
            report_ring_capacity(self.monitor@[k]) == MONITOR_HISTORY
                && report_ring_items(self.monitor@[k]).len() <= MONITOR_HISTORY
    }

    /// Empty history.
    pub fn new() -> (r: Self)
        ensures
            r.wf(),
            r.events_spec() == Seq::<Event>::empty(),
            forall|id: InstanceId| !r.has_console(id) && !r.has_reports(id),
    {
        HistoryBuffers {
            events: new_event_ring(EVENT_HISTORY),
            console: HashMap::new(),
            monitor: HashMap::new(),
        }
    }

    /// Files `event`: a console line goes to its instance's console ring,
    /// made on the instance's first line; any other event to the event ring.
    pub fn record_event(&mut self, event: Event)
        requires
            old(self).wf(),
        ensures
            final(self).wf(),
            match event.kind {
                EventKind::ConsoleOutput { instance, .. } => {
                    &&& final(self).events_spec() == old(self).events_spec()
                    &&& final(self).console_spec(instance)
                        == ring_push(old(self).console_spec(instance), CONSOLE_HISTORY as nat, event)
                    &&& final(self).has_console(instance)
                    &&& forall|other: InstanceId| other != instance ==>
                        #[trigger] final(self).console_spec(other) == old(self).console_spec(other)
                            && final(self).has_console(other) == old(self).has_console(other)
                },
                _ => {
                    &&& final(self).events_spec()
                        == ring_push(old(self).events_spec(), EVENT_HISTORY as nat, event)
                    &&& forall|other: InstanceId|
                        #[trigger] final(self).console_spec(other) == old(self).console_spec(other)
                            && final(self).has_console(other) == old(self).has_console(other)
                },
            },
            forall|other: InstanceId|
                #[trigger] final(self).reports_spec(other) == old(self).reports_spec(other)
                    && final(self).has_reports(other) == old(self).has_reports(other),
    {
        let target: Option<InstanceId> = match &event.kind {
            EventKind::ConsoleOutput { instance, .. } => Some(*instance),
            _ => None,
        };
        match target {
            Some(id) => {
                let mut ring = match self.console.remove(&id.value) {
                    Some(ring) => ring,
                    None => new_event_ring(CONSOLE_HISTORY),
                };
                push_event(&mut ring, event);
                self.console.insert(id.value, ring);
                proof {
                    assert forall|other: InstanceId| other != id implies
                        #[trigger] self.console_spec(other) == old(self).console_spec(other)
                            && self.has_console(other) == old(self).has_console(other) by {
                        assert(other.value != id.value);
                    }
                }
            },
            None => {
                push_event(&mut self.events, event);
            },
        }
    }

    /// Appends `report` to the monitor ring of `id`, made on its first report.
    pub fn record_report(&mut self, id: InstanceId, report: MonitorReport)
        requires
            old(self).wf(),
        ensures
            final(self).wf(),
            final(self).events_spec() == old(self).events_spec(),
            final(self).reports_spec(id) == ring_push(old(self).reports_spec(id), MONITOR_HISTORY as nat, report),
            final(self).has_reports(id),
            forall|other: InstanceId|
                #[trigger] final(self).console_spec(other) == old(self).console_spec(other)
                    && final(self).has_console(other) == old(self).has_console(other),
            forall|other: InstanceId| other != id ==>
                #[trigger] final(self).reports_spec(other) == old(self).reports_spec(other)
                    && final(self).has_reports(other) == old(self).has_reports(other),
    {
        let mut ring = match self.monitor.remove(&id.value) {
            Some(ring) => ring,
            None => new_report_ring(MONITOR_HISTORY),
        };
        push_report(&mut ring, report);
        self.monitor.insert(id.value, ring);
        proof {
            assert forall|other: InstanceId| other != id implies
                #[trigger] self.reports_spec(other) == old(self).reports_spec(other)
                    && self.has_reports(other) == old(self).has_reports(other) by {
                assert(other.value != id.value);
            }
        }
    }

    /// The number of events kept.
    pub fn events_len(&self) -> (r: usize)
        ensures
            r == self.events_spec().len(),
    {
        event_ring_len(&self.events)
    }

    /// The `index`-th event kept, oldest first.
    pub fn event_at(&self, index: usize) -> (r: &Event)
        requires
            index < self.events_spec().len(),
        ensures
            *r == self.events_spec()[index as int],
    {
        event_ring_get(&self.events, index)
    }

    /// The number of console lines kept for `id`.
    pub fn console_len(&self, id: InstanceId) -> (r: usize)
        ensures
            r == self.console_spec(id).len(),
    {
        match self.console.get(&id.value) {
            Some(ring) => event_ring_len(ring),
            None => 0,
        }
    }

    /// The `index`-th console line kept for `id`, oldest first.
    pub fn console_at(&self, id: InstanceId, index: usize) -> (r: Option<&Event>)
        ensures
            r is Some <==> index < self.console_spec(id).len(),
            r matches Some(e) ==> *e == self.console_spec(id)[index as int],
    {
        match self.console.get(&id.value) {
            Some(ring) => {
                if index < event_ring_len(ring) {
                    Some(event_ring_get(ring, index))
                } else {
                    None
                }
            },
            None => None,
        }
    }

    /// The number of monitor reports kept for `id`.
    pub fn reports_len(&self, id: InstanceId) -> (r: usize)
        ensures
            r == self.reports_spec(id).len(),
    {
        match self.monitor.get(&id.value) {
            Some(ring) => report_ring_len(ring),
            None => 0,
        }
    }

    /// The `index`-th monitor report kept for `id`, oldest first.
    pub fn report_at(&self, id: InstanceId, index: usize) -> (r: Option<MonitorReport>)
        ensures
            r is Some <==> index < self.reports_spec(id).len(),
            r matches Some(x) ==> x == self.reports_spec(id)[index as int],
    {
        match self.monitor.get(&id.value) {
            Some(ring) => {
                if index < report_ring_len(ring) {
                    Some(report_ring_get(ring, index))
                } else {
                    None
                }
            },
            None => None,
        }
    }
}

} // verus!
