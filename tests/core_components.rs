use lodestone_core::bus::{EventBus, RecvOutcome};
use lodestone_core::events::{Cause, Event, EventKind, InstanceId, Lifecycle};
use lodestone_core::instance::{GameInstance, InstanceConfig, InstanceError};
use lodestone_core::ports::{PortAllocator, PortError};
use lodestone_core::registry::InstanceRegistry;
use lodestone_core::supervisor::{LoopKind, TaskSupervisor};

fn action(n: i64) -> Event {
    Event { kind: EventKind::Action { instance: None, description: format!("action {}", n) }, timestamp: n, cause: Cause::System }
}

fn instance(value: u128, port: u32, auto_start: bool) -> GameInstance {
    GameInstance::restore_minecraft(InstanceConfig {
        uuid: InstanceId { value },
        name: format!("server {}", value),
        port,
        auto_start,
    })
}

#[test]
fn allocate_hands_out_lowest_free_port() {
    let mut ports = PortAllocator::new(100, 105);
    assert_eq!(ports.allocate(), Ok(100));
    assert_eq!(ports.allocate(), Ok(101));
    assert!(ports.is_claimed(100));
    ports.release(100);
    assert!(!ports.is_claimed(100));
    assert_eq!(ports.allocate(), Ok(100));
    assert_eq!(ports.allocate(), Ok(102));
}

#[test]
fn allocate_never_double_issues() {
    let mut ports = PortAllocator::with_claimed(10, 20, &vec![12, 15]);
    let mut seen: Vec<u32> = Vec::new();
    for _ in 0..8 {
        let p = ports.allocate().unwrap();
        assert!(!seen.contains(&p));
        assert!(p != 12 && p != 15);
        seen.push(p);
    }
    assert_eq!(ports.allocate(), Err(PortError::NoAvailablePort));
    ports.release(13);
    assert_eq!(ports.allocate(), Ok(13));
}

#[test]
fn reserve_refuses_claimed_port() {
    let mut ports = PortAllocator::new(25565, 25570);
    assert_eq!(ports.reserve(25565), Ok(()));
    assert_eq!(ports.reserve(25565), Err(PortError::PortAlreadyInUse));
    assert_eq!(ports.allocate(), Ok(25566));
}

#[test]
fn release_is_idempotent() {
    let mut ports = PortAllocator::new(1, 3);
    ports.release(7);
    assert_eq!(ports.allocate(), Ok(1));
    ports.release(1);
    ports.release(1);
    assert!(!ports.is_claimed(1));
    assert_eq!(ports.allocate(), Ok(1));
}

#[test]
fn empty_range_has_no_port() {
    let mut ports = PortAllocator::new(5, 5);
    assert_eq!(ports.allocate(), Err(PortError::NoAvailablePort));
}

#[test]
fn late_subscriber_sees_only_later_events() {
    let mut bus = EventBus::new(16);
    for n in 0..3 {
        assert_eq!(bus.publish(action(n)), Ok(n as u64));
    }
    let mut sub = bus.subscribe();
    assert_eq!(sub.next, 3);
    assert!(matches!(bus.recv(&mut sub), RecvOutcome::Empty));
    for n in 3..6 {
        bus.publish(action(n)).unwrap();
    }
    for expected in 3..6u64 {
        match bus.recv(&mut sub) {
            RecvOutcome::Delivered { seq, event } => {
                assert_eq!(seq, expected);
                assert_eq!(event.timestamp, expected as i64);
            }
            _ => panic!("expected an event"),
        }
    }
    assert!(matches!(bus.recv(&mut sub), RecvOutcome::Empty));
}

#[test]
fn stalled_subscriber_lags_then_resumes_without_duplicates() {
    let mut bus = EventBus::new(4);
    let mut sub = bus.subscribe();
    for n in 0..10 {
        bus.publish(action(n)).unwrap();
    }
    match bus.recv(&mut sub) {
        RecvOutcome::Lagged { missed } => assert_eq!(missed, 6),
        _ => panic!("expected a lag"),
    }
    let mut seen: Vec<u64> = Vec::new();
    loop {
        match bus.recv(&mut sub) {
            RecvOutcome::Delivered { seq, event } => {
                assert_eq!(event.timestamp, seq as i64);
                seen.push(seq);
            }
            RecvOutcome::Empty => break,
            _ => panic!("unexpected outcome"),
        }
    }
    assert_eq!(seen, vec![6, 7, 8, 9]);
}

#[test]
fn closed_bus_ends_subscribers_after_backlog() {
    let mut bus = EventBus::new(8);
    let mut sub = bus.subscribe();
    bus.publish(action(0)).unwrap();
    bus.close();
    assert!(bus.publish(action(1)).is_err());
    assert!(matches!(bus.recv(&mut sub), RecvOutcome::Delivered { seq: 0, .. }));
    assert!(matches!(bus.recv(&mut sub), RecvOutcome::Closed));
}

#[test]
fn registry_insert_get_remove() {
    let mut reg = InstanceRegistry::new();
    assert!(reg.insert(instance(1, 25565, false)).is_none());
    assert!(reg.insert(instance(2, 25566, true)).is_none());
    assert_eq!(reg.len(), 2);
    assert_eq!(reg.get(InstanceId { value: 2 }).unwrap().port(), 25566);
    let displaced = reg.insert(instance(1, 25570, false)).unwrap();
    assert_eq!(displaced.port(), 25565);
    assert_eq!(reg.len(), 2);
    assert_eq!(reg.get(InstanceId { value: 1 }).unwrap().port(), 25570);
    assert!(reg.remove(InstanceId { value: 1 }).is_some());
    assert!(reg.get(InstanceId { value: 1 }).is_none());
    assert!(reg.remove(InstanceId { value: 1 }).is_none());
    assert_eq!(reg.ids(), vec![InstanceId { value: 2 }]);
}

#[test]
fn second_start_reports_already_running() {
    let mut reg = InstanceRegistry::new();
    reg.insert(instance(7, 25565, false));
    let id = InstanceId { value: 7 };
    assert_eq!(reg.start(id), Ok(()));
    assert_eq!(reg.start(id), Err(InstanceError::AlreadyRunning));
    assert_eq!(reg.len(), 1);
    assert!(reg.get(id).unwrap().is_running());
    assert_eq!(reg.start(InstanceId { value: 8 }), Err(InstanceError::NotFound));
}

#[test]
fn stop_is_idempotent() {
    let mut reg = InstanceRegistry::new();
    reg.insert(instance(3, 25565, false));
    let id = InstanceId { value: 3 };
    assert!(!reg.stop(id));
    reg.start(id).unwrap();
    assert!(reg.stop(id));
    assert!(!reg.stop(id));
    assert!(!reg.stop(InstanceId { value: 4 }));
}

#[test]
fn first_exit_plans_one_stop_per_instance() {
    let mut reg = InstanceRegistry::new();
    for v in 1..=3u128 {
        reg.insert(instance(v, 25560 + v as u32, false));
    }
    reg.start(InstanceId { value: 2 }).unwrap();
    let mut sup = TaskSupervisor::new();
    assert!(!sup.is_shutting_down());
    let mut plan = sup.on_exit(LoopKind::Interrupt, &reg).unwrap();
    plan.sort_by_key(|id| id.value);
    assert_eq!(plan, vec![InstanceId { value: 1 }, InstanceId { value: 2 }, InstanceId { value: 3 }]);
    assert_eq!(sup.trigger(), Some(LoopKind::Interrupt));
    assert!(sup.on_exit(LoopKind::Monitor, &reg).is_none());
    assert!(sup.on_exit(LoopKind::HttpServer, &reg).is_none());
    assert_eq!(sup.trigger(), Some(LoopKind::Interrupt));
}

#[test]
fn event_reports_its_instance() {
    let id = InstanceId { value: 9 };
    let e = Event::lifecycle(id, Lifecycle::Started, 5, Cause::System);
    assert_eq!(e.instance_id(), Some(id));
    assert!(!e.is_console_message());
    let c = Event::console(id, String::from("Done"), 6);
    assert!(c.is_console_message());
    assert_eq!(c.instance_id(), Some(id));
    assert_eq!(action(1).instance_id(), None);
    let copy = c.duplicate();
    assert!(matches!(copy.kind, EventKind::ConsoleOutput { ref line, .. } if line == "Done"));
}
