use lodestone_core::bus::{EventBus, RecvOutcome};
use lodestone_core::deps::{arch_label_of, needs_exec_bit, seven_zip_name, seven_zip_url, setup_key_needed, str_eq};
use lodestone_core::events::{Cause, Event, EventKind, InstanceId, Lifecycle};
use lodestone_core::history::HistoryBuffers;
use lodestone_core::instance::InstanceError;
use lodestone_core::marker::{decode_fields, is_minecraft, parse_marker, MarkerError, MarkerFields};
use lodestone_core::monitor::MonitorReport;
use lodestone_core::restore::restore_instances;
use lodestone_core::state::{AppState, LoopControl};

const UUID_A: &str = "67e55044-10b1-426f-9247-bb680e5fe0c8";
const UUID_B: &str = "a1a2a3a4-b1b2-c1c2-d1d2-d3d4d5d6d7d8";

fn marker(uuid: &str, port: u64, auto_start: bool) -> String {
    format!(
        "{{\"game_type\": \"minecraft\", \"name\": \"survival\", \"uuid\": \"{}\", \"port\": {}, \"auto_start\": {}, \"flavour\": \"vanilla\"}}",
        uuid, port, auto_start
    )
}

fn uuid_value(s: &str) -> u128 {
    u128::from_str_radix(&s.replace('-', ""), 16).unwrap()
}

#[test]
fn parses_a_minecraft_marker() {
    let c = parse_marker(&marker(UUID_A, 25565, true)).unwrap();
    assert_eq!(c.uuid, InstanceId { value: uuid_value(UUID_A) });
    assert_eq!(c.name, "survival");
    assert_eq!(c.port, 25565);
    assert!(c.auto_start);
}

#[test]
fn marker_errors() {
    assert_eq!(parse_marker("{not json").unwrap_err(), MarkerError::Malformed);
    assert_eq!(parse_marker("{\"name\": \"x\"}").unwrap_err(), MarkerError::MissingField);
    let other = marker(UUID_A, 1, false).replace("minecraft", "terraria");
    assert_eq!(parse_marker(&other).unwrap_err(), MarkerError::UnknownGameType);
    let bad_uuid = marker("not-a-uuid", 1, false);
    assert_eq!(parse_marker(&bad_uuid).unwrap_err(), MarkerError::InvalidUuid);
    assert_eq!(parse_marker(&marker(UUID_A, 5_000_000_000, false)).unwrap_err(), MarkerError::InvalidPort);
    let no_auto = marker(UUID_A, 1, false).replace("\"auto_start\"", "\"other\"");
    assert_eq!(parse_marker(&no_auto).unwrap_err(), MarkerError::MissingField);
}

#[test]
fn game_type_ignores_ascii_case() {
    assert!(is_minecraft("minecraft"));
    assert!(is_minecraft("MineCraft"));
    assert!(!is_minecraft("minecraf"));
    assert!(!is_minecraft("minecrafts"));
    let upper = marker(UUID_B, 25566, false).replace("\"minecraft\"", "\"MINECRAFT\"");
    assert_eq!(parse_marker(&upper).unwrap().port, 25566);
}

#[test]
fn decode_fields_checks_in_order() {
    let fields = MarkerFields {
        game_type: Some(String::from("Minecraft")),
        name: Some(String::from("n")),
        uuid: Some(Some(42)),
        port: Some(25565),
        auto_start: Some(false),
    };
    let c = decode_fields(fields).unwrap();
    assert_eq!(c.uuid, InstanceId { value: 42 });
    let missing_uuid = MarkerFields { game_type: Some(String::from("minecraft")), name: Some(String::from("n")), uuid: None, port: Some(1), auto_start: Some(true) };
    assert_eq!(decode_fields(missing_uuid).unwrap_err(), MarkerError::MissingField);
    let bad_uuid = MarkerFields { game_type: Some(String::from("minecraft")), name: Some(String::from("n")), uuid: Some(None), port: Some(1), auto_start: Some(true) };
    assert_eq!(decode_fields(bad_uuid).unwrap_err(), MarkerError::InvalidUuid);
    let unknown = MarkerFields { game_type: Some(String::from("factorio")), name: None, uuid: None, port: None, auto_start: None };
    assert_eq!(decode_fields(unknown).unwrap_err(), MarkerError::UnknownGameType);
}

#[test]
fn restore_keeps_valid_and_skips_unmarked_directories() {
    let markers = vec![
        None,
        Some(marker(UUID_A, 25565, false)),
        None,
        Some(marker(UUID_B, 25566, true)),
        None,
    ];
    let reg = restore_instances(&markers).unwrap();
    assert_eq!(reg.len(), 2);
    let a = reg.get(InstanceId { value: uuid_value(UUID_A) }).unwrap();
    assert_eq!(a.port(), 25565);
    assert!(!a.is_running());
    assert_eq!(reg.get(InstanceId { value: uuid_value(UUID_B) }).unwrap().port(), 25566);
}

#[test]
fn restore_fails_on_first_bad_marker() {
    let markers = vec![Some(marker(UUID_A, 25565, false)), None, Some(String::from("garbage")), Some(String::from("{}"))];
    let e = match restore_instances(&markers) {
        Err(e) => e,
        Ok(_) => panic!("a malformed marker must fail the restore"),
    };
    assert_eq!(e.dir, 2);
    assert_eq!(e.kind, MarkerError::Malformed);
}

#[test]
fn startup_end_to_end() {
    let bus = EventBus::new(256);
    let mut sub = bus.subscribe();
    let markers = vec![Some(marker(UUID_A, 25565, true))];
    let state = AppState::startup(bus, &markers, String::from("core"), 1000, None).unwrap();
    let id = InstanceId { value: uuid_value(UUID_A) };
    assert_eq!(state.registry().len(), 1);
    assert!(state.registry().get(id).unwrap().is_running());
    assert!(state.ports().is_claimed(25565));
    match state.bus().recv(&mut sub) {
        RecvOutcome::Delivered { seq, event } => {
            assert_eq!(seq, 0);
            assert!(matches!(event.kind, EventKind::Instance { instance, change: Lifecycle::Started } if instance == id));
        }
        _ => panic!("expected the start event"),
    }
    assert_eq!(state.up_since(), 1000);
    assert_eq!(state.uuid(), "core");
}

#[test]
fn startup_claims_ports_of_stopped_instances_too() {
    let markers = vec![Some(marker(UUID_A, 25565, false)), Some(marker(UUID_B, 25567, false))];
    let mut state = AppState::startup(EventBus::new(8), &markers, String::from("core"), 0, Some(String::from("key"))).unwrap();
    assert!(state.ports().is_claimed(25565));
    assert!(state.ports().is_claimed(25567));
    assert_eq!(state.allocate_port(), Ok(25566));
    assert_eq!(state.allocate_port(), Ok(25568));
    assert_eq!(state.bus().published_count(), 0);
    assert_eq!(state.first_time_setup_key().as_deref(), Some("key"));
    state.clear_setup_key();
    assert!(state.first_time_setup_key().is_none());
}

#[test]
fn state_start_stop_publish_lifecycle() {
    let markers = vec![Some(marker(UUID_A, 25565, false))];
    let mut state = AppState::startup(EventBus::new(8), &markers, String::from("core"), 0, None).unwrap();
    let id = InstanceId { value: uuid_value(UUID_A) };
    let mut sub = state.subscribe();
    assert_eq!(state.start_instance(id, Cause::System, 5), Ok(()));
    assert_eq!(state.start_instance(id, Cause::System, 6), Err(InstanceError::AlreadyRunning));
    assert!(!state.release_port(25565));
    assert!(state.stop_instance(id, Cause::User { user_id: String::from("u") }, 7));
    assert!(!state.stop_instance(id, Cause::System, 8));
    assert_eq!(state.bus().published_count(), 2);
    assert!(matches!(state.bus().recv(&mut sub), RecvOutcome::Delivered { seq: 0, .. }));
    match state.bus().recv(&mut sub) {
        RecvOutcome::Delivered { event, .. } => {
            assert!(matches!(event.kind, EventKind::Instance { change: Lifecycle::Stopped, .. }));
            assert_eq!(event.timestamp, 7);
        }
        _ => panic!("expected the stop event"),
    }
    assert!(state.release_port(25565));
    assert!(!state.ports().is_claimed(25565));
}

#[test]
fn history_step_routes_console_lines() {
    let markers = vec![Some(marker(UUID_A, 25565, false))];
    let mut state = AppState::startup(EventBus::new(8), &markers, String::from("core"), 0, None).unwrap();
    let id = InstanceId { value: uuid_value(UUID_A) };
    let mut sub = state.subscribe();
    assert_eq!(state.history_step(&mut sub), LoopControl::Idle);
    state.publish(Event::console(id, String::from("Done (1.2s)!"), 1));
    state.publish(Event::lifecycle(id, Lifecycle::Started, 2, Cause::System));
    assert_eq!(state.history_step(&mut sub), LoopControl::Continue);
    assert_eq!(state.history_step(&mut sub), LoopControl::Continue);
    assert_eq!(state.history().console_len(id), 1);
    assert_eq!(state.history().events_len(), 1);
    assert_eq!(state.history().event_at(0).timestamp, 2);
    assert!(matches!(state.history().console_at(id, 0).unwrap().kind, EventKind::ConsoleOutput { ref line, .. } if line == "Done (1.2s)!"));
    state.close_bus();
    assert_eq!(state.history_step(&mut sub), LoopControl::Exit);
}

#[test]
fn history_rings_evict_oldest() {
    let mut h = HistoryBuffers::new();
    for n in 0..600i64 {
        h.record_event(Event { kind: EventKind::Action { instance: None, description: String::new() }, timestamp: n, cause: Cause::System });
    }
    assert_eq!(h.events_len(), 512);
    assert_eq!(h.event_at(0).timestamp, 88);
    assert_eq!(h.event_at(511).timestamp, 599);
    let id = InstanceId { value: 1 };
    for n in 0..70u64 {
        h.record_report(id, MonitorReport { timestamp: n as i64, cpu_permille: 10, memory_bytes: n, uptime_secs: n });
    }
    assert_eq!(h.reports_len(id), 64);
    assert_eq!(h.report_at(id, 0).unwrap().memory_bytes, 6);
    assert!(h.report_at(id, 64).is_none());
    assert_eq!(h.reports_len(InstanceId { value: 2 }), 0);
}

#[test]
fn monitor_reports_only_for_known_instances() {
    let markers = vec![Some(marker(UUID_A, 25565, false))];
    let mut state = AppState::startup(EventBus::new(8), &markers, String::from("core"), 0, None).unwrap();
    let id = InstanceId { value: uuid_value(UUID_A) };
    let r = MonitorReport { timestamp: 1, cpu_permille: 250, memory_bytes: 1 << 20, uptime_secs: 3 };
    assert!(state.record_report(id, r));
    assert!(!state.record_report(InstanceId { value: 5 }, r));
    assert_eq!(state.history().report_at(id, 0), Some(r));
    assert_eq!(state.history().reports_len(InstanceId { value: 5 }), 0);
}

#[test]
fn dependency_names() {
    assert_eq!(arch_label_of("x86_64"), "x64");
    assert_eq!(arch_label_of("aarch64"), "aarch64");
    assert_eq!(seven_zip_name("linux", "x86_64"), "7z_linux_x64");
    assert_eq!(
        seven_zip_url("macos", "aarch64"),
        "https://github.com/Lodestone-Team/dependencies/raw/main/7z_macos_aarch64"
    );
    assert!(needs_exec_bit("linux"));
    assert!(!needs_exec_bit("windows"));
    assert!(str_eq("abc", "abc"));
    assert!(!str_eq("abc", "abd"));
}

#[test]
fn setup_key_only_without_owner() {
    assert!(setup_key_needed(&vec![]));
    assert!(setup_key_needed(&vec![false, false]));
    assert!(!setup_key_needed(&vec![false, true]));
}

#[test]
fn history_step_drops_console_of_unknown_instance() {
    let markers = vec![Some(marker(UUID_A, 25565, false))];
    let mut state = AppState::startup(EventBus::new(8), &markers, String::from("core"), 0, None).unwrap();
    let stranger = InstanceId { value: 77 };
    let mut sub = state.subscribe();
    state.publish(Event::console(stranger, String::from("hello"), 1));
    assert_eq!(state.history_step(&mut sub), LoopControl::Continue);
    assert_eq!(state.history().console_len(stranger), 0);
    assert_eq!(state.history().events_len(), 0);
    assert_eq!(state.history_step(&mut sub), LoopControl::Idle);
}
