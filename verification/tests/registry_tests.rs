use airship::config::{Autostop, MachineConfig, MachineStatus};
use airship::messages::Heartbeat;
use airship::registry::InMemoryDatabase;

fn cfg(auto_stop: Option<Autostop>, auto_start: Option<bool>, timeout: Option<u64>) -> MachineConfig {
    MachineConfig {
        auto_stop,
        auto_start,
        auto_stop_timeout_seconds: timeout,
        stop_signal: None,
    }
}

#[test]
fn register_creates_started_record() {
    let mut db = InMemoryDatabase::new(100, 0);
    db.register(&"m1".to_string(), cfg(Some(Autostop::Stop), Some(true), Some(60)), 7);
    let rec = db.get(&"m1".to_string()).expect("registered");
    assert_eq!(rec.status, MachineStatus::Started);
    assert_eq!(rec.last_heartbeat, 7);
    assert_eq!(rec.config.auto_stop_timeout_seconds, Some(60));
}

#[test]
fn reregister_resets_heartbeat_and_forces_started() {
    let mut db = InMemoryDatabase::new(100, 0);
    let id = "m1".to_string();
    db.register(&id, cfg(Some(Autostop::Stop), Some(true), Some(60)), 5);
    db.mark_stopped(&id);
    assert_eq!(db.get(&id).unwrap().status, MachineStatus::Stopped);
    db.register(&id, cfg(Some(Autostop::Suspend), Some(false), Some(30)), 9);
    let rec = db.get(&id).unwrap();
    assert_eq!(rec.status, MachineStatus::Started);
    assert_eq!(rec.last_heartbeat, 9);
    assert_eq!(rec.config.auto_stop_timeout_seconds, Some(30));
    assert_eq!(db.num_started(), 1);
}

#[test]
fn heartbeat_on_ghost_machine_is_rejected() {
    let mut db = InMemoryDatabase::new(100, 0);
    let outcome = db.heartbeat(
        Heartbeat { machine_id: "ghost".to_string(), num_packets_since_last_heartbeat: 50 },
        3,
    );
    assert!(outcome.is_err());
    // The packets are still counted: the counter moves before the lookup.
    assert_eq!(db.packets_since_last_scan(), 50);
}

#[test]
fn register_then_heartbeat_succeeds_and_updates_clock() {
    let mut db = InMemoryDatabase::new(100, 0);
    let id = "m1".to_string();
    db.register(&id, cfg(None, None, None), 10);
    let outcome = db.heartbeat(
        Heartbeat { machine_id: id.clone(), num_packets_since_last_heartbeat: 17 },
        12,
    );
    assert!(outcome.is_ok());
    let rec = db.get(&id).unwrap();
    assert_eq!(rec.last_heartbeat, 12);
    assert_eq!(rec.status, MachineStatus::Started);
    assert_eq!(db.packets_since_last_scan(), 17);
}

#[test]
fn packet_counter_accumulates_and_wraps() {
    let mut db = InMemoryDatabase::new(100, 0);
    let outcome = db.heartbeat(
        Heartbeat { machine_id: "ghost".to_string(), num_packets_since_last_heartbeat: u64::MAX },
        0,
    );
    assert!(outcome.is_err());
    assert_eq!(db.packets_since_last_scan(), u64::MAX);
    let _ = db.heartbeat(
        Heartbeat { machine_id: "ghost".to_string(), num_packets_since_last_heartbeat: 5 },
        0,
    );
    assert_eq!(db.packets_since_last_scan(), 4);
}

#[test]
fn unknown_machine_is_not_registered() {
    let mut db = InMemoryDatabase::new(100, 0);
    assert!(!db.is_registered(&"m1".to_string()));
    assert!(db.get(&"m1".to_string()).is_none());
    db.register(&"m1".to_string(), cfg(None, None, None), 0);
    assert!(db.is_registered(&"m1".to_string()));
}
