use airship::config::{Autostop, MachineConfig, MachineStatus};
use airship::messages::Heartbeat;
use airship::registry::InMemoryDatabase;
use airship::scan::machines_to_start;

fn cfg(auto_stop: Option<Autostop>, auto_start: Option<bool>, timeout: Option<u64>) -> MachineConfig {
    MachineConfig {
        auto_stop,
        auto_start,
        auto_stop_timeout_seconds: timeout,
        stop_signal: None,
    }
}

#[test]
fn start_budget_is_packets_over_rate_times_window() {
    assert_eq!(machines_to_start(1000, 2, 100), 5);
    assert_eq!(machines_to_start(999, 2, 100), 4);
    assert_eq!(machines_to_start(100, 1, 100), 1);
    assert_eq!(machines_to_start(99, 1, 100), 0);
}

#[test]
fn start_budget_guards_zero_and_overflow() {
    assert_eq!(machines_to_start(1000, 0, 100), 0);
    assert_eq!(machines_to_start(1000, 2, 0), 0);
    // The per-window capacity exceeds u64: no machine can be owed.
    assert_eq!(machines_to_start(u64::MAX, u64::MAX, 2), 0);
}

#[test]
fn idle_machine_is_stopped_on_next_scan() {
    // Machine a sits idle past its sixty-second timeout while b and c keep
    // reporting: the scan stops exactly a, and committing the stop flips its
    // record.
    let mut db = InMemoryDatabase::new(100, 0);
    let a = "a".to_string();
    db.register(&a, cfg(Some(Autostop::Stop), Some(true), Some(60)), 0);
    db.register(&"b".to_string(), cfg(Some(Autostop::Stop), Some(true), Some(60)), 0);
    db.register(&"c".to_string(), cfg(Some(Autostop::Stop), Some(true), Some(60)), 0);
    for id in ["b", "c"] {
        let outcome = db.heartbeat(
            Heartbeat { machine_id: id.to_string(), num_packets_since_last_heartbeat: 1 },
            60,
        );
        assert!(outcome.is_ok());
    }
    let plan = db.plan_evictions(61);
    assert_eq!(plan.len(), 1);
    assert_eq!(plan[0].machine_id, "a");
    assert_eq!(plan[0].kind, Autostop::Stop);
    db.mark_stopped(&a);
    assert_eq!(db.get(&a).unwrap().status, MachineStatus::Stopped);
    assert_eq!(db.num_started(), 2);
}

#[test]
fn eviction_always_spares_one_machine() {
    let mut db = InMemoryDatabase::new(100, 0);
    for id in ["a", "b", "c"] {
        db.register(&id.to_string(), cfg(Some(Autostop::Stop), Some(true), Some(60)), 0);
    }
    // All three idle far past the timeout; only two may be evicted.
    let plan = db.plan_evictions(100);
    assert_eq!(plan.len(), 2);
    for action in &plan {
        db.mark_stopped(&action.machine_id);
    }
    assert_eq!(db.num_started(), 1);
}

#[test]
fn suspend_policy_and_disabled_policy() {
    let mut db = InMemoryDatabase::new(100, 0);
    db.register(&"a".to_string(), cfg(Some(Autostop::Suspend), None, Some(10)), 0);
    db.register(&"b".to_string(), cfg(Some(Autostop::Off), None, Some(10)), 0);
    db.register(&"c".to_string(), cfg(None, None, Some(10)), 0);
    let plan = db.plan_evictions(50);
    // Only a has an actionable policy; b and c stay untouched.
    assert_eq!(plan.len(), 1);
    assert_eq!(plan[0].machine_id, "a");
    assert_eq!(plan[0].kind, Autostop::Suspend);
}

#[test]
fn start_pass_picks_stopped_autostart_machines_in_order() {
    let mut db = InMemoryDatabase::new(100, 0);
    db.register(&"a".to_string(), cfg(None, Some(true), None), 0);
    db.register(&"b".to_string(), cfg(None, Some(true), None), 0);
    db.register(&"c".to_string(), cfg(None, Some(false), None), 0);
    db.mark_stopped(&"a".to_string());
    db.mark_stopped(&"b".to_string());
    db.mark_stopped(&"c".to_string());
    // c never opted into autostart; a and b come in registration order.
    let starts = db.plan_starts(5);
    assert_eq!(starts, vec!["a".to_string(), "b".to_string()]);
    let starts = db.plan_starts(1);
    assert_eq!(starts, vec!["a".to_string()]);
    db.mark_started(&"a".to_string());
    assert_eq!(db.get(&"a".to_string()).unwrap().status, MachineStatus::Started);
}

#[test]
fn scan_plan_combines_both_passes_and_resets_the_window() {
    let mut db = InMemoryDatabase::new(100, 0);
    db.register(&"a".to_string(), cfg(Some(Autostop::Stop), Some(true), Some(60)), 0);
    db.register(&"b".to_string(), cfg(None, Some(true), None), 0);
    db.mark_stopped(&"b".to_string());
    // 1000 packets over a 2 second window at 100 pps each: budget 5, one
    // startable machine available.
    let _ = db.heartbeat(
        Heartbeat { machine_id: "a".to_string(), num_packets_since_last_heartbeat: 1000 },
        1,
    );
    let plan = db.plan_scan(2);
    assert!(plan.evictions.is_empty());
    assert_eq!(plan.starts, vec!["b".to_string()]);
    assert_eq!(db.packets_since_last_scan(), 0);
    // The next window starts now: a second scan sees no packets.
    let plan = db.plan_scan(3);
    assert!(plan.starts.is_empty());
}
