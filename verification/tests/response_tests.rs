use airship::messages::{heartbeat_http_reply, register_http_reply, MachineNotRegisterd};
use airship::response::{lifecycle_call_succeeded, should_reregister, str_contains};

#[test]
fn substring_search() {
    assert!(str_contains("xyz", "yz"));
    assert!(str_contains("xyz", "xyz"));
    assert!(str_contains("abc", ""));
    assert!(!str_contains("", "x"));
    assert!(!str_contains("xyz", "zy"));
    assert!(!str_contains("xy", "xyz"));
}

#[test]
fn lifecycle_status_codes() {
    assert!(lifecycle_call_succeeded(200, "anything"));
    assert!(!lifecycle_call_succeeded(400, "current state invalid"));
    assert!(!lifecycle_call_succeeded(500, "boom"));
}

#[test]
fn lifecycle_noop_transition_counts_as_success() {
    assert!(lifecycle_call_succeeded(
        500,
        "failed to stop: current state invalid for transition"
    ));
    assert!(lifecycle_call_succeeded(409, "current state invalid"));
}

#[test]
fn reregister_only_on_not_registered_answer() {
    assert!(should_reregister(400, "machine not registered"));
    assert!(should_reregister(400, "error: machine not registered!"));
    assert!(!should_reregister(200, "machine not registered"));
    assert!(!should_reregister(400, "some other failure"));
}

#[test]
fn heartbeat_reply_mirrors_the_outcome() {
    let (status, body) = heartbeat_http_reply(&Ok(()));
    assert_eq!(status, 200);
    assert!(body.error.is_none());

    let (status, body) = heartbeat_http_reply(&Err(MachineNotRegisterd));
    assert_eq!(status, 400);
    assert_eq!(body.error.as_deref(), Some("machine not registered"));
}

#[test]
fn register_reply_never_carries_an_error() {
    assert!(register_http_reply().error.is_none());
}

#[test]
fn not_registered_message() {
    assert_eq!(MachineNotRegisterd.message(), "machine not registered");
}
