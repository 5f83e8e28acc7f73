//! Request and response bodies exchanged between the reporting agents and
//! the controller, and the error a heartbeat for an unknown machine raises.

use vstd::prelude::*;
use crate::config::MachineConfig;

verus! {

/// A periodic report from an agent: its machine id and how many packets it
/// saw since its previous report.
#[derive(Debug)]
pub struct Heartbeat {
    pub machine_id: String,
    pub num_packets_since_last_heartbeat: u64,
}

/// Reply to a heartbeat; `error` is set exactly when the call failed.
#[derive(Debug)]
pub struct HeartbeatResponse {
    pub error: Option<String>,
}

/// A registration call: the machine's id and its configuration.
#[derive(Debug)]
pub struct RegisterRequest {
    pub machine_id: String,
    pub config: MachineConfig,
}

/// Reply to a registration; registration cannot fail, so `error` is never
/// set by the controller itself.
#[derive(Debug)]
pub struct RegisterResponse {
    pub error: Option<String>,
}

/// Error raised by a heartbeat whose machine id was never registered.
#[derive(Debug)]
pub struct MachineNotRegisterd;

impl MachineNotRegisterd {
    /// The message shown to callers, also sent in the heartbeat reply body.
    pub fn message(&self) -> (s: String)
        ensures
            s@ == "machine not registered"@,
    {
        "machine not registered".to_owned()
    }
}

/// Body for a registration reply: registering cannot fail, so the error is
/// always absent.
pub fn register_http_reply() -> (r: RegisterResponse)
    ensures
        r.error is None,
{
    RegisterResponse { error: Option::None }
}

/// HTTP status and body for a heartbeat outcome: 200 with no error on
/// success, 400 carrying the not-registered message otherwise.
pub fn heartbeat_http_reply(outcome: &Result<(), MachineNotRegisterd>) -> (r: (
    u16,
    HeartbeatResponse,
))
    ensures
        outcome is Ok ==> r.0 == 200 && r.1.error is None,
        outcome is Err ==> r.0 == 400 && (r.1.error matches Some(m) && m@
            == "machine not registered"@),
{
    match outcome {
        Result::Ok(_) => (200, HeartbeatResponse { error: Option::None }),
        Result::Err(e) => (400, HeartbeatResponse { error: Option::Some(e.message()) }),
    }
}

} // verus!
