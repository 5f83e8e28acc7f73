//! Per-machine configuration: what to do with an idle machine, whether the
//! machine may be restarted under load, and how long it may sit idle.

use vstd::prelude::*;

verus! {

/// Action taken on a machine once it has been idle past its timeout.
#[derive(Clone, Copy, PartialEq, Eq, Structural, Debug)]
pub enum Autostop {
    Stop,
    Suspend,
    Off,
}

/// Whether a machine is currently running or not. A machine that was
/// suspended counts as stopped.
#[derive(Clone, Copy, PartialEq, Eq, Structural, Debug)]
pub enum MachineStatus {
    Started,
    Stopped,
}

/// Configuration a machine registers with. Every field is optional; the
/// defaults are: no autostop action, no autostart, a sixty-second idle
/// timeout, and no stop signal.
#[derive(Debug)]
pub struct MachineConfig {
    pub auto_stop: Option<Autostop>,
    pub auto_start: Option<bool>,
    pub auto_stop_timeout_seconds: Option<u64>,
    pub stop_signal: Option<String>,
}

/// Mathematical image of a `MachineConfig`: the stop signal as a character
/// sequence, everything else as itself.
pub ghost struct ConfigView {
    pub auto_stop: Option<Autostop>,
    pub auto_start: Option<bool>,
    pub auto_stop_timeout_seconds: Option<u64>,
    pub stop_signal: Option<Seq<char>>,
}

impl View for MachineConfig {
    type V = ConfigView;

    open spec fn view(&self) -> ConfigView {
        ConfigView {
            auto_stop: self.auto_stop,
            auto_start: self.auto_start,
            auto_stop_timeout_seconds: self.auto_stop_timeout_seconds,
            stop_signal: match self.stop_signal {
                Option::Some(s) => Option::Some(s@),
                Option::None => Option::None,
            },
        }
    }
}

/// Idle timeout of a configuration, with the sixty-second default applied.
pub open spec fn timeout_of(c: ConfigView) -> u64 {
    match c.auto_stop_timeout_seconds {
        Option::Some(t) => t,
        Option::None => 60,
    }
}

} // verus!
