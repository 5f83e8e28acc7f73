//! One scan cycle's decisions: which idle started machines to evict, and how
//! many stopped machines to start for the packet volume seen since the
//! previous scan.
//!
//! The scan itself alternates these decisions with calls to the external
//! lifecycle provider; the decisions are computed here, over the registry
//! alone, and the caller commits each outcome with `mark_stopped` /
//! `mark_started` as the provider answers.

use vstd::prelude::*;
use crate::config::{Autostop, ConfigView, MachineStatus, timeout_of};
use crate::registry::{EntryView, InMemoryDatabase, MachineID, wf};

verus! {

/// An eviction the scan decided on: which machine, whether to stop or to
/// suspend it, and the configured stop signal to pass along.
#[derive(Debug)]
pub struct EvictionAction {
    pub machine_id: MachineID,
    pub kind: Autostop,
    pub signal: Option<String>,
}

/// Mathematical image of an `EvictionAction`.
pub ghost struct EvictionActionView {
    pub machine_id: Seq<char>,
    pub kind: Autostop,
    pub signal: Option<Seq<char>>,
}

impl View for EvictionAction {
    type V = EvictionActionView;

    open spec fn view(&self) -> EvictionActionView {
        EvictionActionView {
            machine_id: self.machine_id@,
            kind: self.kind,
            signal: match self.signal {
                Option::Some(s) => Option::Some(s@),
                Option::None => Option::None,
            },
        }
    }
}

/// The eviction a configuration asks for, if any: `Stop` and `Suspend` are
/// actions, an absent or `Off` policy is none.
pub open spec fn eviction_kind(c: ConfigView) -> Option<Autostop> {
    match c.auto_stop {
        Option::Some(Autostop::Stop) => Option::Some(Autostop::Stop),
        Option::Some(Autostop::Suspend) => Option::Some(Autostop::Suspend),
        _ => Option::None,
    }
}

/// A machine is due for eviction when it is started and has not sent a
/// heartbeat for its idle timeout (or longer).
pub open spec fn due_for_eviction(e: EntryView, now: u64) -> bool {
    e.record.status == MachineStatus::Started && now.saturating_sub(e.record.last_heartbeat)
        >= timeout_of(e.record.config)
}

/// How many rows of `s` are started.
pub open spec fn started_count(s: Seq<EntryView>) -> int
    decreases s.len(),
{
    if s.len() == 0 {
        0
    } else {
        started_count(s.drop_last()) + if s.last().record.status == MachineStatus::Started {
            1int
        } else {
            0int
        }
    }
}

/// The eviction planned for one row.
pub open spec fn action_of(e: EntryView) -> EvictionActionView {
    EvictionActionView {
        machine_id: e.id,
        kind: match eviction_kind(e.record.config) {
            Option::Some(k) => k,
            Option::None => Autostop::Off,
        },
        signal: e.record.config.stop_signal,
    }
}

/// The eviction pass over the rows of `s`, in order, with `remaining`
/// started machines assumed still running: a due row with a stop or suspend
/// policy is evicted only while more than one machine would stay running,
/// and each planned eviction lowers that count by one.
pub open spec fn plan_evictions_from(s: Seq<EntryView>, now: u64, remaining: int) -> Seq<
    EvictionActionView,
>
    decreases s.len(),
{
    if s.len() == 0 {
        Seq::empty()
    } else {
        let rest = s.subrange(1, s.len() as int);
        if due_for_eviction(s[0], now) && remaining > 1 && eviction_kind(s[0].record.config)
            is Some {
            seq![action_of(s[0])] + plan_evictions_from(rest, now, remaining - 1)
        } else {
            plan_evictions_from(rest, now, remaining)
        }
    }
}

/// The evictions one scan cycle plans, starting from the actual count of
/// started machines.
pub open spec fn spec_plan_evictions(s: Seq<EntryView>, now: u64) -> Seq<EvictionActionView> {
    plan_evictions_from(s, now, started_count(s))
}

/// A stopped machine that registered with autostart may be started by the
/// scan.
pub open spec fn startable(e: EntryView) -> bool {
    e.record.status == MachineStatus::Stopped && e.record.config.auto_start == Option::Some(true)
}

/// How many rows of `s` are startable.
pub open spec fn startable_count(s: Seq<EntryView>) -> int
    decreases s.len(),
{
    if s.len() == 0 {
        0
    } else {
        (if startable(s[0]) {
            1int
        } else {
            0int
        }) + startable_count(s.subrange(1, s.len() as int))
    }
}

/// The ids of the first startable rows of `s`, in registration order, at
/// most `budget` of them.
pub open spec fn plan_starts_from(s: Seq<EntryView>, budget: int) -> Seq<Seq<char>>
    decreases s.len(),
{
    if s.len() == 0 || budget <= 0 {
        Seq::empty()
    } else {
        let rest = s.subrange(1, s.len() as int);
        if startable(s[0]) {
            seq![s[0].id] + plan_starts_from(rest, budget - 1)
        } else {
            plan_starts_from(rest, budget)
        }
    }
}

/// How many machines one scan cycle wants to start: the packets seen since
/// the previous scan, divided by the packets one machine absorbs over the
/// window. A zero-length window or a zero rate asks for nothing.
pub open spec fn spec_machines_to_start(packets: u64, elapsed: u64, pps: u64) -> int {
    if elapsed == 0 || pps == 0 {
        0
    } else {
        packets as int / (pps as int * elapsed as int)
    }
}

/// Number of machines to start for `packets` packets seen over `elapsed`
/// seconds, at `pps` packets per second per machine.
pub fn machines_to_start(packets: u64, elapsed: u64, pps: u64) -> (r: u64)
    ensures
        r == spec_machines_to_start(packets, elapsed, pps),
{
    if elapsed == 0 || pps == 0 {
        return 0;
    }
    match pps.checked_mul(elapsed) {
        Some(cap) => {
            proof {
                assert(cap > 0) by (nonlinear_arith)
                    requires
                        pps >= 1 && elapsed >= 1 && cap == pps as int * elapsed as int,
                ;
            }
            packets / cap
        },
        None => {
            proof {
                vstd::arithmetic::div_mod::lemma_basic_div(
                    packets as int,
                    pps as int * elapsed as int,
                );
            }
            0
        },
    }
}

/// Everything one scan cycle decided: the evictions of its idle pass and
/// the machine ids its start pass picked.
pub struct ScanPlan {
    pub evictions: Vec<EvictionAction>,
    pub starts: Vec<MachineID>,
}

impl InMemoryDatabase {
    /// The decisions of one scan cycle. The eviction pass runs over the
    /// registry as it stands; then the scan window is closed, the packet
    /// count and window length set the start budget, and the start pass
    /// picks that many startable machines. Records are not touched: the
    /// caller performs the external calls and commits each confirmed
    /// outcome with `mark_stopped` / `mark_started`.
    pub fn plan_scan(&mut self, now: u64) -> (plan: ScanPlan)
        requires
            wf(old(self)@),
        ensures
            plan.evictions@.map_values(|a: EvictionAction| a@) == spec_plan_evictions(
                old(self)@.machines,
                now,
            ),
            plan.starts@.map_values(|id: MachineID| id@) == plan_starts_from(
                old(self)@.machines,
                spec_machines_to_start(
                    old(self)@.total_packets,
                    now.saturating_sub(old(self)@.last_scan_time),
                    old(self)@.pps_per_machine,
                ),
            ),
            final(self)@.machines == old(self)@.machines,
            final(self)@.total_packets == 0,
            final(self)@.last_scan_time == now,
            final(self)@.pps_per_machine == old(self)@.pps_per_machine,
            wf(final(self)@),
    {
        let evictions = self.plan_evictions(now);
        let (packets, elapsed) = self.take_scan_window(now);
        let budget = machines_to_start(packets, elapsed, self.pps_per_machine());
        let starts = self.plan_starts(budget);
        ScanPlan { evictions, starts }
    }
}

/// `started_count` stays between zero and the number of rows.
pub proof fn lemma_started_count_bounds(s: Seq<EntryView>)
    ensures
        0 <= started_count(s) <= s.len(),
    decreases s.len(),
{
    if s.len() > 0 {
        lemma_started_count_bounds(s.drop_last());
    }
}

} // verus!
