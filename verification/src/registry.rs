//! The controller's registry: one record per machine, keyed by id, plus the
//! fleet-wide packet counter and the time of the previous scan.
//!
//! Records are kept in registration order and never deleted; a machine only
//! toggles between started and stopped. All times are plain seconds on the
//! controller's monotonic clock, handed in by the caller.

use vstd::prelude::*;
use vstd::pervasive::unreached;
use crate::config::{Autostop, ConfigView, MachineConfig, MachineStatus};
use crate::messages::{Heartbeat, MachineNotRegisterd};
use crate::scan::{
    EvictionAction, EvictionActionView, action_of, lemma_started_count_bounds,
    plan_evictions_from, plan_starts_from, spec_plan_evictions, started_count,
};

verus! {

/// A machine id is an opaque string, unique within the registry.
pub type MachineID = String;

/// What the registry knows of one machine.
#[derive(Debug)]
pub struct MachineRecord {
    pub config: MachineConfig,
    pub last_heartbeat: u64,
    pub status: MachineStatus,
}

/// Mathematical image of a `MachineRecord`.
pub ghost struct RecordView {
    pub config: ConfigView,
    pub last_heartbeat: u64,
    pub status: MachineStatus,
}

impl View for MachineRecord {
    type V = RecordView;

    open spec fn view(&self) -> RecordView {
        RecordView {
            config: self.config@,
            last_heartbeat: self.last_heartbeat,
            status: self.status,
        }
    }
}

/// One registry row: an id and its record.
#[derive(Debug)]
pub struct MachineEntry {
    pub id: MachineID,
    pub record: MachineRecord,
}

/// Mathematical image of a registry row.
pub ghost struct EntryView {
    pub id: Seq<char>,
    pub record: RecordView,
}

impl View for MachineEntry {
    type V = EntryView;

    open spec fn view(&self) -> EntryView {
        EntryView { id: self.id@, record: self.record@ }
    }
}

/// Whether some row of `s` carries the id.
pub open spec fn contains_id(s: Seq<EntryView>, id: Seq<char>) -> bool {
    exists|k: int| 0 <= k < s.len() && s[k].id == id
}

/// Index of the first row carrying the id, or -1 if there is none.
pub open spec fn find_index(s: Seq<EntryView>, id: Seq<char>) -> int
    decreases s.len(),
{
    if s.len() == 0 {
        -1
    } else if s[0].id == id {
        0
    } else {
        let r = find_index(s.subrange(1, s.len() as int), id);
        if r == -1 {
            -1
        } else {
            r + 1
        }
    }
}

/// The record stored under an id (meaningful only when the id is present).
pub open spec fn record_of(s: Seq<EntryView>, id: Seq<char>) -> RecordView {
    s[find_index(s, id)].record
}

/// No two rows carry the same id.
pub open spec fn ids_distinct(s: Seq<EntryView>) -> bool {
    forall|j: int, k: int| 0 <= j < k < s.len() ==> s[j].id != s[k].id
}

/// `find_index` is the first occurrence: it lands on the id, everything
/// before it differs, and it is -1 exactly when the id is absent.
pub proof fn lemma_find_index(s: Seq<EntryView>, id: Seq<char>)
    ensures
        find_index(s, id) == -1 <==> !contains_id(s, id),
        find_index(s, id) != -1 ==> 0 <= find_index(s, id) < s.len() && s[find_index(s, id)].id
            == id && (forall|k: int| 0 <= k < find_index(s, id) ==> s[k].id != id),
    decreases s.len(),
{
    if s.len() > 0 && s[0].id != id {
        let rest = s.subrange(1, s.len() as int);
        lemma_find_index(rest, id);
        assert(forall|k: int| 0 <= k < rest.len() ==> rest[k] == s[k + 1]);
        if find_index(rest, id) == -1 {
            assert forall|k: int| 0 <= k < s.len() implies s[k].id != id by {
                if k > 0 {
                    assert(s[k] == rest[k - 1]);
                }
            }
        } else {
            assert forall|k: int| 0 <= k < find_index(s, id) implies s[k].id != id by {
                if k > 0 {
                    assert(s[k] == rest[k - 1]);
                    assert(rest[k - 1].id != id);
                }
            }
        }
    }
}

/// A row carrying the id at `i`, with none before it, pins `find_index` to `i`.
pub proof fn lemma_find_index_at(s: Seq<EntryView>, id: Seq<char>, i: int)
    requires
        0 <= i < s.len(),
        s[i].id == id,
        forall|k: int| 0 <= k < i ==> s[k].id != id,
    ensures
        find_index(s, id) == i,
    decreases s.len(),
{
    if i > 0 {
        let rest = s.subrange(1, s.len() as int);
        assert(forall|k: int| 0 <= k < rest.len() ==> rest[k] == s[k + 1]);
        lemma_find_index_at(rest, id, i - 1);
    }
}

/// The registry after `Register(id, config)` at time `now`: the one row with
/// that id is replaced, or a row is appended if the id is new. The new row is
/// started and its heartbeat clock is reset, whatever stood there before.
pub open spec fn spec_register(
    s: Seq<EntryView>,
    id: Seq<char>,
    config: ConfigView,
    now: u64,
) -> Seq<EntryView> {
    let e = EntryView {
        id: id,
        record: RecordView { config: config, last_heartbeat: now, status: MachineStatus::Started },
    };
    if contains_id(s, id) {
        s.update(find_index(s, id), e)
    } else {
        s.push(e)
    }
}

/// The registry after a successful heartbeat for `id` at time `now`: only
/// that row's `last_heartbeat` changes.
pub open spec fn spec_touch(s: Seq<EntryView>, id: Seq<char>, now: u64) -> Seq<EntryView> {
    let i = find_index(s, id);
    s.update(
        i,
        EntryView {
            id: s[i].id,
            record: RecordView {
                config: s[i].record.config,
                last_heartbeat: now,
                status: s[i].record.status,
            },
        },
    )
}

/// The registry with the row under `id` set to the given status; everything
/// else, the row's config and heartbeat time included, stays.
pub open spec fn spec_mark(s: Seq<EntryView>, id: Seq<char>, status: MachineStatus) -> Seq<
    EntryView,
> {
    let i = find_index(s, id);
    s.update(
        i,
        EntryView {
            id: s[i].id,
            record: RecordView {
                config: s[i].record.config,
                last_heartbeat: s[i].record.last_heartbeat,
                status: status,
            },
        },
    )
}

/// The in-memory registry together with the scan bookkeeping: the packets
/// accumulated since the previous scan and when that scan ran.
pub struct InMemoryDatabase {
    machines: Vec<MachineEntry>,
    total_packets: u64,
    last_scan_time: u64,
    pps_per_machine: u64,
}

/// Mathematical image of the whole database.
pub ghost struct DatabaseView {
    pub machines: Seq<EntryView>,
    pub total_packets: u64,
    pub last_scan_time: u64,
    pub pps_per_machine: u64,
}

impl View for InMemoryDatabase {
    type V = DatabaseView;

    closed spec fn view(&self) -> DatabaseView {
        DatabaseView {
            machines: self.machines@.map_values(|e: MachineEntry| e@),
            total_packets: self.total_packets,
            last_scan_time: self.last_scan_time,
            pps_per_machine: self.pps_per_machine,
        }
    }
}

/// Registry well-formedness: machine ids are unique.
pub open spec fn wf(v: DatabaseView) -> bool {
    ids_distinct(v.machines)
}

impl InMemoryDatabase {
    /// An empty registry. `pps_per_machine` is the packet rate one machine
    /// is expected to absorb; `now` marks the start of the first scan window.
    pub fn new(pps_per_machine: u64, now: u64) -> (r: Self)
        ensures
            r@.machines == Seq::<EntryView>::empty(),
            r@.total_packets == 0,
            r@.last_scan_time == now,
            r@.pps_per_machine == pps_per_machine,
            wf(r@),
    {
        let r = InMemoryDatabase {
            machines: Vec::new(),
            total_packets: 0,
            last_scan_time: now,
            pps_per_machine,
        };
        proof {
            assert(r@.machines =~= Seq::<EntryView>::empty());
        }
        r
    }

    /// The configured per-machine packet rate.
    pub fn pps_per_machine(&self) -> (r: u64)
        ensures
            r == self@.pps_per_machine,
    {
        self.pps_per_machine
    }

    /// The packets reported since the previous scan.
    pub fn packets_since_last_scan(&self) -> (r: u64)
        ensures
            r == self@.total_packets,
    {
        self.total_packets
    }

    /// Index of the row holding `id`, if any.
    fn find(&self, id: &String) -> (r: Option<usize>)
        ensures
            match r {
                Some(i) => i == find_index(self@.machines, id@) && i < self@.machines.len(),
                None => !contains_id(self@.machines, id@),
            },
    {
        let ghost s = self@.machines;
        let mut i: usize = 0;
        while i < self.machines.len()
            invariant
                i <= self.machines.len(),
                s == self@.machines,
                s.len() == self.machines.len(),
                forall|k: int| 0 <= k < i ==> s[k].id != id@,
            decreases self.machines.len() - i,
        {
            if self.machines[i].id == *id {
                proof {
                    lemma_find_index_at(s, id@, i as int);
                }
                return Some(i);
            }
            i += 1;
        }
        proof {
            lemma_find_index(s, id@);
        }
        None
    }

    /// Whether a machine with this id has ever registered.
    pub fn is_registered(&self, id: &String) -> (r: bool)
        ensures
            r == contains_id(self@.machines, id@),
    {
        proof {
            lemma_find_index(self@.machines, id@);
        }
        self.find(id).is_some()
    }

    /// The record stored for `id`, if the machine is registered.
    pub fn get(&self, id: &String) -> (r: Option<&MachineRecord>)
        ensures
            match r {
                Some(rec) => contains_id(self@.machines, id@) && rec@ == record_of(
                    self@.machines,
                    id@,
                ),
                None => !contains_id(self@.machines, id@),
            },
    {
        proof {
            lemma_find_index(self@.machines, id@);
        }
        match self.find(id) {
            Some(i) => Some(&self.machines[i].record),
            None => None,
        }
    }

    /// Upsert a machine: always succeeds, always leaves the machine started
    /// with its heartbeat clock reset to `now`, whatever was there before.
    pub fn register(&mut self, machine_id: &MachineID, config: MachineConfig, now: u64)
        requires
            wf(old(self)@),
        ensures
            final(self)@.machines == spec_register(old(self)@.machines, machine_id@, config@, now),
            final(self)@.total_packets == old(self)@.total_packets,
            final(self)@.last_scan_time == old(self)@.last_scan_time,
            final(self)@.pps_per_machine == old(self)@.pps_per_machine,
            wf(final(self)@),
    {
        let ghost s = old(self)@.machines;
        let record = MachineRecord { config, last_heartbeat: now, status: MachineStatus::Started };
        proof {
            lemma_find_index(s, machine_id@);
        }
        match self.find(machine_id) {
            Some(i) => {
                self.machines[i] = MachineEntry { id: machine_id.clone(), record };
                proof {
                    assert(self@.machines =~= spec_register(s, machine_id@, record@.config, now));
                    assert forall|j: int, k: int|
                        0 <= j < k < self@.machines.len() implies self@.machines[j].id
                        != self@.machines[k].id by {
                        assert(s[j].id != s[k].id);
                    }
                }
            },
            None => {
                self.machines.push(MachineEntry { id: machine_id.clone(), record });
                proof {
                    assert(self@.machines =~= spec_register(s, machine_id@, record@.config, now));
                    assert forall|j: int, k: int|
                        0 <= j < k < self@.machines.len() implies self@.machines[j].id
                        != self@.machines[k].id by {
                        if k < s.len() {
                            assert(s[j].id != s[k].id);
                        } else {
                            assert(!contains_id(s, machine_id@));
                            assert(self@.machines[j].id == s[j].id);
                        }
                    }
                }
            },
        }
    }

    /// Record a heartbeat: the packet count is added (wrapping) to the
    /// fleet-wide counter first, unconditionally; only then is the machine
    /// looked up, so an unknown id still leaves its packets counted. On
    /// success only the machine's `last_heartbeat` moves to `now`.
    pub fn heartbeat(&mut self, heartbeat: Heartbeat, now: u64) -> (r: Result<
        (),
        MachineNotRegisterd,
    >)
        requires
            wf(old(self)@),
        ensures
            final(self)@.total_packets == vstd::wrapping::u64_specs::wrapping_add(
                old(self)@.total_packets,
                heartbeat.num_packets_since_last_heartbeat,
            ),
            final(self)@.last_scan_time == old(self)@.last_scan_time,
            final(self)@.pps_per_machine == old(self)@.pps_per_machine,
            r is Ok <==> contains_id(old(self)@.machines, heartbeat.machine_id@),
            r is Ok ==> final(self)@.machines == spec_touch(
                old(self)@.machines,
                heartbeat.machine_id@,
                now,
            ),
            r is Err ==> final(self)@.machines == old(self)@.machines,
            wf(final(self)@),
    {
        let ghost s = old(self)@.machines;
        self.total_packets = self.total_packets.wrapping_add(
            heartbeat.num_packets_since_last_heartbeat,
        );
        proof {
            lemma_find_index(s, heartbeat.machine_id@);
        }
        match self.find(&heartbeat.machine_id) {
            Some(i) => {
                self.machines[i].record.last_heartbeat = now;
                proof {
                    assert(self@.machines =~= spec_touch(s, heartbeat.machine_id@, now));
                    assert forall|j: int, k: int|
                        0 <= j < k < self@.machines.len() implies self@.machines[j].id
                        != self@.machines[k].id by {
                        assert(s[j].id != s[k].id);
                    }
                }
                Ok(())
            },
            None => {
                proof {
                    assert(self@.machines =~= s);
                }
                Err(MachineNotRegisterd)
            },
        }
    }
}

impl InMemoryDatabase {
    /// How many machines are currently started.
    pub fn num_started(&self) -> (r: usize)
        ensures
            r == started_count(self@.machines),
    {
        let ghost s = self@.machines;
        let mut count: usize = 0;
        let mut i: usize = 0;
        proof {
            lemma_started_count_bounds(s);
        }
        while i < self.machines.len()
            invariant
                i <= self.machines.len(),
                s == self@.machines,
                s.len() == self.machines.len(),
                count == started_count(s.subrange(0, i as int)),
                count <= i,
            decreases self.machines.len() - i,
        {
            proof {
                assert(s.subrange(0, i + 1).drop_last() =~= s.subrange(0, i as int));
                assert(s.subrange(0, i + 1).last() == s[i as int]);
                lemma_started_count_bounds(s.subrange(0, i + 1));
            }
            if self.machines[i].record.status == MachineStatus::Started {
                count += 1;
            }
            i += 1;
        }
        proof {
            assert(s.subrange(0, s.len() as int) =~= s);
        }
        count
    }

    /// The eviction pass: every started machine past its idle timeout is
    /// planned for eviction according to its autostop policy, except that
    /// the pass never plans away the last machine it still counts as
    /// running. Nothing is mutated; the caller commits each eviction that
    /// the lifecycle provider confirms.
    pub fn plan_evictions(&self, now: u64) -> (r: Vec<EvictionAction>)
        ensures
            r@.map_values(|a: EvictionAction| a@) == spec_plan_evictions(self@.machines, now),
    {
        let ghost s = self@.machines;
        let ghost c0 = started_count(s);
        let mut remaining: usize = self.num_started();
        let mut r: Vec<EvictionAction> = Vec::new();
        let mut i: usize = 0;
        proof {
            assert(s.subrange(0, s.len() as int) =~= s);
            assert(r@.map_values(|a: EvictionAction| a@) =~= Seq::<EvictionActionView>::empty());
            assert(Seq::<EvictionActionView>::empty() + plan_evictions_from(s, now, c0)
                =~= plan_evictions_from(s, now, c0));
        }
        while i < self.machines.len()
            invariant
                i <= self.machines.len(),
                s == self@.machines,
                s.len() == self.machines.len(),
                plan_evictions_from(s, now, c0) == r@.map_values(|a: EvictionAction| a@)
                    + plan_evictions_from(s.subrange(i as int, s.len() as int), now, remaining as int),
            decreases self.machines.len() - i,
        {
            let ghost tail = s.subrange(i as int, s.len() as int);
            proof {
                assert(tail[0] == s[i as int]);
                assert(tail.subrange(1, tail.len() as int) =~= s.subrange(
                    i + 1,
                    s.len() as int,
                ));
            }
            let entry = &self.machines[i];
            let timeout = match entry.record.config.auto_stop_timeout_seconds {
                Some(t) => t,
                None => 60,
            };
            let due = entry.record.status == MachineStatus::Started && now.saturating_sub(
                entry.record.last_heartbeat,
            ) >= timeout;
            if due && remaining > 1 {
                let kind = match entry.record.config.auto_stop {
                    Some(Autostop::Stop) => Some(Autostop::Stop),
                    Some(Autostop::Suspend) => Some(Autostop::Suspend),
                    _ => None,
                };
                if let Some(kind) = kind {
                    let action = EvictionAction {
                        machine_id: entry.id.clone(),
                        kind,
                        signal: match &entry.record.config.stop_signal {
                            Some(sig) => Some(sig.clone()),
                            None => None,
                        },
                    };
                    proof {
                        assert(action@ == action_of(s[i as int]));
                        assert((r@ + seq![action]).map_values(|a: EvictionAction| a@)
                            =~= r@.map_values(|a: EvictionAction| a@) + seq![action_of(
                            s[i as int],
                        )]);
                    }
                    r.push(action);
                    remaining -= 1;
                }
            }
            i += 1;
        }
        proof {
            assert(s.subrange(s.len() as int, s.len() as int) =~= Seq::<EntryView>::empty());
            assert(r@.map_values(|a: EvictionAction| a@) + Seq::<EvictionActionView>::empty()
                =~= r@.map_values(|a: EvictionAction| a@));
        }
        r
    }

    /// The start pass: the ids of the first `budget` stopped machines that
    /// registered with autostart, in registration order. Nothing is mutated;
    /// the caller commits each start the lifecycle provider confirms.
    pub fn plan_starts(&self, budget: u64) -> (r: Vec<MachineID>)
        ensures
            r@.map_values(|id: MachineID| id@) == plan_starts_from(
                self@.machines,
                budget as int,
            ),
    {
        let ghost s = self@.machines;
        let mut left = budget;
        let mut r: Vec<MachineID> = Vec::new();
        let mut i: usize = 0;
        proof {
            assert(s.subrange(0, s.len() as int) =~= s);
            assert(r@.map_values(|id: MachineID| id@) =~= Seq::<Seq<char>>::empty());
            assert(Seq::<Seq<char>>::empty() + plan_starts_from(s, budget as int)
                =~= plan_starts_from(s, budget as int));
        }
        while i < self.machines.len()
            invariant
                i <= self.machines.len(),
                s == self@.machines,
                s.len() == self.machines.len(),
                plan_starts_from(s, budget as int) == r@.map_values(|id: MachineID| id@)
                    + plan_starts_from(s.subrange(i as int, s.len() as int), left as int),
            decreases self.machines.len() - i,
        {
            let ghost tail = s.subrange(i as int, s.len() as int);
            proof {
                assert(tail[0] == s[i as int]);
                assert(tail.subrange(1, tail.len() as int) =~= s.subrange(
                    i + 1,
                    s.len() as int,
                ));
            }
            if left == 0 {
                proof {
                    assert(plan_starts_from(tail, 0) =~= Seq::<Seq<char>>::empty());
                    assert(r@.map_values(|id: MachineID| id@) + Seq::<Seq<char>>::empty()
                        =~= r@.map_values(|id: MachineID| id@));
                }
                return r;
            }
            let entry = &self.machines[i];
            if entry.record.status == MachineStatus::Stopped && matches!(
                entry.record.config.auto_start,
                Some(true)
            ) {
                let id = entry.id.clone();
                proof {
                    assert((r@ + seq![id]).map_values(|x: MachineID| x@) =~= r@.map_values(
                        |x: MachineID| x@,
                    ) + seq![s[i as int].id]);
                }
                r.push(id);
                left -= 1;
            }
            i += 1;
        }
        proof {
            assert(s.subrange(s.len() as int, s.len() as int) =~= Seq::<EntryView>::empty());
            assert(r@.map_values(|id: MachineID| id@) + Seq::<Seq<char>>::empty()
                =~= r@.map_values(|id: MachineID| id@));
        }
        r
    }

    /// Close the current scan window: hand back the packets accumulated
    /// since the previous scan and the window's length in seconds, reset the
    /// counter to zero and start the next window at `now`.
    pub fn take_scan_window(&mut self, now: u64) -> (r: (u64, u64))
        ensures
            r.0 == old(self)@.total_packets,
            r.1 == now.saturating_sub(old(self)@.last_scan_time),
            final(self)@.total_packets == 0,
            final(self)@.last_scan_time == now,
            final(self)@.machines == old(self)@.machines,
            final(self)@.pps_per_machine == old(self)@.pps_per_machine,
    {
        let packets = self.total_packets;
        self.total_packets = 0;
        let elapsed = now.saturating_sub(self.last_scan_time);
        self.last_scan_time = now;
        (packets, elapsed)
    }

    /// Mark a machine stopped after the provider confirmed its eviction.
    /// Only the status changes.
    pub fn mark_stopped(&mut self, machine_id: &MachineID)
        requires
            wf(old(self)@),
            contains_id(old(self)@.machines, machine_id@),
        ensures
            final(self)@.machines == spec_mark(
                old(self)@.machines,
                machine_id@,
                MachineStatus::Stopped,
            ),
            final(self)@.total_packets == old(self)@.total_packets,
            final(self)@.last_scan_time == old(self)@.last_scan_time,
            final(self)@.pps_per_machine == old(self)@.pps_per_machine,
            wf(final(self)@),
    {
        self.mark(machine_id, MachineStatus::Stopped)
    }

    /// Mark a machine started after the provider confirmed its start.
    /// Only the status changes.
    pub fn mark_started(&mut self, machine_id: &MachineID)
        requires
            wf(old(self)@),
            contains_id(old(self)@.machines, machine_id@),
        ensures
            final(self)@.machines == spec_mark(
                old(self)@.machines,
                machine_id@,
                MachineStatus::Started,
            ),
            final(self)@.total_packets == old(self)@.total_packets,
            final(self)@.last_scan_time == old(self)@.last_scan_time,
            final(self)@.pps_per_machine == old(self)@.pps_per_machine,
            wf(final(self)@),
    {
        self.mark(machine_id, MachineStatus::Started)
    }

    /// Set the status of a machine known to be registered; nothing else
    /// changes.
    fn mark(&mut self, machine_id: &MachineID, status: MachineStatus)
        requires
            wf(old(self)@),
            contains_id(old(self)@.machines, machine_id@),
        ensures
            final(self)@.machines == spec_mark(old(self)@.machines, machine_id@, status),
            final(self)@.total_packets == old(self)@.total_packets,
            final(self)@.last_scan_time == old(self)@.last_scan_time,
            final(self)@.pps_per_machine == old(self)@.pps_per_machine,
            wf(final(self)@),
    {
        let ghost s = old(self)@.machines;
        proof {
            lemma_find_index(s, machine_id@);
        }
        match self.find(machine_id) {
            Some(i) => {
                self.machines[i].record.status = status;
                proof {
                    assert(self@.machines =~= spec_mark(s, machine_id@, status));
                    assert forall|j: int, k: int|
                        0 <= j < k < self@.machines.len() implies self@.machines[j].id
                        != self@.machines[k].id by {
                        assert(s[j].id != s[k].id);
                    }
                }
            },
            None => unreached(),
        }
    }
}

} // verus!
