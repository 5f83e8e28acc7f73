//! The guarantees the controller gives across calls: registering always
//! resets a machine to a started state, a registration followed by a
//! heartbeat succeeds, and the eviction pass never stops the last running
//! machine.

use vstd::prelude::*;
use crate::config::{ConfigView, MachineStatus};
use crate::registry::{
    EntryView, RecordView, contains_id, find_index, ids_distinct, lemma_find_index,
    lemma_find_index_at, record_of, spec_mark, spec_register, spec_touch,
};
use crate::scan::{
    EvictionActionView, due_for_eviction, eviction_kind, plan_evictions_from, plan_starts_from,
    spec_plan_evictions, startable, startable_count, started_count,
};

verus! {

/// The registry after the machines of a plan were all stopped, first to
/// last; this is what committing every confirmed eviction does.
pub open spec fn apply_evictions(s: Seq<EntryView>, plan: Seq<EvictionActionView>) -> Seq<
    EntryView,
>
    decreases plan.len(),
{
    if plan.len() == 0 {
        s
    } else {
        apply_evictions(
            spec_mark(s, plan[0].machine_id, MachineStatus::Stopped),
            plan.subrange(1, plan.len() as int),
        )
    }
}

/// A plan fit for `s`: every planned machine is registered and started, and
/// no machine is planned twice.
pub open spec fn plan_fits(s: Seq<EntryView>, plan: Seq<EvictionActionView>) -> bool {
    &&& forall|j: int|
        0 <= j < plan.len() ==> contains_id(s, plan[j].machine_id) && record_of(
            s,
            plan[j].machine_id,
        ).status == MachineStatus::Started
    &&& forall|j: int, k: int|
        0 <= j < k < plan.len() ==> plan[j].machine_id != plan[k].machine_id
}

/// Replacing one row changes the started count by the difference the row
/// itself contributes.
proof fn lemma_started_count_update(s: Seq<EntryView>, i: int, e: EntryView)
    requires
        0 <= i < s.len(),
    ensures
        started_count(s.update(i, e)) == started_count(s) - (
        if s[i].record.status == MachineStatus::Started {
            1int
        } else {
            0int
        }) + (
        if e.record.status == MachineStatus::Started {
            1int
        } else {
            0int
        }),
    decreases s.len(),
{
    let t = s.update(i, e);
    if i == s.len() - 1 {
        assert(t.drop_last() =~= s.drop_last());
        assert(t.last() == e);
    } else {
        assert(t.drop_last() =~= s.drop_last().update(i, e));
        assert(t.last() == s.last());
        lemma_started_count_update(s.drop_last(), i, e);
    }
}

/// In a registry with distinct ids, `find_index` is decided by the ids
/// alone: a row-wise id-equal registry finds the same index.
proof fn lemma_find_index_same_ids(s: Seq<EntryView>, t: Seq<EntryView>, id: Seq<char>)
    requires
        s.len() == t.len(),
        forall|k: int| 0 <= k < s.len() ==> s[k].id == t[k].id,
        contains_id(s, id),
    ensures
        find_index(t, id) == find_index(s, id),
{
    lemma_find_index(s, id);
    let i = find_index(s, id);
    lemma_find_index_at(t, id, i);
}

/// Stopping one started, registered machine lowers the started count by one,
/// keeps every id where it is, and leaves every other record untouched.
proof fn lemma_mark_stopped_effect(s: Seq<EntryView>, id: Seq<char>)
    requires
        ids_distinct(s),
        contains_id(s, id),
        record_of(s, id).status == MachineStatus::Started,
    ensures
        ({
            let t = spec_mark(s, id, MachineStatus::Stopped);
            &&& t.len() == s.len()
            &&& forall|k: int| 0 <= k < s.len() ==> t[k].id == s[k].id
            &&& ids_distinct(t)
            &&& started_count(t) == started_count(s) - 1
            &&& forall|other: Seq<char>|
                contains_id(s, other) && other != id ==> record_of(t, other) == record_of(s, other)
        }),
{
    lemma_find_index(s, id);
    let i = find_index(s, id);
    let t = spec_mark(s, id, MachineStatus::Stopped);
    lemma_started_count_update(s, i, t[i]);
    assert forall|other: Seq<char>|
        contains_id(s, other) && other != id implies record_of(t, other) == record_of(
        s,
        other,
    ) by {
        lemma_find_index(s, other);
        let j = find_index(s, other);
        lemma_find_index_same_ids(s, t, other);
        assert(j != i);
        assert(t[j] == s[j]);
    }
}

/// Committing a fitting plan stops exactly the planned machines: the
/// started count drops by the plan's length.
pub proof fn lemma_apply_evictions_count(s: Seq<EntryView>, plan: Seq<EvictionActionView>)
    requires
        ids_distinct(s),
        plan_fits(s, plan),
    ensures
        started_count(apply_evictions(s, plan)) == started_count(s) - plan.len(),
    decreases plan.len(),
{
    if plan.len() > 0 {
        let id = plan[0].machine_id;
        let t = spec_mark(s, id, MachineStatus::Stopped);
        let rest = plan.subrange(1, plan.len() as int);
        lemma_mark_stopped_effect(s, id);
        assert forall|j: int|
            0 <= j < rest.len() implies contains_id(t, rest[j].machine_id) && record_of(
            t,
            rest[j].machine_id,
        ).status == MachineStatus::Started by {
            assert(rest[j] == plan[j + 1]);
            assert(rest[j].machine_id != id);
            lemma_find_index(s, rest[j].machine_id);
            lemma_find_index_same_ids(s, t, rest[j].machine_id);
        }
        assert(plan_fits(t, rest));
        lemma_apply_evictions_count(t, rest);
    }
}

/// The eviction pass, begun with `remaining` machines counted as running,
/// never plans more than `remaining - 1` evictions.
proof fn lemma_plan_len_bound(s: Seq<EntryView>, now: u64, remaining: int)
    requires
        remaining >= 1,
    ensures
        plan_evictions_from(s, now, remaining).len() <= remaining - 1,
    decreases s.len(),
{
    if s.len() > 0 {
        let rest = s.subrange(1, s.len() as int);
        if due_for_eviction(s[0], now) && remaining > 1 && eviction_kind(s[0].record.config)
            is Some {
            lemma_plan_len_bound(rest, now, remaining - 1);
        } else {
            lemma_plan_len_bound(rest, now, remaining);
        }
    }
}

/// Whatever the eviction pass plans fits the registry it was planned over:
/// only started, registered machines, each at most once.
proof fn lemma_plan_fits(s: Seq<EntryView>, now: u64, remaining: int)
    requires
        ids_distinct(s),
    ensures
        plan_fits(s, plan_evictions_from(s, now, remaining)),
    decreases s.len(),
{
    let plan = plan_evictions_from(s, now, remaining);
    if s.len() > 0 {
        let rest = s.subrange(1, s.len() as int);
        assert(forall|k: int| 0 <= k < rest.len() ==> rest[k] == s[k + 1]);
        let emitted = due_for_eviction(s[0], now) && remaining > 1 && eviction_kind(
            s[0].record.config,
        ) is Some;
        let rest_plan = if emitted {
            plan_evictions_from(rest, now, remaining - 1)
        } else {
            plan_evictions_from(rest, now, remaining)
        };
        if emitted {
            lemma_plan_fits(rest, now, remaining - 1);
        } else {
            lemma_plan_fits(rest, now, remaining);
        }
        // Every machine planned over the tail is registered behind the head
        // row, under the same record, and differs from the head's id.
        assert forall|j: int|
            0 <= j < rest_plan.len() implies contains_id(s, rest_plan[j].machine_id) && record_of(
            s,
            rest_plan[j].machine_id,
        ).status == MachineStatus::Started && rest_plan[j].machine_id != s[0].id by {
            let id = rest_plan[j].machine_id;
            lemma_find_index(rest, id);
            let k = find_index(rest, id);
            assert(s[k + 1].id == id);
            assert(s[0].id != id);
            lemma_find_index(s, id);
            assert(find_index(s, id) == k + 1);
            assert(record_of(s, id) == record_of(rest, id));
        }
        if emitted {
            assert(plan == seq![crate::scan::action_of(s[0])] + rest_plan);
            assert(plan[0].machine_id == s[0].id);
            assert(find_index(s, s[0].id) == 0);
            assert(forall|j: int| 0 <= j < rest_plan.len() ==> plan[j + 1] == rest_plan[j]);
        } else {
            assert(plan == rest_plan);
        }
    }
}

/// The eviction pass never drives the number of started machines below one:
/// a registry with at least one running machine still has at least one after
/// every planned eviction is committed.
pub proof fn lemma_eviction_keeps_one_started(s: Seq<EntryView>, now: u64)
    requires
        ids_distinct(s),
        started_count(s) >= 1,
    ensures
        spec_plan_evictions(s, now).len() <= started_count(s) - 1,
        started_count(apply_evictions(s, spec_plan_evictions(s, now))) >= 1,
{
    lemma_plan_len_bound(s, now, started_count(s));
    lemma_plan_fits(s, now, started_count(s));
    lemma_apply_evictions_count(s, spec_plan_evictions(s, now));
}

/// In a registry whose rows are all started, the started count is the length.
proof fn lemma_all_started_count(s: Seq<EntryView>)
    requires
        forall|k: int| 0 <= k < s.len() ==> s[k].record.status == MachineStatus::Started,
    ensures
        started_count(s) == s.len(),
    decreases s.len(),
{
    if s.len() > 0 {
        lemma_all_started_count(s.drop_last());
    }
}

/// With every row due and actionable, the pass plans one eviction per
/// machine counted as running beyond the one it protects.
proof fn lemma_plan_len_all_due(s: Seq<EntryView>, now: u64, remaining: int)
    requires
        remaining >= 1,
        forall|k: int|
            0 <= k < s.len() ==> due_for_eviction(s[k], now) && eviction_kind(s[k].record.config)
                is Some,
    ensures
        plan_evictions_from(s, now, remaining).len() == if remaining - 1 <= s.len() {
            remaining - 1
        } else {
            s.len() as int
        },
    decreases s.len(),
{
    if s.len() > 0 {
        let rest = s.subrange(1, s.len() as int);
        assert(forall|k: int| 0 <= k < rest.len() ==> rest[k] == s[k + 1]);
        if remaining > 1 {
            lemma_plan_len_all_due(rest, now, remaining - 1);
        } else {
            lemma_plan_len_all_due(rest, now, remaining);
        }
    }
}

/// Two or more started machines, all idle past their timeout and all with a
/// stop or suspend policy: the scan evicts all but one, and committing every
/// eviction leaves exactly one machine started.
pub proof fn lemma_eviction_leaves_exactly_one(s: Seq<EntryView>, now: u64)
    requires
        ids_distinct(s),
        s.len() >= 2,
        forall|k: int|
            0 <= k < s.len() ==> s[k].record.status == MachineStatus::Started && due_for_eviction(
                s[k],
                now,
            ) && eviction_kind(s[k].record.config) is Some,
    ensures
        spec_plan_evictions(s, now).len() == s.len() - 1,
        started_count(apply_evictions(s, spec_plan_evictions(s, now))) == 1,
{
    lemma_all_started_count(s);
    lemma_plan_len_all_due(s, now, s.len() as int);
    lemma_plan_fits(s, now, s.len() as int);
    lemma_apply_evictions_count(s, spec_plan_evictions(s, now));
}

/// The start pass starts exactly as many machines as the budget asks for,
/// clamped to the number of stopped machines that opted into autostart.
pub proof fn lemma_start_pass_clamped(s: Seq<EntryView>, budget: int)
    requires
        budget >= 0,
    ensures
        plan_starts_from(s, budget).len() == if budget <= startable_count(s) {
            budget
        } else {
            startable_count(s)
        },
    decreases s.len(),
{
    if s.len() > 0 && budget > 0 {
        let rest = s.subrange(1, s.len() as int);
        if startable(s[0]) {
            lemma_start_pass_clamped(rest, budget - 1);
        } else {
            lemma_start_pass_clamped(rest, budget);
        }
    } else if s.len() > 0 {
        lemma_startable_count_bounds(s);
    }
}

/// `startable_count` stays between zero and the number of rows.
proof fn lemma_startable_count_bounds(s: Seq<EntryView>)
    ensures
        0 <= startable_count(s) <= s.len(),
    decreases s.len(),
{
    if s.len() > 0 {
        lemma_startable_count_bounds(s.subrange(1, s.len() as int));
    }
}

/// Registering always leaves the machine present, started, and with its
/// heartbeat clock reset to the call time, whatever stood there before.
pub proof fn lemma_register_resets(s: Seq<EntryView>, id: Seq<char>, config: ConfigView, now: u64)
    requires
        ids_distinct(s),
    ensures
        contains_id(spec_register(s, id, config, now), id),
        record_of(spec_register(s, id, config, now), id) == (RecordView {
            config,
            last_heartbeat: now,
            status: MachineStatus::Started,
        }),
        ids_distinct(spec_register(s, id, config, now)),
{
    let s1 = spec_register(s, id, config, now);
    if contains_id(s, id) {
        lemma_find_index(s, id);
        let i = find_index(s, id);
        assert(s1[i].id == id);
        lemma_find_index_at(s1, id, i);
    } else {
        lemma_find_index(s, id);
        assert(s1[s.len() as int].id == id);
        lemma_find_index_at(s1, id, s.len() as int);
        assert forall|j: int, k: int| 0 <= j < k < s1.len() implies s1[j].id != s1[k].id by {
            if k < s.len() {
                assert(s[j].id != s[k].id);
            } else {
                assert(s1[j].id == s[j].id);
            }
        }
    }
}

/// A register followed at once by a heartbeat for the same machine: the
/// heartbeat finds the machine (so it succeeds) and moves its
/// `last_heartbeat` to the heartbeat's time, the machine still started and
/// still under the registered configuration.
pub proof fn lemma_register_then_heartbeat(
    s: Seq<EntryView>,
    id: Seq<char>,
    config: ConfigView,
    now1: u64,
    now2: u64,
)
    requires
        ids_distinct(s),
    ensures
        ({
            let s1 = spec_register(s, id, config, now1);
            let s2 = spec_touch(s1, id, now2);
            &&& contains_id(s1, id)
            &&& contains_id(s2, id)
            &&& record_of(s2, id) == (RecordView {
                config,
                last_heartbeat: now2,
                status: MachineStatus::Started,
            })
        }),
{
    let s1 = spec_register(s, id, config, now1);
    let s2 = spec_touch(s1, id, now2);
    lemma_register_resets(s, id, config, now1);
    lemma_find_index(s1, id);
    let i = find_index(s1, id);
    assert(s2[i].id == id);
    assert(forall|k: int| 0 <= k < i ==> s2[k].id == s1[k].id);
    lemma_find_index_at(s2, id, i);
}

} // verus!
