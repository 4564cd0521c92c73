//! Round-robin scheduler: the process table, the FIFO ready queue and the
//! current process, with the state transitions that drive them.
//!
//! The scheduler only decides. Each operation that may change the running
//! process finishes all bookkeeping and then returns a [`SwitchAction`] that
//! tells the caller which saved context to enter; the caller performs the
//! register transfer after it has released the scheduler.

use std::collections::VecDeque;

use vstd::prelude::*;

use crate::pcb::{
    exited, other_than, pcb_wf, refilled, sans_context, ticked, with_state, PcbView, ProcessControlBlock,
    ProcessState,
};
use crate::context::ProcessContext;
use crate::pid::ProcessId;

verus! {

/// What the caller must do after a scheduling decision.
#[derive(Debug, Clone, Copy, PartialEq, Eq, Structural)]
pub enum SwitchAction {
    /// Keep running what runs now: nothing was ready, no decision was due, or
    /// the current process was picked again.
    NoSwitch,
    /// Save the live registers into the context of `from` and resume the
    /// context of `to`.
    Switch { from: ProcessId, to: ProcessId },
    /// Nothing ran before: resume the context of `to` without saving.
    StartFirst { to: ProcessId },
}

/// Mathematical view of the scheduler.
pub ghost struct SchedulerView {
    /// Process table, by identifier: the view of each block with its saved
    /// context left out (see [`sans_context`]).
    pub table: Map<ProcessId, PcbView>,
    /// Ready queue, head first.
    pub ready: Seq<ProcessId>,
    /// The process that holds (or last held) the processor.
    pub current: Option<ProcessId>,
}

/// The scheduler's invariant.
///
/// - every entry is filed under its own identifier and has a quantum of at
///   most a full one;
/// - the ready queue holds exactly the identifiers of the `Ready` entries,
///   each once;
/// - an entry that is `Running` is the current one (so at most one runs);
/// - the current process, if any, is in the table.
pub open spec fn sched_inv(s: SchedulerView) -> bool {
    &&& forall|p: ProcessId| #[trigger] s.table.contains_key(p) ==> s.table[p].pid == p && pcb_wf(s.table[p])
    &&& s.ready.no_duplicates()
    &&& forall|i: int| 0 <= i < s.ready.len() ==> s.table.contains_key(#[trigger] s.ready[i])
        && s.table[s.ready[i]].state == ProcessState::Ready
    &&& forall|p: ProcessId| #[trigger] s.table.contains_key(p) && s.table[p].state == ProcessState::Ready
        ==> s.ready.contains(p)
    &&& forall|p: ProcessId| #[trigger] s.table.contains_key(p) && s.table[p].state == ProcessState::Running
        ==> s.current == Some(p)
    &&& (s.current matches Some(c) ==> s.table.contains_key(c))
}

/// The view of a process given the processor: `Running` with a full quantum.
pub open spec fn running(p: PcbView) -> PcbView {
    refilled(with_state(p, ProcessState::Running))
}

/// The scheduler with `p` added: filed under its identifier, and queued at
/// the tail when it is `Ready`.
pub open spec fn spec_add(s: SchedulerView, p: PcbView) -> SchedulerView {
    SchedulerView {
        table: s.table.insert(p.pid, p),
        ready: if p.state == ProcessState::Ready { s.ready.push(p.pid) } else { s.ready },
        current: s.current,
    }
}

/// The scheduler with `pid` gone from the table and the ready queue, and no
/// longer current.
pub open spec fn spec_remove(s: SchedulerView, pid: ProcessId) -> SchedulerView {
    SchedulerView {
        table: s.table.remove(pid),
        ready: s.ready.filter(other_than(pid)),
        current: if s.current == Some(pid) { None } else { s.current },
    }
}

/// One scheduling decision.
///
/// With an empty ready queue nothing changes. Otherwise the head of the queue
/// is taken. If it is the current process it just runs on with a full
/// quantum. Else a current process that is still `Running` goes back to
/// `Ready` at the tail of the queue (one that is `Blocked` or `Zombie` does
/// not), the head becomes `Running` with a full quantum and current, and the
/// caller is told to switch (or to start it, when nothing was current).
pub open spec fn spec_schedule(s: SchedulerView) -> (SchedulerView, SwitchAction) {
    if s.ready.len() == 0 {
        (s, SwitchAction::NoSwitch)
    } else {
        let next = s.ready[0];
        let rest = s.ready.drop_first();
        if s.current == Some(next) {
            (
                SchedulerView { table: s.table.insert(next, running(s.table[next])), ready: rest, current: s.current },
                SwitchAction::NoSwitch,
            )
        } else {
            match s.current {
                None => (
                    SchedulerView { table: s.table.insert(next, running(s.table[next])), ready: rest, current: Some(next) },
                    SwitchAction::StartFirst { to: next },
                ),
                Some(c) => {
                    let demote = s.table[c].state == ProcessState::Running;
                    let t1 = if demote {
                        s.table.insert(c, with_state(s.table[c], ProcessState::Ready))
                    } else {
                        s.table
                    };
                    let q1 = if demote { rest.push(c) } else { rest };
                    (
                        SchedulerView { table: t1.insert(next, running(t1[next])), ready: q1, current: Some(next) },
                        SwitchAction::Switch { from: c, to: next },
                    )
                },
            }
        }
    }
}

/// One timer tick: the current process spends one unit of its quantum; when
/// the quantum is used up, a scheduling decision follows.
pub open spec fn spec_tick(s: SchedulerView) -> (SchedulerView, SwitchAction) {
    match s.current {
        Some(c) => {
            let s1 = SchedulerView { table: s.table.insert(c, ticked(s.table[c])), ..s };
            if s1.table[c].time_slice == 0 {
                spec_schedule(s1)
            } else {
                (s1, SwitchAction::NoSwitch)
            }
        },
        None => (s, SwitchAction::NoSwitch),
    }
}

/// The current process becomes `Blocked` (and leaves the ready queue, should
/// it have been woken while current); then a scheduling decision follows.
pub open spec fn spec_block_current(s: SchedulerView) -> (SchedulerView, SwitchAction) {
    match s.current {
        Some(c) => spec_schedule(
            SchedulerView {
                table: s.table.insert(c, with_state(s.table[c], ProcessState::Blocked)),
                ready: s.ready.filter(other_than(c)),
                current: s.current,
            },
        ),
        None => (s, SwitchAction::NoSwitch),
    }
}

/// The current process exits with `code`: it becomes a `Zombie` with that
/// code (and leaves the ready queue); then a scheduling decision follows.
pub open spec fn spec_exit_current(s: SchedulerView, code: i32) -> (SchedulerView, SwitchAction) {
    match s.current {
        Some(c) => spec_schedule(
            SchedulerView {
                table: s.table.insert(c, exited(s.table[c], code)),
                ready: s.ready.filter(other_than(c)),
                current: s.current,
            },
        ),
        None => (s, SwitchAction::NoSwitch),
    }
}

/// A `Blocked` process becomes `Ready` and joins the tail of the queue; for
/// any other identifier nothing changes.
pub open spec fn spec_wake_up(s: SchedulerView, pid: ProcessId) -> SchedulerView {
    if s.table.contains_key(pid) && s.table[pid].state == ProcessState::Blocked {
        SchedulerView {
            table: s.table.insert(pid, with_state(s.table[pid], ProcessState::Ready)),
            ready: s.ready.push(pid),
            current: s.current,
        }
    } else {
        s
    }
}

/// The blocks in `s` are in strictly increasing order of identifier.
pub open spec fn sorted_by_pid(s: Seq<ProcessControlBlock>) -> bool {
    forall|i: int, j: int| 0 <= i < j < s.len() ==> (#[trigger] s[i])@.pid.0 < (#[trigger] s[j])@.pid.0
}

/// The blocks in `s`, sorted by identifier, are exactly the entries of `t`
/// (which leave out the saved contexts).
pub open spec fn table_matches(s: Seq<ProcessControlBlock>, t: Map<ProcessId, PcbView>) -> bool {
    &&& sorted_by_pid(s)
    &&& forall|i: int| 0 <= i < s.len() ==> t.contains_key((#[trigger] s[i])@.pid) && t[s[i]@.pid] == sans_context(s[i]@)
    &&& forall|p: ProcessId| #[trigger] t.contains_key(p) ==> exists|i: int| 0 <= i < s.len() && s[i]@.pid == p
}

proof fn lemma_absent(s: Seq<ProcessControlBlock>, t: Map<ProcessId, PcbView>, p: ProcessId)
    requires
        table_matches(s, t),
        forall|i: int| 0 <= i < s.len() ==> (#[trigger] s[i])@.pid != p,
    ensures
        !t.contains_key(p),
{
}

proof fn lemma_update_entry(
    s: Seq<ProcessControlBlock>,
    s2: Seq<ProcessControlBlock>,
    t: Map<ProcessId, PcbView>,
    i: int,
)
    requires
        table_matches(s, t),
        0 <= i < s.len(),
        s2.len() == s.len(),
        s2[i]@.pid == s[i]@.pid,
        forall|j: int| 0 <= j < s.len() && j != i ==> s2[j] == s[j],
    ensures
        table_matches(s2, t.insert(s[i]@.pid, sans_context(s2[i]@))),
{
    let t2 = t.insert(s[i]@.pid, sans_context(s2[i]@));
    assert forall|a: int, b: int| 0 <= a < b < s2.len() implies (#[trigger] s2[a])@.pid.0 < (
    #[trigger] s2[b])@.pid.0 by {
        assert(s[a]@.pid.0 < s[b]@.pid.0);
    }
    assert forall|j: int| 0 <= j < s2.len() implies t2.contains_key((#[trigger] s2[j])@.pid) && t2[s2[j]@.pid]
        == sans_context(s2[j]@) by {
        if j != i {
            assert(s[j] == s2[j]);
            if j < i {
                assert(s[j]@.pid.0 < s[i]@.pid.0);
            } else {
                assert(s[i]@.pid.0 < s[j]@.pid.0);
            }
        }
    }
    assert forall|p: ProcessId| #[trigger] t2.contains_key(p) implies exists|j: int|
        0 <= j < s2.len() && s2[j]@.pid == p by {
        if p == s[i]@.pid {
            assert(s2[i]@.pid == p);
        } else {
            let j = choose|j: int| 0 <= j < s.len() && s[j]@.pid == p;
            assert(s2[j] == s[j]);
        }
    }
}

proof fn lemma_insert_entry(
    s: Seq<ProcessControlBlock>,
    s2: Seq<ProcessControlBlock>,
    t: Map<ProcessId, PcbView>,
    j: int,
    v: PcbView,
)
    requires
        table_matches(s, t),
        0 <= j <= s.len(),
        !t.contains_key(v.pid),
        s2.len() == s.len() + 1,
        sans_context(s2[j]@) == v,
        forall|k: int| 0 <= k < j ==> s2[k] == s[k],
        forall|k: int| j < k < s2.len() ==> s2[k] == s[k - 1],
        forall|k: int| 0 <= k < j ==> (#[trigger] s[k])@.pid.0 < v.pid.0,
        forall|k: int| j <= k < s.len() ==> (#[trigger] s[k])@.pid.0 > v.pid.0,
    ensures
        table_matches(s2, t.insert(v.pid, v)),
{
    let t2 = t.insert(v.pid, v);
    assert forall|a: int, b: int| 0 <= a < b < s2.len() implies (#[trigger] s2[a])@.pid.0 < (
    #[trigger] s2[b])@.pid.0 by {
        if b < j {
            assert(s[a]@.pid.0 < s[b]@.pid.0);
        } else if b == j {
            assert(s2[a] == s[a]);
        } else if a < j {
            assert(s2[b] == s[b - 1]);
            assert(s[a]@.pid.0 < s[b - 1]@.pid.0);
        } else if a == j {
            assert(s2[b] == s[b - 1]);
        } else {
            assert(s[a - 1]@.pid.0 < s[b - 1]@.pid.0);
        }
    }
    assert forall|k: int| 0 <= k < s2.len() implies t2.contains_key((#[trigger] s2[k])@.pid) && t2[s2[k]@.pid]
        == sans_context(s2[k]@) by {
        if k < j {
            assert(s2[k] == s[k]);
            assert(t.contains_key(s[k]@.pid));
        } else if k > j {
            assert(s2[k] == s[k - 1]);
            assert(t.contains_key(s[k - 1]@.pid));
        }
    }
    assert forall|p: ProcessId| #[trigger] t2.contains_key(p) implies exists|k: int|
        0 <= k < s2.len() && s2[k]@.pid == p by {
        if p == v.pid {
            assert(s2[j]@.pid == p);
        } else {
            let k = choose|k: int| 0 <= k < s.len() && s[k]@.pid == p;
            if k < j {
                assert(s2[k] == s[k]);
            } else {
                assert(s2[k + 1] == s[k]);
            }
        }
    }
}

proof fn lemma_remove_entry(
    s: Seq<ProcessControlBlock>,
    s2: Seq<ProcessControlBlock>,
    t: Map<ProcessId, PcbView>,
    i: int,
)
    requires
        table_matches(s, t),
        0 <= i < s.len(),
        s2 == s.remove(i),
    ensures
        table_matches(s2, t.remove(s[i]@.pid)),
{
    let t2 = t.remove(s[i]@.pid);
    assert forall|a: int, b: int| 0 <= a < b < s2.len() implies (#[trigger] s2[a])@.pid.0 < (
    #[trigger] s2[b])@.pid.0 by {
        let a0 = if a < i { a } else { a + 1 };
        let b0 = if b < i { b } else { b + 1 };
        assert(s2[a] == s[a0]);
        assert(s2[b] == s[b0]);
        assert(s[a0]@.pid.0 < s[b0]@.pid.0);
    }
    assert forall|k: int| 0 <= k < s2.len() implies t2.contains_key((#[trigger] s2[k])@.pid) && t2[s2[k]@.pid]
        == sans_context(s2[k]@) by {
        let k0 = if k < i { k } else { k + 1 };
        assert(s2[k] == s[k0]);
        assert(t.contains_key(s[k0]@.pid));
        if k0 < i {
            assert(s[k0]@.pid.0 < s[i]@.pid.0);
        } else {
            assert(s[i]@.pid.0 < s[k0]@.pid.0);
        }
    }
    assert forall|p: ProcessId| #[trigger] t2.contains_key(p) implies exists|k: int|
        0 <= k < s2.len() && s2[k]@.pid == p by {
        let k0 = choose|k0: int| 0 <= k0 < s.len() && s[k0]@.pid == p;
        assert(k0 != i);
        if k0 < i {
            assert(s2[k0] == s[k0]);
        } else {
            assert(s2[k0 - 1] == s[k0]);
        }
    }
}

/// Filtering a sequence without duplicates leaves none.
proof fn lemma_filter_no_duplicates(s: Seq<ProcessId>, p: spec_fn(ProcessId) -> bool)
    requires
        s.no_duplicates(),
    ensures
        s.filter(p).no_duplicates(),
    decreases s.len(),
{
    reveal(Seq::filter);
    if s.len() > 0 {
        let sub = s.drop_last();
        assert(sub.no_duplicates()) by {
            assert forall|i: int, j: int| 0 <= i < sub.len() && 0 <= j < sub.len() && i != j implies sub[i]
                != sub[j] by {
                assert(sub[i] == s[i] && sub[j] == s[j]);
            }
        }
        lemma_filter_no_duplicates(sub, p);
        broadcast use vstd::seq_lib::group_filter_ensures;

        if p(s.last()) {
            assert(!sub.filter(p).contains(s.last())) by {
                if sub.filter(p).contains(s.last()) {
                    sub.lemma_filter_contains_rev(p, s.last());
                    let m = choose|m: int| 0 <= m < sub.len() && sub[m] == s.last();
                    assert(s[m] == s[s.len() - 1]);
                }
            }
            let f = sub.filter(p).push(s.last());
            assert(s.filter(p) == f);
            assert forall|i: int, j: int| 0 <= i < f.len() && 0 <= j < f.len() && i != j implies f[i] != f[j] by {
                if i == f.len() - 1 {
                    assert(!sub.filter(p).contains(f[j]) || f[j] != s.last());
                } else if j == f.len() - 1 {
                    assert(sub.filter(p)[i] == f[i]);
                }
            }
        }
    }
}

/// Membership after filtering.
proof fn lemma_filter_contains(s: Seq<ProcessId>, p: spec_fn(ProcessId) -> bool, x: ProcessId)
    ensures
        s.filter(p).contains(x) <==> s.contains(x) && p(x),
{
    broadcast use vstd::seq_lib::group_filter_ensures;

    if s.contains(x) && p(x) {
        let i = choose|i: int| 0 <= i < s.len() && s[i] == x;
        assert(s.filter(p).contains(s[i]));
    }
    if s.filter(p).contains(x) {
        let k = choose|k: int| 0 <= k < s.filter(p).len() && s.filter(p)[k] == x;
        assert(p(s.filter(p)[k]));
        s.lemma_filter_contains_rev(p, x);
    }
}

/// A scheduling decision keeps the invariant.
pub proof fn lemma_schedule_keeps_inv(s: SchedulerView)
    requires
        sched_inv(s),
    ensures
        sched_inv(spec_schedule(s).0),
{
    if s.ready.len() > 0 {
        let next = s.ready[0];
        let rest = s.ready.drop_first();
        assert(s.table.contains_key(next));
        assert(rest.no_duplicates());
        assert forall|i: int| 0 <= i < rest.len() implies #[trigger] rest[i] != next && rest[i] == s.ready[i + 1] by {
            assert(s.ready[i + 1] != s.ready[0]);
        }
        assert forall|p: ProcessId| s.ready.contains(p) && p != next implies rest.contains(p) by {
            let i = choose|i: int| 0 <= i < s.ready.len() && s.ready[i] == p;
            assert(rest[i - 1] == p);
        }
        let r = spec_schedule(s).0;
        if s.current == Some(next) {
            assert(sched_inv(r));
        } else {
            match s.current {
                None => {
                    assert(sched_inv(r));
                },
                Some(c) => {
                    let demote = s.table[c].state == ProcessState::Running;
                    if demote {
                        assert(!s.ready.contains(c)) by {
                            if s.ready.contains(c) {
                                let i = choose|i: int| 0 <= i < s.ready.len() && s.ready[i] == c;
                                assert(s.table[s.ready[i]].state == ProcessState::Ready);
                            }
                        }
                        assert(!rest.contains(c)) by {
                            if rest.contains(c) {
                                let i = choose|i: int| 0 <= i < rest.len() && rest[i] == c;
                                assert(s.ready[i + 1] == c);
                            }
                        }
                        let q1 = rest.push(c);
                        assert(q1.no_duplicates()) by {
                            assert forall|i: int, j: int| 0 <= i < q1.len() && 0 <= j < q1.len() && i != j implies q1[i]
                                != q1[j] by {
                                if i == q1.len() - 1 {
                                    assert(q1[j] == rest[j]);
                                } else if j == q1.len() - 1 {
                                    assert(q1[i] == rest[i]);
                                } else {
                                    assert(q1[i] == rest[i] && q1[j] == rest[j]);
                                }
                            }
                        }
                        assert forall|i: int| 0 <= i < q1.len() implies r.table.contains_key(#[trigger] q1[i])
                            && r.table[q1[i]].state == ProcessState::Ready by {
                            if i < rest.len() {
                                assert(q1[i] == rest[i]);
                                assert(rest[i] == s.ready[i + 1]);
                            }
                        }
                        assert forall|p: ProcessId| #[trigger] r.table.contains_key(p) && r.table[p].state
                            == ProcessState::Ready implies r.ready.contains(p) by {
                            if p == c {
                                assert(q1[q1.len() - 1] == c);
                            } else {
                                assert(p != next);
                                assert(s.table[p].state == ProcessState::Ready);
                                assert(s.ready.contains(p));
                                assert(rest.contains(p));
                                let i = choose|i: int| 0 <= i < rest.len() && rest[i] == p;
                                assert(q1[i] == p);
                            }
                        }
                    } else {
                        assert forall|i: int| 0 <= i < rest.len() implies r.table.contains_key(#[trigger] rest[i])
                            && r.table[rest[i]].state == ProcessState::Ready by {
                            assert(rest[i] == s.ready[i + 1]);
                        }
                        assert forall|p: ProcessId| #[trigger] r.table.contains_key(p) && r.table[p].state
                            == ProcessState::Ready implies r.ready.contains(p) by {
                            assert(s.ready.contains(p));
                        }
                    }
                    assert(sched_inv(r));
                },
            }
        }
    }
}

/// Removing `c` from the ready queue and giving it a state other than
/// `Ready` and `Running` keeps the invariant.
proof fn lemma_park_keeps_inv(s: SchedulerView, c: ProcessId, v: PcbView)
    requires
        sched_inv(s),
        s.table.contains_key(c),
        v.pid == c,
        pcb_wf(v),
        v.state != ProcessState::Ready,
        v.state != ProcessState::Running,
    ensures
        sched_inv(SchedulerView { table: s.table.insert(c, v), ready: s.ready.filter(other_than(c)), current: s.current }),
{
    let r = SchedulerView { table: s.table.insert(c, v), ready: s.ready.filter(other_than(c)), current: s.current };
    lemma_filter_no_duplicates(s.ready, other_than(c));
    broadcast use vstd::seq_lib::group_filter_ensures;

    assert forall|i: int| 0 <= i < r.ready.len() implies r.table.contains_key(#[trigger] r.ready[i])
        && r.table[r.ready[i]].state == ProcessState::Ready by {
        assert(other_than(c)(r.ready[i]));
        lemma_filter_contains(s.ready, other_than(c), r.ready[i]);
        let k = choose|k: int| 0 <= k < s.ready.len() && s.ready[k] == r.ready[i];
    }
    assert forall|p: ProcessId| #[trigger] r.table.contains_key(p) && r.table[p].state == ProcessState::Ready
        implies r.ready.contains(p) by {
        lemma_filter_contains(s.ready, other_than(c), p);
    }
}

/// Adding a fresh block that is not `Running` keeps the invariant.
pub proof fn lemma_add_keeps_inv(s: SchedulerView, p: PcbView)
    requires
        sched_inv(s),
        !s.table.contains_key(p.pid),
        pcb_wf(p),
        p.state != ProcessState::Running,
    ensures
        sched_inv(spec_add(s, p)),
{
    let r = spec_add(s, p);
    if p.state == ProcessState::Ready {
        assert(!s.ready.contains(p.pid));
        let q = s.ready.push(p.pid);
        assert forall|i: int, j: int| 0 <= i < q.len() && 0 <= j < q.len() && i != j implies q[i] != q[j] by {
            if i < s.ready.len() && j < s.ready.len() {
                assert(q[i] == s.ready[i] && q[j] == s.ready[j]);
            } else if i < s.ready.len() {
                assert(q[i] == s.ready[i]);
            } else {
                assert(q[j] == s.ready[j]);
            }
        }
        assert forall|i: int| 0 <= i < q.len() implies r.table.contains_key(#[trigger] q[i]) && r.table[q[i]].state
            == ProcessState::Ready by {
            if i < s.ready.len() {
                assert(q[i] == s.ready[i]);
            }
        }
        assert forall|x: ProcessId| #[trigger] r.table.contains_key(x) && r.table[x].state == ProcessState::Ready
            implies r.ready.contains(x) by {
            if x == p.pid {
                assert(q[q.len() - 1] == x);
            } else {
                let i = choose|i: int| 0 <= i < s.ready.len() && s.ready[i] == x;
                assert(q[i] == x);
            }
        }
    } else {
        assert forall|i: int| 0 <= i < s.ready.len() implies r.table.contains_key(#[trigger] s.ready[i])
            && r.table[s.ready[i]].state == ProcessState::Ready by {
            assert(s.ready[i] != p.pid);
        }
    }
}

/// Removing a process keeps the invariant.
pub proof fn lemma_remove_keeps_inv(s: SchedulerView, pid: ProcessId)
    requires
        sched_inv(s),
    ensures
        sched_inv(spec_remove(s, pid)),
{
    let r = spec_remove(s, pid);
    lemma_filter_no_duplicates(s.ready, other_than(pid));
    broadcast use vstd::seq_lib::group_filter_ensures;

    assert forall|i: int| 0 <= i < r.ready.len() implies r.table.contains_key(#[trigger] r.ready[i])
        && r.table[r.ready[i]].state == ProcessState::Ready by {
        assert(other_than(pid)(r.ready[i]));
        lemma_filter_contains(s.ready, other_than(pid), r.ready[i]);
    }
    assert forall|p: ProcessId| #[trigger] r.table.contains_key(p) && r.table[p].state == ProcessState::Ready
        implies r.ready.contains(p) by {
        lemma_filter_contains(s.ready, other_than(pid), p);
    }
}

/// A timer tick keeps the invariant.
pub proof fn lemma_tick_keeps_inv(s: SchedulerView)
    requires
        sched_inv(s),
    ensures
        sched_inv(spec_tick(s).0),
{
    if let Some(c) = s.current {
        let s1 = SchedulerView { table: s.table.insert(c, ticked(s.table[c])), ..s };
        assert(sched_inv(s1));
        lemma_schedule_keeps_inv(s1);
    }
}

/// Blocking the current process keeps the invariant.
pub proof fn lemma_block_keeps_inv(s: SchedulerView)
    requires
        sched_inv(s),
    ensures
        sched_inv(spec_block_current(s).0),
{
    if let Some(c) = s.current {
        lemma_park_keeps_inv(s, c, with_state(s.table[c], ProcessState::Blocked));
        lemma_schedule_keeps_inv(
            SchedulerView {
                table: s.table.insert(c, with_state(s.table[c], ProcessState::Blocked)),
                ready: s.ready.filter(other_than(c)),
                current: s.current,
            },
        );
    }
}

/// The exit of the current process keeps the invariant.
pub proof fn lemma_exit_keeps_inv(s: SchedulerView, code: i32)
    requires
        sched_inv(s),
    ensures
        sched_inv(spec_exit_current(s, code).0),
{
    if let Some(c) = s.current {
        lemma_park_keeps_inv(s, c, exited(s.table[c], code));
        lemma_schedule_keeps_inv(
            SchedulerView {
                table: s.table.insert(c, exited(s.table[c], code)),
                ready: s.ready.filter(other_than(c)),
                current: s.current,
            },
        );
    }
}

/// Waking a process keeps the invariant.
pub proof fn lemma_wake_keeps_inv(s: SchedulerView, pid: ProcessId)
    requires
        sched_inv(s),
    ensures
        sched_inv(spec_wake_up(s, pid)),
{
    if s.table.contains_key(pid) && s.table[pid].state == ProcessState::Blocked {
        let r = spec_wake_up(s, pid);
        assert(!s.ready.contains(pid));
        let q = r.ready;
        assert forall|i: int, j: int| 0 <= i < q.len() && 0 <= j < q.len() && i != j implies q[i] != q[j] by {
            if i < s.ready.len() && j < s.ready.len() {
                assert(q[i] == s.ready[i] && q[j] == s.ready[j]);
            } else if i < s.ready.len() {
                assert(q[i] == s.ready[i]);
            } else {
                assert(q[j] == s.ready[j]);
            }
        }
        assert forall|i: int| 0 <= i < q.len() implies r.table.contains_key(#[trigger] q[i]) && r.table[q[i]].state
            == ProcessState::Ready by {
            if i < s.ready.len() {
                assert(q[i] == s.ready[i]);
            }
        }
        assert forall|x: ProcessId| #[trigger] r.table.contains_key(x) && r.table[x].state == ProcessState::Ready
            implies r.ready.contains(x) by {
            if x == pid {
                assert(q[q.len() - 1] == x);
            } else {
                let i = choose|i: int| 0 <= i < s.ready.len() && s.ready[i] == x;
                assert(q[i] == x);
            }
        }
    }
}

/// The scheduler: sole owner of every process control block.
pub struct Scheduler {
    /// Process table, sorted by identifier.
    processes: Vec<ProcessControlBlock>,
    /// Ready queue, head first.
    ready_queue: VecDeque<ProcessId>,
    /// The process that holds (or last held) the processor.
    current: Option<ProcessId>,
    /// The process table as a map (saved contexts left out), kept equal to
    /// `processes`.
    table: Ghost<Map<ProcessId, PcbView>>,
}

impl View for Scheduler {
    type V = SchedulerView;

    closed spec fn view(&self) -> SchedulerView {
        SchedulerView { table: self.table@, ready: self.ready_queue@, current: self.current }
    }
}

impl Scheduler {
    /// The table, the queue and the current process agree, and the
    /// scheduler's invariant holds.
    pub closed spec fn wf(&self) -> bool {
        &&& table_matches(self.processes@, self.table@)
        &&& sched_inv(self@)
    }

    /// An empty scheduler: no processes, nothing ready, nothing current.
    pub fn new() -> (r: Scheduler)
        ensures
            r.wf(),
            r@.table == Map::<ProcessId, PcbView>::empty(),
            r@.ready == Seq::<ProcessId>::empty(),
            r@.current.is_none(),
    {
        let r = Scheduler {
            processes: Vec::new(),
            ready_queue: VecDeque::new(),
            current: None,
            table: Ghost(Map::empty()),
        };
        proof {
            assert(r.ready_queue@.no_duplicates());
        }
        r
    }

    /// Position of the block of `pid` in the table.
    fn find_index(&self, pid: ProcessId) -> (r: Option<usize>)
        requires
            table_matches(self.processes@, self.table@),
        ensures
            match r {
                Some(i) => i < self.processes@.len() && self.processes@[i as int]@.pid == pid
                    && self.table@.contains_key(pid),
                None => !self.table@.contains_key(pid),
            },
    {
        let mut i: usize = 0;
        while i < self.processes.len()
            invariant
                i <= self.processes@.len(),
                table_matches(self.processes@, self.table@),
                forall|k: int| 0 <= k < i ==> (#[trigger] self.processes@[k])@.pid != pid,
            decreases self.processes@.len() - i,
        {
            if self.processes[i].pid() == pid {
                return Some(i);
            }
            i = i + 1;
        }
        proof {
            lemma_absent(self.processes@, self.table@, pid);
        }
        None
    }

    /// Puts back at `i` a block taken from there, changed but with the same
    /// identifier, and files its new view in the table.
    fn put_back(&mut self, i: usize, p: ProcessControlBlock, Ghost(before): Ghost<Seq<ProcessControlBlock>>)
        requires
            table_matches(before, old(self).table@),
            i < before.len(),
            old(self).processes@ == before.remove(i as int),
            p@.pid == before[i as int]@.pid,
        ensures
            table_matches(final(self).processes@, final(self).table@),
            final(self).processes@ == before.update(i as int, p),
            final(self).table@ == old(self).table@.insert(p@.pid, sans_context(p@)),
            final(self).ready_queue@ == old(self).ready_queue@,
            final(self).current == old(self).current,
    {
        let ghost pv = p@;
        let ghost pp = p;
        self.processes.insert(i, p);
        proof {
            before.remove_ensures(i as int);
            assert(self.processes@ =~= before.update(i as int, pp));
            lemma_update_entry(before, self.processes@, self.table@, i as int);
        }
        self.table = Ghost(self.table@.insert(pv.pid, sans_context(pv)));
    }

    /// Gives the process at `i` the processor: `Running`, full quantum.
    fn run_at(&mut self, i: usize)
        requires
            table_matches(old(self).processes@, old(self).table@),
            i < old(self).processes@.len(),
        ensures
            table_matches(final(self).processes@, final(self).table@),
            final(self).processes@.len() == old(self).processes@.len(),
            forall|k: int| 0 <= k < old(self).processes@.len() ==> (#[trigger] final(self).processes@[k])@.pid
                == old(self).processes@[k]@.pid,
            final(self).table@ == old(self).table@.insert(
                old(self).processes@[i as int]@.pid,
                running(sans_context(old(self).processes@[i as int]@)),
            ),
            final(self).ready_queue@ == old(self).ready_queue@,
            final(self).current == old(self).current,
    {
        let ghost before = self.processes@;
        let mut p = self.processes.remove(i);
        p.set_state(ProcessState::Running);
        p.reset_time_slice();
        self.put_back(i, p, Ghost(before));
    }

    /// Sets the state of the process at `i`.
    fn set_state_at(&mut self, i: usize, state: ProcessState)
        requires
            table_matches(old(self).processes@, old(self).table@),
            i < old(self).processes@.len(),
        ensures
            table_matches(final(self).processes@, final(self).table@),
            final(self).processes@.len() == old(self).processes@.len(),
            forall|k: int| 0 <= k < old(self).processes@.len() ==> (#[trigger] final(self).processes@[k])@.pid
                == old(self).processes@[k]@.pid,
            final(self).table@ == old(self).table@.insert(
                old(self).processes@[i as int]@.pid,
                with_state(sans_context(old(self).processes@[i as int]@), state),
            ),
            final(self).ready_queue@ == old(self).ready_queue@,
            final(self).current == old(self).current,
    {
        let ghost before = self.processes@;
        let mut p = self.processes.remove(i);
        p.set_state(state);
        self.put_back(i, p, Ghost(before));
    }

    /// Counts a timer tick against the process at `i`; returns whether its
    /// quantum is used up.
    fn tick_at(&mut self, i: usize) -> (r: bool)
        requires
            table_matches(old(self).processes@, old(self).table@),
            i < old(self).processes@.len(),
        ensures
            table_matches(final(self).processes@, final(self).table@),
            final(self).table@ == old(self).table@.insert(
                old(self).processes@[i as int]@.pid,
                ticked(sans_context(old(self).processes@[i as int]@)),
            ),
            r == (ticked(old(self).processes@[i as int]@).time_slice == 0),
            final(self).ready_queue@ == old(self).ready_queue@,
            final(self).current == old(self).current,
    {
        let ghost before = self.processes@;
        let mut p = self.processes.remove(i);
        let r = p.tick();
        self.put_back(i, p, Ghost(before));
        r
    }

    /// Records the exit of the process at `i`.
    fn exit_at(&mut self, i: usize, code: i32)
        requires
            table_matches(old(self).processes@, old(self).table@),
            i < old(self).processes@.len(),
        ensures
            table_matches(final(self).processes@, final(self).table@),
            final(self).table@ == old(self).table@.insert(
                old(self).processes@[i as int]@.pid,
                exited(sans_context(old(self).processes@[i as int]@), code),
            ),
            final(self).ready_queue@ == old(self).ready_queue@,
            final(self).current == old(self).current,
    {
        let ghost before = self.processes@;
        let mut p = self.processes.remove(i);
        p.set_exit_code(code);
        self.put_back(i, p, Ghost(before));
    }

    /// Removes every occurrence of `pid` from the ready queue.
    fn drop_from_ready(&mut self, pid: ProcessId)
        ensures
            final(self).ready_queue@ == old(self).ready_queue@.filter(other_than(pid)),
            final(self).processes@ == old(self).processes@,
            final(self).table@ == old(self).table@,
            final(self).current == old(self).current,
    {
        let mut kept: VecDeque<ProcessId> = VecDeque::new();
        let mut i: usize = 0;
        while i < self.ready_queue.len()
            invariant
                i <= self.ready_queue@.len(),
                self.ready_queue@ == old(self).ready_queue@,
                self.processes@ == old(self).processes@,
                self.table@ == old(self).table@,
                self.current == old(self).current,
                kept@ == self.ready_queue@.take(i as int).filter(other_than(pid)),
            decreases self.ready_queue@.len() - i,
        {
            let x = self.ready_queue[i];
            proof {
                self.ready_queue@.take(i as int).lemma_filter_push(x, other_than(pid));
                assert(self.ready_queue@.take(i as int + 1) =~= self.ready_queue@.take(i as int).push(x));
                assert(other_than(pid)(x) == (x != pid));
            }
            if x != pid {
                kept.push_back(x);
            }
            i = i + 1;
        }
        assert(self.ready_queue@.take(i as int) =~= self.ready_queue@);
        self.ready_queue = kept;
    }
    /// Whether a block with identifier `pid` is in the table.
    pub fn has_process(&self, pid: ProcessId) -> (r: bool)
        requires
            self.wf(),
        ensures
            r == self@.table.contains_key(pid),
    {
        self.find_index(pid).is_some()
    }

    /// Files a new process in the table; a `Ready` one also joins the tail
    /// of the ready queue. The identifier must be new to the table and the
    /// process must not claim to be running already.
    pub fn add_process(&mut self, process: ProcessControlBlock)
        requires
            old(self).wf(),
            !old(self)@.table.contains_key(process@.pid),
            pcb_wf(process@),
            process@.state != ProcessState::Running,
        ensures
            final(self).wf(),
            final(self)@ == spec_add(old(self)@, sans_context(process@)),
    {
        let pid = process.pid();
        let is_ready = process.is_ready();
        let ghost pv = sans_context(process@);
        let ghost pp = process;
        let mut j: usize = 0;
        loop
            invariant
                j <= self.processes@.len(),
                self.wf(),
                self@ == old(self)@,
                self.processes@ == old(self).processes@,
                !self.table@.contains_key(pid),
                forall|k: int| 0 <= k < j ==> (#[trigger] self.processes@[k])@.pid.0 < pid.0,
            ensures
                j < self.processes@.len() ==> self.processes@[j as int]@.pid.0 >= pid.0,
            decreases self.processes@.len() - j,
        {
            if j >= self.processes.len() {
                break;
            }
            if self.processes[j].pid().0 >= pid.0 {
                break;
            }
            j = j + 1;
        }
        let ghost before = self.processes@;
        proof {
            if j < before.len() {
                assert(self.table@.contains_key(before[j as int]@.pid));
                assert(before[j as int]@.pid != pid);
                assert forall|k: int| j <= k < before.len() implies (#[trigger] before[k])@.pid.0 > pid.0 by {
                    if k > j {
                        assert(before[j as int]@.pid.0 < before[k]@.pid.0);
                    }
                }
            }
        }
        self.processes.insert(j, process);
        proof {
            before.insert_ensures(j as int, pp);
            lemma_insert_entry(before, self.processes@, self.table@, j as int, pv);
        }
        self.table = Ghost(self.table@.insert(pid, pv));
        if is_ready {
            self.ready_queue.push_back(pid);
        }
        proof {
            lemma_add_keeps_inv(old(self)@, pv);
            assert(self@ == spec_add(old(self)@, pv));
        }
    }

    /// Takes a process out of the table and the ready queue; if it was
    /// current, nothing is current any more. An unknown identifier changes
    /// nothing.
    pub fn remove_process(&mut self, pid: ProcessId)
        requires
            old(self).wf(),
        ensures
            final(self).wf(),
            final(self)@ == spec_remove(old(self)@, pid),
    {
        self.drop_from_ready(pid);
        match self.find_index(pid) {
            Some(i) => {
                let ghost before = self.processes@;
                self.processes.remove(i);
                proof {
                    lemma_remove_entry(before, self.processes@, self.table@, i as int);
                }
                self.table = Ghost(self.table@.remove(pid));
            },
            None => {
                assert(self.table@.remove(pid) =~= self.table@);
            },
        }
        let was_current = match self.current {
            Some(c) => c == pid,
            None => false,
        };
        if was_current {
            self.current = None;
        }
        proof {
            lemma_remove_keeps_inv(old(self)@, pid);
            assert(self@ == spec_remove(old(self)@, pid));
        }
    }

    /// The block of `pid`, if it is in the table.
    pub fn get_process(&self, pid: ProcessId) -> (r: Option<&ProcessControlBlock>)
        requires
            self.wf(),
        ensures
            match r {
                Some(p) => self@.table.contains_key(pid) && sans_context(p@) == self@.table[pid],
                None => !self@.table.contains_key(pid),
            },
    {
        match self.find_index(pid) {
            Some(i) => Some(&self.processes[i]),
            None => None,
        }
    }

    /// The saved context of `pid`, for the caller to hand to the
    /// context-switch routine (which stores the outgoing registers in it) or
    /// to fill in. Only that context changes; the scheduler's view, which
    /// leaves contexts out, stays as it is.
    pub fn context_mut(&mut self, pid: ProcessId) -> (r: Option<&mut ProcessContext>)
        requires
            old(self).wf(),
        ensures
            final(self).wf(),
            final(self)@ == old(self)@,
            match r {
                Some(c) => exists|i: int|
                    0 <= i < old(self).entries().len() && old(self).entries()[i].pid == pid && *c
                        == old(self).entries()[i].context && final(self).entries() == old(self).entries().update(
                        i,
                        PcbView { context: *final(c), ..old(self).entries()[i] },
                    ),
                None => !old(self)@.table.contains_key(pid) && final(self).entries() == old(self).entries(),
            },
    {
        match self.find_index(pid) {
            Some(i) => {
                let ghost before = self.processes@;
                let pcb = &mut self.processes[i];
                proof {
                    assert(after_borrow(self.processes)@ == before.update(i as int, *final(pcb)));
                }
                let c = pcb.context_mut();
                proof {
                    assert(after_borrow(self.processes)@[i as int]@ == PcbView {
                        context: *final(c),
                        ..before[i as int]@
                    });
                    lemma_update_entry(before, after_borrow(self.processes)@, self.table@, i as int);
                    assert(self.table@.insert(pid, sans_context(after_borrow(self.processes)@[i as int]@)) =~= self.table@);
                    assert(after_borrow(self.processes)@.map_values(|p: ProcessControlBlock| p@) =~= before.map_values(
                        |p: ProcessControlBlock| p@,
                    ).update(i as int, PcbView { context: *final(c), ..before[i as int]@ }));
                    assert(old(self).entries()[i as int] == before[i as int]@);
                    assert(*c == old(self).entries()[i as int].context);
                }
                Some(c)
            },
            None => None,
        }
    }

    /// The identifier of the current process.
    pub fn current_pid(&self) -> (r: Option<ProcessId>)
        ensures
            r == self@.current,
    {
        self.current
    }

    /// The block of the current process.
    pub fn current_process(&self) -> (r: Option<&ProcessControlBlock>)
        requires
            self.wf(),
        ensures
            match r {
                Some(p) => self@.current == Some(p@.pid) && sans_context(p@) == self@.table[p@.pid],
                None => self@.current.is_none(),
            },
    {
        match self.current {
            Some(c) => self.get_process(c),
            None => None,
        }
    }

    /// Views of the blocks in the table, in increasing order of identifier.
    pub closed spec fn entries(&self) -> Seq<PcbView> {
        self.processes@.map_values(|p: ProcessControlBlock| p@)
    }

    /// Every block in the table, in increasing order of identifier.
    pub fn processes(&self) -> (r: &[ProcessControlBlock])
        requires
            self.wf(),
        ensures
            table_matches(r@, self@.table),
            r@.len() == self.entries().len(),
            forall|i: int| 0 <= i < r@.len() ==> (#[trigger] r@[i])@ == self.entries()[i],
    {
        self.processes.as_slice()
    }

    /// The ready queue, head first.
    pub fn ready_ids(&self) -> (r: Vec<ProcessId>)
        ensures
            r@ == self@.ready,
    {
        let mut r: Vec<ProcessId> = Vec::new();
        let mut i: usize = 0;
        while i < self.ready_queue.len()
            invariant
                i <= self.ready_queue@.len(),
                r@ == self.ready_queue@.take(i as int),
            decreases self.ready_queue@.len() - i,
        {
            r.push(self.ready_queue[i]);
            i = i + 1;
            assert(r@ =~= self.ready_queue@.take(i as int));
        }
        assert(self.ready_queue@.take(i as int) =~= self.ready_queue@);
        r
    }

    /// One scheduling decision (see [`spec_schedule`]). All bookkeeping is
    /// done when this returns; the caller then performs the returned action.
    pub fn schedule(&mut self) -> (r: SwitchAction)
        requires
            old(self).wf(),
        ensures
            final(self).wf(),
            (final(self)@, r) == spec_schedule(old(self)@),
    {
        proof {
            lemma_schedule_keeps_inv(self@);
        }
        let ghost s0 = self@;
        let next = match self.ready_queue.pop_front() {
            Some(n) => n,
            None => {
                return SwitchAction::NoSwitch;
            },
        };
        assert(s0.table.contains_key(s0.ready[0]));
        let ni = match self.find_index(next) {
            Some(i) => i,
            None => {
                return SwitchAction::NoSwitch;
            },
        };
        let same = match self.current {
            Some(c) => c == next,
            None => false,
        };
        if same {
            self.run_at(ni);
            proof {
                assert(self@ == spec_schedule(s0).0);
            }
            return SwitchAction::NoSwitch;
        }
        match self.current {
            None => {
                self.run_at(ni);
                self.current = Some(next);
                proof {
                    assert(self@ == spec_schedule(s0).0);
                }
                SwitchAction::StartFirst { to: next }
            },
            Some(c) => {
                let ci = match self.find_index(c) {
                    Some(i) => i,
                    None => {
                        return SwitchAction::NoSwitch;
                    },
                };
                if self.processes[ci].is_running() {
                    self.set_state_at(ci, ProcessState::Ready);
                    self.ready_queue.push_back(c);
                }
                self.run_at(ni);
                self.current = Some(next);
                proof {
                    assert(self@.table =~= spec_schedule(s0).0.table);
                    assert(self@ == spec_schedule(s0).0);
                }
                SwitchAction::Switch { from: c, to: next }
            },
        }
    }
    /// One timer tick (see [`spec_tick`]).
    pub fn tick(&mut self) -> (r: SwitchAction)
        requires
            old(self).wf(),
        ensures
            final(self).wf(),
            (final(self)@, r) == spec_tick(old(self)@),
    {
        proof {
            lemma_tick_keeps_inv(self@);
        }
        match self.current {
            Some(c) => {
                let ci = match self.find_index(c) {
                    Some(i) => i,
                    None => {
                        return SwitchAction::NoSwitch;
                    },
                };
                let exhausted = self.tick_at(ci);
                proof {
                    assert(sched_inv(self@));
                }
                if exhausted {
                    self.schedule()
                } else {
                    SwitchAction::NoSwitch
                }
            },
            None => SwitchAction::NoSwitch,
        }
    }

    /// Blocks the current process and makes a scheduling decision (see
    /// [`spec_block_current`]). The process stays blocked until
    /// [`Scheduler::wake_up`] names it.
    pub fn block_current(&mut self) -> (r: SwitchAction)
        requires
            old(self).wf(),
        ensures
            final(self).wf(),
            (final(self)@, r) == spec_block_current(old(self)@),
    {
        proof {
            lemma_block_keeps_inv(self@);
        }
        match self.current {
            Some(c) => {
                let ci = match self.find_index(c) {
                    Some(i) => i,
                    None => {
                        return SwitchAction::NoSwitch;
                    },
                };
                self.set_state_at(ci, ProcessState::Blocked);
                self.drop_from_ready(c);
                proof {
                    lemma_park_keeps_inv(old(self)@, c, with_state(old(self)@.table[c], ProcessState::Blocked));
                }
                self.schedule()
            },
            None => SwitchAction::NoSwitch,
        }
    }

    /// Records the exit of the current process with `code` and makes a
    /// scheduling decision (see [`spec_exit_current`]).
    pub fn exit_current(&mut self, code: i32) -> (r: SwitchAction)
        requires
            old(self).wf(),
        ensures
            final(self).wf(),
            (final(self)@, r) == spec_exit_current(old(self)@, code),
    {
        proof {
            lemma_exit_keeps_inv(self@, code);
        }
        match self.current {
            Some(c) => {
                let ci = match self.find_index(c) {
                    Some(i) => i,
                    None => {
                        return SwitchAction::NoSwitch;
                    },
                };
                self.exit_at(ci, code);
                self.drop_from_ready(c);
                proof {
                    lemma_park_keeps_inv(old(self)@, c, exited(old(self)@.table[c], code));
                }
                self.schedule()
            },
            None => SwitchAction::NoSwitch,
        }
    }

    /// Makes a `Blocked` process `Ready` at the tail of the queue; for any
    /// other identifier, known or not, nothing changes.
    pub fn wake_up(&mut self, pid: ProcessId)
        requires
            old(self).wf(),
        ensures
            final(self).wf(),
            final(self)@ == spec_wake_up(old(self)@, pid),
    {
        proof {
            lemma_wake_keeps_inv(self@, pid);
        }
        match self.find_index(pid) {
            Some(i) => {
                if self.processes[i].is_blocked() {
                    self.set_state_at(i, ProcessState::Ready);
                    self.ready_queue.push_back(pid);
                }
            },
            None => {},
        }
    }
}

/// A scheduler with no processes, ready to receive them.
pub fn init() -> (r: Scheduler)
    ensures
        r.wf(),
        r@.table == Map::<ProcessId, PcbView>::empty(),
        r@.ready == Seq::<ProcessId>::empty(),
        r@.current.is_none(),
{
    Scheduler::new()
}

/// The first scheduling decision.
pub fn start_scheduling(sched: &mut Scheduler) -> (r: SwitchAction)
    requires
        old(sched).wf(),
    ensures
        final(sched).wf(),
        (final(sched)@, r) == spec_schedule(old(sched)@),
{
    sched.schedule()
}

/// The timer hook: one tick of the current quantum.
pub fn tick(sched: &mut Scheduler) -> (r: SwitchAction)
    requires
        old(sched).wf(),
    ensures
        final(sched).wf(),
        (final(sched)@, r) == spec_tick(old(sched)@),
{
    sched.tick()
}

/// The identifier of the current process.
pub fn current_pid(sched: &Scheduler) -> (r: Option<ProcessId>)
    ensures
        r == sched@.current,
{
    sched.current_pid()
}

/// The block of the current process.
pub fn current_process(sched: &Scheduler) -> (r: Option<&ProcessControlBlock>)
    requires
        sched.wf(),
    ensures
        match r {
            Some(p) => sched@.current == Some(p@.pid) && sans_context(p@) == sched@.table[p@.pid],
            None => sched@.current.is_none(),
        },
{
    sched.current_process()
}

/// The invariant holds of every well-formed scheduler.
pub proof fn lemma_wf_inv(s: &Scheduler)
    requires
        s.wf(),
    ensures
        sched_inv(s@),
{
}

/// No `Zombie` (nor any process that is not `Ready`) is ever in the ready
/// queue. Every operation keeps the scheduler well formed, so this holds
/// after any sequence of them.
pub proof fn lemma_no_zombie_in_ready(s: &Scheduler)
    requires
        s.wf(),
    ensures
        forall|i: int|
            0 <= i < s@.ready.len() ==> s@.table.contains_key(#[trigger] s@.ready[i])
                && s@.table[s@.ready[i]].state == ProcessState::Ready
                && s@.table[s@.ready[i]].state != ProcessState::Zombie,
{
}

/// Blocking the running process leaves it `Blocked` and out of the ready
/// queue; waking it afterwards makes it `Ready` and appends it at the tail
/// of the queue, behind everything that was waiting.
pub proof fn lemma_block_then_wake(s: SchedulerView)
    requires
        sched_inv(s),
        s.current matches Some(c) && s.table[c].state == ProcessState::Running,
    ensures
        ({
            let c = s.current.unwrap();
            let s1 = spec_block_current(s).0;
            let s2 = spec_wake_up(s1, c);
            &&& s1.table.contains_key(c)
            &&& s1.table[c].state == ProcessState::Blocked
            &&& !s1.ready.contains(c)
            &&& s2.table[c].state == ProcessState::Ready
            &&& s2.ready == s1.ready.push(c)
            &&& s2.ready.last() == c
        }),
{
    let c = s.current.unwrap();
    let b = SchedulerView {
        table: s.table.insert(c, with_state(s.table[c], ProcessState::Blocked)),
        ready: s.ready.filter(other_than(c)),
        current: s.current,
    };
    lemma_filter_contains(s.ready, other_than(c), c);
    lemma_block_keeps_inv(s);
    if b.ready.len() > 0 {
        assert(b.ready.contains(b.ready[0]));
        lemma_filter_contains(s.ready, other_than(c), b.ready[0]);
    }
    let s1 = spec_block_current(s).0;
    assert(!s1.ready.contains(c)) by {
        if s1.ready.contains(c) {
            let i = choose|i: int| 0 <= i < s1.ready.len() && s1.ready[i] == c;
            assert(s1.table[s1.ready[i]].state == ProcessState::Ready);
        }
    }
}

/// Waking a process that is `Ready` changes nothing: the queue keeps its
/// length and its members.
pub proof fn lemma_wake_ready_is_noop(s: SchedulerView, pid: ProcessId)
    requires
        sched_inv(s),
        s.table.contains_key(pid),
        s.table[pid].state == ProcessState::Ready,
    ensures
        spec_wake_up(s, pid) == s,
        spec_wake_up(s, pid).ready.len() == s.ready.len(),
        spec_wake_up(s, pid).ready.to_set() == s.ready.to_set(),
{
}

} // verus!
