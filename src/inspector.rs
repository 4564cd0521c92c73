//! Read-only monitoring: point-in-time snapshots of the processes and
//! counts by lifecycle state. Nothing here changes the scheduler.

use vstd::prelude::*;

use crate::pcb::{PcbView, ProcessState};
use crate::scheduler::Scheduler;

verus! {

/// What a monitor sees of one process.
#[derive(Debug, Clone)]
pub struct ProcessSnapshot {
    pub pid: usize,
    pub name: String,
    pub state: ProcessState,
    pub parent_pid: Option<usize>,
}

/// Number of processes in each lifecycle state.
#[derive(Debug, Clone, Copy, PartialEq, Eq, Structural)]
pub struct SystemStats {
    pub total_processes: usize,
    pub running_processes: usize,
    pub ready_processes: usize,
    pub blocked_processes: usize,
    pub zombie_processes: usize,
}

/// `snap` shows the process whose view is `p`.
pub open spec fn shows(snap: ProcessSnapshot, p: PcbView) -> bool {
    &&& snap.pid == p.pid.0
    &&& snap.name@ == p.name
    &&& snap.state == p.state
    &&& snap.parent_pid == match p.parent_pid {
        Some(q) => Some(q.0),
        None => None::<usize>,
    }
}

/// Number of processes in `s` whose state is `st`.
pub open spec fn count_state(s: Seq<PcbView>, st: ProcessState) -> nat
    decreases s.len(),
{
    if s.len() == 0 {
        0
    } else {
        count_state(s.drop_last(), st) + if s.last().state == st { 1nat } else { 0nat }
    }
}

/// A snapshot of every process, in increasing order of identifier.
pub fn get_all_processes(sched: &Scheduler) -> (r: Vec<ProcessSnapshot>)
    requires
        sched.wf(),
    ensures
        r@.len() == sched.entries().len(),
        forall|i: int| 0 <= i < r@.len() ==> shows(#[trigger] r@[i], sched.entries()[i]),
{
    let procs = sched.processes();
    let mut snapshots: Vec<ProcessSnapshot> = Vec::new();
    let mut i: usize = 0;
    while i < procs.len()
        invariant
            i <= procs@.len(),
            procs@.len() == sched.entries().len(),
            forall|k: int| 0 <= k < procs@.len() ==> (#[trigger] procs@[k])@ == sched.entries()[k],
            snapshots@.len() == i,
            forall|k: int| 0 <= k < i ==> shows(#[trigger] snapshots@[k], sched.entries()[k]),
        decreases procs@.len() - i,
    {
        let pcb = &procs[i];
        let parent = match pcb.parent_pid() {
            Some(q) => Some(q.as_usize()),
            None => None,
        };
        snapshots.push(
            ProcessSnapshot { pid: pcb.pid().as_usize(), name: pcb.name().to_owned(), state: pcb.state(), parent_pid: parent },
        );
        i = i + 1;
    }
    snapshots
}

/// Counts of the processes by state.
pub fn get_system_stats(sched: &Scheduler) -> (r: SystemStats)
    requires
        sched.wf(),
    ensures
        r.total_processes == sched.entries().len(),
        r.running_processes == count_state(sched.entries(), ProcessState::Running),
        r.ready_processes == count_state(sched.entries(), ProcessState::Ready),
        r.blocked_processes == count_state(sched.entries(), ProcessState::Blocked),
        r.zombie_processes == count_state(sched.entries(), ProcessState::Zombie),
{
    let processes = get_all_processes(sched);
    let ghost e = sched.entries();
    let mut running: usize = 0;
    let mut ready: usize = 0;
    let mut blocked: usize = 0;
    let mut zombie: usize = 0;
    let mut i: usize = 0;
    while i < processes.len()
        invariant
            i <= processes@.len(),
            processes@.len() == e.len(),
            forall|k: int| 0 <= k < processes@.len() ==> shows(#[trigger] processes@[k], e[k]),
            running == count_state(e.take(i as int), ProcessState::Running),
            ready == count_state(e.take(i as int), ProcessState::Ready),
            blocked == count_state(e.take(i as int), ProcessState::Blocked),
            zombie == count_state(e.take(i as int), ProcessState::Zombie),
            running + ready + blocked + zombie == i,
        decreases processes@.len() - i,
    {
        proof {
            assert(e.take(i as int + 1).drop_last() =~= e.take(i as int));
            assert(e.take(i as int + 1).last() == e[i as int]);
            assert(shows(processes@[i as int], e[i as int]));
        }
        match processes[i].state {
            ProcessState::Running => running = running + 1,
            ProcessState::Ready => ready = ready + 1,
            ProcessState::Blocked => blocked = blocked + 1,
            ProcessState::Zombie => zombie = zombie + 1,
        }
        i = i + 1;
    }
    assert(e.take(i as int) =~= e);
    SystemStats {
        total_processes: processes.len(),
        running_processes: running,
        ready_processes: ready,
        blocked_processes: blocked,
        zombie_processes: zombie,
    }
}

/// A snapshot of the current process, if there is one.
pub fn get_current_process(sched: &Scheduler) -> (r: Option<ProcessSnapshot>)
    requires
        sched.wf(),
    ensures
        match r {
            Some(snap) => sched@.current matches Some(c) && shows(snap, sched@.table[c]),
            None => sched@.current.is_none(),
        },
{
    match sched.current_process() {
        Some(pcb) => {
            let parent = match pcb.parent_pid() {
                Some(q) => Some(q.as_usize()),
                None => None,
            };
            Some(
                ProcessSnapshot {
                    pid: pcb.pid().as_usize(),
                    name: pcb.name().to_owned(),
                    state: pcb.state(),
                    parent_pid: parent,
                },
            )
        },
        None => None,
    }
}

} // verus!
