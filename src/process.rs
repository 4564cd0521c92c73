//! Process life cycle on top of the scheduler: creation of user processes,
//! exit, blocking and waking.

use vstd::prelude::*;

use crate::context::{general_registers_zero_but_sp, user_status_of, ProcessContext};
use crate::pcb::{pcb_wf, sans_context, PcbView, ProcessControlBlock, ProcessState, DEFAULT_PRIORITY, QUANTUM};
use crate::pid::{PidAllocator, ProcessId};
use crate::scheduler::{spec_block_current, spec_exit_current, spec_wake_up, Scheduler, SwitchAction};

verus! {

/// Size of the user stack of a new process.
pub const USER_STACK_SIZE: usize = 0x10000;

/// Translation root of a new process: the shared identity mapping.
pub const IDENTITY_SATP: usize = 0;

/// Sets up process management: an empty scheduler.
pub fn init() -> (r: Scheduler)
    ensures
        r.wf(),
        r@.table == Map::<ProcessId, PcbView>::empty(),
        r@.ready == Seq::<ProcessId>::empty(),
        r@.current.is_none(),
{
    crate::scheduler::init()
}

/// A new `Ready` user process named `name` that starts at `entry_point` on
/// the stack whose top is `user_stack_top` (the stack spans the
/// [`USER_STACK_SIZE`] bytes below it), in the shared identity mapping.
/// `current_status` is the status word read from the hardware; the process
/// resumes in user mode with interrupts enabled.
pub fn create_process(
    name: &'static str,
    entry_point: usize,
    user_stack_top: usize,
    parent_pid: Option<ProcessId>,
    pids: &mut PidAllocator,
    current_status: usize,
) -> (r: ProcessControlBlock)
    requires
        old(pids).wf(),
        old(pids).next_id() < usize::MAX,
        user_stack_top >= USER_STACK_SIZE,
    ensures
        final(pids).wf(),
        final(pids).issued() == old(pids).issued().push(r@.pid),
        final(pids).next_id() == old(pids).next_id() + 1,
        r@.pid.0 == old(pids).next_id(),
        r@.parent_pid == parent_pid,
        r@.name == name@,
        r@.state == ProcessState::Ready,
        r@.time_slice == QUANTUM,
        r@.priority == DEFAULT_PRIORITY,
        r@.children == Seq::<ProcessId>::empty(),
        r@.exit_code.is_none(),
        r@.address_space.is_none(),
        r@.heap_bottom == 0 && r@.heap_top == 0,
        r@.user_stack_bottom == user_stack_top - USER_STACK_SIZE,
        r@.user_stack_top == user_stack_top,
        r@.context.sepc == entry_point,
        r@.context.sp == user_stack_top,
        r@.context.satp == IDENTITY_SATP,
        r@.context.sstatus == user_status_of(current_status),
        general_registers_zero_but_sp(r@.context),
        pcb_wf(r@),
{
    let mut pcb = ProcessControlBlock::new(name, parent_pid, pids);
    pcb.set_user_stack(user_stack_top - USER_STACK_SIZE, user_stack_top);
    let context = ProcessContext::new_user_context(entry_point, user_stack_top, IDENTITY_SATP, current_status);
    *pcb.context_mut() = context;
    pcb
}

/// The current process exits with `exit_code` and the processor goes to the
/// next ready process (see [`spec_exit_current`]).
pub fn exit_current_process(sched: &mut Scheduler, exit_code: i32) -> (r: SwitchAction)
    requires
        old(sched).wf(),
    ensures
        final(sched).wf(),
        (final(sched)@, r) == spec_exit_current(old(sched)@, exit_code),
{
    sched.exit_current(exit_code)
}

/// The current process blocks (see [`spec_block_current`]).
pub fn block_current_process(sched: &mut Scheduler) -> (r: SwitchAction)
    requires
        old(sched).wf(),
    ensures
        final(sched).wf(),
        (final(sched)@, r) == spec_block_current(old(sched)@),
{
    sched.block_current()
}

/// Wakes a blocked process (see [`spec_wake_up`]).
pub fn wake_up_process(sched: &mut Scheduler, pid: ProcessId)
    requires
        old(sched).wf(),
    ensures
        final(sched).wf(),
        final(sched)@ == spec_wake_up(old(sched)@, pid),
{
    sched.wake_up(pid)
}

/// The identifier of the current process.
pub fn current_pid(sched: &Scheduler) -> (r: Option<ProcessId>)
    ensures
        r == sched@.current,
{
    crate::scheduler::current_pid(sched)
}

/// The block of the current process.
pub fn current_process(sched: &Scheduler) -> (r: Option<&ProcessControlBlock>)
    requires
        sched.wf(),
    ensures
        match r {
            Some(p) => sched@.current == Some(p@.pid) && sans_context(p@) == sched@.table[p@.pid],
            None => sched@.current.is_none(),
        },
{
    sched.current_process()
}

} // verus!
