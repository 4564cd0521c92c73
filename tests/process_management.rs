use os::context::{enable_interrupt_on_return, set_supervisor_mode, set_user_mode};
use os::inspector::{get_all_processes, get_current_process, get_system_stats};
use os::pcb::AddressSpace;
use os::process::{
    block_current_process, create_process, current_pid, exit_current_process, wake_up_process,
};
use os::scheduler::{init, start_scheduling, tick};
use os::{
    PidAllocator, ProcessContext, ProcessControlBlock, ProcessId, ProcessState, Scheduler, SwitchAction,
    QUANTUM,
};

fn ready_process(name: &'static str, pids: &mut PidAllocator) -> ProcessControlBlock {
    ProcessControlBlock::new(name, None, pids)
}

#[test]
fn test_pid_uniqueness() {
    let mut pids = PidAllocator::new();
    let pid1 = ProcessId::new(&mut pids);
    let pid2 = ProcessId::new(&mut pids);
    assert_ne!(pid1, pid2);
}

#[test]
fn test_pid_ordering() {
    let mut pids = PidAllocator::new();
    let pid1 = ProcessId::new(&mut pids);
    let pid2 = ProcessId::new(&mut pids);
    assert!(pid1 < pid2);
}

#[test]
fn test_pid_allocation() {
    let mut allocator = PidAllocator::new();
    let mut pids = Vec::new();
    for _ in 1..=5 {
        pids.push(ProcessId::new(&mut allocator));
    }
    let mut unique = true;
    for i in 0..pids.len() {
        for j in i + 1..pids.len() {
            if pids[i] == pids[j] {
                unique = false;
            }
        }
    }
    let mut monotonic = true;
    for i in 0..pids.len() - 1 {
        if pids[i].as_usize() >= pids[i + 1].as_usize() {
            monotonic = false;
        }
    }
    assert!(unique && monotonic);
}

#[test]
fn pid_allocation_starts_at_one_and_counts_up() {
    let mut allocator = PidAllocator::new();
    assert!(allocator.can_allocate());
    let first = allocator.allocate();
    assert_eq!(first.as_usize(), 1);
    assert!(first.is_init());
    let ids: Vec<usize> = (0..100).map(|_| allocator.allocate().as_usize()).collect();
    for (k, id) in ids.iter().enumerate() {
        assert_eq!(*id, k + 2);
        assert!(!ProcessId::from_usize(*id).is_init());
    }
    assert_eq!(ProcessId::from_usize(42).as_usize(), 42);
}

#[test]
fn test_context_size() {
    assert_eq!(std::mem::size_of::<ProcessContext>(), 34 * std::mem::size_of::<usize>());
}

#[test]
fn test_context_new() {
    let ctx = ProcessContext::new();
    assert_eq!(ctx.sp, 0);
    assert_eq!(ctx.sepc, 0);
    let z = ProcessContext::zero();
    assert_eq!(z.ra, 0);
    assert_eq!(z.sstatus, 0);
    assert_eq!(z.satp, 0);
    let d = ProcessContext::default();
    assert_eq!(d.a7, 0);
}

#[test]
fn test_user_context_creation() {
    let entry = 0x1000_0000;
    let stack = 0x2000_0000;
    let satp = 0x8000_0000_0000_0000;
    let ctx = ProcessContext::new_user_context(entry, stack, satp, 0);
    assert_eq!(ctx.sepc, entry);
    assert_eq!(ctx.sp, stack);
    assert_eq!(ctx.satp, satp);
}

#[test]
fn user_context_keeps_other_status_bits() {
    // supervisor privilege set, interrupt-enable-on-return clear, other bits set
    let status: usize = 0xdead_0000_0000_0102;
    let ctx = ProcessContext::new_user_context(0x8000_0000, 0x8001_0000, 7, status);
    assert_eq!(ctx.sstatus & (1 << 8), 0);
    assert_ne!(ctx.sstatus & (1 << 5), 0);
    assert_eq!(ctx.sstatus, 0xdead_0000_0000_0022);
    assert_eq!(ctx.satp, 7);
    assert_eq!(ctx.ra, 0);
    assert_eq!(ctx.a0, 0);
}

#[test]
fn status_bit_helpers() {
    let mut s: usize = 0;
    set_supervisor_mode(&mut s);
    assert_eq!(s, 0x100);
    enable_interrupt_on_return(&mut s);
    assert_eq!(s, 0x120);
    set_user_mode(&mut s);
    assert_eq!(s, 0x20);
    let mut all = usize::MAX;
    set_user_mode(&mut all);
    assert_eq!(all, usize::MAX & !0x100);
}

#[test]
fn test_pcb_creation() {
    let mut pids = PidAllocator::new();
    let pcb = ProcessControlBlock::new("test", None, &mut pids);
    assert_eq!(pcb.name(), "test");
    assert_eq!(pcb.state(), ProcessState::Ready);
    assert!(pcb.parent_pid().is_none());
    assert_eq!(pcb.time_slice(), QUANTUM);
    assert!(pcb.exit_code().is_none());
    assert!(pcb.children().is_empty());
    assert!(pcb.address_space().is_none());
    assert_eq!(pcb.context().sepc, 0);
}

#[test]
fn test_pcb_lineage() {
    let mut pids = PidAllocator::new();
    let init = ProcessControlBlock::new("init", None, &mut pids);
    let init_pid = init.pid();
    let shell = ProcessControlBlock::new("shell", Some(init_pid), &mut pids);
    let shell_pid = shell.pid();
    let worker = ProcessControlBlock::new("worker", Some(shell_pid), &mut pids);
    assert_eq!(init.name(), "init");
    assert_eq!(shell.name(), "shell");
    assert_eq!(worker.name(), "worker");
    assert!(init.parent_pid().is_none());
    assert_eq!(shell.parent_pid(), Some(init_pid));
    assert_eq!(worker.parent_pid(), Some(shell_pid));
    assert!(init_pid.is_init());
}

#[test]
fn test_pcb_state_transition() {
    let mut pids = PidAllocator::new();
    let mut pcb = ProcessControlBlock::new("test", None, &mut pids);
    pcb.set_state(ProcessState::Running);
    assert!(pcb.is_running());
    pcb.set_state(ProcessState::Blocked);
    assert!(pcb.is_blocked());
    pcb.set_exit_code(0);
    assert!(pcb.is_zombie());
    assert_eq!(pcb.exit_code(), Some(0));
}

#[test]
fn test_pcb_time_slice() {
    let mut pids = PidAllocator::new();
    let mut pcb = ProcessControlBlock::new("test", None, &mut pids);
    pcb.reset_time_slice();
    for _ in 0..4 {
        assert!(!pcb.tick());
    }
    assert!(pcb.tick());
}

#[test]
fn test_time_slice() {
    let mut pids = PidAllocator::new();
    let mut pcb = ProcessControlBlock::new("test", None, &mut pids);
    pcb.reset_time_slice();
    for i in 1..=5 {
        let should_schedule = pcb.tick();
        if should_schedule {
            assert_eq!(i, 5);
        }
    }
}

#[test]
fn quantum_exhaustion_repeats() {
    let mut pids = PidAllocator::new();
    let mut pcb = ProcessControlBlock::new("q", None, &mut pids);
    pcb.reset_time_slice();
    let results: Vec<bool> = (0..7).map(|_| pcb.tick()).collect();
    assert_eq!(results, vec![false, false, false, false, true, true, true]);
    assert_eq!(pcb.time_slice(), 0);
    pcb.reset_time_slice();
    assert_eq!(pcb.time_slice(), 5);
}

#[test]
fn test_pcb_children_management() {
    let mut pids = PidAllocator::new();
    let mut parent = ProcessControlBlock::new("parent", None, &mut pids);
    let child_pid = ProcessId::new(&mut pids);
    parent.add_child(child_pid);
    assert_eq!(parent.children().len(), 1);
    parent.remove_child(child_pid);
    assert_eq!(parent.children().len(), 0);
}

#[test]
fn test_parent_child_relationship() {
    let mut pids = PidAllocator::new();
    let mut parent = ProcessControlBlock::new("parent", None, &mut pids);
    let child1_pid = ProcessId::new(&mut pids);
    let child2_pid = ProcessId::new(&mut pids);
    let child3_pid = ProcessId::new(&mut pids);
    parent.add_child(child1_pid);
    parent.add_child(child2_pid);
    parent.add_child(child3_pid);
    assert_eq!(parent.children().len(), 3);
    parent.remove_child(child2_pid);
    assert_eq!(parent.children().len(), 2);
    assert_eq!(parent.children(), &vec![child1_pid, child3_pid]);
}

#[test]
fn add_child_keeps_duplicates_and_remove_drops_all() {
    let mut pids = PidAllocator::new();
    let mut parent = ProcessControlBlock::new("parent", None, &mut pids);
    let a = ProcessId::from_usize(10);
    let b = ProcessId::from_usize(11);
    parent.add_child(a);
    parent.add_child(b);
    parent.add_child(a);
    assert_eq!(parent.children(), &vec![a, b, a]);
    parent.remove_child(a);
    assert_eq!(parent.children(), &vec![b]);
    parent.remove_child(ProcessId::from_usize(99));
    assert_eq!(parent.children(), &vec![b]);
}

#[test]
fn pcb_setters() {
    let mut pids = PidAllocator::new();
    let mut pcb = ProcessControlBlock::new("p", None, &mut pids);
    pcb.set_address_space(AddressSpace { root: 0x8000_0000_0008_0000 });
    assert_eq!(pcb.address_space(), Some(&AddressSpace { root: 0x8000_0000_0008_0000 }));
    pcb.set_user_stack(0x1000, 0x2000);
    pcb.set_heap(0x3000);
    pcb.context_mut().sepc = 0x4000;
    assert_eq!(pcb.context().sepc, 0x4000);
    assert_eq!(pcb.name(), "p");
}

#[test]
fn test_process_exit() {
    for prior in [ProcessState::Ready, ProcessState::Running, ProcessState::Blocked] {
        let mut pids = PidAllocator::new();
        let mut process = ProcessControlBlock::new("exiting", None, &mut pids);
        process.set_state(prior);
        assert!(!process.can_reclaim());
        process.set_exit_code(42);
        assert_eq!(process.state(), ProcessState::Zombie);
        assert_eq!(process.exit_code(), Some(42));
        assert!(process.is_zombie());
        assert!(process.can_reclaim());
        assert!(!process.is_ready() && !process.is_running() && !process.is_blocked());
    }
}

#[test]
fn test_process_creation() {
    let _sched = os::process::init();
    let mut pids = PidAllocator::new();
    let process = create_process("test", 0x1000, 0x20000, None, &mut pids, 0);
    assert!(process.pid().as_usize() > 0);
    assert_eq!(process.context().sepc, 0x1000);
    assert_eq!(process.context().sp, 0x20000);
    assert_eq!(process.context().satp, 0);
    assert_eq!(process.context().sstatus, 0x20);
}

#[test]
fn test_process_state_transition() {
    let mut pids = PidAllocator::new();
    let mut pcb = create_process("test", 0x1000, 0x20000, None, &mut pids, 0);
    assert_eq!(pcb.state(), ProcessState::Ready);
    pcb.set_state(ProcessState::Running);
    assert_eq!(pcb.state(), ProcessState::Running);
}

fn three_ready() -> (Scheduler, ProcessId, ProcessId, ProcessId) {
    let mut pids = PidAllocator::new();
    let mut sched = init();
    let first = ready_process("first", &mut pids);
    let second = ready_process("second", &mut pids);
    let third = ready_process("third", &mut pids);
    let (a, b, c) = (first.pid(), second.pid(), third.pid());
    sched.add_process(first);
    sched.add_process(second);
    sched.add_process(third);
    (sched, a, b, c)
}

fn state_of(sched: &Scheduler, pid: ProcessId) -> ProcessState {
    sched.get_process(pid).unwrap().state()
}

#[test]
fn round_robin_rotates_in_arrival_order() {
    let (mut sched, first, second, third) = three_ready();
    let mut order = Vec::new();
    assert_eq!(start_scheduling(&mut sched), SwitchAction::StartFirst { to: first });
    assert_eq!(state_of(&sched, first), ProcessState::Running);
    assert_eq!(sched.get_process(first).unwrap().time_slice(), 5);
    order.push(current_pid(&sched).unwrap());
    for _ in 0..3 {
        let mut action = SwitchAction::NoSwitch;
        for k in 0..5 {
            action = tick(&mut sched);
            if k < 4 {
                assert_eq!(action, SwitchAction::NoSwitch);
            }
        }
        let from = order[order.len() - 1];
        let to = current_pid(&sched).unwrap();
        assert_eq!(action, SwitchAction::Switch { from, to });
        assert_eq!(state_of(&sched, from), ProcessState::Ready);
        assert_eq!(sched.ready_ids().last(), Some(&from));
        assert_eq!(sched.get_process(to).unwrap().time_slice(), 5);
        order.push(to);
    }
    assert_eq!(order, vec![first, second, third, first]);
    assert_eq!(sched.ready_ids(), vec![second, third]);
}

#[test]
fn schedule_on_empty_queue_is_idle() {
    let mut sched = Scheduler::new();
    assert_eq!(sched.schedule(), SwitchAction::NoSwitch);
    assert_eq!(sched.current_pid(), None);
    assert!(sched.current_process().is_none());
    assert_eq!(sched.tick(), SwitchAction::NoSwitch);
    assert_eq!(sched.block_current(), SwitchAction::NoSwitch);
}

#[test]
fn block_current_then_wake_appends_at_tail() {
    let (mut sched, first, second, third) = three_ready();
    sched.schedule();
    assert_eq!(block_current_process(&mut sched), SwitchAction::Switch { from: first, to: second });
    assert_eq!(state_of(&sched, first), ProcessState::Blocked);
    assert!(!sched.ready_ids().contains(&first));
    assert_eq!(sched.ready_ids(), vec![third]);
    wake_up_process(&mut sched, first);
    assert_eq!(state_of(&sched, first), ProcessState::Ready);
    assert_eq!(sched.ready_ids(), vec![third, first]);
}

#[test]
fn block_only_process_then_wake_resumes_it() {
    let mut pids = PidAllocator::new();
    let mut sched = Scheduler::new();
    let p = ready_process("solo", &mut pids);
    let pid = p.pid();
    sched.add_process(p);
    assert_eq!(sched.schedule(), SwitchAction::StartFirst { to: pid });
    assert_eq!(sched.block_current(), SwitchAction::NoSwitch);
    assert_eq!(state_of(&sched, pid), ProcessState::Blocked);
    assert_eq!(sched.current_pid(), Some(pid));
    sched.wake_up(pid);
    assert_eq!(sched.ready_ids(), vec![pid]);
    assert_eq!(sched.schedule(), SwitchAction::NoSwitch);
    assert_eq!(state_of(&sched, pid), ProcessState::Running);
    assert!(sched.ready_ids().is_empty());
}

#[test]
fn wake_up_on_ready_is_noop() {
    let (mut sched, first, second, third) = three_ready();
    let before = sched.ready_ids();
    sched.wake_up(second);
    assert_eq!(sched.ready_ids(), before);
    assert_eq!(sched.ready_ids().len(), 3);
    sched.wake_up(ProcessId::from_usize(1000));
    assert_eq!(sched.ready_ids(), vec![first, second, third]);
}

#[test]
fn exit_current_makes_zombie_and_never_requeues() {
    let (mut sched, first, second, third) = three_ready();
    sched.schedule();
    assert_eq!(exit_current_process(&mut sched, 7), SwitchAction::Switch { from: first, to: second });
    let z = sched.get_process(first).unwrap();
    assert_eq!(z.state(), ProcessState::Zombie);
    assert_eq!(z.exit_code(), Some(7));
    for _ in 0..20 {
        sched.tick();
        for id in sched.ready_ids() {
            assert_ne!(state_of(&sched, id), ProcessState::Zombie);
        }
    }
    assert!(!sched.ready_ids().contains(&first));
    assert!(sched.ready_ids().contains(&third) || sched.current_pid() == Some(third));
}

#[test]
fn remove_process_clears_current_and_queue() {
    let (mut sched, first, second, third) = three_ready();
    sched.schedule();
    sched.remove_process(second);
    assert_eq!(sched.ready_ids(), vec![third]);
    assert!(!sched.has_process(second));
    sched.remove_process(first);
    assert_eq!(sched.current_pid(), None);
    assert_eq!(sched.processes().len(), 1);
    assert_eq!(sched.schedule(), SwitchAction::StartFirst { to: third });
}

#[test]
fn add_blocked_process_is_not_queued() {
    let mut pids = PidAllocator::new();
    let mut sched = Scheduler::new();
    let mut p = ready_process("sleeper", &mut pids);
    p.set_state(ProcessState::Blocked);
    let pid = p.pid();
    sched.add_process(p);
    assert!(sched.has_process(pid));
    assert!(sched.ready_ids().is_empty());
}

#[test]
fn processes_enumerate_in_id_order() {
    let mut pids = PidAllocator::new();
    let mut sched = Scheduler::new();
    let a = ready_process("a", &mut pids);
    let b = ready_process("b", &mut pids);
    let c = ready_process("c", &mut pids);
    let (ia, ib, ic) = (a.pid(), b.pid(), c.pid());
    sched.add_process(c);
    sched.add_process(a);
    sched.add_process(b);
    let ids: Vec<ProcessId> = sched.processes().iter().map(|p| p.pid()).collect();
    assert_eq!(ids, vec![ia, ib, ic]);
    assert_eq!(sched.ready_ids(), vec![ic, ia, ib]);
}

#[test]
fn inspector_snapshots_and_stats() {
    let mut pids = PidAllocator::new();
    let mut sched = Scheduler::new();
    let init_p = ready_process("init", &mut pids);
    let init_pid = init_p.pid();
    let shell = ProcessControlBlock::new("shell", Some(init_pid), &mut pids);
    let mut sleeper = ProcessControlBlock::new("sleeper", Some(init_pid), &mut pids);
    sleeper.set_state(ProcessState::Blocked);
    sched.add_process(init_p);
    sched.add_process(shell);
    sched.add_process(sleeper);
    assert!(get_current_process(&sched).is_none());
    sched.schedule();
    let all = get_all_processes(&sched);
    assert_eq!(all.len(), 3);
    assert_eq!(all[0].pid, 1);
    assert_eq!(all[0].name, "init");
    assert_eq!(all[0].state, ProcessState::Running);
    assert_eq!(all[0].parent_pid, None);
    assert_eq!(all[1].name, "shell");
    assert_eq!(all[1].parent_pid, Some(1));
    assert_eq!(all[2].state, ProcessState::Blocked);
    let stats = get_system_stats(&sched);
    assert_eq!(stats.total_processes, 3);
    assert_eq!(stats.running_processes, 1);
    assert_eq!(stats.ready_processes, 1);
    assert_eq!(stats.blocked_processes, 1);
    assert_eq!(stats.zombie_processes, 0);
    let cur = get_current_process(&sched).unwrap();
    assert_eq!(cur.pid, 1);
    assert_eq!(cur.name, "init");
}

#[test]
fn context_slot_of_a_process_can_be_filled() {
    let (mut sched, first, second, _third) = three_ready();
    sched.schedule();
    {
        let slot = sched.context_mut(second).unwrap();
        assert_eq!(slot.sepc, 0);
        slot.sepc = 0x8000_1234;
        slot.sp = 0x8001_0000;
    }
    let ctx = sched.get_process(second).unwrap().context();
    assert_eq!(ctx.sepc, 0x8000_1234);
    assert_eq!(ctx.sp, 0x8001_0000);
    assert_eq!(sched.get_process(first).unwrap().context().sepc, 0);
    assert!(sched.context_mut(ProcessId::from_usize(77)).is_none());
    assert_eq!(sched.ready_ids(), vec![second, _third]);
    assert_eq!(os::scheduler::current_process(&sched).unwrap().pid(), first);
}
