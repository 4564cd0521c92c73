//! Process control blocks: the per-process record of identity, lineage,
//! lifecycle state, saved context, memory bounds, quantum and exit result.

use vstd::prelude::*;

use crate::context::{is_zero_context, zero_context, ProcessContext};
use crate::pid::{PidAllocator, ProcessId};

verus! {

/// Number of timer ticks a process may run before it must be preempted.
pub const QUANTUM: usize = 5;

/// Priority given to every new process (reserved; the scheduler ignores it).
pub const DEFAULT_PRIORITY: usize = 1;

/// Lifecycle state of a process.
#[derive(Debug, Clone, Copy, PartialEq, Eq, Structural)]
pub enum ProcessState {
    /// Waiting in the ready queue for the processor.
    Ready,
    /// Currently on the processor.
    Running,
    /// Waiting for an explicit wake-up.
    Blocked,
    /// Exited; keeps its exit code until it is reclaimed. Terminal.
    Zombie,
}

/// Handle of a process address space: the translation-root value that
/// selects its page table.
#[derive(Debug, Clone, Copy, PartialEq, Eq, Structural)]
pub struct AddressSpace {
    pub root: usize,
}

/// Mathematical view of a process control block.
pub ghost struct PcbView {
    pub pid: ProcessId,
    pub parent_pid: Option<ProcessId>,
    pub state: ProcessState,
    pub name: Seq<char>,
    pub context: ProcessContext,
    pub address_space: Option<AddressSpace>,
    pub heap_bottom: usize,
    pub heap_top: usize,
    pub user_stack_bottom: usize,
    pub user_stack_top: usize,
    pub time_slice: usize,
    pub priority: usize,
    pub children: Seq<ProcessId>,
    pub exit_code: Option<i32>,
}

/// The record the kernel keeps for one process.
pub struct ProcessControlBlock {
    pid: ProcessId,
    parent_pid: Option<ProcessId>,
    state: ProcessState,
    name: &'static str,
    context: ProcessContext,
    address_space: Option<AddressSpace>,
    heap_bottom: usize,
    heap_top: usize,
    user_stack_bottom: usize,
    user_stack_top: usize,
    time_slice: usize,
    priority: usize,
    children: Vec<ProcessId>,
    exit_code: Option<i32>,
}

impl View for ProcessControlBlock {
    type V = PcbView;

    closed spec fn view(&self) -> PcbView {
        PcbView {
            pid: self.pid,
            parent_pid: self.parent_pid,
            state: self.state,
            name: self.name@,
            context: self.context,
            address_space: self.address_space,
            heap_bottom: self.heap_bottom,
            heap_top: self.heap_top,
            user_stack_bottom: self.user_stack_bottom,
            user_stack_top: self.user_stack_top,
            time_slice: self.time_slice,
            priority: self.priority,
            children: self.children@,
            exit_code: self.exit_code,
        }
    }
}

/// The remaining quantum never exceeds a full quantum.
pub open spec fn pcb_wf(p: PcbView) -> bool {
    p.time_slice <= QUANTUM
}

/// The view with its saved context left out (all zero): what the
/// scheduler's table records of a block.
pub open spec fn sans_context(p: PcbView) -> PcbView {
    PcbView { context: zero_context(), ..p }
}

/// The view after one timer tick: the quantum goes down by one, but not
/// below zero.
pub open spec fn ticked(p: PcbView) -> PcbView {
    PcbView { time_slice: if p.time_slice > 0 { (p.time_slice - 1) as usize } else { 0 }, ..p }
}

/// The view with a full quantum.
pub open spec fn refilled(p: PcbView) -> PcbView {
    PcbView { time_slice: QUANTUM, ..p }
}

/// The view with another lifecycle state.
pub open spec fn with_state(p: PcbView, s: ProcessState) -> PcbView {
    PcbView { state: s, ..p }
}

/// The view after the process exited with `code`.
pub open spec fn exited(p: PcbView, code: i32) -> PcbView {
    PcbView { state: ProcessState::Zombie, exit_code: Some(code), ..p }
}

/// The predicate "is not `p`".
pub open spec fn other_than(p: ProcessId) -> spec_fn(ProcessId) -> bool {
    |c: ProcessId| c != p
}

impl ProcessControlBlock {
    /// A new process named `name`, child of `parent_pid`, with a fresh
    /// identifier from `pids`: `Ready`, full quantum, zero context, no
    /// address space, no children, no exit code.
    pub fn new(name: &'static str, parent_pid: Option<ProcessId>, pids: &mut PidAllocator) -> (r:
        ProcessControlBlock)
        requires
            old(pids).wf(),
            old(pids).next_id() < usize::MAX,
        ensures
            final(pids).wf(),
            final(pids).next_id() == old(pids).next_id() + 1,
            final(pids).issued() == old(pids).issued().push(r@.pid),
            r@.pid.0 == old(pids).next_id(),
            r@.parent_pid == parent_pid,
            r@.state == ProcessState::Ready,
            r@.name == name@,
            is_zero_context(r@.context),
            r@.address_space.is_none(),
            r@.heap_bottom == 0,
            r@.heap_top == 0,
            r@.user_stack_bottom == 0,
            r@.user_stack_top == 0,
            r@.time_slice == QUANTUM,
            r@.priority == DEFAULT_PRIORITY,
            r@.children == Seq::<ProcessId>::empty(),
            r@.exit_code.is_none(),
    {
        ProcessControlBlock {
            pid: ProcessId::new(pids),
            parent_pid,
            state: ProcessState::Ready,
            name,
            context: ProcessContext::new(),
            address_space: None,
            heap_bottom: 0,
            heap_top: 0,
            user_stack_bottom: 0,
            user_stack_top: 0,
            time_slice: QUANTUM,
            priority: DEFAULT_PRIORITY,
            children: Vec::new(),
            exit_code: None,
        }
    }

    pub fn pid(&self) -> (r: ProcessId)
        ensures
            r == self@.pid,
    {
        self.pid
    }

    pub fn parent_pid(&self) -> (r: Option<ProcessId>)
        ensures
            r == self@.parent_pid,
    {
        self.parent_pid
    }

    pub fn state(&self) -> (r: ProcessState)
        ensures
            r == self@.state,
    {
        self.state
    }

    pub fn name(&self) -> (r: &'static str)
        ensures
            r@ == self@.name,
    {
        self.name
    }

    pub fn exit_code(&self) -> (r: Option<i32>)
        ensures
            r == self@.exit_code,
    {
        self.exit_code
    }

    /// Remaining ticks of the current quantum.
    pub fn time_slice(&self) -> (r: usize)
        ensures
            r == self@.time_slice,
    {
        self.time_slice
    }

    pub fn context(&self) -> (r: &ProcessContext)
        ensures
            *r == self@.context,
    {
        &self.context
    }

    /// The saved context, for the caller to fill in or to hand to the
    /// context-switch routine; nothing else of the block changes.
    pub fn context_mut(&mut self) -> (r: &mut ProcessContext)
        ensures
            *r == old(self)@.context,
            final(self)@ == (PcbView { context: *final(r), ..old(self)@ }),
    {
        &mut self.context
    }

    pub fn address_space(&self) -> (r: Option<&AddressSpace>)
        ensures
            match r {
                Some(a) => self@.address_space == Some(*a),
                None => self@.address_space.is_none(),
            },
    {
        self.address_space.as_ref()
    }

    pub fn children(&self) -> (r: &Vec<ProcessId>)
        ensures
            r@ == self@.children,
    {
        &self.children
    }

    pub fn set_state(&mut self, state: ProcessState)
        ensures
            final(self)@ == with_state(old(self)@, state),
    {
        self.state = state;
    }

    pub fn set_address_space(&mut self, space: AddressSpace)
        ensures
            final(self)@ == (PcbView { address_space: Some(space), ..old(self)@ }),
    {
        self.address_space = Some(space);
    }

    pub fn set_user_stack(&mut self, bottom: usize, top: usize)
        ensures
            final(self)@ == (PcbView { user_stack_bottom: bottom, user_stack_top: top, ..old(self)@ }),
    {
        self.user_stack_bottom = bottom;
        self.user_stack_top = top;
    }

    /// Places an empty heap at `bottom`.
    pub fn set_heap(&mut self, bottom: usize)
        ensures
            final(self)@ == (PcbView { heap_bottom: bottom, heap_top: bottom, ..old(self)@ }),
    {
        self.heap_bottom = bottom;
        self.heap_top = bottom;
    }

    /// Records the exit code and makes the process a zombie, whatever its
    /// state was.
    pub fn set_exit_code(&mut self, code: i32)
        ensures
            final(self)@ == exited(old(self)@, code),
    {
        self.exit_code = Some(code);
        self.state = ProcessState::Zombie;
    }

    /// Appends a child (duplicates are kept).
    pub fn add_child(&mut self, child_pid: ProcessId)
        ensures
            final(self)@ == (PcbView { children: old(self)@.children.push(child_pid), ..old(self)@ }),
    {
        self.children.push(child_pid);
    }

    /// Removes every occurrence of `child_pid`, keeping the order of the
    /// others.
    pub fn remove_child(&mut self, child_pid: ProcessId)
        ensures
            final(self)@ == (PcbView {
                children: old(self)@.children.filter(other_than(child_pid)),
                ..old(self)@
            }),
    {
        let mut kept: Vec<ProcessId> = Vec::new();
        let mut i: usize = 0;
        while i < self.children.len()
            invariant
                i <= self.children.len(),
                self@ == old(self)@,
                kept@ == self.children@.take(i as int).filter(other_than(child_pid)),
            decreases self.children.len() - i,
        {
            let c = self.children[i];
            proof {
                self.children@.take(i as int).lemma_filter_push(c, other_than(child_pid));
                assert(self.children@.take(i as int + 1) =~= self.children@.take(i as int).push(c));
                assert(other_than(child_pid)(c) == (c != child_pid));
            }
            if c != child_pid {
                kept.push(c);
            }
            i = i + 1;
        }
        assert(self.children@.take(i as int) =~= self.children@);
        self.children = kept;
    }

    /// Gives the process a full quantum.
    pub fn reset_time_slice(&mut self)
        ensures
            final(self)@ == refilled(old(self)@),
    {
        self.time_slice = QUANTUM;
    }

    /// Counts one timer tick against the quantum. Returns whether the
    /// quantum is used up (also when it already was).
    pub fn tick(&mut self) -> (r: bool)
        ensures
            final(self)@ == ticked(old(self)@),
            r == (final(self)@.time_slice == 0),
    {
        if self.time_slice > 0 {
            self.time_slice = self.time_slice - 1;
        }
        self.time_slice == 0
    }

    pub fn is_ready(&self) -> (r: bool)
        ensures
            r == (self@.state == ProcessState::Ready),
    {
        self.state == ProcessState::Ready
    }

    pub fn is_running(&self) -> (r: bool)
        ensures
            r == (self@.state == ProcessState::Running),
    {
        self.state == ProcessState::Running
    }

    pub fn is_blocked(&self) -> (r: bool)
        ensures
            r == (self@.state == ProcessState::Blocked),
    {
        self.state == ProcessState::Blocked
    }

    pub fn is_zombie(&self) -> (r: bool)
        ensures
            r == (self@.state == ProcessState::Zombie),
    {
        self.state == ProcessState::Zombie
    }

    /// Whether the block may be reclaimed: exactly when it is a zombie.
    pub fn can_reclaim(&self) -> (r: bool)
        ensures
            r == (self@.state == ProcessState::Zombie),
    {
        self.is_zombie()
    }
}

/// A full quantum lasts exactly [`QUANTUM`] ticks: after a reset, the
/// first four ticks leave time on the quantum, the fifth uses it up, and a
/// sixth finds it still used up.
pub proof fn lemma_quantum_countdown(p: PcbView)
    ensures
        ticked(refilled(p)).time_slice != 0,
        ticked(ticked(refilled(p))).time_slice != 0,
        ticked(ticked(ticked(refilled(p)))).time_slice != 0,
        ticked(ticked(ticked(ticked(refilled(p))))).time_slice != 0,
        ticked(ticked(ticked(ticked(ticked(refilled(p)))))).time_slice == 0,
        ticked(ticked(ticked(ticked(ticked(ticked(refilled(p))))))).time_slice == 0,
{
}

/// Recording an exit code makes any process a zombie holding that code,
/// whatever state it was in.
pub proof fn lemma_exit_code_recorded(p: PcbView, code: i32)
    ensures
        exited(p, code).state == ProcessState::Zombie,
        exited(p, code).exit_code == Some(code),
        exited(p, code).pid == p.pid,
{
}

} // verus!
