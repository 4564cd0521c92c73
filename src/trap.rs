//! Trap classification: from the raw cause register to what the kernel must
//! do, plus the register-level bookkeeping of the recoverable cases
//! (breakpoint and system call). The classifier keeps no state between traps.

use vstd::prelude::*;

use riscv::register::scause::{Exception, Interrupt};

use crate::context::ProcessContext;

verus! {

/// The interrupt flag of the cause register: its top bit.
pub const INTERRUPT_FLAG: usize = usize::MAX / 2 + 1;

/// Timer ticks between two timer interrupts (about 100 ms at 10 MHz).
pub const TIMER_INTERVAL: u64 = 1_000_000;

/// Length of the compressed breakpoint instruction.
pub const BREAKPOINT_LEN: usize = 2;

/// Length of the environment-call instruction.
pub const ECALL_LEN: usize = 4;

/// The interrupts the cause register can name.
#[derive(Debug, Clone, Copy, PartialEq, Eq, Structural)]
pub enum InterruptCause {
    UserSoft,
    SupervisorSoft,
    UserTimer,
    SupervisorTimer,
    UserExternal,
    SupervisorExternal,
    Unknown,
}

/// The exceptions the cause register can name.
#[derive(Debug, Clone, Copy, PartialEq, Eq, Structural)]
pub enum ExceptionCause {
    InstructionMisaligned,
    InstructionFault,
    IllegalInstruction,
    Breakpoint,
    LoadFault,
    StoreMisaligned,
    StoreFault,
    UserEnvCall,
    InstructionPageFault,
    LoadPageFault,
    StorePageFault,
    Unknown,
}

/// A decoded trap cause.
#[derive(Debug, Clone, Copy, PartialEq, Eq, Structural)]
pub enum TrapCause {
    Interrupt(InterruptCause),
    Exception(ExceptionCause),
}

/// The interrupt that a cause code names.
pub open spec fn interrupt_of_code(code: usize) -> InterruptCause {
    if code == 0 {
        InterruptCause::UserSoft
    } else if code == 1 {
        InterruptCause::SupervisorSoft
    } else if code == 4 {
        InterruptCause::UserTimer
    } else if code == 5 {
        InterruptCause::SupervisorTimer
    } else if code == 8 {
        InterruptCause::UserExternal
    } else if code == 9 {
        InterruptCause::SupervisorExternal
    } else {
        InterruptCause::Unknown
    }
}

/// The exception that a cause code names.
pub open spec fn exception_of_code(code: usize) -> ExceptionCause {
    if code == 0 {
        ExceptionCause::InstructionMisaligned
    } else if code == 1 {
        ExceptionCause::InstructionFault
    } else if code == 2 {
        ExceptionCause::IllegalInstruction
    } else if code == 3 {
        ExceptionCause::Breakpoint
    } else if code == 5 {
        ExceptionCause::LoadFault
    } else if code == 6 {
        ExceptionCause::StoreMisaligned
    } else if code == 7 {
        ExceptionCause::StoreFault
    } else if code == 8 {
        ExceptionCause::UserEnvCall
    } else if code == 12 {
        ExceptionCause::InstructionPageFault
    } else if code == 13 {
        ExceptionCause::LoadPageFault
    } else if code == 15 {
        ExceptionCause::StorePageFault
    } else {
        ExceptionCause::Unknown
    }
}

/// The cause named by the raw bits of the cause register: the top bit tells
/// an interrupt from an exception, the other bits are the code.
pub open spec fn cause_of_bits(bits: usize) -> TrapCause {
    if bits >= INTERRUPT_FLAG {
        TrapCause::Interrupt(interrupt_of_code((bits - INTERRUPT_FLAG) as usize))
    } else {
        TrapCause::Exception(exception_of_code(bits))
    }
}

/// Relies on riscv's `scause::Interrupt::from`: the interrupt named by a
/// cause code.
#[verifier::external_body]
fn interrupt_from_code(code: usize) -> (r: InterruptCause)
    ensures
        r == interrupt_of_code(code),
{
    match Interrupt::from(code) {
        Interrupt::UserSoft => InterruptCause::UserSoft,
        Interrupt::SupervisorSoft => InterruptCause::SupervisorSoft,
        Interrupt::UserTimer => InterruptCause::UserTimer,
        Interrupt::SupervisorTimer => InterruptCause::SupervisorTimer,
        Interrupt::UserExternal => InterruptCause::UserExternal,
        Interrupt::SupervisorExternal => InterruptCause::SupervisorExternal,
        Interrupt::Unknown => InterruptCause::Unknown,
    }
}

/// Relies on riscv's `scause::Exception::from`: the exception named by a
/// cause code.
#[verifier::external_body]
fn exception_from_code(code: usize) -> (r: ExceptionCause)
    ensures
        r == exception_of_code(code),
{
    match Exception::from(code) {
        Exception::InstructionMisaligned => ExceptionCause::InstructionMisaligned,
        Exception::InstructionFault => ExceptionCause::InstructionFault,
        Exception::IllegalInstruction => ExceptionCause::IllegalInstruction,
        Exception::Breakpoint => ExceptionCause::Breakpoint,
        Exception::LoadFault => ExceptionCause::LoadFault,
        Exception::StoreMisaligned => ExceptionCause::StoreMisaligned,
        Exception::StoreFault => ExceptionCause::StoreFault,
        Exception::UserEnvCall => ExceptionCause::UserEnvCall,
        Exception::InstructionPageFault => ExceptionCause::InstructionPageFault,
        Exception::LoadPageFault => ExceptionCause::LoadPageFault,
        Exception::StorePageFault => ExceptionCause::StorePageFault,
        Exception::Unknown => ExceptionCause::Unknown,
    }
}

/// Decodes the raw bits of the cause register.
pub fn decode_cause(bits: usize) -> (r: TrapCause)
    ensures
        r == cause_of_bits(bits),
{
    if bits >= INTERRUPT_FLAG {
        TrapCause::Interrupt(interrupt_from_code(bits - INTERRUPT_FLAG))
    } else {
        TrapCause::Exception(exception_from_code(bits))
    }
}

/// What the trap handler must do.
#[derive(Debug, Clone, Copy, PartialEq, Eq, Structural)]
pub enum TrapAction {
    /// Timer interrupt: program the next deadline, poll the input source and
    /// let the scheduler count a tick.
    Timer,
    /// Device interrupt: logged; the device drivers own it.
    External,
    /// Software (inter-processor) interrupt: logged.
    Software,
    /// Breakpoint: logged; resume at `resume_pc`, past the instruction.
    Breakpoint { resume_pc: usize },
    /// System call: hand the registers to the dispatcher, store its result,
    /// resume at `resume_pc`, past the instruction.
    Syscall { resume_pc: usize },
    /// Page fault (load, store or fetch): fatal.
    PageFault,
    /// Illegal instruction: fatal.
    IllegalInstruction,
    /// Any other cause: fatal.
    Unhandled,
}

/// The program counter `len` bytes after `pc`, wrapping around the address
/// space.
pub open spec fn pc_after(pc: usize, len: usize) -> usize {
    if pc + len <= usize::MAX {
        (pc + len) as usize
    } else {
        (pc + len - usize::MAX - 1) as usize
    }
}

/// What the handler does for each cause.
pub open spec fn action_of(cause: TrapCause, sepc: usize) -> TrapAction {
    match cause {
        TrapCause::Interrupt(InterruptCause::SupervisorTimer) => TrapAction::Timer,
        TrapCause::Interrupt(InterruptCause::SupervisorExternal) => TrapAction::External,
        TrapCause::Interrupt(InterruptCause::SupervisorSoft) => TrapAction::Software,
        TrapCause::Interrupt(_) => TrapAction::Unhandled,
        TrapCause::Exception(ExceptionCause::Breakpoint) => TrapAction::Breakpoint {
            resume_pc: pc_after(sepc, BREAKPOINT_LEN),
        },
        TrapCause::Exception(ExceptionCause::LoadPageFault) => TrapAction::PageFault,
        TrapCause::Exception(ExceptionCause::StorePageFault) => TrapAction::PageFault,
        TrapCause::Exception(ExceptionCause::InstructionPageFault) => TrapAction::PageFault,
        TrapCause::Exception(ExceptionCause::IllegalInstruction) => TrapAction::IllegalInstruction,
        TrapCause::Exception(ExceptionCause::UserEnvCall) => TrapAction::Syscall {
            resume_pc: pc_after(sepc, ECALL_LEN),
        },
        TrapCause::Exception(_) => TrapAction::Unhandled,
    }
}

/// Whether an action ends in a kernel abort.
pub open spec fn is_fatal(a: TrapAction) -> bool {
    match a {
        TrapAction::PageFault | TrapAction::IllegalInstruction | TrapAction::Unhandled => true,
        _ => false,
    }
}

/// `pc` advanced by `len` bytes, wrapping around the address space.
pub fn advance_pc(pc: usize, len: usize) -> (r: usize)
    ensures
        r == pc_after(pc, len),
{
    if pc <= usize::MAX - len {
        pc + len
    } else {
        len - (usize::MAX - pc) - 1
    }
}

/// Classifies a decoded cause, with `sepc` the program counter of the trap.
pub fn classify(cause: TrapCause, sepc: usize) -> (r: TrapAction)
    ensures
        r == action_of(cause, sepc),
{
    match cause {
        TrapCause::Interrupt(InterruptCause::SupervisorTimer) => TrapAction::Timer,
        TrapCause::Interrupt(InterruptCause::SupervisorExternal) => TrapAction::External,
        TrapCause::Interrupt(InterruptCause::SupervisorSoft) => TrapAction::Software,
        TrapCause::Interrupt(_) => TrapAction::Unhandled,
        TrapCause::Exception(ExceptionCause::Breakpoint) => TrapAction::Breakpoint {
            resume_pc: advance_pc(sepc, BREAKPOINT_LEN),
        },
        TrapCause::Exception(ExceptionCause::LoadPageFault) => TrapAction::PageFault,
        TrapCause::Exception(ExceptionCause::StorePageFault) => TrapAction::PageFault,
        TrapCause::Exception(ExceptionCause::InstructionPageFault) => TrapAction::PageFault,
        TrapCause::Exception(ExceptionCause::IllegalInstruction) => TrapAction::IllegalInstruction,
        TrapCause::Exception(ExceptionCause::UserEnvCall) => TrapAction::Syscall {
            resume_pc: advance_pc(sepc, ECALL_LEN),
        },
        TrapCause::Exception(_) => TrapAction::Unhandled,
    }
}

/// Classifies a trap from the raw cause bits and its program counter.
pub fn classify_trap(scause_bits: usize, sepc: usize) -> (r: TrapAction)
    ensures
        r == action_of(cause_of_bits(scause_bits), sepc),
{
    classify(decode_cause(scause_bits), sepc)
}

/// Whether a trap action ends in a kernel abort: page faults, illegal
/// instructions and every unhandled cause.
pub fn is_fatal_action(a: TrapAction) -> (r: bool)
    ensures
        r == is_fatal(a),
{
    match a {
        TrapAction::PageFault | TrapAction::IllegalInstruction | TrapAction::Unhandled => true,
        _ => false,
    }
}

/// The absolute time of the next timer interrupt: one interval after `now`
/// (the largest time value if that does not fit).
pub fn next_timer_deadline(now: u64) -> (r: u64)
    ensures
        now <= u64::MAX - TIMER_INTERVAL ==> r == now + TIMER_INTERVAL,
        now > u64::MAX - TIMER_INTERVAL ==> r == u64::MAX,
{
    if now <= u64::MAX - TIMER_INTERVAL {
        now + TIMER_INTERVAL
    } else {
        u64::MAX
    }
}

/// The registers of a system call: the call number and six arguments.
#[derive(Debug, Clone, Copy, PartialEq, Eq)]
pub struct SyscallRequest {
    pub id: usize,
    pub args: [usize; 6],
}

/// Reads a system call from a trap frame: the number from `a7`, the
/// arguments from `a0` to `a5`.
pub fn syscall_request(frame: &ProcessContext) -> (r: SyscallRequest)
    ensures
        r.id == frame.a7,
        r.args@ == seq![frame.a0, frame.a1, frame.a2, frame.a3, frame.a4, frame.a5],
{
    let r = SyscallRequest { id: frame.a7, args: [frame.a0, frame.a1, frame.a2, frame.a3, frame.a4, frame.a5] };
    assert(r.args@ =~= seq![frame.a0, frame.a1, frame.a2, frame.a3, frame.a4, frame.a5]);
    r
}

/// Finishes a system call in a trap frame: the signed result goes to `a0`
/// (as its two's-complement word) and execution resumes after the
/// environment-call instruction. Nothing else changes.
pub fn complete_syscall(frame: &mut ProcessContext, result: isize)
    ensures
        *final(frame) == (ProcessContext {
            a0: result as usize,
            sepc: pc_after(old(frame).sepc, ECALL_LEN),
            ..*old(frame)
        }),
{
    frame.a0 = result as usize;
    frame.sepc = advance_pc(frame.sepc, ECALL_LEN);
}

/// Steps a trap frame over the breakpoint instruction.
pub fn skip_breakpoint(frame: &mut ProcessContext)
    ensures
        *final(frame) == (ProcessContext { sepc: pc_after(old(frame).sepc, BREAKPOINT_LEN), ..*old(frame) }),
{
    frame.sepc = advance_pc(frame.sepc, BREAKPOINT_LEN);
}

} // verus!
