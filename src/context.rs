//! The saved execution state of a process and the status-word bits that
//! decide how it is resumed.

use vstd::prelude::*;

verus! {

/// Bit of the status word that holds the privilege level to return to
/// (0 = user, 1 = supervisor).
pub const SPP_BIT: usize = 8;

/// Bit of the status word that enables interrupts after the return.
pub const SPIE_BIT: usize = 5;

/// Bit of the status word that enables interrupts now.
pub const SIE_BIT: usize = 1;

/// Mask of the return-privilege bit.
pub const SPP_MASK: usize = 0x100;

/// Mask of the interrupt-enable-on-return bit.
pub const SPIE_MASK: usize = 0x20;

/// A snapshot of every general register (x1 to x31), the saved program
/// counter, the status word and the address-translation root. The field
/// order is the layout that the context-switch routine saves and loads.
#[derive(Debug, Clone, Copy)]
pub struct ProcessContext {
    /// x1, return address
    pub ra: usize,
    /// x2, stack pointer
    pub sp: usize,
    /// x3, global pointer
    pub gp: usize,
    /// x4, thread pointer
    pub tp: usize,
    /// x5, temporary
    pub t0: usize,
    pub t1: usize,
    pub t2: usize,
    pub t3: usize,
    pub t4: usize,
    pub t5: usize,
    pub t6: usize,
    /// x8, saved register (frame pointer)
    pub s0: usize,
    pub s1: usize,
    pub s2: usize,
    pub s3: usize,
    pub s4: usize,
    pub s5: usize,
    pub s6: usize,
    pub s7: usize,
    pub s8: usize,
    pub s9: usize,
    pub s10: usize,
    pub s11: usize,
    /// x10, argument / return value
    pub a0: usize,
    pub a1: usize,
    pub a2: usize,
    pub a3: usize,
    pub a4: usize,
    pub a5: usize,
    pub a6: usize,
    pub a7: usize,
    /// Saved program counter: where execution resumes.
    pub sepc: usize,
    /// Saved status word (privilege to return to, interrupt enables).
    pub sstatus: usize,
    /// Address-translation root (page-table base) of the process.
    pub satp: usize,
}

/// Whether bit `i` of `x` is set.
pub open spec fn bit_set(x: usize, i: usize) -> bool {
    (x >> i) & 1usize == 1usize
}

/// The status word with the return privilege set to user.
pub open spec fn user_mode_of(status: usize) -> usize {
    status & !SPP_MASK
}

/// The status word with the return privilege set to supervisor.
pub open spec fn supervisor_mode_of(status: usize) -> usize {
    status | SPP_MASK
}

/// The status word with interrupts enabled after the return.
pub open spec fn interrupts_on_return_of(status: usize) -> usize {
    status | SPIE_MASK
}

/// The status word of a fresh user context built from the status read from
/// the hardware: user privilege on return, interrupts enabled on return,
/// every other bit as read.
pub open spec fn user_status_of(status: usize) -> usize {
    interrupts_on_return_of(user_mode_of(status))
}

/// Every register is zero except, possibly, the stack pointer and the three
/// special words.
pub open spec fn general_registers_zero_but_sp(c: ProcessContext) -> bool {
        &&& c.ra == 0
        &&& c.gp == 0
        &&& c.tp == 0
        &&& c.t0 == 0
        &&& c.t1 == 0
        &&& c.t2 == 0
        &&& c.t3 == 0
        &&& c.t4 == 0
        &&& c.t5 == 0
        &&& c.t6 == 0
        &&& c.s0 == 0
        &&& c.s1 == 0
        &&& c.s2 == 0
        &&& c.s3 == 0
        &&& c.s4 == 0
        &&& c.s5 == 0
        &&& c.s6 == 0
        &&& c.s7 == 0
        &&& c.s8 == 0
        &&& c.s9 == 0
        &&& c.s10 == 0
        &&& c.s11 == 0
        &&& c.a0 == 0
        &&& c.a1 == 0
        &&& c.a2 == 0
        &&& c.a3 == 0
        &&& c.a4 == 0
        &&& c.a5 == 0
        &&& c.a6 == 0
        &&& c.a7 == 0
}

/// The all-zero context, as a value.
pub open spec fn zero_context() -> ProcessContext {
    ProcessContext { ra: 0, sp: 0, gp: 0, tp: 0, t0: 0, t1: 0, t2: 0, t3: 0, t4: 0, t5: 0, t6: 0, s0: 0, s1: 0, s2: 0, s3: 0, s4: 0, s5: 0, s6: 0, s7: 0, s8: 0, s9: 0, s10: 0, s11: 0, a0: 0, a1: 0, a2: 0, a3: 0, a4: 0, a5: 0, a6: 0, a7: 0, sepc: 0, sstatus: 0, satp: 0 }
}

/// The all-zero context.
pub open spec fn is_zero_context(c: ProcessContext) -> bool {
    &&& general_registers_zero_but_sp(c)
    &&& c.sp == 0
    &&& c.sepc == 0
    &&& c.sstatus == 0
    &&& c.satp == 0
}

impl ProcessContext {
    /// The empty context: every register zero.
    pub fn new() -> (r: ProcessContext)
        ensures
            is_zero_context(r),
    {
        ProcessContext {
            ra: 0,
            sp: 0,
            gp: 0,
            tp: 0,
            t0: 0,
            t1: 0,
            t2: 0,
            t3: 0,
            t4: 0,
            t5: 0,
            t6: 0,
            s0: 0,
            s1: 0,
            s2: 0,
            s3: 0,
            s4: 0,
            s5: 0,
            s6: 0,
            s7: 0,
            s8: 0,
            s9: 0,
            s10: 0,
            s11: 0,
            a0: 0,
            a1: 0,
            a2: 0,
            a3: 0,
            a4: 0,
            a5: 0,
            a6: 0,
            a7: 0,
            sepc: 0,
            sstatus: 0,
            satp: 0,
        }
    }

    /// A context ready to resume in user mode at `entry_point` on the stack
    /// `user_stack_top` with translation root `satp_value`. `current_status`
    /// is the status word as read from the hardware when the context is
    /// built: its privilege bit is cleared (user) and its
    /// interrupt-enable-on-return bit set; all other bits are kept.
    pub fn new_user_context(
        entry_point: usize,
        user_stack_top: usize,
        satp_value: usize,
        current_status: usize,
    ) -> (r: ProcessContext)
        ensures
            r.sepc == entry_point,
            r.sp == user_stack_top,
            r.satp == satp_value,
            r.sstatus == user_status_of(current_status),
            general_registers_zero_but_sp(r),
    {
        let mut context = Self::new();
        context.sepc = entry_point;
        context.sp = user_stack_top;
        context.satp = satp_value;
        let mut status_val: usize = current_status;
        set_user_mode(&mut status_val);
        enable_interrupt_on_return(&mut status_val);
        context.sstatus = status_val;
        context
    }

    /// The all-zero context (same as [`ProcessContext::new`]).
    pub fn zero() -> (r: ProcessContext)
        ensures
            is_zero_context(r),
    {
        Self::new()
    }
}

impl Default for ProcessContext {
    fn default() -> (r: ProcessContext)
        ensures
            is_zero_context(r),
    {
        Self::new()
    }
}

/// Sets the return privilege of a status word to user.
pub fn set_user_mode(sstatus: &mut usize)
    ensures
        *final(sstatus) == user_mode_of(*old(sstatus)),
{
    *sstatus = *sstatus & !(1usize << SPP_BIT);
    assert((1usize << 8usize) == 0x100usize) by (bit_vector);
}

/// Sets the return privilege of a status word to supervisor.
pub fn set_supervisor_mode(sstatus: &mut usize)
    ensures
        *final(sstatus) == supervisor_mode_of(*old(sstatus)),
{
    *sstatus = *sstatus | (1usize << SPP_BIT);
    assert((1usize << 8usize) == 0x100usize) by (bit_vector);
}

/// Enables interrupts after the return from a trap.
pub fn enable_interrupt_on_return(sstatus: &mut usize)
    ensures
        *final(sstatus) == interrupts_on_return_of(*old(sstatus)),
{
    *sstatus = *sstatus | (1usize << SPIE_BIT);
    assert((1usize << 5usize) == 0x20usize) by (bit_vector);
}

/// The status word of a fresh user context has the return privilege bit
/// clear (user), the interrupt-enable-on-return bit set, and every other bit
/// equal to the status word it was built from.
pub proof fn lemma_user_status_bits(status: usize)
    ensures
        !bit_set(user_status_of(status), SPP_BIT),
        bit_set(user_status_of(status), SPIE_BIT),
        forall|i: usize|
            i < 64 && i != SPP_BIT && i != SPIE_BIT ==> #[trigger] bit_set(user_status_of(status), i)
                == bit_set(status, i),
{
    assert((((status & !0x100usize) | 0x20usize) >> 8usize) & 1usize != 1usize) by (bit_vector);
    assert((((status & !0x100usize) | 0x20usize) >> 5usize) & 1usize == 1usize) by (bit_vector);
    assert forall|i: usize|
        i < 64 && i != SPP_BIT && i != SPIE_BIT implies #[trigger] bit_set(user_status_of(status), i)
            == bit_set(status, i) by {
        assert(i < 64 && i != 8 && i != 5 ==> ((((status & !0x100usize) | 0x20usize) >> i) & 1usize
            == 1usize) == (((status >> i) & 1usize) == 1usize)) by (bit_vector);
    }
}

} // verus!
