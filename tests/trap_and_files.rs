use os::file::{FileMetadata, FileType};
use os::inode::MemInode;
use os::trap::{
    advance_pc, classify, classify_trap, complete_syscall, decode_cause, is_fatal_action,
    next_timer_deadline, skip_breakpoint, syscall_request, ExceptionCause, InterruptCause,
    TIMER_INTERVAL,
};
use os::{ProcessContext, TrapAction, TrapCause};

const INTERRUPT: usize = 1 << (usize::BITS - 1);

#[test]
fn decode_interrupt_causes() {
    assert_eq!(decode_cause(INTERRUPT | 5), TrapCause::Interrupt(InterruptCause::SupervisorTimer));
    assert_eq!(decode_cause(INTERRUPT | 9), TrapCause::Interrupt(InterruptCause::SupervisorExternal));
    assert_eq!(decode_cause(INTERRUPT | 1), TrapCause::Interrupt(InterruptCause::SupervisorSoft));
    assert_eq!(decode_cause(INTERRUPT | 0), TrapCause::Interrupt(InterruptCause::UserSoft));
    assert_eq!(decode_cause(INTERRUPT | 3), TrapCause::Interrupt(InterruptCause::Unknown));
}

#[test]
fn decode_exception_causes() {
    assert_eq!(decode_cause(3), TrapCause::Exception(ExceptionCause::Breakpoint));
    assert_eq!(decode_cause(8), TrapCause::Exception(ExceptionCause::UserEnvCall));
    assert_eq!(decode_cause(2), TrapCause::Exception(ExceptionCause::IllegalInstruction));
    assert_eq!(decode_cause(13), TrapCause::Exception(ExceptionCause::LoadPageFault));
    assert_eq!(decode_cause(15), TrapCause::Exception(ExceptionCause::StorePageFault));
    assert_eq!(decode_cause(12), TrapCause::Exception(ExceptionCause::InstructionPageFault));
    assert_eq!(decode_cause(14), TrapCause::Exception(ExceptionCause::Unknown));
}

#[test]
fn classify_each_trap_kind() {
    assert_eq!(classify_trap(INTERRUPT | 5, 0x100), TrapAction::Timer);
    assert_eq!(classify_trap(INTERRUPT | 9, 0x100), TrapAction::External);
    assert_eq!(classify_trap(INTERRUPT | 1, 0x100), TrapAction::Software);
    assert_eq!(classify_trap(INTERRUPT | 4, 0x100), TrapAction::Unhandled);
    assert_eq!(classify_trap(3, 0x8000_1000), TrapAction::Breakpoint { resume_pc: 0x8000_1002 });
    assert_eq!(classify_trap(8, 0x8000_1000), TrapAction::Syscall { resume_pc: 0x8000_1004 });
    assert_eq!(classify_trap(13, 0x100), TrapAction::PageFault);
    assert_eq!(classify_trap(15, 0x100), TrapAction::PageFault);
    assert_eq!(classify_trap(12, 0x100), TrapAction::PageFault);
    assert_eq!(classify_trap(2, 0x100), TrapAction::IllegalInstruction);
    assert_eq!(classify_trap(5, 0x100), TrapAction::Unhandled);
    assert_eq!(
        classify(TrapCause::Exception(ExceptionCause::Breakpoint), usize::MAX),
        TrapAction::Breakpoint { resume_pc: 1 }
    );
}

#[test]
fn fatal_actions() {
    assert!(is_fatal_action(TrapAction::PageFault));
    assert!(is_fatal_action(TrapAction::IllegalInstruction));
    assert!(is_fatal_action(TrapAction::Unhandled));
    assert!(!is_fatal_action(TrapAction::Timer));
    assert!(!is_fatal_action(TrapAction::Syscall { resume_pc: 4 }));
    assert!(!is_fatal_action(TrapAction::Breakpoint { resume_pc: 2 }));
}

#[test]
fn pc_advance_wraps() {
    assert_eq!(advance_pc(0x1000, 4), 0x1004);
    assert_eq!(advance_pc(usize::MAX - 1, 4), 2);
    assert_eq!(advance_pc(usize::MAX, 2), 1);
}

#[test]
fn timer_deadline() {
    assert_eq!(TIMER_INTERVAL, 1_000_000);
    assert_eq!(next_timer_deadline(0), 1_000_000);
    assert_eq!(next_timer_deadline(5_000_000), 6_000_000);
    assert_eq!(next_timer_deadline(u64::MAX - 10), u64::MAX);
}

#[test]
fn syscall_round_trip_in_frame() {
    let mut frame = ProcessContext::new();
    frame.a7 = 64;
    frame.a0 = 1;
    frame.a1 = 0x2000;
    frame.a2 = 12;
    frame.a5 = 9;
    frame.sepc = 0x8000_0000;
    let req = syscall_request(&frame);
    assert_eq!(req.id, 64);
    assert_eq!(req.args, [1, 0x2000, 12, 0, 0, 9]);
    complete_syscall(&mut frame, -1);
    assert_eq!(frame.a0, usize::MAX);
    assert_eq!(frame.sepc, 0x8000_0004);
    assert_eq!(frame.a1, 0x2000);
    complete_syscall(&mut frame, 12);
    assert_eq!(frame.a0, 12);
    assert_eq!(frame.sepc, 0x8000_0008);
}

#[test]
fn breakpoint_skips_two_bytes() {
    let mut frame = ProcessContext::new();
    frame.sepc = 0x8020_0000;
    skip_breakpoint(&mut frame);
    assert_eq!(frame.sepc, 0x8020_0002);
}

#[test]
fn file_metadata_new() {
    let m = FileMetadata::new(FileType::Directory, 4096, 0o755);
    assert_eq!(m.file_type, FileType::Directory);
    assert_eq!(m.size, 4096);
    assert_eq!(m.mode, 0o755);
    assert_eq!(m.created, 0);
    assert_eq!(m.modified, 0);
}

#[test]
fn mem_inode_links_and_permissions() {
    let mut f = MemInode::new_file(3);
    assert_eq!(f.ino(), 3);
    assert_eq!(f.file_type(), FileType::RegularFile);
    assert_eq!(f.mode(), 0o644);
    assert!(f.is_readable() && f.is_writable() && !f.is_executable());
    assert_eq!(f.nlinks(), 1);
    f.inc_nlinks();
    assert_eq!(f.nlinks(), 2);
    f.dec_nlinks();
    f.dec_nlinks();
    assert!(f.can_delete());
    f.dec_nlinks();
    assert_eq!(f.nlinks(), 0);
    f.set_size(100);
    assert_eq!(f.size(), 100);
    let m = f.to_metadata();
    assert_eq!(m.size, 100);
    assert_eq!(m.modified, 1);
    let d = MemInode::new_directory(4);
    assert_eq!(d.mode(), 0o755);
    assert!(d.is_executable());
    let n = MemInode::new(5, FileType::Pipe, 0);
    assert!(!n.is_readable());
}
