//! Process-management core of a small RISC-V teaching kernel: process
//! identifiers, saved execution contexts, process control blocks, a
//! round-robin scheduler and the trap classifier that drives it, together
//! with the file-interface types that the kernel's file system offers.
//!
//! All state lives in values owned by the caller; the kernel glue keeps the
//! scheduler behind its lock and performs the register transfers that the
//! scheduler asks for.

pub mod context;
pub mod file;
pub mod inode;
pub mod inspector;
pub mod pcb;
pub mod pid;
pub mod process;
pub mod scheduler;
pub mod trap;

pub use context::ProcessContext;
pub use file::{FileError, FileMetadata, FileType, SeekFrom};
pub use inode::MemInode;
pub use inspector::{ProcessSnapshot, SystemStats};
pub use pcb::{AddressSpace, ProcessControlBlock, ProcessState, QUANTUM};
pub use pid::{PidAllocator, ProcessId};
pub use scheduler::{Scheduler, SwitchAction};
pub use trap::{TrapAction, TrapCause};
