//! The file interface that the kernel's file system offers: error kinds,
//! seek origins, file types and metadata.

use vstd::prelude::*;

verus! {

/// Why a file operation failed.
#[derive(Debug, Clone, Copy, PartialEq, Eq, Structural)]
pub enum FileError {
    NotFound,
    PermissionDenied,
    EndOfFile,
    InvalidOperation,
    IoError,
    AlreadyExists,
    NotDirectory,
    IsDirectory,
}

/// Where a seek counts from.
#[derive(Debug, Clone, Copy, PartialEq, Eq, Structural)]
pub enum SeekFrom {
    Start(usize),
    Current(isize),
    End(isize),
}

/// Kind of a file.
#[derive(Debug, Clone, Copy, PartialEq, Eq, Structural)]
pub enum FileType {
    RegularFile,
    Directory,
    CharDevice,
    BlockDevice,
    Pipe,
    SymbolicLink,
}

/// What `stat` reports about a file.
#[derive(Debug, Clone, Copy, PartialEq, Eq, Structural)]
pub struct FileMetadata {
    pub file_type: FileType,
    pub size: usize,
    pub mode: u32,
    pub created: u64,
    pub modified: u64,
}

impl FileMetadata {
    /// Metadata of a file of the given type, size and mode, with both
    /// timestamps at zero.
    pub fn new(file_type: FileType, size: usize, mode: u32) -> (r: FileMetadata)
        ensures
            r == (FileMetadata { file_type, size, mode, created: 0, modified: 0 }),
    {
        FileMetadata { file_type, size, mode, created: 0, modified: 0 }
    }
}

} // verus!
