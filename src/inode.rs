//! In-memory inode: the metadata record of one file, with its link count
//! and Unix-style permission bits.

use vstd::prelude::*;

use crate::file::{FileMetadata, FileType};

verus! {

/// Owner may read.
pub const S_IRUSR: u32 = 0o400;
/// Owner may write.
pub const S_IWUSR: u32 = 0o200;
/// Owner may execute.
pub const S_IXUSR: u32 = 0o100;
/// Group may read.
pub const S_IRGRP: u32 = 0o040;
/// Others may read.
pub const S_IROTH: u32 = 0o004;
/// Mode of a new regular file: read-write for the owner, read for the rest.
pub const S_DEFAULT_FILE: u32 = S_IRUSR | S_IWUSR | S_IRGRP | S_IROTH;
/// Mode of a new directory.
pub const S_DEFAULT_DIR: u32 = 0o755;

/// Mathematical view of an inode.
pub ghost struct InodeView {
    pub ino: usize,
    pub file_type: FileType,
    pub mode: u32,
    pub size: usize,
    pub created: u64,
    pub modified: u64,
    pub nlinks: usize,
}

/// Metadata of one file held in memory.
pub struct MemInode {
    ino: usize,
    file_type: FileType,
    mode: u32,
    size: usize,
    created: u64,
    modified: u64,
    nlinks: usize,
}

impl View for MemInode {
    type V = InodeView;

    closed spec fn view(&self) -> InodeView {
        InodeView {
            ino: self.ino,
            file_type: self.file_type,
            mode: self.mode,
            size: self.size,
            created: self.created,
            modified: self.modified,
            nlinks: self.nlinks,
        }
    }
}

impl MemInode {
    /// An empty inode with one link and both timestamps at zero.
    pub fn new(ino: usize, file_type: FileType, mode: u32) -> (r: MemInode)
        ensures
            r@ == (InodeView { ino, file_type, mode, size: 0, created: 0, modified: 0, nlinks: 1 }),
    {
        MemInode { ino, file_type, mode, size: 0, created: 0, modified: 0, nlinks: 1 }
    }

    /// An empty regular file with the default file mode.
    pub fn new_file(ino: usize) -> (r: MemInode)
        ensures
            r@ == (InodeView {
                ino,
                file_type: FileType::RegularFile,
                mode: S_DEFAULT_FILE,
                size: 0,
                created: 0,
                modified: 0,
                nlinks: 1,
            }),
    {
        MemInode::new(ino, FileType::RegularFile, S_DEFAULT_FILE)
    }

    /// An empty directory with the default directory mode.
    pub fn new_directory(ino: usize) -> (r: MemInode)
        ensures
            r@ == (InodeView {
                ino,
                file_type: FileType::Directory,
                mode: S_DEFAULT_DIR,
                size: 0,
                created: 0,
                modified: 0,
                nlinks: 1,
            }),
    {
        MemInode::new(ino, FileType::Directory, S_DEFAULT_DIR)
    }

    /// Sets the size and counts a modification.
    pub fn set_size(&mut self, size: usize)
        requires
            old(self)@.modified < u64::MAX,
        ensures
            final(self)@ == (InodeView { size, modified: (old(self)@.modified + 1) as u64, ..old(self)@ }),
    {
        self.size = size;
        self.touch();
    }

    /// Counts a modification.
    fn touch(&mut self)
        requires
            old(self)@.modified < u64::MAX,
        ensures
            final(self)@ == (InodeView { modified: (old(self)@.modified + 1) as u64, ..old(self)@ }),
    {
        self.modified = self.modified + 1;
    }

    /// One more link.
    pub fn inc_nlinks(&mut self)
        requires
            old(self)@.nlinks < usize::MAX,
        ensures
            final(self)@ == (InodeView { nlinks: (old(self)@.nlinks + 1) as usize, ..old(self)@ }),
    {
        self.nlinks = self.nlinks + 1;
    }

    /// One link fewer, never below zero.
    pub fn dec_nlinks(&mut self)
        ensures
            final(self)@ == (InodeView {
                nlinks: if old(self)@.nlinks > 0 { (old(self)@.nlinks - 1) as usize } else { 0 },
                ..old(self)@
            }),
    {
        if self.nlinks > 0 {
            self.nlinks = self.nlinks - 1;
        }
    }

    pub fn nlinks(&self) -> (r: usize)
        ensures
            r == self@.nlinks,
    {
        self.nlinks
    }

    /// Whether no link is left.
    pub fn can_delete(&self) -> (r: bool)
        ensures
            r == (self@.nlinks == 0),
    {
        self.nlinks == 0
    }

    pub fn to_metadata(&self) -> (r: FileMetadata)
        ensures
            r == (FileMetadata {
                file_type: self@.file_type,
                size: self@.size,
                mode: self@.mode,
                created: self@.created,
                modified: self@.modified,
            }),
    {
        FileMetadata {
            file_type: self.file_type,
            size: self.size,
            mode: self.mode,
            created: self.created,
            modified: self.modified,
        }
    }

    /// Whether the owner may read.
    pub fn is_readable(&self) -> (r: bool)
        ensures
            r == (self@.mode & S_IRUSR != 0),
    {
        (self.mode & S_IRUSR) != 0
    }

    /// Whether the owner may write.
    pub fn is_writable(&self) -> (r: bool)
        ensures
            r == (self@.mode & S_IWUSR != 0),
    {
        (self.mode & S_IWUSR) != 0
    }

    /// Whether the owner may execute.
    pub fn is_executable(&self) -> (r: bool)
        ensures
            r == (self@.mode & S_IXUSR != 0),
    {
        (self.mode & S_IXUSR) != 0
    }

    pub fn ino(&self) -> (r: usize)
        ensures
            r == self@.ino,
    {
        self.ino
    }

    pub fn file_type(&self) -> (r: FileType)
        ensures
            r == self@.file_type,
    {
        self.file_type
    }

    pub fn size(&self) -> (r: usize)
        ensures
            r == self@.size,
    {
        self.size
    }

    pub fn mode(&self) -> (r: u32)
        ensures
            r == self@.mode,
    {
        self.mode
    }
}

} // verus!
