//! Sets of flags, each held as the bits of an unsigned integer.
//! Every set offers the usual operations: the empty set, membership of a
//! whole subset, union, intersection and the raw bits.

use vstd::prelude::*;

verus! {

/// Append mode: Data written to the file is always appended to the file's end.
pub const FDFLAG_APPEND: u16 = 1;

/// Write according to synchronized I/O data integrity completion.
pub const FDFLAG_DSYNC: u16 = 2;

/// Non-blocking mode.
pub const FDFLAG_NONBLOCK: u16 = 4;

/// Synchronized read I/O operations.
pub const FDFLAG_RSYNC: u16 = 8;

/// Write according to synchronized I/O file integrity completion.
pub const FDFLAG_SYNC: u16 = 16;

/// Flags of a file descriptor.
#[derive(Clone, Copy, Debug, PartialEq, Eq, Structural)]
pub struct FdFlags {
    pub bits: u16,
}

impl FdFlags {
    /// The set with no flag.
    pub fn empty() -> (r: Self)
        ensures
            r.bits == 0,
    {
        FdFlags { bits: 0 }
    }

    /// The set whose bits are exactly `bits`.
    pub fn from_bits_retain(bits: u16) -> (r: Self)
        ensures
            r.bits == bits,
    {
        FdFlags { bits }
    }

    /// The raw bits of the set.
    pub fn bits(&self) -> (r: u16)
        ensures
            r == self.bits,
    {
        self.bits
    }

    /// Whether every flag of `other` is in `self`.
    pub open spec fn spec_contains(self, other: Self) -> bool {
        self.bits & other.bits == other.bits
    }

    /// Whether every flag of `other` is in `self`.
    pub fn contains(&self, other: Self) -> (r: bool)
        ensures
            r == self.spec_contains(other),
    {
        self.bits & other.bits == other.bits
    }

    /// The flags that are in `self` or in `other`.
    pub fn union(self, other: Self) -> (r: Self)
        ensures
            r.bits == self.bits | other.bits,
    {
        FdFlags { bits: self.bits | other.bits }
    }

    /// The flags that are in both `self` and `other`.
    pub fn intersection(self, other: Self) -> (r: Self)
        ensures
            r.bits == self.bits & other.bits,
    {
        FdFlags { bits: self.bits & other.bits }
    }
}


/// The right to invoke `fd_datasync`.
pub const RIGHT_FD_DATASYNC: u64 = 0x1;

/// The right to invoke `fd_read` and `sock_recv`.
pub const RIGHT_FD_READ: u64 = 0x2;

/// The right to invoke `fd_seek`. This flag implies `RIGHT_FD_TELL`.
pub const RIGHT_FD_SEEK: u64 = 0x4;

/// The right to invoke `fd_fdstat_set_flags`.
pub const RIGHT_FD_FDSTAT_SET_FLAGS: u64 = 0x8;

/// The right to invoke `fd_sync`.
pub const RIGHT_FD_SYNC: u64 = 0x10;

/// The right to invoke `fd_tell`.
pub const RIGHT_FD_TELL: u64 = 0x20;

/// The right to invoke `fd_write` and `sock_send`.
pub const RIGHT_FD_WRITE: u64 = 0x40;

/// The right to invoke `fd_advise`.
pub const RIGHT_FD_ADVISE: u64 = 0x80;

/// The right to invoke `fd_allocate`.
pub const RIGHT_FD_ALLOCATE: u64 = 0x100;

/// The right to invoke `path_create_directory`.
pub const RIGHT_PATH_CREATE_DIRECTORY: u64 = 0x200;

/// The right to invoke `path_open` with `O_CREAT`.
pub const RIGHT_PATH_CREATE_FILE: u64 = 0x400;

/// The right to invoke `path_link` with the descriptor as the source directory.
pub const RIGHT_PATH_LINK_SOURCE: u64 = 0x800;

/// The right to invoke `path_link` with the descriptor as the target directory.
pub const RIGHT_PATH_LINK_TARGET: u64 = 0x1000;

/// The right to invoke `path_open`.
pub const RIGHT_PATH_OPEN: u64 = 0x2000;

/// The right to invoke `fd_readdir`.
pub const RIGHT_FD_READDIR: u64 = 0x4000;

/// The right to invoke `path_readlink`.
pub const RIGHT_PATH_READLINK: u64 = 0x8000;

/// The right to invoke `path_rename` with the descriptor as the source directory.
pub const RIGHT_PATH_RENAME_SOURCE: u64 = 0x10000;

/// The right to invoke `path_rename` with the descriptor as the target directory.
pub const RIGHT_PATH_RENAME_TARGET: u64 = 0x20000;

/// The right to invoke `path_filestat_get`.
pub const RIGHT_PATH_FILESTAT_GET: u64 = 0x40000;

/// The right to change a file's size.
pub const RIGHT_PATH_FILESTAT_SET_SIZE: u64 = 0x80000;

/// The right to invoke `path_filestat_set_times`.
pub const RIGHT_PATH_FILESTAT_SET_TIMES: u64 = 0x100000;

/// The right to invoke `fd_filestat_get`.
pub const RIGHT_FD_FILESTAT_GET: u64 = 0x200000;

/// The right to invoke `fd_filestat_set_size`.
pub const RIGHT_FD_FILESTAT_SET_SIZE: u64 = 0x400000;

/// The right to invoke `fd_filestat_set_times`.
pub const RIGHT_FD_FILESTAT_SET_TIMES: u64 = 0x800000;

/// The right to invoke `path_symlink`.
pub const RIGHT_PATH_SYMLINK: u64 = 0x1000000;

/// The right to invoke `path_remove_directory`.
pub const RIGHT_PATH_REMOVE_DIRECTORY: u64 = 0x2000000;

/// The right to invoke `path_unlink_file`.
pub const RIGHT_PATH_UNLINK_FILE: u64 = 0x4000000;

/// The right to subscribe to read or write readiness with `poll_oneoff`.
pub const RIGHT_POLL_FD_READWRITE: u64 = 0x8000000;

/// The right to invoke `sock_shutdown`.
pub const RIGHT_SOCK_SHUTDOWN: u64 = 0x10000000;

/// The right to invoke `sock_accept`.
pub const RIGHT_SOCK_ACCEPT: u64 = 0x20000000;

/// Rights (capabilities) attached to a file descriptor.
#[derive(Clone, Copy, Debug, PartialEq, Eq, Structural)]
pub struct FdRights {
    pub bits: u64,
}

impl FdRights {
    /// The set with no flag.
    pub fn empty() -> (r: Self)
        ensures
            r.bits == 0,
    {
        FdRights { bits: 0 }
    }

    /// The set whose bits are exactly `bits`.
    pub fn from_bits_retain(bits: u64) -> (r: Self)
        ensures
            r.bits == bits,
    {
        FdRights { bits }
    }

    /// The raw bits of the set.
    pub fn bits(&self) -> (r: u64)
        ensures
            r == self.bits,
    {
        self.bits
    }

    /// Whether every flag of `other` is in `self`.
    pub open spec fn spec_contains(self, other: Self) -> bool {
        self.bits & other.bits == other.bits
    }

    /// Whether every flag of `other` is in `self`.
    pub fn contains(&self, other: Self) -> (r: bool)
        ensures
            r == self.spec_contains(other),
    {
        self.bits & other.bits == other.bits
    }

    /// The flags that are in `self` or in `other`.
    pub fn union(self, other: Self) -> (r: Self)
        ensures
            r.bits == self.bits | other.bits,
    {
        FdRights { bits: self.bits | other.bits }
    }

    /// The flags that are in both `self` and `other`.
    pub fn intersection(self, other: Self) -> (r: Self)
        ensures
            r.bits == self.bits & other.bits,
    {
        FdRights { bits: self.bits & other.bits }
    }
}


/// Adjust the last data access timestamp to the value given.
pub const FST_ATIM: u16 = 1;

/// Adjust the last data access timestamp to the current time.
pub const FST_ATIM_NOW: u16 = 2;

/// Adjust the last data modification timestamp to the value given.
pub const FST_MTIM: u16 = 4;

/// Adjust the last data modification timestamp to the current time.
pub const FST_MTIM_NOW: u16 = 8;

/// Which timestamps a `set_times` request adjusts.
#[derive(Clone, Copy, Debug, PartialEq, Eq, Structural)]
pub struct FstFlags {
    pub bits: u16,
}

impl FstFlags {
    /// The set with no flag.
    pub fn empty() -> (r: Self)
        ensures
            r.bits == 0,
    {
        FstFlags { bits: 0 }
    }

    /// The set whose bits are exactly `bits`.
    pub fn from_bits_retain(bits: u16) -> (r: Self)
        ensures
            r.bits == bits,
    {
        FstFlags { bits }
    }

    /// The raw bits of the set.
    pub fn bits(&self) -> (r: u16)
        ensures
            r == self.bits,
    {
        self.bits
    }

    /// Whether every flag of `other` is in `self`.
    pub open spec fn spec_contains(self, other: Self) -> bool {
        self.bits & other.bits == other.bits
    }

    /// Whether every flag of `other` is in `self`.
    pub fn contains(&self, other: Self) -> (r: bool)
        ensures
            r == self.spec_contains(other),
    {
        self.bits & other.bits == other.bits
    }

    /// The flags that are in `self` or in `other`.
    pub fn union(self, other: Self) -> (r: Self)
        ensures
            r.bits == self.bits | other.bits,
    {
        FstFlags { bits: self.bits | other.bits }
    }

    /// The flags that are in both `self` and `other`.
    pub fn intersection(self, other: Self) -> (r: Self)
        ensures
            r.bits == self.bits & other.bits,
    {
        FstFlags { bits: self.bits & other.bits }
    }
}


/// Open file for reading (access mode, no bit set).
pub const O_RDONLY: u32 = 0;

/// Open file for writing.
pub const O_WRONLY: u32 = 1;

/// Open file for reading and writing.
pub const O_RDWR: u32 = 2;

/// Enable the close-on-exec flag for the new file descriptor.
pub const O_CLOEXEC: u32 = 0o2000000;

/// If pathname does not exist, create it as a regular file.
pub const O_CREAT: u32 = 0o100;

/// If pathname is not a directory, cause the open to fail.
pub const O_DIRECTORY: u32 = 0o200000;

/// Together with `O_CREAT`, fail with `EEXIST` if pathname already exists.
pub const O_EXCL: u32 = 0o200;

/// Fail if the trailing component of pathname is a symbolic link.
pub const O_NOFOLLOW: u32 = 0o400000;

/// Create an unnamed temporary regular file in the directory given.
pub const O_TMPFILE: u32 = 0o20200000;

/// If the file exists, is a regular file and is opened for writing, truncate it to length 0.
pub const O_TRUNC: u32 = 0o1000;

/// Obtain a descriptor that only indicates a location in the file system tree.
pub const O_PATH: u32 = 0o10000000;

/// The file is opened in append mode.
pub const O_APPEND: u32 = 0o2000;

/// Flags of an open request (Linux `open(2)` numbering).
#[derive(Clone, Copy, Debug, PartialEq, Eq, Structural)]
pub struct FileOpenFlags {
    pub bits: u32,
}

impl FileOpenFlags {
    /// The set with no flag.
    pub fn empty() -> (r: Self)
        ensures
            r.bits == 0,
    {
        FileOpenFlags { bits: 0 }
    }

    /// The set whose bits are exactly `bits`.
    pub fn from_bits_retain(bits: u32) -> (r: Self)
        ensures
            r.bits == bits,
    {
        FileOpenFlags { bits }
    }

    /// The raw bits of the set.
    pub fn bits(&self) -> (r: u32)
        ensures
            r == self.bits,
    {
        self.bits
    }

    /// Whether every flag of `other` is in `self`.
    pub open spec fn spec_contains(self, other: Self) -> bool {
        self.bits & other.bits == other.bits
    }

    /// Whether every flag of `other` is in `self`.
    pub fn contains(&self, other: Self) -> (r: bool)
        ensures
            r == self.spec_contains(other),
    {
        self.bits & other.bits == other.bits
    }

    /// The flags that are in `self` or in `other`.
    pub fn union(self, other: Self) -> (r: Self)
        ensures
            r.bits == self.bits | other.bits,
    {
        FileOpenFlags { bits: self.bits | other.bits }
    }

    /// The flags that are in both `self` and `other`.
    pub fn intersection(self, other: Self) -> (r: Self)
        ensures
            r.bits == self.bits & other.bits,
    {
        FileOpenFlags { bits: self.bits & other.bits }
    }
}


} // verus!
