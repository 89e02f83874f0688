//! Plain data types shared by the 9P front end and the in-memory file system:
//! error numbers, file types, seek and lookup modes, and the records that the
//! status queries fill in.

use vstd::prelude::*;
use crate::flags::{FdFlags, FdRights};

verus! {

/// Index of an inode in the file system's inode table.
pub type INodeID = usize;

/// Identifier of an open file descriptor.
pub type FileDescriptorID = usize;

/// Device ID of device containing a file.
pub type Device = u64;

/// Number of hard links to a file.
pub type LinkCount = u64;

/// Size of a file in bytes.
pub type FileSize = u64;

/// Seconds since the Unix epoch.
pub type Timestamp = u64;

/// File descriptor number of standard input.
pub const STDIN_FD: i32 = 0;

/// File descriptor number of standard output.
pub const STDOUT_FD: i32 = 1;

/// File descriptor number of standard error.
pub const STDERR_FD: i32 = 2;

/// Device ID reported for files that do not sit on a mounted device.
pub const ROOT_DEVICE_ID: u64 = 0;

/// Error numbers returned by the file system operations (WASI numbering).
#[derive(Clone, Copy, Debug, PartialEq, Eq, Structural)]
pub enum ErrorNumber {
    SUCCESS,
    /// Operation not permitted
    EPERM,
    /// No such file or directory
    ENOENT,
    /// Bad file descriptor
    EBADF,
    /// File exists
    EEXIST,
    /// Not a directory
    ENOTDIR,
    /// Invalid argument
    EINVAL,
    /// Directory not empty
    ENOTEMPTY,
    /// The specified file descriptor refers to a pipe or FIFO.
    ESPIPE,
    /// Protocol error
    EPROTO,
    /// Not Capable
    ENOTCAPABLE,
    /// Operation is not supported
    EOPNOTSUPP,
}

impl ErrorNumber {
    /// The numeric value of the error, as WASI defines it.
    pub open spec fn spec_code(self) -> i32 {
        match self {
            ErrorNumber::SUCCESS => 0,
            ErrorNumber::EPERM => 1,
            ErrorNumber::ENOENT => 2,
            ErrorNumber::EBADF => 8,
            ErrorNumber::EEXIST => 17,
            ErrorNumber::ENOTDIR => 20,
            ErrorNumber::EINVAL => 22,
            ErrorNumber::ENOTEMPTY => 39,
            ErrorNumber::ESPIPE => 70,
            ErrorNumber::EPROTO => 71,
            ErrorNumber::ENOTCAPABLE => 76,
            ErrorNumber::EOPNOTSUPP => 95,
        }
    }

    /// The numeric value of the error, as WASI defines it.
    pub fn code(&self) -> (r: i32)
        ensures
            r == self.spec_code(),
    {
        match self {
            ErrorNumber::SUCCESS => 0,
            ErrorNumber::EPERM => 1,
            ErrorNumber::ENOENT => 2,
            ErrorNumber::EBADF => 8,
            ErrorNumber::EEXIST => 17,
            ErrorNumber::ENOTDIR => 20,
            ErrorNumber::EINVAL => 22,
            ErrorNumber::ENOTEMPTY => 39,
            ErrorNumber::ESPIPE => 70,
            ErrorNumber::EPROTO => 71,
            ErrorNumber::ENOTCAPABLE => 76,
            ErrorNumber::EOPNOTSUPP => 95,
        }
    }
}

/// Status of a 9P lock request.
#[derive(Clone, Copy, Debug, PartialEq, Eq, Structural)]
pub enum P9LockStatus {
    Success,
    Blocked,
    Error,
    Grace,
}

impl P9LockStatus {
    /// The numeric value of the status on the wire.
    pub fn code(&self) -> (r: i32)
        ensures
            r == match self {
                P9LockStatus::Success => 0i32,
                P9LockStatus::Blocked => 1i32,
                P9LockStatus::Error => 2i32,
                P9LockStatus::Grace => 3i32,
            },
    {
        match self {
            P9LockStatus::Success => 0,
            P9LockStatus::Blocked => 1,
            P9LockStatus::Error => 2,
            P9LockStatus::Grace => 3,
        }
    }
}

/// The type of a file descriptor or file.
#[derive(Clone, Copy, Debug, PartialEq, Eq, Structural)]
pub enum FdFileType {
    /// The type of the file descriptor or file is unknown or is different from any of the other types specified.
    Unknown,
    /// The file descriptor or file refers to a block device inode.
    BlockDevice,
    /// The file descriptor or file refers to a character device inode.
    CharacterDevice,
    /// The file descriptor or file refers to a directory inode.
    Directory,
    /// The file descriptor or file refers to a regular file inode.
    RegularFile,
    /// The file descriptor or file refers to a datagram socket.
    SocketDGram,
    /// The file descriptor or file refers to a byte-stream socket.
    SocketStream,
    /// The file refers to a symbolic link inode.
    SymbolicLink,
}

impl FdFileType {
    /// The numeric value of the file type, as WASI defines it.
    pub fn code(&self) -> (r: u8)
        ensures
            r == match self {
                FdFileType::Unknown => 0u8,
                FdFileType::BlockDevice => 1u8,
                FdFileType::CharacterDevice => 2u8,
                FdFileType::Directory => 3u8,
                FdFileType::RegularFile => 4u8,
                FdFileType::SocketDGram => 5u8,
                FdFileType::SocketStream => 6u8,
                FdFileType::SymbolicLink => 7u8,
            },
    {
        match self {
            FdFileType::Unknown => 0,
            FdFileType::BlockDevice => 1,
            FdFileType::CharacterDevice => 2,
            FdFileType::Directory => 3,
            FdFileType::RegularFile => 4,
            FdFileType::SocketDGram => 5,
            FdFileType::SocketStream => 6,
            FdFileType::SymbolicLink => 7,
        }
    }
}

/// The three standard streams.
#[derive(Clone, Copy, Debug, PartialEq, Eq, Structural)]
pub enum Pipe {
    Stdin,
    Stdout,
    Stderr,
}

/// Status of a file descriptor.
#[derive(Clone, Copy, Debug, PartialEq, Eq, Structural)]
pub struct FdStat {
    pub fs_filetype: FdFileType,
    pub fs_flags: FdFlags,
    pub fs_rights_base: FdRights,
    pub fs_rights_inheriting: FdRights,
}

/// Attributes of a file.
#[derive(Clone, Copy, Debug, PartialEq, Eq, Structural)]
pub struct FileStat {
    /// Device ID of device containing the file.
    pub dev: Device,
    /// File serial number.
    pub ino: INodeID,
    /// File type.
    pub filetype: FdFileType,
    /// Number of hard links to the file.
    pub nlink: LinkCount,
    /// For regular files, the file size in bytes. For symbolic links, the length in bytes of the pathname contained in the symbolic link.
    pub size: FileSize,
    /// Last data access timestamp.
    pub atim: Timestamp,
    /// Last data modification timestamp.
    pub mtim: Timestamp,
    /// Last file status change timestamp.
    pub ctim: Timestamp,
}

/// The kind of a preopened resource.
#[derive(Clone, Copy, Debug, PartialEq, Eq, Structural)]
pub enum PreStatDirectoryType {
    PreOpenTypeDir,
}

/// Information about a preopened directory.
#[derive(Clone, Copy, Debug, PartialEq, Eq, Structural)]
pub struct PreStat {
    pub directory_type: PreStatDirectoryType,
    pub directory_path_len: usize,
}

/// Where a seek offset is measured from.
#[derive(Clone, Copy, Debug, PartialEq, Eq, Structural)]
pub enum SeekWhence {
    /// The offset is set to the given value.
    Start,
    /// The offset is set relative to the current position.
    Current,
    /// The offset is set relative to the end of the file.
    End,
}

/// Whether a lookup that ends on a symbolic link follows it.
#[derive(Clone, Copy, Debug, PartialEq, Eq, Structural)]
pub enum SymlinkLookupFlags {
    /// If the path points to a symbolic link, the function will consider the symlink itself, not its target.
    NoFollow,
    /// If the path points to a symbolic link, the function will follow the link and use the target of the symlink instead.
    Follow,
}

} // verus!
