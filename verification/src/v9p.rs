//! The 9P device: a table of open file descriptors over an in-memory file
//! system, answering WASI-style file requests.
//!
//! The abstract state is a `P9State`: the file system's view, the map from
//! descriptor IDs to descriptors, and the next descriptor ID to hand out.
//! Each request is described by a spec function on `P9State` that gives the
//! state after the request and its answer; the executable method states that
//! it does exactly that.

use vstd::prelude::*;
use vstd::string::StringSliceAdditionalSpecFns;
use std::collections::HashMap;
use std::collections::hash_map::Entry;
use crate::filesystem::{
    FS, InodeView, fs_wf, mode_is_dir, mode_is_symlink, resized, written, full_path,
    resolve_path, add_inode, new_directory_view, new_file_view, new_symlink_view,
    link_result, link_state, unlink_result, unlink_state, rename_result, rename_state, remove_entry,
    copy_bytes, lemma_written_twice, is_listing,
};
use crate::flags::{
    FdFlags, FdRights, FstFlags, FileOpenFlags, RIGHT_FD_READ, RIGHT_FD_WRITE, RIGHT_FD_FILESTAT_GET,
    RIGHT_POLL_FD_READWRITE, FST_ATIM, FST_ATIM_NOW, FST_MTIM, FST_MTIM_NOW, O_CREAT, O_EXCL,
    O_DIRECTORY, O_TMPFILE, O_TRUNC, O_WRONLY, O_RDWR, O_APPEND, FDFLAG_APPEND,
};
use crate::types::{
    ErrorNumber, FdFileType, FdStat, FileStat, PreStat, PreStatDirectoryType, SeekWhence,
    SymlinkLookupFlags, Pipe, INodeID, FileDescriptorID, Timestamp, STDIN_FD, STDOUT_FD, STDERR_FD,
    ROOT_DEVICE_ID,
};
use crate::clock::seconds_since_epoch;
use crate::paths::entry_of;

verus! {

broadcast use vstd::std_specs::hash::group_hash_axioms;

/// Highest descriptor number that belongs to a standard stream.
pub const PIPE_MAX_FD: i32 = 2;

/// An open file descriptor.
#[derive(Clone, Copy, Debug, PartialEq, Eq, Structural)]
pub struct FileDescriptor {
    pub inode_id: INodeID,
    pub flags: FdFlags,
    pub rights: FdRights,
    pub rights_inheriting: FdRights,
    pub fd: FileDescriptorID,
    pub offset: usize,
}

/// The 9P device.
pub struct Virtio9p {
    pub fs: FS,
    pub file_descriptors: HashMap<FileDescriptorID, FileDescriptor>,
    pub next_fd: FileDescriptorID,
}

/// The abstract state of the device.
pub struct P9State {
    pub fs: Seq<InodeView>,
    pub fds: Map<FileDescriptorID, FileDescriptor>,
    pub next_fd: FileDescriptorID,
}

impl View for Virtio9p {
    type V = P9State;

    open spec fn view(&self) -> P9State {
        P9State { fs: self.fs@, fds: self.file_descriptors@, next_fd: self.next_fd }
    }
}

/// The rights that a standard stream has.
pub open spec fn pipe_rights(pipe: Pipe) -> FdRights {
    match pipe {
        Pipe::Stdin => FdRights { bits: RIGHT_FD_READ | RIGHT_FD_FILESTAT_GET | RIGHT_POLL_FD_READWRITE },
        Pipe::Stdout => FdRights { bits: RIGHT_FD_WRITE | RIGHT_FD_FILESTAT_GET | RIGHT_POLL_FD_READWRITE },
        Pipe::Stderr => FdRights { bits: RIGHT_FD_WRITE | RIGHT_FD_FILESTAT_GET | RIGHT_POLL_FD_READWRITE },
    }
}

/// The standard stream that a descriptor number stands for.
pub open spec fn pipe_of_fd(fd: i32) -> Option<Pipe> {
    if fd == STDIN_FD {
        Some(Pipe::Stdin)
    } else if fd == STDOUT_FD {
        Some(Pipe::Stdout)
    } else if fd == STDERR_FD {
        Some(Pipe::Stderr)
    } else {
        None
    }
}

/// Every right of `a` is a right of `b`.
pub open spec fn rights_subset(a: FdRights, b: FdRights) -> bool {
    a.bits | b.bits == b.bits
}

/// The bytes of all the buffers, one after the other.
pub open spec fn concat_bufs(bufs: Seq<Vec<u8>>) -> Seq<u8>
    decreases bufs.len(),
{
    if bufs.len() == 0 {
        Seq::empty()
    } else {
        concat_bufs(bufs.drop_last()) + bufs.last()@
    }
}

proof fn lemma_concat_take(bufs: Seq<Vec<u8>>, k: int)
    requires
        0 <= k < bufs.len(),
    ensures
        concat_bufs(bufs.take(k + 1)) == concat_bufs(bufs.take(k)) + bufs[k]@,
{
    assert(bufs.take(k + 1).drop_last() =~= bufs.take(k));
}

proof fn lemma_concat_prefix_len(bufs: Seq<Vec<u8>>, k: int)
    requires
        0 <= k <= bufs.len(),
    ensures
        concat_bufs(bufs.take(k)).len() <= concat_bufs(bufs).len(),
    decreases bufs.len() - k,
{
    if k < bufs.len() {
        lemma_concat_take(bufs, k);
        lemma_concat_prefix_len(bufs, k + 1);
    } else {
        assert(bufs.take(k) =~= bufs);
    }
}

/// Where buffer `j` of a vectored request starts, counting from `start`.
pub open spec fn buf_start(start: nat, bufs: Seq<Vec<u8>>, j: int) -> nat {
    start + concat_bufs(bufs.take(j)).len()
}

/// Whether the first `k` buffers of a vectored read from `start` lie within
/// contents of length `len`.
pub open spec fn bufs_fit(len: nat, start: nat, bufs: Seq<Vec<u8>>, k: int) -> bool {
    k == 0 || buf_start(start, bufs, k) <= len
}

/// `dst` after the first `k` buffers were filled by reading `data` from `start`.
pub open spec fn bufs_filled(data: Seq<u8>, start: nat, old_dst: Seq<Vec<u8>>, dst: Seq<Vec<u8>>, k: int) -> bool {
    &&& dst.len() == old_dst.len()
    &&& forall|j: int| 0 <= j < k ==> #[trigger] dst[j]@ == data.subrange(
        buf_start(start, old_dst, j) as int,
        (buf_start(start, old_dst, j) + old_dst[j]@.len()) as int,
    )
    &&& forall|j: int| k <= j < dst.len() ==> #[trigger] dst[j] == old_dst[j]
}

/// An entry that `read_dir` reports. The name is held as bytes.
#[derive(Debug)]
pub struct DirectoryEntry {
    pub d_ino: u64,
    pub d_off: i64,
    pub d_reclen: u16,
    pub d_type: u8,
    pub d_name: Vec<u8>,
}

/// Whether `e` is `old` with the record of name `name` at position `i`
/// written into it: its length, its name and its position.
pub open spec fn dir_entry_written(old: DirectoryEntry, e: DirectoryEntry, name: Seq<u8>, i: int) -> bool {
    &&& e.d_reclen == ((name.len() % 65536 + 19) % 65536) as u16
    &&& e.d_name@ == name
    &&& e.d_off == i as i64
    &&& e.d_ino == old.d_ino
    &&& e.d_type == old.d_type
}

impl P9State {
    /// Invariant: the file system is well formed, and every descriptor is
    /// filed under its own ID, below `next_fd`.
    pub open spec fn wf(self) -> bool {
        &&& fs_wf(self.fs)
        &&& forall|k: FileDescriptorID| #[trigger] self.fds.contains_key(k) ==> {
            &&& k < self.next_fd
            &&& self.fds[k].fd == k
        }
    }

    /// Whether `fd` is an open descriptor.
    pub open spec fn has_fd(self, fd: FileDescriptorID) -> bool {
        self.fds.contains_key(fd)
    }

    /// Whether `fd` is an open descriptor whose inode is in the file system
    /// (requests that read the inode need it).
    pub open spec fn fd_valid(self, fd: FileDescriptorID) -> bool {
        &&& self.fds.contains_key(fd)
        &&& self.fds[fd].inode_id < self.fs.len()
    }

    /// The inode that the open descriptor `fd` refers to.
    pub open spec fn fd_inode(self, fd: FileDescriptorID) -> INodeID {
        self.fds[fd].inode_id
    }

    /// The type reported for inode `id`: a directory, a symbolic link (whose
    /// mode is exactly `S_IFLNK`), or else a regular file.
    pub open spec fn filetype(self, id: INodeID) -> FdFileType {
        if mode_is_dir(self.fs[id as int].mode) {
            FdFileType::Directory
        } else if mode_is_symlink(self.fs[id as int].mode) {
            FdFileType::SymbolicLink
        } else {
            FdFileType::RegularFile
        }
    }

    /// Whether the open descriptor `fd` refers to a directory.
    pub open spec fn fd_is_dir(self, fd: FileDescriptorID) -> bool {
        self.filetype(self.fd_inode(fd)) == FdFileType::Directory
    }

    /// The state with the file system replaced by `fs`.
    pub open spec fn with_fs(self, fs: Seq<InodeView>) -> P9State {
        P9State { fs, ..self }
    }

    /// The state with descriptor `fd` replaced by `d`.
    pub open spec fn with_fd(self, fd: FileDescriptorID, d: FileDescriptor) -> P9State {
        P9State { fds: self.fds.insert(fd, d), ..self }
    }

    /// The Some answer of `get_fd`: descriptor numbers above those of the
    /// standard streams that are open.
    pub open spec fn get_fd(self, fd: i32) -> Option<FileDescriptorID> {
        if fd > PIPE_MAX_FD && self.fds.contains_key(fd as FileDescriptorID) {
            Some(fd as FileDescriptorID)
        } else {
            None
        }
    }

    /// The descriptor that `create_fd` adds.
    pub open spec fn new_fd(
        self,
        inode_id: INodeID,
        flags: FdFlags,
        rights: FdRights,
        rights_inheriting: FdRights,
    ) -> FileDescriptor {
        FileDescriptor { inode_id, flags, rights, rights_inheriting, fd: self.next_fd, offset: 0 }
    }

    /// The state after `create_fd`: the new descriptor is filed under
    /// `next_fd`, which moves on by one.
    pub open spec fn create_fd(
        self,
        inode_id: INodeID,
        flags: FdFlags,
        rights: FdRights,
        rights_inheriting: FdRights,
    ) -> P9State {
        P9State {
            fds: self.fds.insert(self.next_fd, self.new_fd(inode_id, flags, rights, rights_inheriting)),
            next_fd: (self.next_fd + 1) as FileDescriptorID,
            ..self
        }
    }

    /// The state and answer after `close_fd`.
    pub open spec fn close_fd(self, fd: FileDescriptorID) -> (P9State, ErrorNumber) {
        if self.fds.contains_key(fd) {
            (P9State { fds: self.fds.remove(fd), ..self }, ErrorNumber::SUCCESS)
        } else {
            (self, ErrorNumber::ENOENT)
        }
    }

    /// What `fd_stat` reports for the open descriptor `fd`.
    pub open spec fn fd_stat(self, fd: FileDescriptorID) -> FdStat {
        FdStat {
            fs_filetype: self.filetype(self.fd_inode(fd)),
            fs_flags: self.fds[fd].flags,
            fs_rights_base: self.fds[fd].rights,
            fs_rights_inheriting: self.fds[fd].rights_inheriting,
        }
    }

    /// The state after `fd_stat_set_flags`.
    pub open spec fn fd_stat_set_flags(self, fd: FileDescriptorID, flags: FdFlags) -> P9State {
        self.with_fd(fd, FileDescriptor { flags, ..self.fds[fd] })
    }

    /// The state and answer after `fd_stat_set_rights`: rights may only be
    /// taken away, never added.
    pub open spec fn fd_stat_set_rights(
        self,
        fd: FileDescriptorID,
        rights: FdRights,
        rights_inheriting: FdRights,
    ) -> (P9State, ErrorNumber) {
        let d = self.fds[fd];
        if rights_subset(rights, d.rights) && rights_subset(rights_inheriting, d.rights_inheriting) {
            (self.with_fd(fd, FileDescriptor { rights, rights_inheriting, ..d }), ErrorNumber::SUCCESS)
        } else {
            (self, ErrorNumber::ENOTCAPABLE)
        }
    }

    /// What `get_file_stat_from_inode_id` reports for inode `id`. The size of
    /// a symbolic link is the length of its target path.
    pub open spec fn file_stat(self, id: INodeID) -> FileStat {
        let n = self.fs[id as int];
        let ft = self.filetype(id);
        FileStat {
            dev: match n.mount_id {
                Some(d) => d,
                None => ROOT_DEVICE_ID,
            },
            ino: id,
            filetype: ft,
            nlink: n.nlinks,
            size: if ft == FdFileType::SymbolicLink {
                n.symlink.len() as u64
            } else {
                n.data.len() as u64
            },
            atim: n.atime,
            mtim: n.mtime,
            ctim: n.ctime,
        }
    }

    /// The state with the contents of inode `id` cut or padded to `size` bytes.
    pub open spec fn resize_inode(self, id: INodeID, size: nat) -> P9State {
        self.with_fs(self.fs.update(id as int, InodeView { data: resized(self.fs[id as int].data, size), ..self.fs[id as int] }))
    }

    /// The state and answer after `file_stat_set_size`: only regular files
    /// change size.
    pub open spec fn file_stat_set_size(self, fd: FileDescriptorID, size: usize) -> (P9State, ErrorNumber) {
        let id = self.fd_inode(fd);
        if self.filetype(id) != FdFileType::RegularFile {
            (self, ErrorNumber::EOPNOTSUPP)
        } else {
            (self.resize_inode(id, size as nat), ErrorNumber::SUCCESS)
        }
    }

    /// The state after setting the times of inode `id` with `now` as the
    /// current time: `FST_ATIM` sets the access time to `atim`, `FST_ATIM_NOW`
    /// to `now` (taking precedence), and likewise `FST_MTIM` and `FST_MTIM_NOW`
    /// for the modification time.
    pub open spec fn set_times_at(
        self,
        id: INodeID,
        atim: Timestamp,
        mtim: Timestamp,
        fst_flags: FstFlags,
        now: Timestamp,
    ) -> P9State {
        let n = self.fs[id as int];
        let a1 = if fst_flags.spec_contains(FstFlags { bits: FST_ATIM }) { atim } else { n.atime };
        let a2 = if fst_flags.spec_contains(FstFlags { bits: FST_ATIM_NOW }) { now } else { a1 };
        let m1 = if fst_flags.spec_contains(FstFlags { bits: FST_MTIM }) { mtim } else { n.mtime };
        let m2 = if fst_flags.spec_contains(FstFlags { bits: FST_MTIM_NOW }) { now } else { m1 };
        self.with_fs(self.fs.update(id as int, InodeView { atime: a2, mtime: m2, ..n }))
    }

    /// The state after `allocate`: the file grows to `offset + len` bytes if
    /// it is shorter.
    pub open spec fn allocate(self, fd: FileDescriptorID, offset: i64, len: i64) -> P9State {
        let id = self.fd_inode(fd);
        let want = (offset + len) as nat;
        if self.fs[id as int].data.len() < want {
            self.resize_inode(id, want)
        } else {
            self
        }
    }

    /// Whether the open descriptor `fd` refers to a regular file.
    pub open spec fn fd_is_file(self, fd: FileDescriptorID) -> bool {
        self.filetype(self.fd_inode(fd)) == FdFileType::RegularFile
    }

    /// The answer of `tell`: only regular files have an offset.
    pub open spec fn tell(self, fd: FileDescriptorID) -> ErrorNumber {
        if self.fd_is_file(fd) {
            ErrorNumber::SUCCESS
        } else {
            ErrorNumber::EINVAL
        }
    }

    /// The offset that a seek aims at, before the bounds check. Seeking from
    /// the end counts back from the last byte: offset 0 is the last byte.
    pub open spec fn seek_target(self, fd: FileDescriptorID, offset: i64, whence: SeekWhence) -> int {
        match whence {
            SeekWhence::Start => offset as int,
            SeekWhence::Current => (self.fds[fd].offset as i64) + offset,
            SeekWhence::End => (self.fs[self.fd_inode(fd) as int].data.len() as i64) - offset - 1,
        }
    }

    /// Whether the arithmetic of a seek stays within `i64`.
    pub open spec fn seek_fits(self, fd: FileDescriptorID, offset: i64, whence: SeekWhence) -> bool {
        match whence {
            SeekWhence::Start => true,
            SeekWhence::Current => i64::MIN <= (self.fds[fd].offset as i64) + offset <= i64::MAX,
            SeekWhence::End => {
                let size = self.fs[self.fd_inode(fd) as int].data.len() as i64;
                &&& i64::MIN <= size - offset <= i64::MAX
                &&& i64::MIN <= size - offset - 1
            },
        }
    }

    /// The state and answer after `seek`: only regular files, and the target
    /// must lie within the file.
    pub open spec fn seek(self, fd: FileDescriptorID, offset: i64, whence: SeekWhence) -> (P9State, ErrorNumber) {
        let t = self.seek_target(fd, offset, whence);
        let size = self.fs[self.fd_inode(fd) as int].data.len() as i64;
        if !self.fd_is_file(fd) || t < 0 || t >= size {
            (self, ErrorNumber::EINVAL)
        } else {
            (self.with_fd(fd, FileDescriptor { offset: t as usize, ..self.fds[fd] }), ErrorNumber::SUCCESS)
        }
    }

    /// The inode that `path` names relative to the directory of `parent_fd`.
    /// When it names a symbolic link and `flags` is `Follow`, the link's
    /// target is looked up (relative to the same directory) instead.
    pub open spec fn lookup_path(self, parent_fd: FileDescriptorID, flags: SymlinkLookupFlags, path: Seq<u8>) -> Option<INodeID> {
        let p = self.fd_inode(parent_fd);
        if !self.fd_is_dir(parent_fd) {
            None
        } else {
            match resolve_path(self.fs, p, path) {
                None => None,
                Some(id) => {
                    if mode_is_symlink(self.fs[id as int].mode) {
                        match flags {
                            SymlinkLookupFlags::NoFollow => Some(id),
                            SymlinkLookupFlags::Follow => resolve_path(self.fs, p, self.fs[id as int].symlink),
                        }
                    } else {
                        Some(id)
                    }
                },
            }
        }
    }

    /// The state and answer after `create_directory`: a new directory where
    /// `path` stands for (see `entry_of`).
    pub open spec fn create_directory(self, parent_fd: FileDescriptorID, path: Seq<u8>) -> (P9State, ErrorNumber) {
        let p = self.fd_inode(parent_fd);
        if !self.fd_is_dir(parent_fd) {
            (self, ErrorNumber::ENOTDIR)
        } else {
            let (d, name) = entry_of(self.fs, p, path);
            (self.with_fs(add_inode(self.fs, d, name, new_directory_view(d, name))), ErrorNumber::SUCCESS)
        }
    }

    /// The state and answer after `link`: `old_path` is looked up, then
    /// linked under the last component of `new_path`, in the directory that
    /// the rest of `new_path` names from the directory of `new_parent_fd`.
    pub open spec fn link(
        self,
        old_parent_fd: FileDescriptorID,
        old_flags: SymlinkLookupFlags,
        old_path: Seq<u8>,
        new_parent_fd: FileDescriptorID,
        new_path: Seq<u8>,
    ) -> (P9State, ErrorNumber) {
        match self.lookup_path(old_parent_fd, old_flags, old_path) {
            None => (self, ErrorNumber::EBADF),
            Some(old_id) => {
                let np = self.fd_inode(new_parent_fd);
                if !self.fd_is_dir(new_parent_fd) {
                    (self, ErrorNumber::ENOTDIR)
                } else {
                    let (d, name) = entry_of(self.fs, np, new_path);
                    (self.with_fs(link_state(self.fs, d, old_id, name)), link_result(self.fs, d, old_id, name))
                }
            },
        }
    }

    /// The descriptor flags of a descriptor opened with `oflags` and
    /// `fdflags`: with `O_APPEND` the descriptor is in append mode, so that
    /// every write goes to the end of the file.
    pub open spec fn open_fdflags(oflags: FileOpenFlags, fdflags: FdFlags) -> FdFlags {
        if oflags.spec_contains(FileOpenFlags { bits: O_APPEND }) {
            FdFlags { bits: fdflags.bits | FDFLAG_APPEND }
        } else {
            fdflags
        }
    }

    /// The state after opening a descriptor on inode `id`: a new descriptor
    /// at offset 0 (in append mode with `O_APPEND`), then truncation of the
    /// file with `O_TRUNC` when opened for writing, or else the offset set to
    /// the end of the file with `O_APPEND`.
    pub open spec fn open_inode(
        self,
        id: INodeID,
        oflags: FileOpenFlags,
        rights_base: FdRights,
        rights_inheriting: FdRights,
        fdflags: FdFlags,
    ) -> P9State {
        let size = self.fs[id as int].data.len();
        let fd = self.next_fd;
        let s1 = self.create_fd(id, Self::open_fdflags(oflags, fdflags), rights_base, rights_inheriting);
        if oflags.spec_contains(FileOpenFlags { bits: O_TRUNC }) && (oflags.spec_contains(FileOpenFlags { bits: O_WRONLY })
            || oflags.spec_contains(FileOpenFlags { bits: O_RDWR })) {
            s1.file_stat_set_size(fd, 0).0
        } else if oflags.spec_contains(FileOpenFlags { bits: O_APPEND }) {
            s1.with_fd(fd, FileDescriptor { offset: size as usize, ..s1.fds[fd] })
        } else {
            s1
        }
    }

    /// The state and answer after `path_open`. An existing file is opened
    /// unless `O_EXCL` with `O_CREAT` (`EEXIST`), `O_DIRECTORY` on a
    /// non-directory (`ENOTDIR`) or `O_TMPFILE` (`EOPNOTSUPP`) forbid it; a
    /// missing one is created with `O_CREAT` (as a directory with
    /// `O_DIRECTORY`) where `entry_of` puts it, and is `EBADF` otherwise. The new descriptor is
    /// `next_fd`.
    pub open spec fn path_open(
        self,
        parent_fd: FileDescriptorID,
        parent_flags: SymlinkLookupFlags,
        path: Seq<u8>,
        oflags: FileOpenFlags,
        rights_base: FdRights,
        rights_inheriting: FdRights,
        fdflags: FdFlags,
    ) -> (P9State, ErrorNumber) {
        let p = self.fd_inode(parent_fd);
        if !self.fd_is_dir(parent_fd) {
            (self, ErrorNumber::ENOTDIR)
        } else {
            match self.lookup_path(parent_fd, parent_flags, path) {
                Some(id) => {
                    if oflags.spec_contains(FileOpenFlags { bits: O_EXCL }) && oflags.spec_contains(FileOpenFlags { bits: O_CREAT }) {
                        (self, ErrorNumber::EEXIST)
                    } else if oflags.spec_contains(FileOpenFlags { bits: O_DIRECTORY }) && self.filetype(id) != FdFileType::Directory {
                        (self, ErrorNumber::ENOTDIR)
                    } else if oflags.spec_contains(FileOpenFlags { bits: O_TMPFILE }) {
                        (self, ErrorNumber::EOPNOTSUPP)
                    } else {
                        (self.open_inode(id, oflags, rights_base, rights_inheriting, fdflags), ErrorNumber::SUCCESS)
                    }
                },
                None => {
                    if oflags.spec_contains(FileOpenFlags { bits: O_CREAT }) {
                        let (d, name) = entry_of(self.fs, p, path);
                        let node = if oflags.spec_contains(FileOpenFlags { bits: O_DIRECTORY }) {
                            new_directory_view(d, name)
                        } else {
                            new_file_view(d, name)
                        };
                        let s1 = self.with_fs(add_inode(self.fs, d, name, node));
                        (
                            s1.open_inode(self.fs.len() as INodeID, oflags, rights_base, rights_inheriting, fdflags),
                            ErrorNumber::SUCCESS,
                        )
                    } else {
                        (self, ErrorNumber::EBADF)
                    }
                },
            }
        }
    }

    /// The target path of the symbolic link that `path` names relative to
    /// the directory of `parent_fd` (links are not followed), or the error
    /// that `path_read_link` answers.
    pub open spec fn read_link(self, parent_fd: FileDescriptorID, path: Seq<u8>) -> Result<Seq<u8>, ErrorNumber> {
        if !self.fd_is_dir(parent_fd) {
            Err(ErrorNumber::ENOTDIR)
        } else {
            match resolve_path(self.fs, self.fd_inode(parent_fd), path) {
                None => Err(ErrorNumber::EBADF),
                Some(id) => {
                    if !mode_is_symlink(self.fs[id as int].mode) {
                        Err(ErrorNumber::EINVAL)
                    } else {
                        Ok(self.fs[id as int].symlink)
                    }
                },
            }
        }
    }

    /// The state and answer after `path_unlink_dir`: when `path` names a
    /// directory, its entry (the last component of `path`, in the directory
    /// that the rest names) is removed.
    pub open spec fn path_unlink_dir(self, parent_fd: FileDescriptorID, path: Seq<u8>) -> (P9State, ErrorNumber) {
        let p = self.fd_inode(parent_fd);
        if !self.fd_is_dir(parent_fd) {
            (self, ErrorNumber::ENOTDIR)
        } else {
            match resolve_path(self.fs, p, path) {
                None => (self, ErrorNumber::EBADF),
                Some(id) => {
                    if self.filetype(id) != FdFileType::Directory {
                        (self, ErrorNumber::ENOTDIR)
                    } else {
                        let (d, name) = entry_of(self.fs, p, path);
                        (self.with_fs(remove_entry(self.fs, d, name)), ErrorNumber::SUCCESS)
                    }
                },
            }
        }
    }

    /// The state and answer after `path_unlink_file`: when `path` names a
    /// regular file, its entry (the last component of `path`, in the
    /// directory that the rest names) is unlinked.
    pub open spec fn path_unlink_file(self, parent_fd: FileDescriptorID, path: Seq<u8>) -> (P9State, ErrorNumber) {
        let p = self.fd_inode(parent_fd);
        if !self.fd_is_dir(parent_fd) {
            (self, ErrorNumber::EINVAL)
        } else {
            match resolve_path(self.fs, p, path) {
                None => (self, ErrorNumber::EBADF),
                Some(id) => {
                    if self.filetype(id) != FdFileType::RegularFile {
                        (self, ErrorNumber::ENOTDIR)
                    } else {
                        let (d, name) = entry_of(self.fs, p, path);
                        (self.with_fs(unlink_state(self.fs, d, name)), unlink_result(self.fs, d, name))
                    }
                },
            }
        }
    }

    /// The state and answer after `rename`: the entry that `old_path` stands
    /// for moves to the one that `new_path` stands for (see `entry_of`).
    pub open spec fn rename(
        self,
        old_parent_fd: FileDescriptorID,
        old_path: Seq<u8>,
        new_parent_fd: FileDescriptorID,
        new_path: Seq<u8>,
    ) -> (P9State, ErrorNumber) {
        if !self.fd_is_dir(old_parent_fd) || !self.fd_is_dir(new_parent_fd) {
            (self, ErrorNumber::ENOTDIR)
        } else {
            let op = self.fd_inode(old_parent_fd);
            let np = self.fd_inode(new_parent_fd);
            let (od, old_name) = entry_of(self.fs, op, old_path);
            let (nd, new_name) = entry_of(self.fs, np, new_path);
            (self.with_fs(rename_state(self.fs, od, old_name, nd, new_name)), rename_result(self.fs, od, old_name))
        }
    }

    /// The state and answer after `symlink`: a symbolic link whose target is
    /// `old_path`, under the last component of `new_path`, in the directory
    /// that the rest of `new_path` names.
    pub open spec fn symlink(self, parent_fd: FileDescriptorID, old_path: Seq<u8>, new_path: Seq<u8>) -> (P9State, ErrorNumber) {
        let p = self.fd_inode(parent_fd);
        if !self.fd_is_dir(parent_fd) {
            (self, ErrorNumber::ENOTDIR)
        } else {
            let (d, name) = entry_of(self.fs, p, new_path);
            (self.with_fs(add_inode(self.fs, d, name, new_symlink_view(d, name, old_path))), ErrorNumber::SUCCESS)
        }
    }

    /// Where a read starts: at `offset` when given, else at the
    /// descriptor's offset.
    pub open spec fn read_start(self, fd: FileDescriptorID, offset: Option<usize>) -> usize {
        match offset {
            Some(o) => o,
            None => self.fds[fd].offset,
        }
    }

    /// Where a write starts: at `offset` when given, else at the end of the
    /// file when the descriptor is in append mode, else at the descriptor's
    /// offset.
    pub open spec fn write_start(self, fd: FileDescriptorID, offset: Option<usize>) -> usize {
        match offset {
            Some(o) => o,
            None => if self.fds[fd].flags.spec_contains(FdFlags { bits: FDFLAG_APPEND }) {
                self.fs[self.fd_inode(fd) as int].data.len() as usize
            } else {
                self.fds[fd].offset
            },
        }
    }

    /// The state after `write_vec`: the bytes of all buffers are written one
    /// after the other from the write start (padding the file with zero bytes up to
    /// the start if needed; nothing at all is written when there is no
    /// buffer), and without an explicit `offset` the descriptor's offset moves
    /// past them.
    pub open spec fn write_vec(self, fd: FileDescriptorID, bufs: Seq<Vec<u8>>, offset: Option<usize>) -> P9State {
        let id = self.fd_inode(fd);
        let start = self.write_start(fd, offset);
        let all = concat_bufs(bufs);
        let n = self.fs[id as int];
        let s1 = if bufs.len() == 0 {
            self
        } else {
            self.with_fs(self.fs.update(id as int, InodeView { data: written(n.data, start as nat, all), ..n }))
        };
        match offset {
            Some(_) => s1,
            None => s1.with_fd(fd, FileDescriptor { offset: (start + all.len()) as usize, ..s1.fds[fd] }),
        }
    }

    /// The state after a `read_vec` that filled every buffer: without an
    /// explicit `offset` the descriptor's offset moves past the bytes read.
    pub open spec fn read_vec_state(self, fd: FileDescriptorID, bufs: Seq<Vec<u8>>, offset: Option<usize>) -> P9State {
        let start = self.read_start(fd, offset);
        match offset {
            Some(_) => self,
            None => self.with_fd(fd, FileDescriptor { offset: (start + concat_bufs(bufs).len()) as usize, ..self.fds[fd] }),
        }
    }

    /// The state after `renumber`: `to_fd` comes to refer to the inode of
    /// `from_fd`, keeping its own rights, flags and offset.
    pub open spec fn renumber(self, from_fd: FileDescriptorID, to_fd: FileDescriptorID) -> P9State {
        self.with_fd(to_fd, FileDescriptor { inode_id: self.fds[from_fd].inode_id, ..self.fds[to_fd] })
    }
}

/// `buf` with its first bytes replaced by as much of `src` as fits.
pub open spec fn copied_prefix(buf: Seq<u8>, src: Seq<u8>) -> Seq<u8> {
    let m = if src.len() <= buf.len() { src.len() } else { buf.len() };
    src.take(m as int) + buf.skip(m as int)
}

/// Copies as much of `src` as fits to the start of `buf`, and returns the
/// number of bytes copied.
fn copy_prefix(buf: &mut [u8], src: &[u8]) -> (m: usize)
    ensures
        final(buf)@ == copied_prefix(old(buf)@, src@),
        m == if src@.len() <= old(buf)@.len() { src@.len() } else { old(buf)@.len() },
{
    let m = if src.len() <= buf.len() { src.len() } else { buf.len() };
    let mut i: usize = 0;
    while i < m
        invariant
            m <= src@.len(),
            m <= buf@.len(),
            buf@.len() == old(buf)@.len(),
            0 <= i <= m,
            buf@ =~= src@.take(i as int) + old(buf)@.skip(i as int),
        decreases m - i,
    {
        buf[i] = src[i];
        i = i + 1;
        assert(buf@ =~= src@.take(i as int) + old(buf)@.skip(i as int));
    }
    m
}

impl Virtio9p {
    /// Invariant of the device: that of the inode table and that of the view.
    pub open spec fn wf(&self) -> bool {
        &&& self.fs.wf()
        &&& self@.wf()
    }

    /// A device over `fs`, or over a file system holding only the root
    /// directory, with no open descriptor.
    pub fn new(fs: Option<FS>) -> (r: Virtio9p)
        requires
            fs matches Some(f) ==> f.wf(),
        ensures
            r.wf(),
            r@.fs == match fs {
                Some(f) => f@,
                None => seq![new_directory_view(0, Seq::empty())],
            },
            r@.fds == Map::<FileDescriptorID, FileDescriptor>::empty(),
            r@.next_fd == 0,
    {
        let fs_internal = match fs {
            Some(f) => f,
            None => FS::new(),
        };
        let r = Virtio9p { fs: fs_internal, file_descriptors: HashMap::new(), next_fd: 0 };
        proof {
            r.fs.lemma_wf_view();
        }
        r
    }

    /// The standard stream that a descriptor number stands for.
    pub fn get_pipe_fd(fd: i32) -> (r: Option<Pipe>)
        ensures
            r == pipe_of_fd(fd),
    {
        if fd == STDIN_FD {
            Some(Pipe::Stdin)
        } else if fd == STDOUT_FD {
            Some(Pipe::Stdout)
        } else if fd == STDERR_FD {
            Some(Pipe::Stderr)
        } else {
            None
        }
    }

    /// The rights of a standard stream: reading (standard input) or writing
    /// (standard output and error), together with getting its status and
    /// polling it.
    pub fn get_pipe_rights(pipe: Pipe) -> (r: FdRights)
        ensures
            r == pipe_rights(pipe),
    {
        match pipe {
            Pipe::Stdin => FdRights::from_bits_retain(RIGHT_FD_READ | RIGHT_FD_FILESTAT_GET | RIGHT_POLL_FD_READWRITE),
            Pipe::Stdout => FdRights::from_bits_retain(RIGHT_FD_WRITE | RIGHT_FD_FILESTAT_GET | RIGHT_POLL_FD_READWRITE),
            Pipe::Stderr => FdRights::from_bits_retain(RIGHT_FD_WRITE | RIGHT_FD_FILESTAT_GET | RIGHT_POLL_FD_READWRITE),
        }
    }

    /// The open descriptor that a number above those of the standard streams
    /// names, if there is one.
    pub fn get_fd(&self, fd: i32) -> (r: Option<FileDescriptorID>)
        ensures
            r == self@.get_fd(fd),
    {
        if fd > PIPE_MAX_FD && self.file_descriptors.contains_key(&(fd as FileDescriptorID)) {
            Some(fd as FileDescriptorID)
        } else {
            None
        }
    }

    /// The descriptor `fd`.
    fn descriptor(&self, fd: FileDescriptorID) -> (r: FileDescriptor)
        requires
            self@.has_fd(fd),
        ensures
            r == self@.fds[fd],
    {
        *self.file_descriptors.get(&fd).unwrap()
    }

    /// Opens a descriptor on `inode_id` with the given flags and rights, at
    /// offset 0, under the number `next_fd`, and hands it out for changes:
    /// what the caller leaves in it is what the device holds under that
    /// number. The device stays well formed as long as the caller leaves the
    /// descriptor's own number as it is.
    pub fn create_fd(
        &mut self,
        inode_id: INodeID,
        flags: FdFlags,
        rights: FdRights,
        rights_inheriting: FdRights,
    ) -> (r: &mut FileDescriptor)
        requires
            old(self).wf(),
            old(self)@.next_fd < usize::MAX,
        ensures
            *r == old(self)@.new_fd(inode_id, flags, rights, rights_inheriting),
            final(self).fs == old(self).fs,
            final(self)@.next_fd == old(self)@.next_fd + 1,
            final(self)@.fds == old(self)@.fds.insert(old(self)@.next_fd, *final(r)),
            final(r).fd == old(self)@.next_fd ==> final(self).wf(),
    {
        let fd = self.next_fd;
        let file_descriptor = FileDescriptor { inode_id, flags, rights, rights_inheriting, offset: 0, fd };
        self.next_fd = self.next_fd + 1;
        assert(!self.file_descriptors@.contains_key(fd)) by {
            if old(self)@.fds.contains_key(fd) {
                assert(fd < old(self)@.next_fd);
            }
        }
        match self.file_descriptors.entry(fd) {
            Entry::Occupied(e) => {
                assert(false);
                e.into_mut()
            },
            Entry::Vacant(e) => e.insert(file_descriptor),
        }
    }

    /// Closes the descriptor `fd`; `ENOENT` when it is not open.
    pub fn close_fd(&mut self, fd: FileDescriptorID) -> (r: ErrorNumber)
        requires
            old(self).wf(),
        ensures
            final(self).wf(),
            (final(self)@, r) == old(self)@.close_fd(fd),
    {
        match self.file_descriptors.remove(&fd) {
            Some(_) => {
                assert forall|k: FileDescriptorID| #[trigger] self@.fds.contains_key(k) implies {
                    &&& k < self@.next_fd
                    &&& self@.fds[k].fd == k
                        } by {
                    assert(old(self)@.fds.contains_key(k));
                }
                ErrorNumber::SUCCESS
            },
            None => {
                assert(self@.fds =~= old(self)@.fds);
                ErrorNumber::ENOENT
            },
        }
    }

    /// The type of inode `inode_id`.
    fn get_inode_filetype(&self, inode_id: INodeID) -> (r: FdFileType)
        requires
            self.wf(),
            inode_id < self@.fs.len(),
        ensures
            r == self@.filetype(inode_id),
    {
        if self.fs.is_directory(inode_id) {
            FdFileType::Directory
        } else if self.fs.is_symlink(inode_id) {
            FdFileType::SymbolicLink
        } else {
            FdFileType::RegularFile
        }
    }

    /// Reports the type, flags and rights of the descriptor `fd`.
    pub fn fd_stat(&self, fd: FileDescriptorID, stat: &mut FdStat) -> (r: ErrorNumber)
        requires
            self.wf(),
            self@.fd_valid(fd),
        ensures
            r == ErrorNumber::SUCCESS,
            *final(stat) == self@.fd_stat(fd),
    {
        let d = self.descriptor(fd);
        stat.fs_filetype = self.get_inode_filetype(d.inode_id);
        stat.fs_flags = d.flags;
        stat.fs_rights_base = d.rights;
        stat.fs_rights_inheriting = d.rights_inheriting;
        ErrorNumber::SUCCESS
    }

    /// Replaces the flags of the descriptor `fd`.
    pub fn fd_stat_set_flags(&mut self, fd: FileDescriptorID, flags: FdFlags) -> (r: ErrorNumber)
        requires
            old(self).wf(),
            old(self)@.has_fd(fd),
        ensures
            final(self).wf(),
            r == ErrorNumber::SUCCESS,
            final(self)@ == old(self)@.fd_stat_set_flags(fd, flags),
    {
        let mut d = self.descriptor(fd);
        d.flags = flags;
        self.file_descriptors.insert(fd, d);
        ErrorNumber::SUCCESS
    }

    /// Replaces the rights of the descriptor `fd`; only allowed to remove
    /// capabilities, not add them (`ENOTCAPABLE` otherwise).
    pub fn fd_stat_set_rights(
        &mut self,
        fd: FileDescriptorID,
        rights: FdRights,
        rights_inheriting: FdRights,
    ) -> (r: ErrorNumber)
        requires
            old(self).wf(),
            old(self)@.has_fd(fd),
        ensures
            final(self).wf(),
            (final(self)@, r) == old(self)@.fd_stat_set_rights(fd, rights, rights_inheriting),
    {
        let mut d = self.descriptor(fd);
        if (rights.bits | d.rights.bits) != d.rights.bits || (rights_inheriting.bits | d.rights_inheriting.bits)
            != d.rights_inheriting.bits {
            ErrorNumber::ENOTCAPABLE
        } else {
            d.rights = rights;
            d.rights_inheriting = rights_inheriting;
            self.file_descriptors.insert(fd, d);
            ErrorNumber::SUCCESS
        }
    }

    /// Reports the attributes of the inode that `fd` refers to.
    pub fn get_file_stat(&self, fd: FileDescriptorID, filestat: &mut FileStat) -> (r: ErrorNumber)
        requires
            self.wf(),
            self@.fd_valid(fd),
        ensures
            r == ErrorNumber::SUCCESS,
            *final(filestat) == self@.file_stat(self@.fd_inode(fd)),
    {
        let inode_id = self.descriptor(fd).inode_id;
        self.get_file_stat_from_inode_id(inode_id, filestat)
    }

    /// Reports the attributes of inode `inode_id`.
    pub fn get_file_stat_from_inode_id(&self, inode_id: INodeID, filestat: &mut FileStat) -> (r: ErrorNumber)
        requires
            self.wf(),
            inode_id < self@.fs.len(),
        ensures
            r == ErrorNumber::SUCCESS,
            *final(filestat) == self@.file_stat(inode_id),
    {
        let inode = self.fs.get_inode(inode_id);
        filestat.dev = match inode.mount_id {
            Some(dev_id) => dev_id,
            None => ROOT_DEVICE_ID,
        };
        filestat.ino = inode_id;
        filestat.filetype = self.get_inode_filetype(inode_id);
        filestat.nlink = inode.nlinks;
        filestat.size = if filestat.filetype == FdFileType::SymbolicLink {
            inode.symlink.len() as u64
        } else {
            inode.data.len() as u64
        };
        filestat.atim = inode.atime;
        filestat.mtim = inode.mtime;
        filestat.ctim = inode.ctime;
        ErrorNumber::SUCCESS
    }

    /// Cuts or pads the regular file that `fd` refers to to `size` bytes;
    /// `EOPNOTSUPP` for directories and symbolic links.
    pub fn file_stat_set_size(&mut self, fd: FileDescriptorID, size: usize) -> (r: ErrorNumber)
        requires
            old(self).wf(),
            old(self)@.fd_valid(fd),
        ensures
            final(self).wf(),
            (final(self)@, r) == old(self)@.file_stat_set_size(fd, size),
    {
        let inode_id = self.descriptor(fd).inode_id;
        if self.get_inode_filetype(inode_id) != FdFileType::RegularFile {
            return ErrorNumber::EOPNOTSUPP;
        }
        self.fs.change_size(inode_id, size);
        proof {
            self.fs.lemma_wf_view();
        }
        ErrorNumber::SUCCESS
    }

    /// Sets the times of the inode that `fd` refers to (see `set_times_at`),
    /// reading the wall clock for the `_NOW` flags.
    pub fn file_stat_set_times(
        &mut self,
        fd: FileDescriptorID,
        atim: Timestamp,
        mtim: Timestamp,
        fst_flags: FstFlags,
    ) -> (r: ErrorNumber)
        requires
            old(self).wf(),
            old(self)@.fd_valid(fd),
        ensures
            final(self).wf(),
            r == ErrorNumber::SUCCESS,
            exists|now: Timestamp|
                final(self)@ == old(self)@.set_times_at(old(self)@.fd_inode(fd), atim, mtim, fst_flags, now),
    {
        let inode_id = self.descriptor(fd).inode_id;
        let r = self.file_stat_set_times_from_inode_id(inode_id, atim, mtim, fst_flags);
        let ghost now = choose|now: Timestamp| self@ == old(self)@.set_times_at(inode_id, atim, mtim, fst_flags, now);
        assert(self@ == old(self)@.set_times_at(old(self)@.fd_inode(fd), atim, mtim, fst_flags, now));
        r
    }

    /// Sets the times of inode `inode_id` (see `set_times_at`), reading the
    /// wall clock for the `_NOW` flags.
    pub fn file_stat_set_times_from_inode_id(
        &mut self,
        inode_id: INodeID,
        atim: Timestamp,
        mtim: Timestamp,
        fst_flags: FstFlags,
    ) -> (r: ErrorNumber)
        requires
            old(self).wf(),
            inode_id < old(self)@.fs.len(),
        ensures
            final(self).wf(),
            r == ErrorNumber::SUCCESS,
            exists|now: Timestamp| final(self)@ == old(self)@.set_times_at(inode_id, atim, mtim, fst_flags, now),
    {
        let now = if fst_flags.contains(FstFlags::from_bits_retain(FST_ATIM_NOW)) || fst_flags.contains(
            FstFlags::from_bits_retain(FST_MTIM_NOW),
        ) {
            seconds_since_epoch()
        } else {
            0
        };
        self.file_stat_set_times_at(inode_id, atim, mtim, fst_flags, now)
    }

    /// Sets the times of inode `inode_id` with `now` as the current time.
    pub fn file_stat_set_times_at(
        &mut self,
        inode_id: INodeID,
        atim: Timestamp,
        mtim: Timestamp,
        fst_flags: FstFlags,
        now: Timestamp,
    ) -> (r: ErrorNumber)
        requires
            old(self).wf(),
            inode_id < old(self)@.fs.len(),
        ensures
            final(self).wf(),
            r == ErrorNumber::SUCCESS,
            final(self)@ == old(self)@.set_times_at(inode_id, atim, mtim, fst_flags, now),
    {
        if fst_flags.contains(FstFlags::from_bits_retain(FST_ATIM)) {
            self.fs.set_atime(inode_id, atim);
        }
        if fst_flags.contains(FstFlags::from_bits_retain(FST_ATIM_NOW)) {
            self.fs.set_atime(inode_id, now);
        }
        if fst_flags.contains(FstFlags::from_bits_retain(FST_MTIM)) {
            self.fs.set_mtime(inode_id, mtim);
        }
        if fst_flags.contains(FstFlags::from_bits_retain(FST_MTIM_NOW)) {
            self.fs.set_mtime(inode_id, now);
        }
        proof {
            self.fs.lemma_wf_view();
        }
        assert(self@.fs =~= old(self)@.set_times_at(inode_id, atim, mtim, fst_flags, now).fs);
        ErrorNumber::SUCCESS
    }

    /// Makes the file that `fd` refers to at least `offset + len` bytes long.
    pub fn allocate(&mut self, fd: FileDescriptorID, offset: i64, len: i64) -> (r: ErrorNumber)
        requires
            old(self).wf(),
            old(self)@.fd_valid(fd),
            i64::MIN <= offset + len <= i64::MAX,
            0 <= offset + len <= usize::MAX,
        ensures
            final(self).wf(),
            r == ErrorNumber::SUCCESS,
            final(self)@ == old(self)@.allocate(fd, offset, len),
    {
        let inode_id = self.descriptor(fd).inode_id;
        let total = (offset + len) as usize;
        if self.fs.get_size(inode_id) < total {
            self.fs.change_size(inode_id, total);
            proof {
                self.fs.lemma_wf_view();
            }
        }
        ErrorNumber::SUCCESS
    }

    /// Reports the offset of the regular file that `fd` refers to; `EINVAL`,
    /// leaving `offset` as it was, for other files.
    pub fn tell(&self, fd: FileDescriptorID, offset: &mut usize) -> (r: ErrorNumber)
        requires
            self.wf(),
            self@.fd_valid(fd),
        ensures
            r == self@.tell(fd),
            *final(offset) == if r == ErrorNumber::SUCCESS { self@.fds[fd].offset } else { *old(offset) },
    {
        let d = self.descriptor(fd);
        if self.get_inode_filetype(d.inode_id) != FdFileType::RegularFile {
            return ErrorNumber::EINVAL;
        }
        *offset = d.offset;
        ErrorNumber::SUCCESS
    }

    /// Moves the offset of the regular file that `fd` refers to (see
    /// `P9State::seek`), and reports the new offset in `newoffset`.
    pub fn seek(&mut self, fd: FileDescriptorID, offset: i64, whence: SeekWhence, newoffset: &mut usize) -> (r: ErrorNumber)
        requires
            old(self).wf(),
            old(self)@.fd_valid(fd),
            old(self)@.fd_is_file(fd) ==> old(self)@.seek_fits(fd, offset, whence),
        ensures
            final(self).wf(),
            (final(self)@, r) == old(self)@.seek(fd, offset, whence),
            *final(newoffset) == if r == ErrorNumber::SUCCESS { final(self)@.fds[fd].offset } else { *old(newoffset) },
    {
        let d = self.descriptor(fd);
        let inode_id = d.inode_id;
        if self.get_inode_filetype(inode_id) != FdFileType::RegularFile {
            return ErrorNumber::EINVAL;
        }
        let size = self.fs.get_size(inode_id) as i64;
        let new_offset: i64 = match whence {
            SeekWhence::Start => offset,
            SeekWhence::Current => (d.offset as i64) + offset,
            SeekWhence::End => size - offset - 1,
        };
        if new_offset < 0 || new_offset >= size {
            ErrorNumber::EINVAL
        } else {
            let mut nd = d;
            nd.offset = new_offset as usize;
            self.file_descriptors.insert(fd, nd);
            *newoffset = new_offset as usize;
            ErrorNumber::SUCCESS
        }
    }

    /// Creates a directory where `name` (a path relative to the directory of
    /// `parent_fd`) stands for (see `P9State::create_directory`).
    pub fn create_directory(&mut self, parent_fd: FileDescriptorID, name: &str) -> (r: ErrorNumber)
        requires
            old(self).wf(),
            old(self)@.fd_valid(parent_fd),
        ensures
            final(self).wf(),
            (final(self)@, r) == old(self)@.create_directory(parent_fd, name.spec_bytes()),
    {
        let parent_inode_id = self.descriptor(parent_fd).inode_id;
        if self.get_inode_filetype(parent_inode_id) != FdFileType::Directory {
            return ErrorNumber::ENOTDIR;
        }
        let (dir, entry_name) = self.fs.entry_of(parent_inode_id, name.as_bytes());
        let _result_inode_id = self.fs.create_directory(entry_name.as_slice(), dir);
        proof {
            self.fs.lemma_wf_view();
        }
        ErrorNumber::SUCCESS
    }

    /// The inode that `path` names relative to the directory of `parent_fd`
    /// (see `P9State::lookup_path`).
    pub fn lookup_path_inode(
        &mut self,
        parent_fd: FileDescriptorID,
        symlink_flags: SymlinkLookupFlags,
        path: &str,
    ) -> (r: Option<INodeID>)
        requires
            old(self).wf(),
            old(self)@.fd_valid(parent_fd),
        ensures
            final(self).wf(),
            final(self)@ == old(self)@,
            r == old(self)@.lookup_path(parent_fd, symlink_flags, path.spec_bytes()),
            r matches Some(id) ==> id < old(self)@.fs.len(),
    {
        self.lookup(parent_fd, symlink_flags, path.as_bytes())
    }

    fn lookup(&self, parent_fd: FileDescriptorID, symlink_flags: SymlinkLookupFlags, path: &[u8]) -> (r: Option<INodeID>)
        requires
            self.wf(),
            self@.fd_valid(parent_fd),
        ensures
            r == self@.lookup_path(parent_fd, symlink_flags, path@),
            r matches Some(id) ==> id < self@.fs.len(),
    {
        let parent_inode_id = self.descriptor(parent_fd).inode_id;
        if self.get_inode_filetype(parent_inode_id) != FdFileType::Directory {
            None
        } else {
            match self.fs.search(parent_inode_id, path) {
                Some(searched_inode_id) => {
                    if self.fs.is_symlink(searched_inode_id) {
                        match symlink_flags {
                            SymlinkLookupFlags::NoFollow => Some(searched_inode_id),
                            SymlinkLookupFlags::Follow => self.fs.follow_symlink(parent_inode_id, searched_inode_id),
                        }
                    } else {
                        Some(searched_inode_id)
                    }
                },
                None => None,
            }
        }
    }

    /// Reports the attributes of the inode that `path` names; `EBADF`,
    /// leaving `stat` as it was, when there is none.
    pub fn path_file_stat_get(
        &mut self,
        parent_fd: FileDescriptorID,
        symlink_flags: SymlinkLookupFlags,
        path: &str,
        stat: &mut FileStat,
    ) -> (r: ErrorNumber)
        requires
            old(self).wf(),
            old(self)@.fd_valid(parent_fd),
        ensures
            final(self).wf(),
            final(self)@ == old(self)@,
            match old(self)@.lookup_path(parent_fd, symlink_flags, path.spec_bytes()) {
                Some(id) => r == ErrorNumber::SUCCESS && *final(stat) == old(self)@.file_stat(id),
                None => r == ErrorNumber::EBADF && *final(stat) == *old(stat),
            },
    {
        match self.lookup(parent_fd, symlink_flags, path.as_bytes()) {
            Some(inode_id) => self.get_file_stat_from_inode_id(inode_id, stat),
            None => ErrorNumber::EBADF,
        }
    }

    /// Sets the times of the inode that `path` names (see `set_times_at`);
    /// `EBADF` when there is none.
    pub fn path_file_stat_set_times(
        &mut self,
        parent_fd: FileDescriptorID,
        symlink_flags: SymlinkLookupFlags,
        path: &str,
        atim: Timestamp,
        mtim: Timestamp,
        fst_flags: FstFlags,
    ) -> (r: ErrorNumber)
        requires
            old(self).wf(),
            old(self)@.fd_valid(parent_fd),
        ensures
            final(self).wf(),
            match old(self)@.lookup_path(parent_fd, symlink_flags, path.spec_bytes()) {
                Some(id) => r == ErrorNumber::SUCCESS && exists|now: Timestamp|
                    final(self)@ == old(self)@.set_times_at(id, atim, mtim, fst_flags, now),
                None => r == ErrorNumber::EBADF && final(self)@ == old(self)@,
            },
    {
        match self.lookup(parent_fd, symlink_flags, path.as_bytes()) {
            Some(inode_id) => self.file_stat_set_times_from_inode_id(inode_id, atim, mtim, fst_flags),
            None => ErrorNumber::EBADF,
        }
    }

    /// Links the inode that `old_path` names under `new_path` in the
    /// directory of `new_parent_fd` (see `P9State::link`).
    pub fn link(
        &mut self,
        old_parent_dir_fd: FileDescriptorID,
        old_symlink_flags: SymlinkLookupFlags,
        old_path_str: &str,
        new_parent_fd: FileDescriptorID,
        new_path_str: &str,
    ) -> (r: ErrorNumber)
        requires
            old(self).wf(),
            old(self)@.fd_valid(old_parent_dir_fd),
            old(self)@.lookup_path(old_parent_dir_fd, old_symlink_flags, old_path_str.spec_bytes()) is Some
                ==> old(self)@.fd_valid(new_parent_fd),
        ensures
            final(self).wf(),
            (final(self)@, r) == old(self)@.link(
                old_parent_dir_fd,
                old_symlink_flags,
                old_path_str.spec_bytes(),
                new_parent_fd,
                new_path_str.spec_bytes(),
            ),
    {
        match self.lookup(old_parent_dir_fd, old_symlink_flags, old_path_str.as_bytes()) {
            Some(old_inode_id) => {
                let new_parent_inode_id = self.descriptor(new_parent_fd).inode_id;
                if self.get_inode_filetype(new_parent_inode_id) != FdFileType::Directory {
                    ErrorNumber::ENOTDIR
                } else {
                    let (dir, entry_name) = self.fs.entry_of(new_parent_inode_id, new_path_str.as_bytes());
                    let r = self.fs.link(dir, old_inode_id, entry_name.as_slice());
                    proof {
                        self.fs.lemma_wf_view();
                    }
                    r
                }
            },
            None => ErrorNumber::EBADF,
        }
    }

    /// Opens (or creates) the file that `path_str` names relative to the
    /// directory of `parent_dir_fd` (see `P9State::path_open`), and reports
    /// the new descriptor in `fd_out_ref`.
    pub fn path_open(
        &mut self,
        parent_dir_fd: FileDescriptorID,
        parent_symlink_flags: SymlinkLookupFlags,
        path_str: &str,
        oflags: FileOpenFlags,
        fs_rights_base: FdRights,
        fs_rights_inheriting: FdRights,
        fdflags: FdFlags,
        fd_out_ref: &mut FileDescriptorID,
    ) -> (r: ErrorNumber)
        requires
            old(self).wf(),
            old(self)@.fd_valid(parent_dir_fd),
            old(self)@.path_open(
                parent_dir_fd,
                parent_symlink_flags,
                path_str.spec_bytes(),
                oflags,
                fs_rights_base,
                fs_rights_inheriting,
                fdflags,
            ).1 == ErrorNumber::SUCCESS ==> old(self)@.next_fd < usize::MAX,
        ensures
            final(self).wf(),
            (final(self)@, r) == old(self)@.path_open(
                parent_dir_fd,
                parent_symlink_flags,
                path_str.spec_bytes(),
                oflags,
                fs_rights_base,
                fs_rights_inheriting,
                fdflags,
            ),
            *final(fd_out_ref) == if r == ErrorNumber::SUCCESS { old(self)@.next_fd } else { *old(fd_out_ref) },
    {
        let parent_inode_id = self.descriptor(parent_dir_fd).inode_id;
        if self.get_inode_filetype(parent_inode_id) != FdFileType::Directory {
            return ErrorNumber::ENOTDIR;
        }
        let path = path_str.as_bytes();
        let opened_inode_id = match self.lookup(parent_dir_fd, parent_symlink_flags, path) {
            Some(inode_id) => {
                if oflags.contains(FileOpenFlags::from_bits_retain(O_EXCL)) && oflags.contains(
                    FileOpenFlags::from_bits_retain(O_CREAT),
                ) {
                    return ErrorNumber::EEXIST;
                }
                if oflags.contains(FileOpenFlags::from_bits_retain(O_DIRECTORY)) && self.get_inode_filetype(inode_id)
                    != FdFileType::Directory {
                    return ErrorNumber::ENOTDIR;
                }
                if oflags.contains(FileOpenFlags::from_bits_retain(O_TMPFILE)) {
                    return ErrorNumber::EOPNOTSUPP;
                }
                inode_id
            },
            None => {
                if oflags.contains(FileOpenFlags::from_bits_retain(O_CREAT)) {
                    let (dir, entry_name) = self.fs.entry_of(parent_inode_id, path);
                    let id = if oflags.contains(FileOpenFlags::from_bits_retain(O_DIRECTORY)) {
                        self.fs.create_directory(entry_name.as_slice(), dir)
                    } else {
                        self.fs.create_file(entry_name.as_slice(), dir)
                    };
                    proof {
                        self.fs.lemma_wf_view();
                    }
                    id
                } else {
                    return ErrorNumber::EBADF;
                }
            },
        };
        let ghost s1 = self@;
        let inode_size = self.fs.get_size(opened_inode_id);
        let open_flags = if oflags.contains(FileOpenFlags::from_bits_retain(O_APPEND)) {
            fdflags.union(FdFlags::from_bits_retain(FDFLAG_APPEND))
        } else {
            fdflags
        };
        let file_descriptor_fd = self.create_fd(opened_inode_id, open_flags, fs_rights_base, fs_rights_inheriting).fd;
        if oflags.contains(FileOpenFlags::from_bits_retain(O_TRUNC)) && (oflags.contains(
            FileOpenFlags::from_bits_retain(O_WRONLY),
        ) || oflags.contains(FileOpenFlags::from_bits_retain(O_RDWR))) {
            self.file_stat_set_size(file_descriptor_fd, 0);
        } else if oflags.contains(FileOpenFlags::from_bits_retain(O_APPEND)) {
            let mut d = self.descriptor(file_descriptor_fd);
            d.offset = inode_size;
            self.file_descriptors.insert(file_descriptor_fd, d);
        }
        assert(self@ == s1.open_inode(opened_inode_id, oflags, fs_rights_base, fs_rights_inheriting, fdflags));
        *fd_out_ref = file_descriptor_fd;
        ErrorNumber::SUCCESS
    }

    /// Copies as much of the target of the symbolic link that `path_str`
    /// names as fits into `out_buf`, and reports how many bytes were copied.
    pub fn path_read_link(
        &mut self,
        parent_dir_fd: FileDescriptorID,
        path_str: &str,
        out_buf: &mut [u8],
        out_buf_used: &mut usize,
    ) -> (r: ErrorNumber)
        requires
            old(self).wf(),
            old(self)@.fd_valid(parent_dir_fd),
        ensures
            final(self).wf(),
            final(self)@ == old(self)@,
            match old(self)@.read_link(parent_dir_fd, path_str.spec_bytes()) {
                Ok(target) => {
                    &&& r == ErrorNumber::SUCCESS
                    &&& final(out_buf)@ == copied_prefix(old(out_buf)@, target)
                    &&& *final(out_buf_used) == if target.len() <= old(out_buf)@.len() {
                        target.len()
                    } else {
                        old(out_buf)@.len()
                    }
                },
                Err(e) => r == e && final(out_buf)@ == old(out_buf)@ && *final(out_buf_used) == *old(out_buf_used),
            },
    {
        let parent_inode_id = self.descriptor(parent_dir_fd).inode_id;
        if self.get_inode_filetype(parent_inode_id) != FdFileType::Directory {
            return ErrorNumber::ENOTDIR;
        }
        match self.fs.search(parent_inode_id, path_str.as_bytes()) {
            Some(inode_id) => {
                if !self.fs.is_symlink(inode_id) {
                    return ErrorNumber::EINVAL;
                }
                let symlink_bytes = self.fs.get_inode(inode_id).symlink.as_slice();
                let bytes_reading = copy_prefix(out_buf, symlink_bytes);
                *out_buf_used = bytes_reading;
                ErrorNumber::SUCCESS
            },
            None => ErrorNumber::EBADF,
        }
    }

    /// Removes the entry of the directory that `path_str` names relative to
    /// the directory of `parent_dir_fd` (see `P9State::path_unlink_dir`).
    pub fn path_unlink_dir(&mut self, parent_dir_fd: FileDescriptorID, path_str: &str) -> (r: ErrorNumber)
        requires
            old(self).wf(),
            old(self)@.fd_valid(parent_dir_fd),
        ensures
            final(self).wf(),
            (final(self)@, r) == old(self)@.path_unlink_dir(parent_dir_fd, path_str.spec_bytes()),
    {
        let parent_inode_id = self.descriptor(parent_dir_fd).inode_id;
        if self.get_inode_filetype(parent_inode_id) != FdFileType::Directory {
            return ErrorNumber::ENOTDIR;
        }
        match self.fs.search(parent_inode_id, path_str.as_bytes()) {
            Some(inode_id) => {
                if self.get_inode_filetype(inode_id) != FdFileType::Directory {
                    return ErrorNumber::ENOTDIR;
                }
                let (dir, entry_name) = self.fs.entry_of(parent_inode_id, path_str.as_bytes());
                self.fs.unlink_from_dir(dir, entry_name.as_slice());
                proof {
                    self.fs.lemma_wf_view();
                }
                ErrorNumber::SUCCESS
            },
            None => ErrorNumber::EBADF,
        }
    }

    /// Unlinks the regular file that `path_str` names relative to the
    /// directory of `parent_dir_fd` (see `P9State::path_unlink_file`).
    pub fn path_unlink_file(&mut self, parent_dir_fd: FileDescriptorID, path_str: &str) -> (r: ErrorNumber)
        requires
            old(self).wf(),
            old(self)@.fd_valid(parent_dir_fd),
        ensures
            final(self).wf(),
            (final(self)@, r) == old(self)@.path_unlink_file(parent_dir_fd, path_str.spec_bytes()),
    {
        let parent_inode_id = self.descriptor(parent_dir_fd).inode_id;
        if self.get_inode_filetype(parent_inode_id) != FdFileType::Directory {
            return ErrorNumber::EINVAL;
        }
        match self.fs.search(parent_inode_id, path_str.as_bytes()) {
            Some(inode_id) => {
                if self.get_inode_filetype(inode_id) != FdFileType::RegularFile {
                    return ErrorNumber::ENOTDIR;
                }
                let (dir, entry_name) = self.fs.entry_of(parent_inode_id, path_str.as_bytes());
                let r = self.fs.unlink(dir, entry_name.as_slice());
                proof {
                    self.fs.lemma_wf_view();
                }
                r
            },
            None => ErrorNumber::EBADF,
        }
    }

    /// Moves the entry that `old_path_str` stands for, relative to the
    /// directory of `old_parent_dir_fd`, to the one that `new_path_str` stands
    /// for, relative to that of `new_parent_dir_fd` (see `P9State::rename`).
    pub fn rename(
        &mut self,
        old_parent_dir_fd: FileDescriptorID,
        old_path_str: &str,
        new_parent_dir_fd: FileDescriptorID,
        new_path_str: &str,
    ) -> (r: ErrorNumber)
        requires
            old(self).wf(),
            old(self)@.fd_valid(old_parent_dir_fd),
            old(self)@.fd_is_dir(old_parent_dir_fd) ==> old(self)@.fd_valid(new_parent_dir_fd),
        ensures
            final(self).wf(),
            (final(self)@, r) == old(self)@.rename(
                old_parent_dir_fd,
                old_path_str.spec_bytes(),
                new_parent_dir_fd,
                new_path_str.spec_bytes(),
            ),
    {
        let old_parent_inode_id = self.descriptor(old_parent_dir_fd).inode_id;
        if self.get_inode_filetype(old_parent_inode_id) != FdFileType::Directory {
            return ErrorNumber::ENOTDIR;
        }
        let new_parent_inode_id = self.descriptor(new_parent_dir_fd).inode_id;
        if self.get_inode_filetype(new_parent_inode_id) != FdFileType::Directory {
            return ErrorNumber::ENOTDIR;
        }
        let (old_dir, old_name) = self.fs.entry_of(old_parent_inode_id, old_path_str.as_bytes());
        let (new_dir, new_name) = self.fs.entry_of(new_parent_inode_id, new_path_str.as_bytes());
        let r = self.fs.rename(old_dir, old_name.as_slice(), new_dir, new_name.as_slice());
        proof {
            self.fs.lemma_wf_view();
        }
        r
    }

    /// Creates a symbolic link whose target is `old_path_str` where
    /// `new_path_str`, relative to the directory of `parent_fd`, stands for
    /// (see `P9State::symlink`).
    pub fn symlink(&mut self, parent_fd: FileDescriptorID, old_path_str: &str, new_path_str: &str) -> (r: ErrorNumber)
        requires
            old(self).wf(),
            old(self)@.fd_valid(parent_fd),
        ensures
            final(self).wf(),
            (final(self)@, r) == old(self)@.symlink(parent_fd, old_path_str.spec_bytes(), new_path_str.spec_bytes()),
    {
        let parent_inode_id = self.descriptor(parent_fd).inode_id;
        if self.get_inode_filetype(parent_inode_id) != FdFileType::Directory {
            return ErrorNumber::ENOTDIR;
        }
        let (dir, entry_name) = self.fs.entry_of(parent_inode_id, new_path_str.as_bytes());
        let _symlink_node_id = self.fs.create_symlink(entry_name.as_slice(), dir, old_path_str.as_bytes());
        proof {
            self.fs.lemma_wf_view();
        }
        ErrorNumber::SUCCESS
    }

    /// Reports the length of the path of the directory that `fd` refers to;
    /// `ENOTDIR`, leaving `prestat` as it was, for other files.
    pub fn prestat_get(&mut self, fd: FileDescriptorID, prestat: &mut PreStat) -> (r: ErrorNumber)
        requires
            old(self).wf(),
            old(self)@.fd_valid(fd),
        ensures
            final(self).wf(),
            final(self)@ == old(self)@,
            if old(self)@.fd_is_dir(fd) {
                &&& r == ErrorNumber::SUCCESS
                &&& *final(prestat) == (PreStat {
                    directory_type: PreStatDirectoryType::PreOpenTypeDir,
                    directory_path_len: full_path(old(self)@.fs, old(self)@.fd_inode(fd)).len() as usize,
                })
            } else {
                r == ErrorNumber::ENOTDIR && *final(prestat) == *old(prestat)
            },
    {
        let inode_id = self.descriptor(fd).inode_id;
        if self.get_inode_filetype(inode_id) != FdFileType::Directory {
            return ErrorNumber::ENOTDIR;
        }
        prestat.directory_type = PreStatDirectoryType::PreOpenTypeDir;
        prestat.directory_path_len = self.fs.get_full_path(inode_id).len();
        ErrorNumber::SUCCESS
    }

    /// Copies as much of the path of the directory that `fd` refers to as
    /// fits into `buffer`; `ENOTDIR`, leaving `buffer` as it was, for other
    /// files.
    pub fn prestat_dir_name(&mut self, fd: FileDescriptorID, buffer: &mut [u8]) -> (r: ErrorNumber)
        requires
            old(self).wf(),
            old(self)@.fd_valid(fd),
        ensures
            final(self).wf(),
            final(self)@ == old(self)@,
            if old(self)@.fd_is_dir(fd) {
                r == ErrorNumber::SUCCESS && final(buffer)@ == copied_prefix(
                    old(buffer)@,
                    full_path(old(self)@.fs, old(self)@.fd_inode(fd)),
                )
            } else {
                r == ErrorNumber::ENOTDIR && final(buffer)@ == old(buffer)@
            },
    {
        let inode_id = self.descriptor(fd).inode_id;
        if self.get_inode_filetype(inode_id) != FdFileType::Directory {
            return ErrorNumber::ENOTDIR;
        }
        let path = self.fs.get_full_path(inode_id);
        copy_prefix(buffer, path.as_slice());
        ErrorNumber::SUCCESS
    }

    /// Writes the buffers one after the other into the file that `fd`
    /// refers to (see `P9State::write_vec`), and reports the number of bytes
    /// written in `n_written`.
    pub fn write_vec(
        &mut self,
        fd: FileDescriptorID,
        src: &[Vec<u8>],
        offset: Option<usize>,
        n_written: &mut usize,
    ) -> (r: ErrorNumber)
        requires
            old(self).wf(),
            old(self)@.fd_valid(fd),
            old(self)@.write_start(fd, offset) + concat_bufs(src@).len() <= usize::MAX,
        ensures
            final(self).wf(),
            r == ErrorNumber::SUCCESS,
            final(self)@ == old(self)@.write_vec(fd, src@, offset),
            *final(n_written) == concat_bufs(src@).len(),
    {
        *n_written = 0;
        let d = self.descriptor(fd);
        let inode_id = d.inode_id;
        let start = match offset {
            Some(offset_val) => offset_val,
            None => if d.flags.contains(FdFlags::from_bits_retain(FDFLAG_APPEND)) {
                self.fs.get_size(inode_id)
            } else {
                d.offset
            },
        };
        let mut cur_offset = start;
        let ghost data0 = self@.fs[inode_id as int].data;
        let mut k: usize = 0;
        assert(src@.take(0) =~= Seq::<Vec<u8>>::empty());
        while k < src.len()
            invariant
                self.wf(),
                self.fs@.len() == old(self).fs@.len(),
                self@.fds == old(self)@.fds,
                self@.next_fd == old(self)@.next_fd,
                inode_id == old(self)@.fd_inode(fd),
                inode_id < self.fs@.len(),
                start == old(self)@.write_start(fd, offset),
                0 <= k <= src@.len(),
                start + concat_bufs(src@).len() <= usize::MAX,
                cur_offset == start + concat_bufs(src@.take(k as int)).len(),
                *n_written == concat_bufs(src@.take(k as int)).len(),
                data0 == old(self)@.fs[inode_id as int].data,
                k == 0 ==> self@ == old(self)@,
                k > 0 ==> self@.fs == old(self)@.fs.update(
                    inode_id as int,
                    InodeView {
                        data: written(data0, start as nat, concat_bufs(src@.take(k as int))),
                        ..old(self)@.fs[inode_id as int]
                    },
                ),
            decreases src@.len() - k,
        {
            proof {
                lemma_concat_take(src@, k as int);
                lemma_concat_prefix_len(src@, k as int + 1);
            }
            let n_writing = src[k].len();
            let ghost before = self@.fs[inode_id as int].data;
            let ghost prefix = concat_bufs(src@.take(k as int));
            assert(before == if k == 0 { data0 } else { written(data0, start as nat, prefix) });
            self.fs.write_arr(inode_id, cur_offset, src[k].as_slice());
            proof {
                self.fs.lemma_wf_view();
                if k > 0 {
                    lemma_written_twice(data0, start as nat, prefix, src@[k as int]@);
                } else {
                    assert(prefix =~= Seq::<u8>::empty());
                    assert(prefix + src@[0]@ =~= src@[0]@);
                }
                assert(self@.fs[inode_id as int].data == written(data0, start as nat, concat_bufs(src@.take(k + 1))));
            }
            cur_offset = cur_offset + n_writing;
            *n_written = *n_written + n_writing;
            k = k + 1;
            assert(self@.fs =~= old(self)@.fs.update(
                inode_id as int,
                InodeView {
                    data: written(data0, start as nat, concat_bufs(src@.take(k as int))),
                    ..old(self)@.fs[inode_id as int]
                },
            ));
        }
        assert(src@.take(src@.len() as int) =~= src@);
        if offset.is_none() {
            let mut nd = self.descriptor(fd);
            nd.offset = cur_offset;
            self.file_descriptors.insert(fd, nd);
        }
        ErrorNumber::SUCCESS
    }

    /// Fills the buffers one after the other with bytes of the file that
    /// `fd` refers to, from `offset` when given or else from the
    /// descriptor's offset, and reports the number of bytes read in `n_read`.
    /// When a buffer reaches past the end of the file the read stops there
    /// with `EINVAL`: the buffers before it are filled, and the descriptor's
    /// offset stays as it was.
    pub fn read_vec(
        &mut self,
        fd: FileDescriptorID,
        dst: &mut [Vec<u8>],
        offset: Option<usize>,
        n_read: &mut usize,
    ) -> (r: ErrorNumber)
        requires
            old(self).wf(),
            old(self)@.fd_valid(fd),
        ensures
            final(self).wf(),
            ({
                let s = old(self)@;
                let start = s.read_start(fd, offset) as nat;
                let data = s.fs[s.fd_inode(fd) as int].data;
                let bufs = old(dst)@;
                &&& (r == ErrorNumber::SUCCESS) == bufs_fit(data.len(), start, bufs, bufs.len() as int)
                &&& r == ErrorNumber::SUCCESS ==> {
                    &&& final(self)@ == s.read_vec_state(fd, bufs, offset)
                    &&& bufs_filled(data, start, bufs, final(dst)@, bufs.len() as int)
                    &&& *final(n_read) == concat_bufs(bufs).len()
                }
                &&& r != ErrorNumber::SUCCESS ==> {
                    &&& r == ErrorNumber::EINVAL
                    &&& final(self)@ == s
                    &&& exists|k: int| {
                        &&& 0 <= k < bufs.len()
                        &&& bufs_fit(data.len(), start, bufs, k)
                        &&& !bufs_fit(data.len(), start, bufs, k + 1)
                        &&& bufs_filled(data, start, bufs, final(dst)@, k)
                        &&& *final(n_read) == concat_bufs(bufs.take(k)).len()
                    }
                }
            }),
    {
        *n_read = 0;
        let d = self.descriptor(fd);
        let inode_id = d.inode_id;
        let start = match offset {
            Some(offset_val) => offset_val,
            None => d.offset,
        };
        let ghost data = self@.fs[inode_id as int].data;
        let ghost bufs = dst@;
        let mut cur_offset = start;
        let mut k: usize = 0;
        assert(bufs.take(0) =~= Seq::<Vec<u8>>::empty());
        while k < dst.len()
            invariant
                self@ == old(self)@,
                self.wf(),
                inode_id == old(self)@.fd_inode(fd),
                inode_id < self.fs@.len(),
                start == old(self)@.read_start(fd, offset),
                data == old(self)@.fs[inode_id as int].data,
                bufs == old(dst)@,
                0 <= k <= bufs.len(),
                dst@.len() == bufs.len(),
                bufs_fit(data.len(), start as nat, bufs, k as int),
                cur_offset == buf_start(start as nat, bufs, k as int),
                *n_read == concat_bufs(bufs.take(k as int)).len(),
                bufs_filled(data, start as nat, bufs, dst@, k as int),
            decreases bufs.len() - k,
        {
            proof {
                lemma_concat_take(bufs, k as int);
            }
            let n_reading = dst[k].len();
            match self.fs.read(inode_id, cur_offset, n_reading) {
                Some(v) => {
                    dst[k] = v;
                },
                None => {
                    assert(!bufs_fit(data.len(), start as nat, bufs, k + 1));
                    proof {
                        lemma_concat_prefix_len(bufs, k as int + 1);
                    }
                    assert(!bufs_fit(data.len(), start as nat, bufs, bufs.len() as int)) by {
                        assert(bufs.take(bufs.len() as int) =~= bufs);
                    }
                    assert({
                        &&& 0 <= k < bufs.len()
                        &&& bufs_fit(data.len(), start as nat, bufs, k as int)
                        &&& !bufs_fit(data.len(), start as nat, bufs, k + 1)
                        &&& bufs_filled(data, start as nat, bufs, dst@, k as int)
                        &&& *n_read == concat_bufs(bufs.take(k as int)).len()
                    });
                    return ErrorNumber::EINVAL;
                },
            }
            cur_offset = cur_offset + n_reading;
            *n_read = *n_read + n_reading;
            k = k + 1;
        }
        assert(bufs.take(bufs.len() as int) =~= bufs);
        if offset.is_none() {
            let mut nd = self.descriptor(fd);
            nd.offset = cur_offset;
            self.file_descriptors.insert(fd, nd);
        }
        ErrorNumber::SUCCESS
    }

    /// Reports the entries of the directory that `dir_fd` refers to: entry
    /// `i` of the listing (each name once, in the order in which the
    /// directory stores them) goes to `dir_entries[i]`, for `i` from `cookie`
    /// up to the number of entries or of slots, whichever is smaller; that
    /// number is reported in `bufused`.
    pub fn read_dir(
        &mut self,
        dir_fd: FileDescriptorID,
        dir_entries: &mut [DirectoryEntry],
        cookie: usize,
        bufused: &mut usize,
    ) -> (r: ErrorNumber)
        requires
            old(self).wf(),
            old(self)@.fd_valid(dir_fd),
        ensures
            final(self).wf(),
            final(self)@ == old(self)@,
            r == ErrorNumber::SUCCESS,
            final(dir_entries)@.len() == old(dir_entries)@.len(),
            ({
                let names = old(self).fs.dir_names(old(self)@.fd_inode(dir_fd));
                let w = if names.len() <= old(dir_entries)@.len() { names.len() } else { old(dir_entries)@.len() };
                &&& is_listing(old(self)@.fs[old(self)@.fd_inode(dir_fd) as int].entries, names)
                &&& *final(bufused) == w
                &&& forall|i: int| 0 <= i < final(dir_entries)@.len() ==> if cookie <= i < w {
                    dir_entry_written(old(dir_entries)@[i], #[trigger] final(dir_entries)@[i], names[i], i)
                } else {
                    final(dir_entries)@[i] == old(dir_entries)@[i]
                }
            }),
    {
        let inode_id = self.descriptor(dir_fd).inode_id;
        let directories = self.fs.read_dir_from_inode(inode_id);
        let ghost names = directories@.map_values(|v: Vec<u8>| v@);
        let entries_writing = if directories.len() <= dir_entries.len() {
            directories.len()
        } else {
            dir_entries.len()
        };
        let mut i: usize = cookie;
        while i < entries_writing
            invariant
                entries_writing <= directories@.len(),
                entries_writing <= dir_entries@.len(),
                dir_entries@.len() == old(dir_entries)@.len(),
                cookie <= i,
                cookie <= entries_writing ==> i <= entries_writing,
                cookie > entries_writing ==> i == cookie,
                names == directories@.map_values(|v: Vec<u8>| v@),
                forall|j: int| 0 <= j < dir_entries@.len() ==> if cookie <= j < i {
                    dir_entry_written(old(dir_entries)@[j], #[trigger] dir_entries@[j], names[j], j)
                } else {
                    dir_entries@[j] == old(dir_entries)@[j]
                },
            decreases entries_writing - i,
        {
            let name = copy_bytes(directories[i].as_slice());
            let reclen = ((name.len() % 65536 + 19) % 65536) as u16;
            dir_entries[i].d_reclen = reclen;
            dir_entries[i].d_name = name;
            dir_entries[i].d_off = i as i64;
            i = i + 1;
        }
        *bufused = entries_writing;
        assert forall|j: int| 0 <= j < dir_entries@.len() implies if cookie <= j < entries_writing {
            dir_entry_written(old(dir_entries)@[j], #[trigger] dir_entries@[j], names[j], j)
        } else {
            dir_entries@[j] == old(dir_entries)@[j]
        } by {
            if cookie <= entries_writing {
                assert(i == entries_writing);
            }
        }
        ErrorNumber::SUCCESS
    }

    /// Makes `to_fd` refer to the inode of `from_fd`; rights and flags are
    /// preserved and not modified.
    pub fn renumber(&mut self, from_fd: FileDescriptorID, to_fd: FileDescriptorID) -> (r: ErrorNumber)
        requires
            old(self).wf(),
            old(self)@.has_fd(from_fd),
            old(self)@.has_fd(to_fd),
        ensures
            final(self).wf(),
            r == ErrorNumber::SUCCESS,
            final(self)@ == old(self)@.renumber(from_fd, to_fd),
    {
        let from = self.descriptor(from_fd);
        let mut to = self.descriptor(to_fd);
        to.inode_id = from.inode_id;
        self.file_descriptors.insert(to_fd, to);
        ErrorNumber::SUCCESS
    }
}

} // verus!
