//! Properties of the device that relate several requests, stated over the
//! spec functions that the requests' contracts use.

use vstd::prelude::*;
use crate::filesystem::{
    InodeView, simple_name, lemma_resolve_simple, resolve_path, read_range, written, lemma_read_written,
    mode_is_dir, DIRECTORY_MODE, FILE_MODE, S_IFLNK,
};
use crate::flags::{
    FdFlags, FdRights, FstFlags, FileOpenFlags, O_CREAT, O_EXCL, O_DIRECTORY, O_TMPFILE, O_TRUNC, O_WRONLY, O_RDWR,
    O_APPEND, FDFLAG_APPEND, FST_ATIM, FST_ATIM_NOW, FST_MTIM, FST_MTIM_NOW,
};
use crate::types::{ErrorNumber, FdFileType, FdStat, FileDescriptorID, INodeID, SeekWhence, SymlinkLookupFlags, Timestamp};
use crate::v9p::{P9State, rights_subset, concat_bufs, bufs_fit, bufs_filled};
use crate::paths::{
    locate, dir_part, keeps_dirs, is_dir_of, same_shape, lemma_locate_resolve, lemma_locate_simple, lemma_found_after_add,
    lemma_gone_after_removal, lemma_subset_keeps_dirs, lemma_resolve_keeps_dirs, lemma_resolve_same_shape,
    lemma_resolve_split, lemma_move_file_keeps_dirs, lemma_locate_keeps_dirs,
};

verus! {

/// Rights of a descriptor only ever shrink: whatever `fd_stat_set_rights`
/// answers, the rights afterwards are a subset of those before; a request
/// succeeds exactly when both sets asked for lie within the current ones
/// (each set on its own), and then they are exactly the ones asked for.
pub proof fn law_rights_never_grow(s: P9State, fd: FileDescriptorID, rights: FdRights, rights_inheriting: FdRights)
    requires
        s.wf(),
        s.has_fd(fd),
    ensures
        ({
            let (t, r) = s.fd_stat_set_rights(fd, rights, rights_inheriting);
            &&& t.has_fd(fd)
            &&& rights_subset(t.fds[fd].rights, s.fds[fd].rights)
            &&& rights_subset(t.fds[fd].rights_inheriting, s.fds[fd].rights_inheriting)
            &&& r == ErrorNumber::SUCCESS ==> t.fds[fd].rights == rights && t.fds[fd].rights_inheriting == rights_inheriting
            &&& (r == ErrorNumber::SUCCESS) <==> ((rights.bits | s.fds[fd].rights.bits) == s.fds[fd].rights.bits
                && (rights_inheriting.bits | s.fds[fd].rights_inheriting.bits) == s.fds[fd].rights_inheriting.bits)
            &&& r != ErrorNumber::SUCCESS ==> t == s
        }),
{
    let a = s.fds[fd].rights.bits;
    let b = s.fds[fd].rights_inheriting.bits;
    assert(a | a == a) by (bit_vector);
    assert(b | b == b) by (bit_vector);
}

/// A closed descriptor is gone: it is no longer open, and closing it again
/// answers `ENOENT`.
pub proof fn law_close_then_closed(s: P9State, fd: FileDescriptorID)
    requires
        s.wf(),
    ensures
        ({
            let (t, _) = s.close_fd(fd);
            &&& !t.has_fd(fd)
            &&& t.close_fd(fd).1 == ErrorNumber::ENOENT
            &&& t.get_fd(fd as i32) != Some(fd)
        }),
{
}

/// A descriptor made by `create_fd` is open under `next_fd` and reports the
/// flags and rights it was made with.
pub proof fn law_create_fd_then_stat(
    s: P9State,
    inode_id: INodeID,
    flags: FdFlags,
    rights: FdRights,
    rights_inheriting: FdRights,
)
    requires
        s.wf(),
        s.next_fd < usize::MAX,
    ensures
        ({
            let t = s.create_fd(inode_id, flags, rights, rights_inheriting);
            &&& t.wf()
            &&& t.has_fd(s.next_fd)
            &&& t.fd_stat(s.next_fd) == (FdStat {
                fs_filetype: s.filetype(inode_id),
                fs_flags: flags,
                fs_rights_base: rights,
                fs_rights_inheriting: rights_inheriting,
            })
        }),
{
    let t = s.create_fd(inode_id, flags, rights, rights_inheriting);
    assert forall|k: FileDescriptorID| #[trigger] t.fds.contains_key(k) implies {
        &&& k < t.next_fd
        &&& t.fds[k].fd == k
    } by {
        if k != s.next_fd {
            assert(s.fds.contains_key(k));
        }
    }
}

/// After a successful seek, `tell` answers the offset that the seek aimed at.
pub proof fn law_seek_then_tell(s: P9State, fd: FileDescriptorID, offset: i64, whence: SeekWhence)
    requires
        s.wf(),
        s.fd_valid(fd),
    ensures
        ({
            let (t, r) = s.seek(fd, offset, whence);
            r == ErrorNumber::SUCCESS ==> {
                &&& t.tell(fd) == ErrorNumber::SUCCESS
                &&& t.fds[fd].offset == s.seek_target(fd, offset, whence) as usize
            }
        }),
{
    let (t, r) = s.seek(fd, offset, whence);
    if r == ErrorNumber::SUCCESS {
        assert(t.fs == s.fs);
        assert(t.fd_inode(fd) == s.fd_inode(fd));
    }
}

/// After resizing a regular file, its status reports the new size.
pub proof fn law_set_size_then_stat(s: P9State, fd: FileDescriptorID, size: usize)
    requires
        s.wf(),
        s.fd_valid(fd),
        s.fd_is_file(fd),
    ensures
        ({
            let (t, r) = s.file_stat_set_size(fd, size);
            &&& r == ErrorNumber::SUCCESS
            &&& t.file_stat(t.fd_inode(fd)).size == size as u64
        }),
{
    let id = s.fd_inode(fd);
    let (t, r) = s.file_stat_set_size(fd, size);
    assert(t.filetype(id) == s.filetype(id));
}

/// Setting times: the access time becomes `now` with `FST_ATIM_NOW`, else
/// `atim` with `FST_ATIM`, else stays; likewise the modification time; all
/// other attributes stay.
pub proof fn law_set_times_then_stat(
    s: P9State,
    id: INodeID,
    atim: Timestamp,
    mtim: Timestamp,
    fst_flags: FstFlags,
    now: Timestamp,
)
    requires
        s.wf(),
        id < s.fs.len(),
    ensures
        ({
            let t = s.set_times_at(id, atim, mtim, fst_flags, now);
            let before = s.file_stat(id);
            let after = t.file_stat(id);
            &&& after.atim == if fst_flags.spec_contains(FstFlags { bits: FST_ATIM_NOW }) {
                now
            } else if fst_flags.spec_contains(FstFlags { bits: FST_ATIM }) {
                atim
            } else {
                before.atim
            }
            &&& after.mtim == if fst_flags.spec_contains(FstFlags { bits: FST_MTIM_NOW }) {
                now
            } else if fst_flags.spec_contains(FstFlags { bits: FST_MTIM }) {
                mtim
            } else {
                before.mtim
            }
            &&& after.size == before.size
            &&& after.nlink == before.nlink
            &&& after.ctim == before.ctim
            &&& after.filetype == before.filetype
        }),
{
}

/// Bytes written with `write_vec` read back as written. Outside append
/// mode the write starts at `offset` when given, else at the descriptor's
/// offset; the file then holds the bytes of all buffers, one after the
/// other, from there on; without an explicit offset the descriptor's offset
/// moves past them, and with one the descriptor stays as it was; and a
/// `read_vec` from that start into one buffer as long as what was written
/// fits in the file and fills that buffer with exactly those bytes.
pub proof fn law_write_then_read(
    s: P9State,
    fd: FileDescriptorID,
    bufs: Seq<Vec<u8>>,
    offset: Option<usize>,
    dst: Seq<Vec<u8>>,
    out: Seq<Vec<u8>>,
)
    requires
        s.wf(),
        s.fd_valid(fd),
        !s.fds[fd].flags.spec_contains(FdFlags { bits: FDFLAG_APPEND }),
        bufs.len() > 0,
        s.write_start(fd, offset) + concat_bufs(bufs).len() <= usize::MAX,
        dst.len() == 1,
        dst[0]@.len() == concat_bufs(bufs).len(),
    ensures
        ({
            let t = s.write_vec(fd, bufs, offset);
            let all = concat_bufs(bufs);
            let start: usize = match offset {
                Some(o) => o,
                None => s.fds[fd].offset,
            };
            let data = t.fs[t.fd_inode(fd) as int].data;
            &&& s.write_start(fd, offset) == start
            &&& t.wf()
            &&& t.fd_valid(fd)
            &&& t.fd_inode(fd) == s.fd_inode(fd)
            &&& read_range(data, start as nat, all.len()) == Some(all)
            &&& offset is None ==> t.fds[fd].offset == start + all.len()
            &&& offset is Some ==> t.fds[fd] == s.fds[fd]
            &&& t.read_start(fd, Some(start)) == start
            &&& bufs_fit(data.len(), start as nat, dst, 1)
            &&& bufs_filled(data, start as nat, dst, out, 1) ==> out[0]@ == all
        }),
{
    let id = s.fd_inode(fd);
    let t = s.write_vec(fd, bufs, offset);
    let all = concat_bufs(bufs);
    let start: usize = match offset {
        Some(o) => o,
        None => s.fds[fd].offset,
    };
    lemma_read_written(s.fs[id as int].data, start as nat, all);
    assert(dst.take(1).drop_last() =~= Seq::<Vec<u8>>::empty());
    assert(dst.take(0) =~= Seq::<Vec<u8>>::empty());
    assert(concat_bufs(Seq::<Vec<u8>>::empty()) =~= Seq::<u8>::empty());
    assert(dst.take(1).last() == dst[0]);
    assert(concat_bufs(dst.take(1)) =~= Seq::<u8>::empty() + dst[0]@);
    assert(Seq::<u8>::empty() + dst[0]@ =~= dst[0]@);
    assert(t.fs.len() == s.fs.len());
    assert forall|k: FileDescriptorID| #[trigger] t.fds.contains_key(k) implies {
        &&& k < t.next_fd
        &&& t.fds[k].fd == k
    } by {
        assert(s.fds.contains_key(k));
    }
    assert(crate::filesystem::fs_wf(t.fs)) by {
        assert forall|i: int| 0 <= i < t.fs.len() implies #[trigger] t.fs[i].parent < t.fs.len() by {
            assert(s.fs[i].parent == t.fs[i].parent);
        }
        assert forall|i: int, n: Seq<u8>| 0 <= i < t.fs.len() && #[trigger] t.fs[i].entries.contains_key(n)
            implies t.fs[i].entries[n] < t.fs.len() by {
            assert(s.fs[i].entries == t.fs[i].entries);
        }
    }
}

/// In append mode a write without an explicit offset goes to the end of the
/// file, wherever the descriptor's offset stands: the file then holds its
/// old contents followed by the bytes of all buffers, and the descriptor's
/// offset is past them.
pub proof fn law_append_write(s: P9State, fd: FileDescriptorID, bufs: Seq<Vec<u8>>)
    requires
        s.wf(),
        s.fd_valid(fd),
        s.fds[fd].flags.spec_contains(FdFlags { bits: FDFLAG_APPEND }),
        bufs.len() > 0,
        s.fs[s.fd_inode(fd) as int].data.len() + concat_bufs(bufs).len() <= usize::MAX,
    ensures
        ({
            let t = s.write_vec(fd, bufs, None);
            let old_data = s.fs[s.fd_inode(fd) as int].data;
            &&& t.fs[s.fd_inode(fd) as int].data == old_data + concat_bufs(bufs)
            &&& t.fds[fd].offset == old_data.len() + concat_bufs(bufs).len()
        }),
{
    let id = s.fd_inode(fd);
    let d = s.fs[id as int].data;
    let all = concat_bufs(bufs);
    let p = crate::filesystem::padded(d, d.len() + all.len());
    assert(p =~= d + Seq::new(all.len(), |i: int| 0u8));
    assert(written(d, d.len(), all) =~= d + all);
}

/// A directory made with `create_directory` is found afterwards by looking
/// up the same path, and is a directory; this holds where the path stands
/// for a directory and a name (see `locate`), and either the name is new
/// there or the path is a simple name.
pub proof fn law_create_directory_then_lookup(s: P9State, fd: FileDescriptorID, path: Seq<u8>)
    requires
        s.wf(),
        s.fd_valid(fd),
        s.fd_is_dir(fd),
        locate(s.fs, s.fd_inode(fd), path) is Ok,
        resolve_path(s.fs, s.fd_inode(fd), path) is None || simple_name(path),
    ensures
        ({
            let (t, r) = s.create_directory(fd, path);
            &&& r == ErrorNumber::SUCCESS
            &&& t.lookup_path(fd, SymlinkLookupFlags::NoFollow, path) == Some(s.fs.len() as INodeID)
            &&& t.filetype(s.fs.len() as INodeID) == FdFileType::Directory
        }),
{
    let p = s.fd_inode(fd);
    let (d, name) = locate(s.fs, p, path)->Ok_0;
    lemma_locate_resolve(s.fs, p, path);
    lemma_found_after_add(s.fs, p, path, crate::filesystem::new_directory_view(d, name));
    let (t, r) = s.create_directory(fd, path);
    assert(t.fs[p as int].mode == s.fs[p as int].mode);
    assert(mode_is_dir(DIRECTORY_MODE)) by (bit_vector);
}

/// Opening a path with `O_CREAT | O_EXCL` either finds it taken (`EEXIST`,
/// nothing changes) or, where the path stands for a directory and a name
/// (see `locate`), creates it and opens it under `next_fd`; after that, the
/// path is found, and a second such open answers `EEXIST`.
pub proof fn law_open_exclusive(
    s: P9State,
    fd: FileDescriptorID,
    path: Seq<u8>,
    oflags: FileOpenFlags,
    rights_base: FdRights,
    rights_inheriting: FdRights,
    fdflags: FdFlags,
)
    requires
        s.wf(),
        s.fd_valid(fd),
        s.fd_is_dir(fd),
        locate(s.fs, s.fd_inode(fd), path) is Ok,
        oflags.spec_contains(FileOpenFlags { bits: O_CREAT }),
        oflags.spec_contains(FileOpenFlags { bits: O_EXCL }),
        s.next_fd < usize::MAX,
    ensures
        ({
            let (t, r) = s.path_open(fd, SymlinkLookupFlags::NoFollow, path, oflags, rights_base, rights_inheriting, fdflags);
            &&& s.lookup_path(fd, SymlinkLookupFlags::NoFollow, path) is Some ==> r == ErrorNumber::EEXIST && t == s
            &&& s.lookup_path(fd, SymlinkLookupFlags::NoFollow, path) is None ==> {
                &&& r == ErrorNumber::SUCCESS
                &&& t.lookup_path(fd, SymlinkLookupFlags::NoFollow, path) == Some(s.fs.len() as INodeID)
                &&& t.has_fd(s.next_fd)
                &&& t.fds[s.next_fd].inode_id == s.fs.len()
                &&& t.path_open(fd, SymlinkLookupFlags::NoFollow, path, oflags, rights_base, rights_inheriting, fdflags).1
                    == ErrorNumber::EEXIST
            }
        }),
{
    let (t, r) = s.path_open(fd, SymlinkLookupFlags::NoFollow, path, oflags, rights_base, rights_inheriting, fdflags);
    let p = s.fd_inode(fd);
    assert(p < s.fs.len());
    if s.lookup_path(fd, SymlinkLookupFlags::NoFollow, path) is None {
        let (d, name) = locate(s.fs, p, path)->Ok_0;
        let id = s.fs.len() as INodeID;
        let node = if oflags.spec_contains(FileOpenFlags { bits: crate::flags::O_DIRECTORY }) {
            crate::filesystem::new_directory_view(d, name)
        } else {
            crate::filesystem::new_file_view(d, name)
        };
        lemma_locate_resolve(s.fs, p, path);
        lemma_found_after_add(s.fs, p, path, node);
        let s1 = s.with_fs(crate::filesystem::add_inode(s.fs, d, name, node));
        assert(same_shape(s1.fs, t.fs));
        lemma_resolve_same_shape(s1.fs, t.fs, p, path);
        assert(t.fs[p as int].mode == s.fs[p as int].mode);
        assert(t.fds[fd] == s.fds[fd]);
        assert(t.fd_is_dir(fd));
        assert(t.fs[id as int].mode == node.mode);
    }
}


/// Opening with `O_CREAT` a path that finds nothing, where the path stands
/// for a directory and a name (see `locate`), creates a new inode (a
/// directory with `O_DIRECTORY`, else a regular file) and opens it under
/// `next_fd`, with the base and inheriting rights given; the path then
/// finds that inode.
pub proof fn law_open_create_then_lookup(
    s: P9State,
    fd: FileDescriptorID,
    flags: SymlinkLookupFlags,
    path: Seq<u8>,
    oflags: FileOpenFlags,
    rights_base: FdRights,
    rights_inheriting: FdRights,
    fdflags: FdFlags,
)
    requires
        s.wf(),
        s.fd_valid(fd),
        s.fd_is_dir(fd),
        locate(s.fs, s.fd_inode(fd), path) is Ok,
        resolve_path(s.fs, s.fd_inode(fd), path) is None,
        oflags.spec_contains(FileOpenFlags { bits: O_CREAT }),
        s.next_fd < usize::MAX,
    ensures
        ({
            let (t, r) = s.path_open(fd, flags, path, oflags, rights_base, rights_inheriting, fdflags);
            let id = s.fs.len() as INodeID;
            &&& r == ErrorNumber::SUCCESS
            &&& resolve_path(t.fs, s.fd_inode(fd), path) == Some(id)
            &&& t.has_fd(s.next_fd)
            &&& t.fds[s.next_fd].inode_id == id
            &&& t.fds[s.next_fd].rights == rights_base
            &&& t.fds[s.next_fd].rights_inheriting == rights_inheriting
            &&& t.fds[s.next_fd].fd == s.next_fd
            &&& t.next_fd == s.next_fd + 1
            &&& t.filetype(id) == if oflags.spec_contains(FileOpenFlags { bits: O_DIRECTORY }) {
                FdFileType::Directory
            } else {
                FdFileType::RegularFile
            }
        }),
{
    let (t, r) = s.path_open(fd, flags, path, oflags, rights_base, rights_inheriting, fdflags);
    let p = s.fd_inode(fd);
    let (d, name) = locate(s.fs, p, path)->Ok_0;
    let id = s.fs.len() as INodeID;
    let node = if oflags.spec_contains(FileOpenFlags { bits: crate::flags::O_DIRECTORY }) {
        crate::filesystem::new_directory_view(d, name)
    } else {
        crate::filesystem::new_file_view(d, name)
    };
    lemma_locate_resolve(s.fs, p, path);
    lemma_found_after_add(s.fs, p, path, node);
    let s1 = s.with_fs(crate::filesystem::add_inode(s.fs, d, name, node));
    assert(same_shape(s1.fs, t.fs));
    lemma_resolve_same_shape(s1.fs, t.fs, p, path);
    assert(t.fs[id as int].mode == node.mode);
    assert(mode_is_dir(DIRECTORY_MODE)) by (bit_vector);
    assert(!mode_is_dir(FILE_MODE)) by (bit_vector);
    assert(FILE_MODE != S_IFLNK);
}

/// A symbolic link made with `symlink` reads back, with `path_read_link`,
/// as the target it was made with; this holds where the path stands for a
/// directory and a name (see `locate`), and either the name is new there or
/// the path is a simple name.
pub proof fn law_symlink_then_read_link(s: P9State, fd: FileDescriptorID, target: Seq<u8>, path: Seq<u8>)
    requires
        s.wf(),
        s.fd_valid(fd),
        s.fd_is_dir(fd),
        locate(s.fs, s.fd_inode(fd), path) is Ok,
        resolve_path(s.fs, s.fd_inode(fd), path) is None || simple_name(path),
    ensures
        ({
            let (t, r) = s.symlink(fd, target, path);
            &&& r == ErrorNumber::SUCCESS
            &&& t.read_link(fd, path) == Ok::<Seq<u8>, ErrorNumber>(target)
        }),
{
    let p = s.fd_inode(fd);
    let (d, name) = locate(s.fs, p, path)->Ok_0;
    lemma_locate_resolve(s.fs, p, path);
    lemma_found_after_add(s.fs, p, path, crate::filesystem::new_symlink_view(d, name, target));
    let (t, r) = s.symlink(fd, target, path);
    assert(t.fs[p as int].mode == s.fs[p as int].mode);
}

/// After a successful move of an entry to a simple name, the new name finds
/// the moved inode, and the old name (if it differs) finds nothing.
pub proof fn law_rename_then_lookup(
    s: P9State,
    old_fd: FileDescriptorID,
    old_name: Seq<u8>,
    new_fd: FileDescriptorID,
    new_name: Seq<u8>,
    id: INodeID,
)
    requires
        s.wf(),
        s.fd_valid(old_fd),
        s.fd_valid(new_fd),
        s.fd_is_dir(old_fd),
        s.fd_is_dir(new_fd),
        simple_name(old_name),
        simple_name(new_name),
        resolve_path(s.fs, s.fd_inode(old_fd), old_name) == Some(id),
    ensures
        ({
            let (t, r) = s.rename(old_fd, old_name, new_fd, new_name);
            let op = s.fd_inode(old_fd);
            let np = s.fd_inode(new_fd);
            &&& r == ErrorNumber::SUCCESS
            &&& resolve_path(t.fs, np, new_name) == Some(id)
            &&& (op != np || old_name != new_name) ==> resolve_path(t.fs, op, old_name) is None
        }),
{
    let op = s.fd_inode(old_fd);
    let np = s.fd_inode(new_fd);
    assert(op < s.fs.len() && np < s.fs.len());
    lemma_locate_simple(s.fs, op, old_name);
    lemma_locate_simple(s.fs, np, new_name);
    lemma_resolve_simple(s.fs, op, old_name);
    let (t, r) = s.rename(old_fd, old_name, new_fd, new_name);
    let fs1 = crate::filesystem::set_entry(crate::filesystem::remove_entry(s.fs, op, old_name), np, new_name, id);
    assert(t.fs == fs1.update(id as int, InodeView { parent: np, name: new_name, ..fs1[id as int] }));
    assert(t.fs[np as int].mode == s.fs[np as int].mode);
    assert(t.fs[op as int].mode == s.fs[op as int].mode);
    assert(t.fs[np as int].entries == fs1[np as int].entries);
    assert(t.fs[op as int].entries == fs1[op as int].entries);
    lemma_resolve_simple(t.fs, np, new_name);
    lemma_resolve_simple(t.fs, op, old_name);
}

/// Moving a file that is not a directory to a name that is new in its
/// directory: the new path then finds the file, and the old path finds
/// nothing.
pub proof fn law_rename_file_then_lookup(
    s: P9State,
    old_fd: FileDescriptorID,
    old_path: Seq<u8>,
    new_fd: FileDescriptorID,
    new_path: Seq<u8>,
    id: INodeID,
)
    requires
        s.wf(),
        s.fd_valid(old_fd),
        s.fd_valid(new_fd),
        s.fd_is_dir(old_fd),
        s.fd_is_dir(new_fd),
        locate(s.fs, s.fd_inode(old_fd), old_path) is Ok,
        locate(s.fs, s.fd_inode(new_fd), new_path) is Ok,
        resolve_path(s.fs, s.fd_inode(old_fd), old_path) == Some(id),
        s.filetype(id) != FdFileType::Directory,
        resolve_path(s.fs, s.fd_inode(new_fd), new_path) is None,
    ensures
        ({
            let (t, r) = s.rename(old_fd, old_path, new_fd, new_path);
            &&& r == ErrorNumber::SUCCESS
            &&& resolve_path(t.fs, s.fd_inode(new_fd), new_path) == Some(id)
            &&& resolve_path(t.fs, s.fd_inode(old_fd), old_path) is None
        }),
{
    let op = s.fd_inode(old_fd);
    let np = s.fd_inode(new_fd);
    let (od, on) = locate(s.fs, op, old_path)->Ok_0;
    let (nd, nn) = locate(s.fs, np, new_path)->Ok_0;
    lemma_locate_resolve(s.fs, op, old_path);
    lemma_locate_resolve(s.fs, np, new_path);
    let (t, r) = s.rename(old_fd, old_path, new_fd, new_path);
    lemma_move_file_keeps_dirs(s.fs, od, on, nd, nn);
    lemma_locate_keeps_dirs(s.fs, t.fs, np, new_path);
    lemma_locate_resolve(t.fs, np, new_path);
    lemma_gone_after_removal(s.fs, t.fs, op, old_path);
}

/// Moving a file that is not a directory to a path that is new, and then
/// back: the second move succeeds too, and afterwards the old path finds
/// the file again and the new path finds nothing.
pub proof fn law_rename_file_then_back(
    s: P9State,
    old_fd: FileDescriptorID,
    old_path: Seq<u8>,
    new_fd: FileDescriptorID,
    new_path: Seq<u8>,
    id: INodeID,
)
    requires
        s.wf(),
        s.fd_valid(old_fd),
        s.fd_valid(new_fd),
        s.fd_is_dir(old_fd),
        s.fd_is_dir(new_fd),
        locate(s.fs, s.fd_inode(old_fd), old_path) is Ok,
        locate(s.fs, s.fd_inode(new_fd), new_path) is Ok,
        resolve_path(s.fs, s.fd_inode(old_fd), old_path) == Some(id),
        s.filetype(id) != FdFileType::Directory,
        resolve_path(s.fs, s.fd_inode(new_fd), new_path) is None,
    ensures
        ({
            let (t, r) = s.rename(old_fd, old_path, new_fd, new_path);
            let (u, r2) = t.rename(new_fd, new_path, old_fd, old_path);
            &&& r == ErrorNumber::SUCCESS
            &&& r2 == ErrorNumber::SUCCESS
            &&& resolve_path(u.fs, s.fd_inode(old_fd), old_path) == Some(id)
            &&& resolve_path(u.fs, s.fd_inode(new_fd), new_path) is None
        }),
{
    let op = s.fd_inode(old_fd);
    let np = s.fd_inode(new_fd);
    let (od, on) = locate(s.fs, op, old_path)->Ok_0;
    let (nd, nn) = locate(s.fs, np, new_path)->Ok_0;
    lemma_locate_resolve(s.fs, op, old_path);
    lemma_locate_resolve(s.fs, np, new_path);
    let (t, r) = s.rename(old_fd, old_path, new_fd, new_path);
    lemma_move_file_keeps_dirs(s.fs, od, on, nd, nn);
    lemma_locate_keeps_dirs(s.fs, t.fs, np, new_path);
    lemma_locate_keeps_dirs(s.fs, t.fs, op, old_path);
    assert(t.fs[id as int].mode == s.fs[id as int].mode);
    assert(t.fs[op as int].mode == s.fs[op as int].mode);
    assert(t.fs[np as int].mode == s.fs[np as int].mode);
    let (u, r2) = t.rename(new_fd, new_path, old_fd, old_path);
    lemma_move_file_keeps_dirs(t.fs, nd, nn, od, on);
    lemma_locate_keeps_dirs(t.fs, u.fs, op, old_path);
    lemma_locate_resolve(u.fs, op, old_path);
    lemma_gone_after_removal(t.fs, u.fs, np, new_path);
}

/// After a regular file is unlinked, its path finds nothing.
pub proof fn law_unlink_file_then_gone(s: P9State, fd: FileDescriptorID, path: Seq<u8>, id: INodeID)
    requires
        s.wf(),
        s.fd_valid(fd),
        s.fd_is_dir(fd),
        locate(s.fs, s.fd_inode(fd), path) is Ok,
        resolve_path(s.fs, s.fd_inode(fd), path) == Some(id),
        s.filetype(id) == FdFileType::RegularFile,
    ensures
        ({
            let (t, r) = s.path_unlink_file(fd, path);
            &&& r == ErrorNumber::SUCCESS
            &&& resolve_path(t.fs, s.fd_inode(fd), path) is None
        }),
{
    let p = s.fd_inode(fd);
    let (d, name) = locate(s.fs, p, path)->Ok_0;
    lemma_locate_resolve(s.fs, p, path);
    let (t, r) = s.path_unlink_file(fd, path);
    let fs1 = crate::filesystem::remove_entry(s.fs, d, name);
    assert(id != d);
    assert(t.fs == fs1.update(id as int, InodeView { nlinks: crate::filesystem::sat_dec(fs1[id as int].nlinks), ..fs1[id as int] }));
    lemma_subset_keeps_dirs(t.fs, s.fs);
    lemma_gone_after_removal(s.fs, t.fs, p, path);
}

/// After a directory is unlinked, its path finds nothing.
pub proof fn law_unlink_dir_then_gone(s: P9State, fd: FileDescriptorID, path: Seq<u8>, id: INodeID)
    requires
        s.wf(),
        s.fd_valid(fd),
        s.fd_is_dir(fd),
        locate(s.fs, s.fd_inode(fd), path) is Ok,
        resolve_path(s.fs, s.fd_inode(fd), path) == Some(id),
        s.filetype(id) == FdFileType::Directory,
    ensures
        ({
            let (t, r) = s.path_unlink_dir(fd, path);
            &&& r == ErrorNumber::SUCCESS
            &&& resolve_path(t.fs, s.fd_inode(fd), path) is None
        }),
{
    let p = s.fd_inode(fd);
    let (d, name) = locate(s.fs, p, path)->Ok_0;
    lemma_locate_resolve(s.fs, p, path);
    let (t, r) = s.path_unlink_dir(fd, path);
    lemma_subset_keeps_dirs(t.fs, s.fs);
    lemma_gone_after_removal(s.fs, t.fs, p, path);
}

/// Linking a file that is not a directory under a path that is new makes
/// that path find the file.
pub proof fn law_link_then_lookup(
    s: P9State,
    old_fd: FileDescriptorID,
    flags: SymlinkLookupFlags,
    old_path: Seq<u8>,
    new_fd: FileDescriptorID,
    new_path: Seq<u8>,
    id: INodeID,
)
    requires
        s.wf(),
        s.fd_valid(old_fd),
        s.fd_valid(new_fd),
        s.fd_is_dir(new_fd),
        s.lookup_path(old_fd, flags, old_path) == Some(id),
        s.filetype(id) != FdFileType::Directory,
        locate(s.fs, s.fd_inode(new_fd), new_path) is Ok,
        resolve_path(s.fs, s.fd_inode(new_fd), new_path) is None,
    ensures
        ({
            let (t, r) = s.link(old_fd, flags, old_path, new_fd, new_path);
            &&& r == ErrorNumber::SUCCESS
            &&& resolve_path(t.fs, s.fd_inode(new_fd), new_path) == Some(id)
        }),
{
    let op = s.fd_inode(old_fd);
    let np = s.fd_inode(new_fd);
    let (d, name) = locate(s.fs, np, new_path)->Ok_0;
    lemma_locate_resolve(s.fs, np, new_path);
    crate::filesystem::lemma_resolve_valid(s.fs, op, old_path);
    if let Some(l) = resolve_path(s.fs, op, old_path) {
        crate::filesystem::lemma_resolve_valid(s.fs, op, s.fs[l as int].symlink);
    }
    assert(id < s.fs.len());
    let (t, r) = s.link(old_fd, flags, old_path, new_fd, new_path);
    assert(!mode_is_dir(s.fs[id as int].mode));
    lemma_subset_keeps_dirs(s.fs, t.fs);
    lemma_resolve_split(s.fs, np, new_path);
    lemma_resolve_split(t.fs, np, new_path);
    lemma_resolve_keeps_dirs(s.fs, t.fs, np, dir_part(new_path));
    assert(t.fs[d as int].mode == s.fs[d as int].mode);
}


/// Opening a file that exists (and that no flag forbids opening) succeeds
/// with a new descriptor `next_fd` on it, with the flags and rights given
/// (and in append mode with `O_APPEND`).
/// Opened for writing with `O_TRUNC`, a regular file is emptied and the
/// offset is 0; otherwise with `O_APPEND` the offset is the file's size;
/// otherwise the offset is 0 and the file system is unchanged.
pub proof fn law_open_existing(
    s: P9State,
    fd: FileDescriptorID,
    flags: SymlinkLookupFlags,
    path: Seq<u8>,
    oflags: FileOpenFlags,
    rights_base: FdRights,
    rights_inheriting: FdRights,
    fdflags: FdFlags,
    id: INodeID,
)
    requires
        s.wf(),
        s.fd_valid(fd),
        s.fd_is_dir(fd),
        s.next_fd < usize::MAX,
        s.lookup_path(fd, flags, path) == Some(id),
        !(oflags.spec_contains(FileOpenFlags { bits: O_EXCL }) && oflags.spec_contains(FileOpenFlags { bits: O_CREAT })),
        !(oflags.spec_contains(FileOpenFlags { bits: O_DIRECTORY }) && s.filetype(id) != FdFileType::Directory),
        !oflags.spec_contains(FileOpenFlags { bits: O_TMPFILE }),
    ensures
        ({
            let (t, r) = s.path_open(fd, flags, path, oflags, rights_base, rights_inheriting, fdflags);
            let new_fd = s.next_fd;
            let writing = oflags.spec_contains(FileOpenFlags { bits: O_WRONLY }) || oflags.spec_contains(
                FileOpenFlags { bits: O_RDWR },
            );
            let truncating = oflags.spec_contains(FileOpenFlags { bits: O_TRUNC }) && writing;
            &&& r == ErrorNumber::SUCCESS
            &&& t.has_fd(new_fd)
            &&& t.fds[new_fd].inode_id == id
            &&& t.fds[new_fd].flags == P9State::open_fdflags(oflags, fdflags)
            &&& oflags.spec_contains(FileOpenFlags { bits: O_APPEND }) ==> t.fds[new_fd].flags.spec_contains(
                FdFlags { bits: FDFLAG_APPEND },
            )
            &&& !oflags.spec_contains(FileOpenFlags { bits: O_APPEND }) ==> t.fds[new_fd].flags == fdflags
            &&& t.fds[new_fd].rights == rights_base
            &&& t.fds[new_fd].rights_inheriting == rights_inheriting
            &&& truncating && s.filetype(id) == FdFileType::RegularFile ==> t.fs[id as int].data.len() == 0
                && t.fds[new_fd].offset == 0
            &&& !truncating && oflags.spec_contains(FileOpenFlags { bits: O_APPEND }) ==> t.fds[new_fd].offset
                == s.fs[id as int].data.len() as usize
            &&& !truncating && !oflags.spec_contains(FileOpenFlags { bits: O_APPEND }) ==> t.fds[new_fd].offset == 0
                && t.fs == s.fs
        }),
{
    let p = s.fd_inode(fd);
    assert(p < s.fs.len());
    crate::filesystem::lemma_resolve_valid(s.fs, p, path);
    if let Some(l) = resolve_path(s.fs, p, path) {
        crate::filesystem::lemma_resolve_valid(s.fs, p, s.fs[l as int].symlink);
    }
    assert(id < s.fs.len());
    let b = fdflags.bits;
    assert((b | 1u16) & 1u16 == 1u16) by (bit_vector);
    let s1 = s.create_fd(id, P9State::open_fdflags(oflags, fdflags), rights_base, rights_inheriting);
    assert(s1.fd_inode(s.next_fd) == id);
    assert(s1.filetype(id) == s.filetype(id));
}


/// `renumber` makes `to_fd` refer to the inode of `from_fd`; its rights,
/// flags and offset are preserved and not modified, and no other descriptor
/// changes.
pub proof fn law_renumber_keeps_rights(s: P9State, from_fd: FileDescriptorID, to_fd: FileDescriptorID)
    requires
        s.wf(),
        s.has_fd(from_fd),
        s.has_fd(to_fd),
    ensures
        ({
            let t = s.renumber(from_fd, to_fd);
            &&& t.wf()
            &&& t.fds[to_fd].inode_id == s.fds[from_fd].inode_id
            &&& t.fds[to_fd].rights == s.fds[to_fd].rights
            &&& t.fds[to_fd].rights_inheriting == s.fds[to_fd].rights_inheriting
            &&& t.fds[to_fd].flags == s.fds[to_fd].flags
            &&& t.fds[to_fd].offset == s.fds[to_fd].offset
            &&& forall|k: FileDescriptorID| k != to_fd ==> t.fds.contains_key(k) == s.fds.contains_key(k) && (
            s.fds.contains_key(k) ==> t.fds[k] == s.fds[k])
        }),
{
    let t = s.renumber(from_fd, to_fd);
    assert forall|k: FileDescriptorID| #[trigger] t.fds.contains_key(k) implies {
        &&& k < t.next_fd
        &&& t.fds[k].fd == k
    } by {
        assert(s.fds.contains_key(k));
    }
}


/// A read without an explicit offset moves the descriptor's offset past
/// everything read, that is by the total length of all the buffers; with an
/// explicit offset the descriptor stays. Nothing else changes.
pub proof fn law_read_moves_offset(s: P9State, fd: FileDescriptorID, bufs: Seq<Vec<u8>>, offset: usize)
    requires
        s.wf(),
        s.fd_valid(fd),
        s.fds[fd].offset + concat_bufs(bufs).len() <= usize::MAX,
    ensures
        ({
            let t = s.read_vec_state(fd, bufs, None);
            &&& t.fds[fd].offset == s.fds[fd].offset + concat_bufs(bufs).len()
            &&& t.fds[fd].inode_id == s.fds[fd].inode_id
            &&& t.fds[fd].rights == s.fds[fd].rights
            &&& t.fds[fd].rights_inheriting == s.fds[fd].rights_inheriting
            &&& t.fds[fd].flags == s.fds[fd].flags
            &&& t.fds[fd].fd == s.fds[fd].fd
            &&& t.fs == s.fs
            &&& t.next_fd == s.next_fd
            &&& forall|k: FileDescriptorID| k != fd ==> t.fds.contains_key(k) == s.fds.contains_key(k) && (
                s.fds.contains_key(k) ==> t.fds[k] == s.fds[k])
        }),
        s.read_vec_state(fd, bufs, Some(offset)) == s,
{
}

/// Two reads without explicit offsets go on where the one before stopped:
/// the offset moves by the length of the first buffers and then by that of
/// the second, as one read of all the buffers would move it.
pub proof fn law_reads_add_up(s: P9State, fd: FileDescriptorID, first: Seq<Vec<u8>>, second: Seq<Vec<u8>>)
    requires
        s.wf(),
        s.fd_valid(fd),
        s.fds[fd].offset + concat_bufs(first).len() + concat_bufs(second).len() <= usize::MAX,
    ensures
        ({
            let t = s.read_vec_state(fd, first, None);
            let u = t.read_vec_state(fd, second, None);
            &&& u.fds[fd].offset == s.fds[fd].offset + concat_bufs(first).len() + concat_bufs(second).len()
            &&& u.fds[fd].offset == s.read_vec_state(fd, first + second, None).fds[fd].offset
        }),
{
    lemma_concat_append(first, second);
}

/// `concat_bufs` of two lists of buffers one after the other is the bytes
/// of the first list followed by those of the second.
pub proof fn lemma_concat_append(a: Seq<Vec<u8>>, b: Seq<Vec<u8>>)
    ensures
        concat_bufs(a + b) == concat_bufs(a) + concat_bufs(b),
    decreases b.len(),
{
    if b.len() == 0 {
        assert(a + b =~= a);
        assert(concat_bufs(b) =~= Seq::<u8>::empty());
        assert(concat_bufs(a) + concat_bufs(b) =~= concat_bufs(a));
    } else {
        assert((a + b).drop_last() =~= a + b.drop_last());
        assert((a + b).last() == b.last());
        lemma_concat_append(a, b.drop_last());
        assert(concat_bufs(a + b) =~= concat_bufs(a) + concat_bufs(b));
    }
}

/// Looking a path up without following links is the plain walk from the
/// directory; following links differs only where the walk ends at a
/// symbolic link, and then gives what looking up the link's target (from
/// the same directory, without following) gives, nothing when the target
/// names nothing.
pub proof fn law_follow_reads_the_link(s: P9State, fd: FileDescriptorID, path: Seq<u8>)
    requires
        s.wf(),
        s.fd_valid(fd),
        s.fd_is_dir(fd),
    ensures
        s.lookup_path(fd, SymlinkLookupFlags::NoFollow, path) == resolve_path(s.fs, s.fd_inode(fd), path),
        s.lookup_path(fd, SymlinkLookupFlags::NoFollow, path) is None ==> s.lookup_path(
            fd,
            SymlinkLookupFlags::Follow,
            path,
        ) is None,
        s.lookup_path(fd, SymlinkLookupFlags::NoFollow, path) matches Some(l) ==> {
            &&& s.filetype(l) == FdFileType::SymbolicLink ==> s.lookup_path(fd, SymlinkLookupFlags::Follow, path)
                == s.lookup_path(fd, SymlinkLookupFlags::NoFollow, s.fs[l as int].symlink)
            &&& s.filetype(l) != FdFileType::SymbolicLink ==> s.lookup_path(fd, SymlinkLookupFlags::Follow, path)
                == Some(l)
        },
{
    let p = s.fd_inode(fd);
    crate::filesystem::lemma_resolve_valid(s.fs, p, path);
    assert(!mode_is_dir(S_IFLNK)) by (bit_vector);
}

/// A successful link of a file adds one to the number of links that its
/// status reports (short of the largest count), and a successful unlink of
/// a regular file takes one away (down to none).
pub proof fn law_link_counts(
    s: P9State,
    old_fd: FileDescriptorID,
    flags: SymlinkLookupFlags,
    old_path: Seq<u8>,
    new_fd: FileDescriptorID,
    new_path: Seq<u8>,
    id: INodeID,
)
    requires
        s.wf(),
        s.fd_valid(old_fd),
        s.fd_valid(new_fd),
        s.fd_is_dir(new_fd),
        s.lookup_path(old_fd, flags, old_path) == Some(id),
        s.fs[id as int].nlinks < u64::MAX,
    ensures
        ({
            let (t, r) = s.link(old_fd, flags, old_path, new_fd, new_path);
            &&& r == ErrorNumber::SUCCESS ==> t.file_stat(id).nlink == s.file_stat(id).nlink + 1
            &&& r != ErrorNumber::SUCCESS ==> t.file_stat(id).nlink == s.file_stat(id).nlink
        }),
{
    let op = s.fd_inode(old_fd);
    crate::filesystem::lemma_resolve_valid(s.fs, op, old_path);
    if let Some(l) = resolve_path(s.fs, op, old_path) {
        crate::filesystem::lemma_resolve_valid(s.fs, op, s.fs[l as int].symlink);
    }
    assert(id < s.fs.len());
}

/// After a regular file is unlinked, its status reports one link fewer.
pub proof fn law_unlink_counts(s: P9State, fd: FileDescriptorID, path: Seq<u8>, id: INodeID)
    requires
        s.wf(),
        s.fd_valid(fd),
        s.fd_is_dir(fd),
        locate(s.fs, s.fd_inode(fd), path) is Ok,
        resolve_path(s.fs, s.fd_inode(fd), path) == Some(id),
        s.filetype(id) == FdFileType::RegularFile,
        s.fs[id as int].nlinks > 0,
    ensures
        ({
            let (t, r) = s.path_unlink_file(fd, path);
            &&& r == ErrorNumber::SUCCESS
            &&& t.file_stat(id).nlink + 1 == s.file_stat(id).nlink
        }),
{
    let p = s.fd_inode(fd);
    let (d, name) = locate(s.fs, p, path)->Ok_0;
    lemma_locate_resolve(s.fs, p, path);
    assert(id != d);
}

/// A path request answered with an error leaves the state as it was.
pub proof fn law_failed_path_requests_change_nothing(
    s: P9State,
    fd: FileDescriptorID,
    fd2: FileDescriptorID,
    flags: SymlinkLookupFlags,
    path: Seq<u8>,
    path2: Seq<u8>,
    oflags: FileOpenFlags,
    rights_base: FdRights,
    rights_inheriting: FdRights,
    fdflags: FdFlags,
)
    requires
        s.wf(),
        s.fd_valid(fd),
        s.fd_valid(fd2),
    ensures
        s.path_open(fd, flags, path, oflags, rights_base, rights_inheriting, fdflags).1 != ErrorNumber::SUCCESS
            ==> s.path_open(fd, flags, path, oflags, rights_base, rights_inheriting, fdflags).0 == s,
        s.create_directory(fd, path).1 != ErrorNumber::SUCCESS ==> s.create_directory(fd, path).0 == s,
        s.symlink(fd, path, path2).1 != ErrorNumber::SUCCESS ==> s.symlink(fd, path, path2).0 == s,
        s.link(fd, flags, path, fd2, path2).1 != ErrorNumber::SUCCESS ==> s.link(fd, flags, path, fd2, path2).0 == s,
        s.rename(fd, path, fd2, path2).1 != ErrorNumber::SUCCESS ==> s.rename(fd, path, fd2, path2).0 == s,
        s.path_unlink_file(fd, path).1 != ErrorNumber::SUCCESS ==> s.path_unlink_file(fd, path).0 == s,
        s.path_unlink_dir(fd, path).1 != ErrorNumber::SUCCESS ==> s.path_unlink_dir(fd, path).0 == s,
{
}

/// A descriptor request answered with an error leaves the state as it was.
pub proof fn law_failed_fd_requests_change_nothing(
    s: P9State,
    fd: FileDescriptorID,
    rights: FdRights,
    rights_inheriting: FdRights,
    size: usize,
    offset: i64,
    whence: SeekWhence,
)
    requires
        s.wf(),
        s.fd_valid(fd),
    ensures
        s.fd_stat_set_rights(fd, rights, rights_inheriting).1 != ErrorNumber::SUCCESS
            ==> s.fd_stat_set_rights(fd, rights, rights_inheriting).0 == s,
        s.file_stat_set_size(fd, size).1 != ErrorNumber::SUCCESS ==> s.file_stat_set_size(fd, size).0 == s,
        s.seek(fd, offset, whence).1 != ErrorNumber::SUCCESS ==> s.seek(fd, offset, whence).0 == s,
        s.close_fd(fd).1 != ErrorNumber::SUCCESS ==> s.close_fd(fd).0 == s,
{
}

} // verus!
