use v9p::filesystem::FS;
use v9p::flags::{
    FdFlags, FdRights, FileOpenFlags, FstFlags, FDFLAG_APPEND, FST_ATIM, FST_ATIM_NOW, FST_MTIM, O_APPEND, O_CREAT,
    O_DIRECTORY, O_EXCL, O_RDWR, O_TMPFILE, O_TRUNC, O_WRONLY, RIGHT_FD_FILESTAT_GET, RIGHT_FD_READ, RIGHT_FD_SEEK,
    RIGHT_FD_WRITE, RIGHT_POLL_FD_READWRITE,
};
use v9p::types::{
    ErrorNumber, FdFileType, FdStat, FileStat, Pipe, PreStat, PreStatDirectoryType, SeekWhence, SymlinkLookupFlags,
};
use v9p::v9p::{DirectoryEntry, Virtio9p};

fn all_rights() -> FdRights {
    FdRights::from_bits_retain(0x3fff_ffff)
}

/// A device with the root directory open as descriptor 0.
fn device_with_root() -> (Virtio9p, usize) {
    let mut v = Virtio9p::new(None);
    let root = v.create_fd(0, FdFlags::empty(), all_rights(), all_rights()).fd;
    (v, root)
}

fn open(v: &mut Virtio9p, dir: usize, path: &str, oflags: u32) -> (ErrorNumber, usize) {
    let mut fd = usize::MAX;
    let r = v.path_open(
        dir,
        SymlinkLookupFlags::NoFollow,
        path,
        FileOpenFlags::from_bits_retain(oflags),
        all_rights(),
        all_rights(),
        FdFlags::empty(),
        &mut fd,
    );
    (r, fd)
}

fn write_all(v: &mut Virtio9p, fd: usize, bytes: &[u8]) -> usize {
    let mut n = 0;
    assert_eq!(v.write_vec(fd, &[bytes.to_vec()], None, &mut n), ErrorNumber::SUCCESS);
    n
}

fn empty_file_stat() -> FileStat {
    FileStat { dev: 9, ino: 9, filetype: FdFileType::Unknown, nlink: 9, size: 9, atim: 9, mtim: 9, ctim: 9 }
}

#[test]
fn new_device_has_only_the_root() {
    let v = Virtio9p::new(None);
    assert_eq!(v.fs.len(), 1);
    assert!(v.fs.is_directory(0));
    assert_eq!(v.next_fd, 0);
    assert!(v.file_descriptors.is_empty());
    assert_eq!(v.get_fd(3), None);
}

#[test]
fn new_device_keeps_a_given_file_system() {
    let mut fs = FS::new();
    fs.create_directory(b"etc", 0);
    let v = Virtio9p::new(Some(fs));
    assert_eq!(v.fs.len(), 2);
    assert_eq!(v.fs.search(0, b"etc"), Some(1));
}

#[test]
fn pipe_numbers() {
    assert_eq!(Virtio9p::get_pipe_fd(0), Some(Pipe::Stdin));
    assert_eq!(Virtio9p::get_pipe_fd(1), Some(Pipe::Stdout));
    assert_eq!(Virtio9p::get_pipe_fd(2), Some(Pipe::Stderr));
    assert_eq!(Virtio9p::get_pipe_fd(3), None);
    assert_eq!(Virtio9p::get_pipe_fd(-1), None);
}

#[test]
fn pipe_rights_read_or_write() {
    let common = RIGHT_FD_FILESTAT_GET | RIGHT_POLL_FD_READWRITE;
    assert_eq!(Virtio9p::get_pipe_rights(Pipe::Stdin).bits(), RIGHT_FD_READ | common);
    assert_eq!(Virtio9p::get_pipe_rights(Pipe::Stdout).bits(), RIGHT_FD_WRITE | common);
    assert_eq!(Virtio9p::get_pipe_rights(Pipe::Stderr).bits(), RIGHT_FD_WRITE | common);
    assert_eq!(Virtio9p::get_pipe_rights(Pipe::Stdin).bits(), 0x0820_0002);
    assert!(!Virtio9p::get_pipe_rights(Pipe::Stdin).contains(FdRights::from_bits_retain(RIGHT_FD_WRITE)));
    assert!(!Virtio9p::get_pipe_rights(Pipe::Stdout).contains(FdRights::from_bits_retain(RIGHT_FD_READ)));
}

#[test]
fn get_fd_skips_the_stream_numbers() {
    let mut v = Virtio9p::new(None);
    for _ in 0..4 {
        v.create_fd(0, FdFlags::empty(), all_rights(), all_rights());
    }
    assert_eq!(v.get_fd(0), None);
    assert_eq!(v.get_fd(2), None);
    assert_eq!(v.get_fd(3), Some(3));
    assert_eq!(v.get_fd(4), None);
    assert_eq!(v.get_fd(-5), None);
}

#[test]
fn create_fd_then_fd_stat() {
    let mut v = Virtio9p::new(None);
    let flags = FdFlags::from_bits_retain(FDFLAG_APPEND);
    let rights = FdRights::from_bits_retain(RIGHT_FD_READ | RIGHT_FD_SEEK);
    let inh = FdRights::from_bits_retain(RIGHT_FD_READ);
    let fd = v.create_fd(0, flags, rights, inh).fd;
    assert_eq!(fd, 0);
    assert_eq!(v.next_fd, 1);
    let mut st = FdStat {
        fs_filetype: FdFileType::Unknown,
        fs_flags: FdFlags::empty(),
        fs_rights_base: FdRights::empty(),
        fs_rights_inheriting: FdRights::empty(),
    };
    assert_eq!(v.fd_stat(fd, &mut st), ErrorNumber::SUCCESS);
    assert_eq!(st.fs_filetype, FdFileType::Directory);
    assert_eq!(st.fs_flags, flags);
    assert_eq!(st.fs_rights_base, rights);
    assert_eq!(st.fs_rights_inheriting, inh);
    assert_eq!(v.file_descriptors[&fd].offset, 0);
}

#[test]
fn close_fd_then_closed() {
    let (mut v, _root) = device_with_root();
    let fd = v.create_fd(0, FdFlags::empty(), all_rights(), all_rights()).fd;
    let fd2 = v.create_fd(0, FdFlags::empty(), all_rights(), all_rights()).fd;
    let fd3 = v.create_fd(0, FdFlags::empty(), all_rights(), all_rights()).fd;
    assert_eq!(v.get_fd(fd3 as i32), Some(fd3));
    assert_eq!(v.close_fd(fd3), ErrorNumber::SUCCESS);
    assert_eq!(v.get_fd(fd3 as i32), None);
    assert_eq!(v.close_fd(fd3), ErrorNumber::ENOENT);
    assert!(v.file_descriptors.contains_key(&fd));
    assert!(v.file_descriptors.contains_key(&fd2));
    assert_eq!(v.close_fd(100), ErrorNumber::ENOENT);
}

#[test]
fn fd_stat_set_flags_then_stat() {
    let (mut v, root) = device_with_root();
    let flags = FdFlags::from_bits_retain(0b10110);
    assert_eq!(v.fd_stat_set_flags(root, flags), ErrorNumber::SUCCESS);
    assert_eq!(v.file_descriptors[&root].flags, flags);
}

#[test]
fn rights_can_only_shrink() {
    let mut v = Virtio9p::new(None);
    let base = FdRights::from_bits_retain(RIGHT_FD_READ | RIGHT_FD_WRITE);
    let inh = FdRights::from_bits_retain(RIGHT_FD_READ);
    let fd = v.create_fd(0, FdFlags::empty(), base, inh).fd;
    // adding a base right
    let more = FdRights::from_bits_retain(RIGHT_FD_READ | RIGHT_FD_SEEK);
    assert_eq!(v.fd_stat_set_rights(fd, more, inh), ErrorNumber::ENOTCAPABLE);
    assert_eq!(v.file_descriptors[&fd].rights, base);
    // adding an inheriting right
    let more_inh = FdRights::from_bits_retain(RIGHT_FD_READ | RIGHT_FD_WRITE);
    assert_eq!(v.fd_stat_set_rights(fd, base, more_inh), ErrorNumber::ENOTCAPABLE);
    assert_eq!(v.file_descriptors[&fd].rights_inheriting, inh);
    // removing rights
    let less = FdRights::from_bits_retain(RIGHT_FD_WRITE);
    assert_eq!(v.fd_stat_set_rights(fd, less, FdRights::empty()), ErrorNumber::SUCCESS);
    assert_eq!(v.file_descriptors[&fd].rights, less);
    assert_eq!(v.file_descriptors[&fd].rights_inheriting, FdRights::empty());
    // and they cannot come back
    assert_eq!(v.fd_stat_set_rights(fd, base, FdRights::empty()), ErrorNumber::ENOTCAPABLE);
}

#[test]
fn write_then_read_back() {
    let (mut v, root) = device_with_root();
    let (r, fd) = open(&mut v, root, "a.txt", O_CREAT | O_RDWR);
    assert_eq!(r, ErrorNumber::SUCCESS);
    assert_eq!(fd, 1);
    let mut n = 0;
    let bufs = vec![b"hello".to_vec(), b" world".to_vec()];
    assert_eq!(v.write_vec(fd, &bufs, None, &mut n), ErrorNumber::SUCCESS);
    assert_eq!(n, 11);
    assert_eq!(v.file_descriptors[&fd].offset, 11);
    let mut dst = vec![vec![0u8; 3], vec![0u8; 8]];
    let mut n_read = 0;
    assert_eq!(v.read_vec(fd, &mut dst, Some(0), &mut n_read), ErrorNumber::SUCCESS);
    assert_eq!(n_read, 11);
    assert_eq!(dst[0], b"hel".to_vec());
    assert_eq!(dst[1], b"lo world".to_vec());
    // an explicit offset leaves the descriptor's offset alone
    assert_eq!(v.file_descriptors[&fd].offset, 11);
}

#[test]
fn write_at_offset_pads_with_zeros() {
    let (mut v, root) = device_with_root();
    let (_, fd) = open(&mut v, root, "f", O_CREAT | O_WRONLY);
    let mut n = 0;
    assert_eq!(v.write_vec(fd, &[b"xy".to_vec()], Some(3), &mut n), ErrorNumber::SUCCESS);
    assert_eq!(n, 2);
    assert_eq!(v.file_descriptors[&fd].offset, 0);
    let id = v.file_descriptors[&fd].inode_id;
    assert_eq!(v.fs.get_inode(id).data, vec![0, 0, 0, b'x', b'y']);
    // no buffer at all changes nothing
    assert_eq!(v.write_vec(fd, &[], Some(10), &mut n), ErrorNumber::SUCCESS);
    assert_eq!(n, 0);
    assert_eq!(v.fs.get_size(id), 5);
    // an empty buffer still pads up to the offset
    assert_eq!(v.write_vec(fd, &[Vec::new()], Some(7), &mut n), ErrorNumber::SUCCESS);
    assert_eq!(v.fs.get_size(id), 7);
}

#[test]
fn read_from_descriptor_offset_moves_it() {
    let (mut v, root) = device_with_root();
    let (_, fd) = open(&mut v, root, "f", O_CREAT | O_RDWR);
    write_all(&mut v, fd, b"abcdef");
    let mut off = 0;
    assert_eq!(v.seek(fd, 1, SeekWhence::Start, &mut off), ErrorNumber::SUCCESS);
    let mut dst = vec![vec![0u8; 2]];
    let mut n = 0;
    assert_eq!(v.read_vec(fd, &mut dst, None, &mut n), ErrorNumber::SUCCESS);
    assert_eq!(dst[0], b"bc".to_vec());
    assert_eq!(v.file_descriptors[&fd].offset, 3);
}

#[test]
fn read_past_the_end_stops_with_einval() {
    let (mut v, root) = device_with_root();
    let (_, fd) = open(&mut v, root, "f", O_CREAT | O_RDWR);
    write_all(&mut v, fd, b"abcde");
    let mut dst = vec![vec![7u8; 2], vec![7u8; 2], vec![7u8; 2], vec![7u8; 1]];
    let mut n = 99;
    assert_eq!(v.read_vec(fd, &mut dst, Some(0), &mut n), ErrorNumber::EINVAL);
    assert_eq!(n, 4);
    assert_eq!(dst[0], b"ab".to_vec());
    assert_eq!(dst[1], b"cd".to_vec());
    assert_eq!(dst[2], vec![7u8, 7]);
    assert_eq!(dst[3], vec![7u8]);
    // the descriptor's offset is not moved by a failed read
    assert_eq!(v.read_vec(fd, &mut dst, None, &mut n), ErrorNumber::EINVAL);
    assert_eq!(v.file_descriptors[&fd].offset, 5);
}

#[test]
fn seek_and_tell() {
    let (mut v, root) = device_with_root();
    let (_, fd) = open(&mut v, root, "f", O_CREAT | O_RDWR);
    write_all(&mut v, fd, b"abc");
    let mut off = 42;
    // a file of size 3 and offset 0 from the end is at the last byte
    assert_eq!(v.seek(fd, 0, SeekWhence::End, &mut off), ErrorNumber::SUCCESS);
    assert_eq!(off, 2);
    let mut t = 0;
    assert_eq!(v.tell(fd, &mut t), ErrorNumber::SUCCESS);
    assert_eq!(t, 2);
    assert_eq!(v.seek(fd, -2, SeekWhence::Current, &mut off), ErrorNumber::SUCCESS);
    assert_eq!(off, 0);
    assert_eq!(v.seek(fd, 1, SeekWhence::Start, &mut off), ErrorNumber::SUCCESS);
    assert_eq!(off, 1);
    // out of bounds: the offset stays
    let mut off2 = 77;
    assert_eq!(v.seek(fd, 3, SeekWhence::Start, &mut off2), ErrorNumber::EINVAL);
    assert_eq!(off2, 77);
    assert_eq!(v.seek(fd, -2, SeekWhence::Current, &mut off2), ErrorNumber::EINVAL);
    assert_eq!(v.seek(fd, 3, SeekWhence::End, &mut off2), ErrorNumber::EINVAL);
    assert_eq!(v.tell(fd, &mut t), ErrorNumber::SUCCESS);
    assert_eq!(t, 1);
}

#[test]
fn seek_and_tell_need_a_regular_file() {
    let (mut v, root) = device_with_root();
    let mut off = 5;
    assert_eq!(v.tell(root, &mut off), ErrorNumber::EINVAL);
    assert_eq!(off, 5);
    assert_eq!(v.seek(root, 0, SeekWhence::Start, &mut off), ErrorNumber::EINVAL);
    // an empty file has no offset to seek to
    let (_, fd) = open(&mut v, root, "empty", O_CREAT);
    assert_eq!(v.seek(fd, 0, SeekWhence::Start, &mut off), ErrorNumber::EINVAL);
}

#[test]
fn file_stat_of_a_file() {
    let (mut v, root) = device_with_root();
    let (_, fd) = open(&mut v, root, "f", O_CREAT | O_RDWR);
    write_all(&mut v, fd, b"12345");
    let mut st = empty_file_stat();
    assert_eq!(v.get_file_stat(fd, &mut st), ErrorNumber::SUCCESS);
    assert_eq!(st.dev, 0);
    assert_eq!(st.ino, 1);
    assert_eq!(st.filetype, FdFileType::RegularFile);
    assert_eq!(st.nlink, 1);
    assert_eq!(st.size, 5);
    assert_eq!((st.atim, st.mtim, st.ctim), (0, 0, 0));
}

#[test]
fn file_stat_set_size_then_stat() {
    let (mut v, root) = device_with_root();
    let (_, fd) = open(&mut v, root, "f", O_CREAT | O_RDWR);
    write_all(&mut v, fd, b"12345");
    assert_eq!(v.file_stat_set_size(fd, 2), ErrorNumber::SUCCESS);
    let mut st = empty_file_stat();
    v.get_file_stat(fd, &mut st);
    assert_eq!(st.size, 2);
    assert_eq!(v.file_stat_set_size(fd, 4), ErrorNumber::SUCCESS);
    let id = v.file_descriptors[&fd].inode_id;
    assert_eq!(v.fs.get_inode(id).data, vec![b'1', b'2', 0, 0]);
    // directories do not change size
    assert_eq!(v.file_stat_set_size(root, 10), ErrorNumber::EOPNOTSUPP);
    assert_eq!(v.fs.get_size(0), 0);
}

#[test]
fn set_times_with_given_values() {
    let (mut v, root) = device_with_root();
    let (_, fd) = open(&mut v, root, "f", O_CREAT);
    let flags = FstFlags::from_bits_retain(FST_ATIM | FST_MTIM);
    assert_eq!(v.file_stat_set_times(fd, 111, 222, flags), ErrorNumber::SUCCESS);
    let mut st = empty_file_stat();
    v.get_file_stat(fd, &mut st);
    assert_eq!(st.atim, 111);
    assert_eq!(st.mtim, 222);
    assert_eq!(v.file_stat_set_times(fd, 5, 6, FstFlags::from_bits_retain(FST_MTIM)), ErrorNumber::SUCCESS);
    v.get_file_stat(fd, &mut st);
    assert_eq!(st.atim, 111);
    assert_eq!(st.mtim, 6);
}

#[test]
fn set_times_now_uses_the_clock() {
    let (mut v, root) = device_with_root();
    let (_, fd) = open(&mut v, root, "f", O_CREAT);
    let flags = FstFlags::from_bits_retain(FST_ATIM | FST_ATIM_NOW);
    assert_eq!(v.file_stat_set_times(fd, 1, 2, flags), ErrorNumber::SUCCESS);
    let mut st = empty_file_stat();
    v.get_file_stat(fd, &mut st);
    // 2020-01-01 in seconds since the epoch
    assert!(st.atim > 1_577_836_800);
    assert_eq!(st.mtim, 0);
}

#[test]
fn set_times_at_given_clock() {
    let (mut v, root) = device_with_root();
    let (_, fd) = open(&mut v, root, "f", O_CREAT);
    let id = v.file_descriptors[&fd].inode_id;
    let flags = FstFlags::from_bits_retain(FST_ATIM_NOW | FST_MTIM | 8);
    assert_eq!(v.file_stat_set_times_at(id, 1, 2, flags, 1000), ErrorNumber::SUCCESS);
    let mut st = empty_file_stat();
    v.get_file_stat_from_inode_id(id, &mut st);
    assert_eq!(st.atim, 1000);
    assert_eq!(st.mtim, 1000);
}

#[test]
fn allocate_grows_only() {
    let (mut v, root) = device_with_root();
    let (_, fd) = open(&mut v, root, "f", O_CREAT | O_RDWR);
    write_all(&mut v, fd, b"abc");
    assert_eq!(v.allocate(fd, 4, 6), ErrorNumber::SUCCESS);
    let id = v.file_descriptors[&fd].inode_id;
    assert_eq!(v.fs.get_size(id), 10);
    assert_eq!(v.allocate(fd, 0, 2), ErrorNumber::SUCCESS);
    assert_eq!(v.fs.get_size(id), 10);
}

#[test]
fn create_directory_then_lookup() {
    let (mut v, root) = device_with_root();
    assert_eq!(v.create_directory(root, "sub"), ErrorNumber::SUCCESS);
    let id = v.lookup_path_inode(root, SymlinkLookupFlags::NoFollow, "sub");
    assert_eq!(id, Some(1));
    assert!(v.fs.is_directory(1));
    // a path through it
    let (r, _) = open(&mut v, root, "sub/f", O_CREAT);
    assert_eq!(r, ErrorNumber::SUCCESS);
    assert_eq!(v.lookup_path_inode(root, SymlinkLookupFlags::NoFollow, "sub/f"), Some(2));
    assert_eq!(v.lookup_path_inode(root, SymlinkLookupFlags::NoFollow, "f"), None);
    let (_, sub) = open(&mut v, root, "sub", 0);
    assert_eq!(v.create_directory(sub, "deeper"), ErrorNumber::SUCCESS);
    assert_eq!(v.lookup_path_inode(root, SymlinkLookupFlags::NoFollow, "sub/deeper"), Some(3));
    assert_eq!(v.lookup_path_inode(root, SymlinkLookupFlags::NoFollow, "sub/deeper/.."), Some(1));
    assert_eq!(v.lookup_path_inode(sub, SymlinkLookupFlags::NoFollow, "/sub/./deeper"), Some(3));
    assert_eq!(v.lookup_path_inode(root, SymlinkLookupFlags::NoFollow, "nothing"), None);
}

#[test]
fn directory_operations_need_a_directory() {
    let (mut v, root) = device_with_root();
    let (_, fd) = open(&mut v, root, "f", O_CREAT);
    assert_eq!(v.create_directory(fd, "x"), ErrorNumber::ENOTDIR);
    assert_eq!(v.lookup_path_inode(fd, SymlinkLookupFlags::NoFollow, "x"), None);
    let (r, _) = open(&mut v, fd, "x", O_CREAT);
    assert_eq!(r, ErrorNumber::ENOTDIR);
    assert_eq!(v.symlink(fd, "a", "b"), ErrorNumber::ENOTDIR);
    assert_eq!(v.path_unlink_dir(fd, "x"), ErrorNumber::ENOTDIR);
    assert_eq!(v.path_unlink_file(fd, "x"), ErrorNumber::EINVAL);
    assert_eq!(v.rename(fd, "x", root, "y"), ErrorNumber::ENOTDIR);
    assert_eq!(v.rename(root, "f", fd, "y"), ErrorNumber::ENOTDIR);
    let mut buf = [0u8; 4];
    let mut used = 0;
    assert_eq!(v.path_read_link(fd, "x", &mut buf, &mut used), ErrorNumber::ENOTDIR);
    let mut pre = PreStat { directory_type: PreStatDirectoryType::PreOpenTypeDir, directory_path_len: 7 };
    assert_eq!(v.prestat_get(fd, &mut pre), ErrorNumber::ENOTDIR);
    assert_eq!(pre.directory_path_len, 7);
    assert_eq!(v.prestat_dir_name(fd, &mut buf), ErrorNumber::ENOTDIR);
}

#[test]
fn open_exclusive() {
    let (mut v, root) = device_with_root();
    let (r, fd) = open(&mut v, root, "f", O_CREAT | O_EXCL);
    assert_eq!(r, ErrorNumber::SUCCESS);
    assert_eq!(v.file_descriptors[&fd].inode_id, 1);
    let mut out = 1234;
    let r2 = v.path_open(
        root,
        SymlinkLookupFlags::NoFollow,
        "f",
        FileOpenFlags::from_bits_retain(O_CREAT | O_EXCL),
        all_rights(),
        all_rights(),
        FdFlags::empty(),
        &mut out,
    );
    assert_eq!(r2, ErrorNumber::EEXIST);
    assert_eq!(out, 1234);
    // without O_EXCL an existing file opens again
    let (r3, fd3) = open(&mut v, root, "f", O_CREAT);
    assert_eq!(r3, ErrorNumber::SUCCESS);
    assert_eq!(v.file_descriptors[&fd3].inode_id, 1);
}

#[test]
fn open_errors() {
    let (mut v, root) = device_with_root();
    assert_eq!(open(&mut v, root, "missing", 0).0, ErrorNumber::EBADF);
    open(&mut v, root, "f", O_CREAT);
    assert_eq!(open(&mut v, root, "f", O_DIRECTORY).0, ErrorNumber::ENOTDIR);
    assert_eq!(open(&mut v, root, ".", O_TMPFILE).0, ErrorNumber::EOPNOTSUPP);
    assert_eq!(v.next_fd, 2);
}

#[test]
fn open_creates_a_directory_with_o_directory() {
    let (mut v, root) = device_with_root();
    let (r, fd) = open(&mut v, root, "d", O_CREAT | O_DIRECTORY);
    assert_eq!(r, ErrorNumber::SUCCESS);
    let mut st = empty_file_stat();
    v.get_file_stat(fd, &mut st);
    assert_eq!(st.filetype, FdFileType::Directory);
}

#[test]
fn open_truncates_or_appends() {
    let (mut v, root) = device_with_root();
    let (_, fd) = open(&mut v, root, "f", O_CREAT | O_RDWR);
    write_all(&mut v, fd, b"abcd");
    let (r, fd2) = open(&mut v, root, "f", O_APPEND | O_WRONLY);
    assert_eq!(r, ErrorNumber::SUCCESS);
    assert_eq!(v.file_descriptors[&fd2].offset, 4);
    // O_TRUNC without write access does nothing
    let (_, fd3) = open(&mut v, root, "f", O_TRUNC);
    assert_eq!(v.file_descriptors[&fd3].offset, 0);
    assert_eq!(v.fs.get_size(1), 4);
    let (_, fd4) = open(&mut v, root, "f", O_TRUNC | O_RDWR | O_APPEND);
    assert_eq!(v.fs.get_size(1), 0);
    assert_eq!(v.file_descriptors[&fd4].offset, 0);
}

#[test]
fn open_with_o_append_puts_the_descriptor_in_append_mode() {
    let (mut v, root) = device_with_root();
    let (_, fd) = open(&mut v, root, "f", O_CREAT | O_RDWR);
    assert_eq!(v.file_descriptors[&fd].flags, FdFlags::empty());
    let (_, fd2) = open(&mut v, root, "f", O_APPEND | O_WRONLY);
    assert_eq!(v.file_descriptors[&fd2].flags, FdFlags::from_bits_retain(FDFLAG_APPEND));
    // another writer moves the end of the file; the append descriptor follows it
    write_all(&mut v, fd, b"hello");
    assert_eq!(v.file_descriptors[&fd2].offset, 0);
    write_all(&mut v, fd2, b"!");
    assert_eq!(v.fs.get_inode(1).data, b"hello!".to_vec());
    assert_eq!(v.file_descriptors[&fd2].offset, 6);
}

#[test]
fn append_mode_writes_at_the_end_of_the_file() {
    let (mut v, root) = device_with_root();
    let (_, fd) = open(&mut v, root, "f", O_CREAT | O_RDWR);
    write_all(&mut v, fd, b"abcde");
    let mut nd = v.file_descriptors[&fd].clone();
    nd.offset = 0;
    v.file_descriptors.insert(fd, nd);
    assert_eq!(v.fd_stat_set_flags(fd, FdFlags::from_bits_retain(FDFLAG_APPEND)), ErrorNumber::SUCCESS);
    let mut n = 0;
    assert_eq!(v.write_vec(fd, &[b"x".to_vec(), b"yz".to_vec()], None, &mut n), ErrorNumber::SUCCESS);
    assert_eq!(n, 3);
    assert_eq!(v.fs.get_size(1), 8);
    assert_eq!(v.fs.get_inode(1).data, b"abcdexyz".to_vec());
    assert_eq!(v.file_descriptors[&fd].offset, 8);
    // an explicit offset still writes where it says
    assert_eq!(v.write_vec(fd, &[b"Q".to_vec()], Some(0), &mut n), ErrorNumber::SUCCESS);
    assert_eq!(v.fs.get_inode(1).data, b"Qbcdexyz".to_vec());
    assert_eq!(v.file_descriptors[&fd].offset, 8);
}

#[test]
fn symlink_then_read_link() {
    let (mut v, root) = device_with_root();
    open(&mut v, root, "target.txt", O_CREAT);
    assert_eq!(v.symlink(root, "target.txt", "link"), ErrorNumber::SUCCESS);
    let mut buf = [0u8; 32];
    let mut used = 0;
    assert_eq!(v.path_read_link(root, "link", &mut buf, &mut used), ErrorNumber::SUCCESS);
    assert_eq!(used, 10);
    assert_eq!(&buf[..10], b"target.txt");
    assert_eq!(buf[10], 0);
    // a short buffer gets a truncated target
    let mut small = [9u8; 4];
    assert_eq!(v.path_read_link(root, "link", &mut small, &mut used), ErrorNumber::SUCCESS);
    assert_eq!(used, 4);
    assert_eq!(&small, b"targ");
    // lookups stop at the link or follow it
    assert_eq!(v.lookup_path_inode(root, SymlinkLookupFlags::NoFollow, "link"), Some(2));
    assert_eq!(v.lookup_path_inode(root, SymlinkLookupFlags::Follow, "link"), Some(1));
    let mut st = empty_file_stat();
    assert_eq!(v.path_file_stat_get(root, SymlinkLookupFlags::NoFollow, "link", &mut st), ErrorNumber::SUCCESS);
    assert_eq!(st.filetype, FdFileType::SymbolicLink);
    assert_eq!(st.size, 10);
}

#[test]
fn read_link_errors() {
    let (mut v, root) = device_with_root();
    open(&mut v, root, "f", O_CREAT);
    let mut buf = [5u8; 4];
    let mut used = 3;
    assert_eq!(v.path_read_link(root, "f", &mut buf, &mut used), ErrorNumber::EINVAL);
    assert_eq!(v.path_read_link(root, "none", &mut buf, &mut used), ErrorNumber::EBADF);
    assert_eq!(buf, [5u8; 4]);
    assert_eq!(used, 3);
}

#[test]
fn unlink_file() {
    let (mut v, root) = device_with_root();
    open(&mut v, root, "f", O_CREAT);
    v.create_directory(root, "d");
    assert_eq!(v.path_unlink_file(root, "d"), ErrorNumber::ENOTDIR);
    assert_eq!(v.path_unlink_file(root, "none"), ErrorNumber::EBADF);
    assert_eq!(v.path_unlink_file(root, "f"), ErrorNumber::SUCCESS);
    assert_eq!(v.lookup_path_inode(root, SymlinkLookupFlags::NoFollow, "f"), None);
    assert_eq!(v.fs.get_inode(1).nlinks, 0);
}

#[test]
fn unlink_dir() {
    let (mut v, root) = device_with_root();
    v.create_directory(root, "d");
    open(&mut v, root, "f", O_CREAT);
    assert_eq!(v.path_unlink_dir(root, "f"), ErrorNumber::ENOTDIR);
    assert_eq!(v.path_unlink_dir(root, "none"), ErrorNumber::EBADF);
    assert_eq!(v.path_unlink_dir(root, "d"), ErrorNumber::SUCCESS);
    assert_eq!(v.lookup_path_inode(root, SymlinkLookupFlags::NoFollow, "d"), None);
}

#[test]
fn rename_moves_an_entry() {
    let (mut v, root) = device_with_root();
    v.create_directory(root, "d");
    let (_, d) = open(&mut v, root, "d", 0);
    open(&mut v, root, "f", O_CREAT);
    assert_eq!(v.rename(root, "f", d, "g"), ErrorNumber::SUCCESS);
    assert_eq!(v.lookup_path_inode(root, SymlinkLookupFlags::NoFollow, "f"), None);
    assert_eq!(v.lookup_path_inode(d, SymlinkLookupFlags::NoFollow, "g"), Some(2));
    assert_eq!(v.lookup_path_inode(root, SymlinkLookupFlags::NoFollow, "d/g"), Some(2));
    assert_eq!(v.rename(root, "f", d, "g"), ErrorNumber::ENOENT);
}

#[test]
fn link_adds_a_name() {
    let (mut v, root) = device_with_root();
    open(&mut v, root, "f", O_CREAT);
    v.create_directory(root, "d");
    assert_eq!(v.link(root, SymlinkLookupFlags::NoFollow, "f", root, "g"), ErrorNumber::SUCCESS);
    assert_eq!(v.lookup_path_inode(root, SymlinkLookupFlags::NoFollow, "g"), Some(1));
    assert_eq!(v.fs.get_inode(1).nlinks, 2);
    assert_eq!(v.link(root, SymlinkLookupFlags::NoFollow, "f", root, "g"), ErrorNumber::EEXIST);
    assert_eq!(v.link(root, SymlinkLookupFlags::NoFollow, "d", root, "e"), ErrorNumber::EPERM);
    assert_eq!(v.link(root, SymlinkLookupFlags::NoFollow, "none", root, "h"), ErrorNumber::EBADF);
    let (_, fd) = open(&mut v, root, "f", 0);
    assert_eq!(v.link(root, SymlinkLookupFlags::NoFollow, "f", fd, "h"), ErrorNumber::ENOTDIR);
}

#[test]
fn path_file_stat() {
    let (mut v, root) = device_with_root();
    v.create_directory(root, "d");
    let mut st = empty_file_stat();
    assert_eq!(v.path_file_stat_get(root, SymlinkLookupFlags::NoFollow, "d", &mut st), ErrorNumber::SUCCESS);
    assert_eq!(st.ino, 1);
    assert_eq!(st.filetype, FdFileType::Directory);
    let mut st2 = empty_file_stat();
    assert_eq!(v.path_file_stat_get(root, SymlinkLookupFlags::NoFollow, "x", &mut st2), ErrorNumber::EBADF);
    assert_eq!(st2, empty_file_stat());
    let flags = FstFlags::from_bits_retain(FST_ATIM);
    assert_eq!(v.path_file_stat_set_times(root, SymlinkLookupFlags::NoFollow, "d", 77, 0, flags), ErrorNumber::SUCCESS);
    v.path_file_stat_get(root, SymlinkLookupFlags::NoFollow, "d", &mut st);
    assert_eq!(st.atim, 77);
    assert_eq!(v.path_file_stat_set_times(root, SymlinkLookupFlags::NoFollow, "x", 1, 1, flags), ErrorNumber::EBADF);
}

#[test]
fn prestat_of_directories() {
    let (mut v, root) = device_with_root();
    let mut pre = PreStat { directory_type: PreStatDirectoryType::PreOpenTypeDir, directory_path_len: 0 };
    assert_eq!(v.prestat_get(root, &mut pre), ErrorNumber::SUCCESS);
    assert_eq!(pre.directory_path_len, 1);
    v.create_directory(root, "usr");
    let (_, usr) = open(&mut v, root, "usr", 0);
    v.create_directory(usr, "lib");
    let (_, lib) = open(&mut v, root, "usr/lib", 0);
    assert_eq!(v.prestat_get(lib, &mut pre), ErrorNumber::SUCCESS);
    assert_eq!(pre.directory_path_len, 8);
    let mut name = [0u8; 8];
    assert_eq!(v.prestat_dir_name(lib, &mut name), ErrorNumber::SUCCESS);
    assert_eq!(&name, b"/usr/lib");
    let mut short = [0u8; 3];
    v.prestat_dir_name(lib, &mut short);
    assert_eq!(&short, b"/us");
    let mut long = [b'#'; 10];
    v.prestat_dir_name(usr, &mut long);
    assert_eq!(&long, b"/usr######");
}

#[test]
fn read_dir_lists_entries() {
    let (mut v, root) = device_with_root();
    v.create_directory(root, "a");
    open(&mut v, root, "bb", O_CREAT);
    open(&mut v, root, "ccc", O_CREAT);
    let blank = || DirectoryEntry { d_ino: 5, d_off: -1, d_reclen: 0, d_type: 6, d_name: Vec::new() };
    let mut entries = vec![blank(), blank(), blank(), blank()];
    let mut used = 0;
    assert_eq!(v.read_dir(root, &mut entries, 0, &mut used), ErrorNumber::SUCCESS);
    assert_eq!(used, 3);
    assert_eq!(entries[0].d_name, b"a".to_vec());
    assert_eq!(entries[1].d_name, b"bb".to_vec());
    assert_eq!(entries[2].d_name, b"ccc".to_vec());
    assert_eq!(entries[2].d_reclen, 22);
    assert_eq!(entries[2].d_off, 2);
    assert_eq!(entries[2].d_ino, 5);
    assert_eq!(entries[2].d_type, 6);
    assert_eq!(entries[3].d_off, -1);
    // a cookie skips entries, and the slots bound the count
    let mut two = vec![blank(), blank()];
    assert_eq!(v.read_dir(root, &mut two, 1, &mut used), ErrorNumber::SUCCESS);
    assert_eq!(used, 2);
    assert_eq!(two[0].d_off, -1);
    assert_eq!(two[1].d_name, b"bb".to_vec());
}

#[test]
fn renumber_keeps_rights_and_flags() {
    let (mut v, root) = device_with_root();
    let (_, f) = open(&mut v, root, "f", O_CREAT);
    let rights = FdRights::from_bits_retain(RIGHT_FD_READ);
    let other = v.create_fd(0, FdFlags::from_bits_retain(FDFLAG_APPEND), rights, FdRights::empty()).fd;
    assert_eq!(v.renumber(f, other), ErrorNumber::SUCCESS);
    let d = v.file_descriptors[&other];
    assert_eq!(d.inode_id, 1);
    assert_eq!(d.rights, rights);
    assert_eq!(d.flags, FdFlags::from_bits_retain(FDFLAG_APPEND));
    assert_eq!(d.fd, other);
}

#[test]
fn error_numbers() {
    assert_eq!(ErrorNumber::SUCCESS.code(), 0);
    assert_eq!(ErrorNumber::EPERM.code(), 1);
    assert_eq!(ErrorNumber::ENOENT.code(), 2);
    assert_eq!(ErrorNumber::EBADF.code(), 8);
    assert_eq!(ErrorNumber::EEXIST.code(), 17);
    assert_eq!(ErrorNumber::ENOTDIR.code(), 20);
    assert_eq!(ErrorNumber::EINVAL.code(), 22);
    assert_eq!(ErrorNumber::ENOTEMPTY.code(), 39);
    assert_eq!(ErrorNumber::ESPIPE.code(), 70);
    assert_eq!(ErrorNumber::EPROTO.code(), 71);
    assert_eq!(ErrorNumber::ENOTCAPABLE.code(), 76);
    assert_eq!(ErrorNumber::EOPNOTSUPP.code(), 95);
    assert_eq!(FdFileType::SymbolicLink.code(), 7);
    assert_eq!(FdFileType::RegularFile.code(), 4);
}

#[test]
fn requests_act_on_the_directory_a_path_leads_to() {
    let (mut v, root) = device_with_root();
    assert_eq!(v.create_directory(root, "a"), ErrorNumber::SUCCESS);
    assert_eq!(v.create_directory(root, "a/b"), ErrorNumber::SUCCESS);
    assert_eq!(v.lookup_path_inode(root, SymlinkLookupFlags::NoFollow, "a/b"), Some(2));
    assert_eq!(v.fs.get_inode(2).parent, 1);
    assert_eq!(v.fs.get_inode(2).name, b"b".to_vec());
    assert_eq!(v.fs.get_full_path(2), b"/a/b".to_vec());
    // `..` walks up first
    assert_eq!(v.create_directory(root, "a/b/../c"), ErrorNumber::SUCCESS);
    assert_eq!(v.lookup_path_inode(root, SymlinkLookupFlags::NoFollow, "a/c"), Some(3));
    // files, links and symbolic links under a path
    let (r, _) = open(&mut v, root, "a/b/f", O_CREAT | O_EXCL);
    assert_eq!(r, ErrorNumber::SUCCESS);
    assert_eq!(v.lookup_path_inode(root, SymlinkLookupFlags::NoFollow, "a/b/f"), Some(4));
    let (r, _) = open(&mut v, root, "a/b/f", O_CREAT | O_EXCL);
    assert_eq!(r, ErrorNumber::EEXIST);
    assert_eq!(v.link(root, SymlinkLookupFlags::NoFollow, "a/b/f", root, "/a/g"), ErrorNumber::SUCCESS);
    assert_eq!(v.lookup_path_inode(root, SymlinkLookupFlags::NoFollow, "a/g"), Some(4));
    assert_eq!(v.symlink(root, "../b/f", "a/c/l"), ErrorNumber::SUCCESS);
    let mut buf = [0u8; 16];
    let mut used = 0;
    assert_eq!(v.path_read_link(root, "a/c/l", &mut buf, &mut used), ErrorNumber::SUCCESS);
    assert_eq!(&buf[..used], b"../b/f");
    // a move between directories
    assert_eq!(v.rename(root, "a/b/f", root, "a/c/h"), ErrorNumber::SUCCESS);
    assert_eq!(v.lookup_path_inode(root, SymlinkLookupFlags::NoFollow, "a/b/f"), None);
    assert_eq!(v.lookup_path_inode(root, SymlinkLookupFlags::NoFollow, "a/c/h"), Some(4));
    assert_eq!(v.fs.get_inode(4).parent, 3);
    // removal
    assert_eq!(v.path_unlink_file(root, "a/g"), ErrorNumber::SUCCESS);
    assert_eq!(v.lookup_path_inode(root, SymlinkLookupFlags::NoFollow, "a/g"), None);
    assert_eq!(v.lookup_path_inode(root, SymlinkLookupFlags::NoFollow, "a/c/h"), Some(4));
    assert_eq!(v.path_unlink_dir(root, "a/b"), ErrorNumber::SUCCESS);
    assert_eq!(v.lookup_path_inode(root, SymlinkLookupFlags::NoFollow, "a/b"), None);
    assert_eq!(v.lookup_path_inode(root, SymlinkLookupFlags::NoFollow, "a"), Some(1));
}

#[test]
fn paths_that_stand_for_no_entry_name_a_whole_entry() {
    let (mut v, root) = device_with_root();
    assert_eq!(v.create_directory(root, "d"), ErrorNumber::SUCCESS);
    open(&mut v, root, "f", O_CREAT);
    // the part before the last name names nothing, or no directory: the
    // whole path becomes the name of an entry of the starting directory
    assert_eq!(v.create_directory(root, "none/x"), ErrorNumber::SUCCESS);
    assert_eq!(v.fs.get_inode(3).parent, 0);
    assert_eq!(v.fs.get_inode(3).name, b"none/x".to_vec());
    assert!(v.fs.read_dir_from_inode(0).contains(&b"none/x".to_vec()));
    assert_eq!(v.lookup_path_inode(root, SymlinkLookupFlags::NoFollow, "none/x"), None);
    assert_eq!(v.symlink(root, "t", "f/x"), ErrorNumber::SUCCESS);
    assert_eq!(v.fs.get_inode(4).parent, 0);
    assert!(v.fs.read_dir_from_inode(0).contains(&b"f/x".to_vec()));
    let (r, fd) = open(&mut v, root, "none/y", O_CREAT);
    assert_eq!(r, ErrorNumber::SUCCESS);
    assert_eq!(v.file_descriptors[&fd].inode_id, 5);
    assert_eq!(v.fs.get_inode(5).name, b"none/y".to_vec());
    // the last component is no name: no such entry is there to remove
    let before = v.fs.read_dir_from_inode(0);
    assert_eq!(v.path_unlink_dir(root, "."), ErrorNumber::SUCCESS);
    assert_eq!(v.path_unlink_dir(root, "d/"), ErrorNumber::SUCCESS);
    assert_eq!(v.fs.read_dir_from_inode(0), before);
    assert_eq!(v.lookup_path_inode(root, SymlinkLookupFlags::NoFollow, "d"), Some(1));
    assert_eq!(v.path_unlink_file(root, "f/"), ErrorNumber::ENOENT);
    assert_eq!(v.lookup_path_inode(root, SymlinkLookupFlags::NoFollow, "f"), Some(2));
    // a move to such a path renames the entry to the whole path
    assert_eq!(v.rename(root, "f", root, "none/g"), ErrorNumber::SUCCESS);
    assert_eq!(v.lookup_path_inode(root, SymlinkLookupFlags::NoFollow, "f"), None);
    assert_eq!(v.fs.get_inode(2).name, b"none/g".to_vec());
    assert_eq!(v.fs.len(), 6);
}

#[test]
fn create_fd_hands_out_the_new_descriptor() {
    let (mut v, _root) = device_with_root();
    let d = v.create_fd(0, FdFlags::empty(), all_rights(), FdRights::empty());
    assert_eq!(d.fd, 1);
    assert_eq!(d.inode_id, 0);
    assert_eq!(d.offset, 0);
    d.offset = 7;
    assert_eq!(v.file_descriptors[&1].offset, 7);
    assert_eq!(v.next_fd, 2);
}

#[test]
fn write_at_the_offset_then_read_back() {
    let (mut v, root) = device_with_root();
    let (_, fd) = open(&mut v, root, "f", O_CREAT | O_RDWR);
    write_all(&mut v, fd, b"ab");
    let mut n = 0;
    assert_eq!(v.write_vec(fd, &[b"cd".to_vec(), b"efg".to_vec()], None, &mut n), ErrorNumber::SUCCESS);
    assert_eq!(n, 5);
    assert_eq!(v.file_descriptors[&fd].offset, 7);
    let mut dst = vec![vec![0u8; 5]];
    let mut n_read = 0;
    assert_eq!(v.read_vec(fd, &mut dst, Some(2), &mut n_read), ErrorNumber::SUCCESS);
    assert_eq!(dst[0], b"cdefg".to_vec());
    assert_eq!(n_read, 5);
    assert_eq!(v.file_descriptors[&fd].offset, 7);
}

#[test]
fn rename_then_back() {
    let (mut v, root) = device_with_root();
    v.create_directory(root, "d");
    open(&mut v, root, "f", O_CREAT);
    assert_eq!(v.rename(root, "f", root, "d/g"), ErrorNumber::SUCCESS);
    assert_eq!(v.rename(root, "d/g", root, "f"), ErrorNumber::SUCCESS);
    assert_eq!(v.lookup_path_inode(root, SymlinkLookupFlags::NoFollow, "f"), Some(2));
    assert_eq!(v.lookup_path_inode(root, SymlinkLookupFlags::NoFollow, "d/g"), None);
    assert_eq!(v.fs.get_inode(2).parent, 0);
}

#[test]
fn only_the_exact_link_mode_makes_a_symbolic_link() {
    let mut fs = FS::new();
    let d = fs.create_directory(b"d", 0);
    let l = fs.create_symlink(b"l", 0, b"d");
    fs.inodes[l].mode = 0o120777;
    let mut v = Virtio9p::new(Some(fs));
    let root = v.create_fd(0, FdFlags::empty(), all_rights(), all_rights()).fd;
    // not followed, not read as a link, reported as a regular file
    assert_eq!(v.lookup_path_inode(root, SymlinkLookupFlags::Follow, "l"), Some(l));
    let mut buf = [0u8; 8];
    let mut used = 0;
    assert_eq!(v.path_read_link(root, "l", &mut buf, &mut used), ErrorNumber::EINVAL);
    let mut st = empty_file_stat();
    assert_eq!(v.path_file_stat_get(root, SymlinkLookupFlags::NoFollow, "l", &mut st), ErrorNumber::SUCCESS);
    assert_eq!(st.filetype, FdFileType::RegularFile);
    assert!(!v.fs.is_symlink(l));
    assert_ne!(d, l);
}
