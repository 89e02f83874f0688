use v9p::filesystem::{FS, S_IFLNK};
use v9p::types::ErrorNumber;

#[test]
fn root_only() {
    let fs = FS::new();
    assert_eq!(fs.len(), 1);
    assert!(fs.is_directory(0));
    assert!(!fs.is_symlink(0));
    assert_eq!(fs.get_full_path(0), b"/".to_vec());
    assert_eq!(fs.search(0, b""), Some(0));
    assert_eq!(fs.search(0, b"/"), Some(0));
    assert_eq!(fs.search(0, b".."), Some(0));
}

#[test]
fn search_walks_components() {
    let mut fs = FS::new();
    let a = fs.create_directory(b"a", 0);
    let b = fs.create_directory(b"b", a);
    let f = fs.create_file(b"f", b);
    assert_eq!((a, b, f), (1, 2, 3));
    assert_eq!(fs.search(0, b"a/b/f"), Some(3));
    assert_eq!(fs.search(0, b"a//b/./f"), Some(3));
    assert_eq!(fs.search(b, b"../b/f"), Some(3));
    assert_eq!(fs.search(b, b"/a"), Some(1));
    assert_eq!(fs.search(0, b"a/b/f/"), Some(3));
    // a file has no entries, not even `.`
    assert_eq!(fs.search(0, b"a/b/f/."), None);
    assert_eq!(fs.search(0, b"a/x"), None);
    assert_eq!(fs.get_full_path(f), b"/a/b/f".to_vec());
}

#[test]
fn create_replaces_an_entry_of_the_same_name() {
    let mut fs = FS::new();
    let first = fs.create_file(b"x", 0);
    let second = fs.create_directory(b"x", 0);
    assert_eq!(fs.search(0, b"x"), Some(second));
    assert_ne!(first, second);
    assert_eq!(fs.read_dir_from_inode(0), vec![b"x".to_vec()]);
}

#[test]
fn contents_read_write_resize() {
    let mut fs = FS::new();
    let f = fs.create_file(b"f", 0);
    fs.write_arr(f, 2, b"hi");
    assert_eq!(fs.get_inode(f).data, vec![0, 0, b'h', b'i']);
    assert_eq!(fs.read(f, 1, 3), Some(vec![0, b'h', b'i']));
    assert_eq!(fs.read(f, 4, 0), Some(Vec::new()));
    assert_eq!(fs.read(f, 3, 2), None);
    assert_eq!(fs.read(f, usize::MAX, 2), None);
    fs.write_arr(f, 0, b"abc");
    assert_eq!(fs.get_inode(f).data, vec![b'a', b'b', b'c', b'i']);
    fs.change_size(f, 1);
    assert_eq!(fs.get_inode(f).data, vec![b'a']);
    fs.change_size(f, 3);
    assert_eq!(fs.get_inode(f).data, vec![b'a', 0, 0]);
}

#[test]
fn symlinks() {
    let mut fs = FS::new();
    let d = fs.create_directory(b"d", 0);
    let t = fs.create_file(b"t", d);
    let l = fs.create_symlink(b"l", 0, b"d/t");
    assert!(fs.is_symlink(l));
    assert_eq!(fs.get_inode(l).mode, S_IFLNK);
    assert_eq!(fs.follow_symlink(0, l), Some(t));
    let abs = fs.create_symlink(b"abs", d, b"/d");
    assert_eq!(fs.follow_symlink(d, abs), Some(d));
}

#[test]
fn link_unlink_rename() {
    let mut fs = FS::new();
    let d = fs.create_directory(b"d", 0);
    let f = fs.create_file(b"f", 0);
    assert_eq!(fs.link(d, f, b"g"), ErrorNumber::SUCCESS);
    assert_eq!(fs.get_inode(f).nlinks, 2);
    assert_eq!(fs.link(d, f, b"g"), ErrorNumber::EEXIST);
    assert_eq!(fs.link(0, d, b"e"), ErrorNumber::EPERM);
    assert_eq!(fs.unlink(0, b"d"), ErrorNumber::ENOTEMPTY);
    assert_eq!(fs.unlink(0, b"nope"), ErrorNumber::ENOENT);
    assert_eq!(fs.unlink(d, b"g"), ErrorNumber::SUCCESS);
    assert_eq!(fs.get_inode(f).nlinks, 1);
    assert_eq!(fs.unlink(0, b"d"), ErrorNumber::SUCCESS);
    assert_eq!(fs.search(0, b"d"), None);
    assert_eq!(fs.rename(0, b"f", 0, b"f2"), ErrorNumber::SUCCESS);
    assert_eq!(fs.search(0, b"f2"), Some(f));
    assert_eq!(fs.get_inode(f).name, b"f2".to_vec());
    assert_eq!(fs.rename(0, b"f", 0, b"f3"), ErrorNumber::ENOENT);
    fs.unlink_from_dir(0, b"f2");
    assert_eq!(fs.search(0, b"f2"), None);
}

#[test]
fn times() {
    let mut fs = FS::new();
    let f = fs.create_file(b"f", 0);
    fs.set_atime(f, 10);
    fs.set_mtime(f, 20);
    assert_eq!((fs.get_inode(f).atime, fs.get_inode(f).mtime, fs.get_inode(f).ctime), (10, 20, 0));
}

#[test]
fn locate_splits_a_path() {
    let mut fs = FS::new();
    let a = fs.create_directory(b"a", 0);
    let f = fs.create_file(b"f", a);
    assert_eq!(fs.locate(0, b"a/new"), Ok((a, b"new".to_vec())));
    assert_eq!(fs.locate(a, b"new"), Ok((a, b"new".to_vec())));
    assert_eq!(fs.locate(a, b"/x"), Ok((0, b"x".to_vec())));
    assert_eq!(fs.locate(a, b"../a/./f"), Ok((a, b"f".to_vec())));
    assert_eq!(fs.locate(0, b"a/"), Err(ErrorNumber::EINVAL));
    assert_eq!(fs.locate(0, b"a/.."), Err(ErrorNumber::EINVAL));
    assert_eq!(fs.locate(0, b"b/x"), Err(ErrorNumber::ENOENT));
    assert_eq!(fs.locate(0, b"a/f/x"), Err(ErrorNumber::ENOTDIR));
    assert_eq!(fs.entry_of(0, b"a/new"), (a, b"new".to_vec()));
    assert_eq!(fs.entry_of(a, b"b/x"), (a, b"b/x".to_vec()));
    assert_eq!(fs.entry_of(0, b"."), (0, b".".to_vec()));
    assert_eq!(f, 2);
}
