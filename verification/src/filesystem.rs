//! An in-memory file system: a table of inodes, in which directories map
//! names to inode IDs, regular files hold bytes and symbolic links hold a
//! target path.
//!
//! The abstract view of the file system is a sequence of `InodeView`s, indexed
//! by inode ID; the entries of a directory are viewed as a map from names to
//! inode IDs. Every operation states its effect on that view.

use vstd::prelude::*;
use crate::types::{ErrorNumber, INodeID};

verus! {

/// Mask of the file type bits of a mode.
pub const S_IFMT: u32 = 0o170000;

/// File type bits of a directory.
pub const S_IFDIR: u32 = 0o040000;

/// File type bits of a regular file.
pub const S_IFREG: u32 = 0o100000;

/// File type bits (and whole mode) of a symbolic link.
pub const S_IFLNK: u32 = 0o120000;

/// Mode given to new directories: type bits and permissions `rwxrwxrwx`.
pub const DIRECTORY_MODE: u32 = 0o040777;

/// Mode given to new regular files: type bits and permissions `rw-rw-rw-`.
pub const FILE_MODE: u32 = 0o100666;

/// The byte `/`, which separates path components.
pub const SLASH: u8 = 47;

/// The byte `.`.
pub const DOT: u8 = 46;

/// Whether a mode describes a directory.
pub open spec fn mode_is_dir(mode: u32) -> bool {
    mode & S_IFMT == S_IFDIR
}

/// Whether a mode describes a symbolic link: symbolic links have the mode
/// `S_IFLNK` and no other, the mode by which the device reports a file as a
/// symbolic link.
pub open spec fn mode_is_symlink(mode: u32) -> bool {
    mode == S_IFLNK
}

/// One name in a directory.
pub struct DirEntry {
    pub name: Vec<u8>,
    pub inode_id: INodeID,
}

/// An inode: a directory, a regular file or a symbolic link.
pub struct Inode {
    /// File type bits and permissions.
    pub mode: u32,
    /// Device the inode lives on, if it is not the root device.
    pub mount_id: Option<u64>,
    /// Number of hard links.
    pub nlinks: u64,
    /// Contents of a regular file.
    pub data: Vec<u8>,
    /// Target path of a symbolic link.
    pub symlink: Vec<u8>,
    /// Last data access time.
    pub atime: u64,
    /// Last data modification time.
    pub mtime: u64,
    /// Last status change time.
    pub ctime: u64,
    /// Directory the inode was created in (or last moved to).
    pub parent: INodeID,
    /// Name of the inode in its parent.
    pub name: Vec<u8>,
    /// Entries of a directory.
    pub entries: Vec<DirEntry>,
}

/// The abstract value of an inode.
pub struct InodeView {
    pub mode: u32,
    pub mount_id: Option<u64>,
    pub nlinks: u64,
    pub data: Seq<u8>,
    pub symlink: Seq<u8>,
    pub atime: u64,
    pub mtime: u64,
    pub ctime: u64,
    pub parent: INodeID,
    pub name: Seq<u8>,
    pub entries: Map<Seq<u8>, INodeID>,
}

/// No name occurs twice among the entries.
pub open spec fn unique_names(s: Seq<DirEntry>) -> bool {
    forall|i: int, j: int|
        0 <= i < s.len() && 0 <= j < s.len() && i != j ==> #[trigger] s[i].name@ != #[trigger] s[j].name@
}

/// Some entry has the name `n`.
pub open spec fn has_name(s: Seq<DirEntry>, n: Seq<u8>) -> bool {
    exists|i: int| 0 <= i < s.len() && #[trigger] s[i].name@ == n
}

/// The entries as a map from names to inode IDs.
pub open spec fn entries_map(s: Seq<DirEntry>) -> Map<Seq<u8>, INodeID> {
    Map::new(
        |n: Seq<u8>| has_name(s, n),
        |n: Seq<u8>| s[choose|i: int| 0 <= i < s.len() && #[trigger] s[i].name@ == n].inode_id,
    )
}

impl View for Inode {
    type V = InodeView;

    open spec fn view(&self) -> InodeView {
        InodeView {
            mode: self.mode,
            mount_id: self.mount_id,
            nlinks: self.nlinks,
            data: self.data@,
            symlink: self.symlink@,
            atime: self.atime,
            mtime: self.mtime,
            ctime: self.ctime,
            parent: self.parent,
            name: self.name@,
            entries: entries_map(self.entries@),
        }
    }
}

/// The inode of a new, empty directory.
pub open spec fn new_directory_view(parent: INodeID, name: Seq<u8>) -> InodeView {
    InodeView {
        mode: DIRECTORY_MODE,
        mount_id: None,
        nlinks: 1,
        data: Seq::empty(),
        symlink: Seq::empty(),
        atime: 0,
        mtime: 0,
        ctime: 0,
        parent,
        name,
        entries: Map::empty(),
    }
}

/// The inode of a new, empty regular file.
pub open spec fn new_file_view(parent: INodeID, name: Seq<u8>) -> InodeView {
    InodeView { mode: FILE_MODE, ..new_directory_view(parent, name) }
}

/// The inode of a new symbolic link to `target`.
pub open spec fn new_symlink_view(parent: INodeID, name: Seq<u8>, target: Seq<u8>) -> InodeView {
    InodeView { mode: S_IFLNK, symlink: target, ..new_directory_view(parent, name) }
}

/// Invariant of the abstract file system: the table is not empty and its
/// size fits in `usize`, the root (inode 0) is a directory, and every parent
/// and every directory entry names an inode of the table.
pub open spec fn fs_wf(fs: Seq<InodeView>) -> bool {
    &&& 0 < fs.len() <= usize::MAX
    &&& mode_is_dir(fs[0].mode)
    &&& forall|i: int| 0 <= i < fs.len() ==> #[trigger] fs[i].parent < fs.len()
    &&& forall|i: int, n: Seq<u8>|
        0 <= i < fs.len() && #[trigger] fs[i].entries.contains_key(n) ==> fs[i].entries[n] < fs.len()
}

/// `fs` with the entry `name` of directory `dir` set to `id`.
pub open spec fn set_entry(fs: Seq<InodeView>, dir: INodeID, name: Seq<u8>, id: INodeID) -> Seq<InodeView> {
    fs.update(dir as int, InodeView { entries: fs[dir as int].entries.insert(name, id), ..fs[dir as int] })
}

/// `fs` with the entry `name` of directory `dir` removed.
pub open spec fn remove_entry(fs: Seq<InodeView>, dir: INodeID, name: Seq<u8>) -> Seq<InodeView> {
    fs.update(dir as int, InodeView { entries: fs[dir as int].entries.remove(name), ..fs[dir as int] })
}

/// `fs` with the inode `node` added under the name `name` in directory `parent`.
pub open spec fn add_inode(fs: Seq<InodeView>, parent: INodeID, name: Seq<u8>, node: InodeView) -> Seq<InodeView> {
    set_entry(fs.push(node), parent, name, fs.len() as INodeID)
}

/// `d` cut or padded with zero bytes to length `n`.
pub open spec fn resized(d: Seq<u8>, n: nat) -> Seq<u8> {
    if n <= d.len() {
        d.take(n as int)
    } else {
        d + Seq::new((n - d.len()) as nat, |i: int| 0u8)
    }
}

/// `d` padded with zero bytes to at least length `n`.
pub open spec fn padded(d: Seq<u8>, n: nat) -> Seq<u8> {
    if n <= d.len() {
        d
    } else {
        resized(d, n)
    }
}

/// `d` with the bytes from `offset` on overwritten by `bytes`, after padding
/// `d` with zero bytes so that they fit.
pub open spec fn written(d: Seq<u8>, offset: nat, bytes: Seq<u8>) -> Seq<u8> {
    let p = padded(d, offset + bytes.len());
    p.take(offset as int) + bytes + p.skip((offset + bytes.len()) as int)
}

/// What a read of `len` bytes at `offset` gives: `None` when the range does
/// not lie within the contents.
pub open spec fn read_range(d: Seq<u8>, offset: nat, len: nat) -> Option<Seq<u8>> {
    if offset + len <= d.len() {
        Some(d.subrange(offset as int, (offset + len) as int))
    } else {
        None
    }
}

/// One step of a path walk: the component `comp` looked up from `cur`.
/// The empty component stays, `.` stays in a directory, `..` goes to the
/// parent, any other name must be an entry of the directory.
pub open spec fn lookup_step(fs: Seq<InodeView>, cur: INodeID, comp: Seq<u8>) -> Option<INodeID> {
    if comp.len() == 0 {
        Some(cur)
    } else if !(cur < fs.len()) || !mode_is_dir(fs[cur as int].mode) {
        None
    } else if comp == seq![DOT] {
        Some(cur)
    } else if comp == seq![DOT, DOT] {
        Some(fs[cur as int].parent)
    } else if fs[cur as int].entries.contains_key(comp) {
        Some(fs[cur as int].entries[comp])
    } else {
        None
    }
}

/// The walk of the bytes `rest` from `cur`, with `comp` the component read so far.
pub open spec fn resolve_from(fs: Seq<InodeView>, cur: Option<INodeID>, comp: Seq<u8>, rest: Seq<u8>) -> Option<INodeID>
    decreases rest.len(),
{
    match cur {
        None => None,
        Some(c) => {
            if rest.len() == 0 {
                lookup_step(fs, c, comp)
            } else if rest[0] == SLASH {
                resolve_from(fs, lookup_step(fs, c, comp), Seq::empty(), rest.drop_first())
            } else {
                resolve_from(fs, cur, comp.push(rest[0]), rest.drop_first())
            }
        },
    }
}

/// The inode that `path` names, relative to `start` (or to the root when the
/// path begins with `/`).
pub open spec fn resolve_path(fs: Seq<InodeView>, start: INodeID, path: Seq<u8>) -> Option<INodeID> {
    let from: INodeID = if path.len() > 0 && path[0] == SLASH { 0 } else { start };
    resolve_from(fs, Some(from), Seq::empty(), path)
}

/// The path of `id` built from its parent chain, at most `fuel` steps long.
pub open spec fn path_to(fs: Seq<InodeView>, id: INodeID, fuel: nat) -> Seq<u8>
    decreases fuel,
{
    if fuel == 0 || id == 0 || id >= fs.len() {
        Seq::empty()
    } else {
        path_to(fs, fs[id as int].parent, (fuel - 1) as nat) + seq![SLASH] + fs[id as int].name
    }
}

/// The absolute path of `id`: `/` for the root.
pub open spec fn full_path(fs: Seq<InodeView>, id: INodeID) -> Seq<u8> {
    if id == 0 {
        seq![SLASH]
    } else {
        path_to(fs, id, fs.len())
    }
}

/// Whether a directory holds at least one entry.
pub open spec fn dir_has_entries(v: InodeView) -> bool {
    exists|n: Seq<u8>| #[trigger] v.entries.contains_key(n)
}

/// `n + 1`, or `n` when that would overflow.
pub open spec fn sat_inc(n: u64) -> u64 {
    if n == u64::MAX { n } else { (n + 1) as u64 }
}

/// `n - 1`, or `0` when `n` is `0`.
pub open spec fn sat_dec(n: u64) -> u64 {
    if n == 0 { 0 } else { (n - 1) as u64 }
}

/// The answer to a request to link `target` under `name` in `parent`: a
/// directory cannot be linked, and a name already used stays as it is.
pub open spec fn link_result(fs: Seq<InodeView>, parent: INodeID, target: INodeID, name: Seq<u8>) -> ErrorNumber {
    if mode_is_dir(fs[target as int].mode) {
        ErrorNumber::EPERM
    } else if fs[parent as int].entries.contains_key(name) {
        ErrorNumber::EEXIST
    } else {
        ErrorNumber::SUCCESS
    }
}

/// The file system after a request to link `target` under `name` in `parent`:
/// on success the entry is added and the link count of `target` grows by one.
pub open spec fn link_state(fs: Seq<InodeView>, parent: INodeID, target: INodeID, name: Seq<u8>) -> Seq<InodeView> {
    if link_result(fs, parent, target, name) == ErrorNumber::SUCCESS {
        let fs1 = set_entry(fs, parent, name, target);
        fs1.update(target as int, InodeView { nlinks: sat_inc(fs1[target as int].nlinks), ..fs1[target as int] })
    } else {
        fs
    }
}

/// The answer to a request to remove the entry `name` of `parent`: it must
/// exist, and a directory must be empty.
pub open spec fn unlink_result(fs: Seq<InodeView>, parent: INodeID, name: Seq<u8>) -> ErrorNumber {
    if !fs[parent as int].entries.contains_key(name) {
        ErrorNumber::ENOENT
    } else {
        let t = fs[parent as int].entries[name];
        if mode_is_dir(fs[t as int].mode) && dir_has_entries(fs[t as int]) {
            ErrorNumber::ENOTEMPTY
        } else {
            ErrorNumber::SUCCESS
        }
    }
}

/// The file system after a request to remove the entry `name` of `parent`:
/// on success the entry is gone and the link count of its inode drops by one.
pub open spec fn unlink_state(fs: Seq<InodeView>, parent: INodeID, name: Seq<u8>) -> Seq<InodeView> {
    if unlink_result(fs, parent, name) == ErrorNumber::SUCCESS {
        let t = fs[parent as int].entries[name];
        let fs1 = remove_entry(fs, parent, name);
        fs1.update(t as int, InodeView { nlinks: sat_dec(fs1[t as int].nlinks), ..fs1[t as int] })
    } else {
        fs
    }
}

/// The answer to a request to move the entry `old_name` of `old_dir`.
pub open spec fn rename_result(fs: Seq<InodeView>, old_dir: INodeID, old_name: Seq<u8>) -> ErrorNumber {
    if fs[old_dir as int].entries.contains_key(old_name) {
        ErrorNumber::SUCCESS
    } else {
        ErrorNumber::ENOENT
    }
}

/// The file system after moving the entry `old_name` of `old_dir` to the
/// name `new_name` in `new_dir` (replacing an entry of that name there).
pub open spec fn rename_state(
    fs: Seq<InodeView>,
    old_dir: INodeID,
    old_name: Seq<u8>,
    new_dir: INodeID,
    new_name: Seq<u8>,
) -> Seq<InodeView> {
    if rename_result(fs, old_dir, old_name) == ErrorNumber::SUCCESS {
        let id = fs[old_dir as int].entries[old_name];
        let fs1 = set_entry(remove_entry(fs, old_dir, old_name), new_dir, new_name, id);
        fs1.update(id as int, InodeView { parent: new_dir, name: new_name, ..fs1[id as int] })
    } else {
        fs
    }
}

/// The bytes of `written(d, offset, bytes)`: those of `bytes` in the written
/// range, those of `d` elsewhere, and zero bytes in the padding.
pub proof fn lemma_written_index(d: Seq<u8>, offset: nat, bytes: Seq<u8>)
    ensures
        written(d, offset, bytes).len() == if d.len() >= offset + bytes.len() { d.len() } else { offset + bytes.len() },
        forall|i: int| 0 <= i < written(d, offset, bytes).len() ==> #[trigger] written(d, offset, bytes)[i] == if offset
            <= i < offset + bytes.len() {
            bytes[i - offset]
        } else if i < d.len() {
            d[i]
        } else {
            0u8
        },
{
    let p = padded(d, offset + bytes.len());
    assert(p.len() >= offset + bytes.len());
    assert forall|i: int| 0 <= i < p.len() implies #[trigger] p[i] == if i < d.len() { d[i] } else { 0u8 } by {
        if offset + bytes.len() > d.len() {
            assert(p == d + Seq::new((offset + bytes.len() - d.len()) as nat, |j: int| 0u8));
        }
    }
}

/// Writing `a` at `offset` and then `b` right after it is writing `a + b`
/// at `offset`.
pub proof fn lemma_written_twice(d: Seq<u8>, offset: nat, a: Seq<u8>, b: Seq<u8>)
    ensures
        written(written(d, offset, a), offset + a.len(), b) == written(d, offset, a + b),
{
    let w1 = written(d, offset, a);
    lemma_written_index(d, offset, a);
    lemma_written_index(w1, offset + a.len(), b);
    lemma_written_index(d, offset, a + b);
    assert(written(w1, offset + a.len(), b) =~= written(d, offset, a + b));
}

/// Reading back the range just written gives the bytes written.
pub proof fn lemma_read_written(d: Seq<u8>, offset: nat, bytes: Seq<u8>)
    ensures
        read_range(written(d, offset, bytes), offset, bytes.len()) == Some(bytes),
{
    lemma_written_index(d, offset, bytes);
    assert(written(d, offset, bytes).subrange(offset as int, (offset + bytes.len()) as int) =~= bytes);
}

/// `names` lists the names of the directory `entries`, each exactly once.
pub open spec fn is_listing(entries: Map<Seq<u8>, INodeID>, names: Seq<Seq<u8>>) -> bool {
    &&& forall|i: int| 0 <= i < names.len() ==> entries.contains_key(#[trigger] names[i])
    &&& forall|n: Seq<u8>| entries.contains_key(n) ==> exists|i: int| 0 <= i < names.len() && #[trigger] names[i] == n
    &&& forall|i: int, j: int| 0 <= i < names.len() && 0 <= j < names.len() && i != j ==> #[trigger] names[i] != #[trigger] names[j]
}

/// A path of one component that names an entry: not empty, without `/`,
/// and neither `.` nor `..`.
pub open spec fn simple_name(name: Seq<u8>) -> bool {
    &&& name.len() > 0
    &&& forall|i: int| 0 <= i < name.len() ==> #[trigger] name[i] != SLASH
    &&& name != seq![DOT]
    &&& name != seq![DOT, DOT]
}

/// A walk of bytes with no `/` among them is one step.
pub proof fn lemma_resolve_no_slash(fs: Seq<InodeView>, c: INodeID, comp: Seq<u8>, rest: Seq<u8>)
    requires
        forall|i: int| 0 <= i < rest.len() ==> #[trigger] rest[i] != SLASH,
    ensures
        resolve_from(fs, Some(c), comp, rest) == lookup_step(fs, c, comp + rest),
    decreases rest.len(),
{
    if rest.len() == 0 {
        assert(comp + rest =~= comp);
    } else {
        assert(rest[0] != SLASH);
        let rest2 = rest.drop_first();
        assert forall|i: int| 0 <= i < rest2.len() implies #[trigger] rest2[i] != SLASH by {
            assert(rest2[i] == rest[i + 1]);
        }
        lemma_resolve_no_slash(fs, c, comp.push(rest[0]), rest2);
        assert(comp.push(rest[0]) + rest2 =~= comp + rest);
    }
}

/// A simple name is looked up as one entry of the starting directory.
pub proof fn lemma_resolve_simple(fs: Seq<InodeView>, start: INodeID, name: Seq<u8>)
    requires
        simple_name(name),
    ensures
        resolve_path(fs, start, name) == if start < fs.len() && mode_is_dir(fs[start as int].mode)
            && fs[start as int].entries.contains_key(name) {
            Some(fs[start as int].entries[name])
        } else {
            None
        },
{
    assert(name[0] != SLASH);
    lemma_resolve_no_slash(fs, start, Seq::empty(), name);
    assert(Seq::<u8>::empty() + name =~= name);
}

proof fn lemma_resolve_from_valid(fs: Seq<InodeView>, cur: Option<INodeID>, comp: Seq<u8>, rest: Seq<u8>)
    requires
        fs_wf(fs),
        cur matches Some(c) ==> c < fs.len(),
    ensures
        resolve_from(fs, cur, comp, rest) matches Some(id) ==> id < fs.len(),
    decreases rest.len(),
{
    if let Some(c) = cur {
        if rest.len() > 0 {
            if rest[0] == SLASH {
                lemma_resolve_from_valid(fs, lookup_step(fs, c, comp), Seq::empty(), rest.drop_first());
            } else {
                lemma_resolve_from_valid(fs, cur, comp.push(rest[0]), rest.drop_first());
            }
        }
    }
}

/// Every inode that a path names from an inode of the table is in the table.
pub proof fn lemma_resolve_valid(fs: Seq<InodeView>, start: INodeID, path: Seq<u8>)
    requires
        fs_wf(fs),
        start < fs.len(),
    ensures
        resolve_path(fs, start, path) matches Some(id) ==> id < fs.len(),
{
    lemma_resolve_from_valid(fs, Some(if path.len() > 0 && path[0] == SLASH { 0 } else { start }), Seq::empty(), path);
}

/// The in-memory file system.
pub struct FS {
    pub inodes: Vec<Inode>,
}

impl View for FS {
    type V = Seq<InodeView>;

    open spec fn view(&self) -> Seq<InodeView> {
        self.inodes@.map_values(|n: Inode| n@)
    }
}

proof fn lemma_entries_lookup(s: Seq<DirEntry>, i: int)
    requires
        unique_names(s),
        0 <= i < s.len(),
    ensures
        entries_map(s).contains_key(s[i].name@),
        entries_map(s)[s[i].name@] == s[i].inode_id,
{
    let n = s[i].name@;
    assert(has_name(s, n));
    let j = choose|j: int| 0 <= j < s.len() && #[trigger] s[j].name@ == n;
    assert(j == i);
}

proof fn lemma_entries_push(s: Seq<DirEntry>, e: DirEntry)
    requires
        unique_names(s),
        !has_name(s, e.name@),
    ensures
        unique_names(s.push(e)),
        entries_map(s.push(e)) =~= entries_map(s).insert(e.name@, e.inode_id),
{
    let t = s.push(e);
    assert forall|i: int, j: int|
        0 <= i < t.len() && 0 <= j < t.len() && i != j implies #[trigger] t[i].name@ != #[trigger] t[j].name@ by {
        if i < s.len() && j < s.len() {
            assert(s[i].name@ != s[j].name@);
        } else if i < s.len() {
            assert(s[i].name@ != e.name@);
        } else {
            assert(s[j].name@ != e.name@);
        }
    }
    assert forall|n: Seq<u8>| #[trigger] has_name(t, n) == (has_name(s, n) || n == e.name@) by {
        if has_name(s, n) {
            let i = choose|i: int| 0 <= i < s.len() && #[trigger] s[i].name@ == n;
            assert(t[i].name@ == n);
        }
        if n == e.name@ {
            assert(t[s.len() as int].name@ == n);
        }
        if has_name(t, n) {
            let i = choose|i: int| 0 <= i < t.len() && #[trigger] t[i].name@ == n;
            if i < s.len() {
                assert(s[i].name@ == n);
            }
        }
    }
    assert forall|n: Seq<u8>| #[trigger] entries_map(t).contains_key(n) implies entries_map(t)[n]
        == entries_map(s).insert(e.name@, e.inode_id)[n] by {
        let i = choose|i: int| 0 <= i < t.len() && #[trigger] t[i].name@ == n;
        lemma_entries_lookup(t, i);
        if i < s.len() {
            assert(s[i] == t[i]);
            lemma_entries_lookup(s, i);
        }
    }
}

proof fn lemma_entries_update(s: Seq<DirEntry>, i: int, e: DirEntry)
    requires
        unique_names(s),
        0 <= i < s.len(),
        s[i].name@ == e.name@,
    ensures
        unique_names(s.update(i, e)),
        entries_map(s.update(i, e)) =~= entries_map(s).insert(e.name@, e.inode_id),
{
    let t = s.update(i, e);
    assert forall|a: int, b: int|
        0 <= a < t.len() && 0 <= b < t.len() && a != b implies #[trigger] t[a].name@ != #[trigger] t[b].name@ by {
        assert(s[a].name@ != s[b].name@);
    }
    assert forall|n: Seq<u8>| #[trigger] has_name(t, n) == has_name(s, n) by {
        if has_name(s, n) {
            let j = choose|j: int| 0 <= j < s.len() && #[trigger] s[j].name@ == n;
            assert(t[j].name@ == n);
        }
        if has_name(t, n) {
            let j = choose|j: int| 0 <= j < t.len() && #[trigger] t[j].name@ == n;
            assert(s[j].name@ == n);
        }
    }
    assert(has_name(s, e.name@)) by {
        assert(s[i].name@ == e.name@);
    }
    assert forall|n: Seq<u8>| #[trigger] entries_map(t).contains_key(n) implies entries_map(t)[n]
        == entries_map(s).insert(e.name@, e.inode_id)[n] by {
        let j = choose|j: int| 0 <= j < t.len() && #[trigger] t[j].name@ == n;
        lemma_entries_lookup(t, j);
        if j != i {
            assert(s[j] == t[j]);
            lemma_entries_lookup(s, j);
        }
    }
}

proof fn lemma_entries_remove(s: Seq<DirEntry>, i: int)
    requires
        unique_names(s),
        0 <= i < s.len(),
    ensures
        unique_names(s.remove(i)),
        entries_map(s.remove(i)) =~= entries_map(s).remove(s[i].name@),
{
    let t = s.remove(i);
    let n0 = s[i].name@;
    assert forall|a: int, b: int|
        0 <= a < t.len() && 0 <= b < t.len() && a != b implies #[trigger] t[a].name@ != #[trigger] t[b].name@ by {
        let a2 = if a < i { a } else { a + 1 };
        let b2 = if b < i { b } else { b + 1 };
        assert(t[a] == s[a2]);
        assert(t[b] == s[b2]);
        assert(s[a2].name@ != s[b2].name@);
    }
    assert forall|n: Seq<u8>| #[trigger] has_name(t, n) == (has_name(s, n) && n != n0) by {
        if has_name(s, n) && n != n0 {
            let j = choose|j: int| 0 <= j < s.len() && #[trigger] s[j].name@ == n;
            let j2 = if j < i { j } else { j - 1 };
            assert(t[j2] == s[j]);
        }
        if has_name(t, n) {
            let j = choose|j: int| 0 <= j < t.len() && #[trigger] t[j].name@ == n;
            let j2 = if j < i { j } else { j + 1 };
            assert(t[j] == s[j2]);
            assert(s[j2].name@ == n);
            assert(j2 != i);
            assert(s[i].name@ != s[j2].name@);
        }
    }
    assert forall|n: Seq<u8>| #[trigger] entries_map(t).contains_key(n) implies entries_map(t)[n]
        == entries_map(s).remove(n0)[n] by {
        let j = choose|j: int| 0 <= j < t.len() && #[trigger] t[j].name@ == n;
        lemma_entries_lookup(t, j);
        let j2 = if j < i { j } else { j + 1 };
        assert(t[j] == s[j2]);
        lemma_entries_lookup(s, j2);
    }
}


/// Whether two byte strings are equal.
pub fn bytes_eq(a: &[u8], b: &[u8]) -> (r: bool)
    ensures
        r == (a@ == b@),
{
    if a.len() != b.len() {
        return false;
    }
    let mut i: usize = 0;
    while i < a.len()
        invariant
            a@.len() == b@.len(),
            0 <= i <= a@.len(),
            forall|k: int| 0 <= k < i ==> a@[k] == b@[k],
        decreases a@.len() - i,
    {
        if a[i] != b[i] {
            return false;
        }
        i = i + 1;
    }
    assert(a@ =~= b@);
    true
}

/// A new vector holding the bytes of `src`.
pub fn copy_bytes(src: &[u8]) -> (r: Vec<u8>)
    ensures
        r@ == src@,
{
    let mut r: Vec<u8> = Vec::new();
    append_bytes(&mut r, src);
    assert(r@ =~= src@);
    r
}

/// Appends the bytes of `src` to `dst`.
pub fn append_bytes(dst: &mut Vec<u8>, src: &[u8])
    ensures
        final(dst)@ == old(dst)@ + src@,
{
    let mut i: usize = 0;
    while i < src.len()
        invariant
            0 <= i <= src@.len(),
            dst@ =~= old(dst)@ + src@.take(i as int),
        decreases src@.len() - i,
    {
        dst.push(src[i]);
        i = i + 1;
        assert(dst@ =~= old(dst)@ + src@.take(i as int));
    }
    assert(src@.take(src@.len() as int) =~= src@);
}

/// The position of the entry named `name`, if there is one.
fn find_entry(entries: &Vec<DirEntry>, name: &[u8]) -> (r: Option<usize>)
    ensures
        match r {
            Some(i) => i < entries@.len() && entries@[i as int].name@ == name@,
            None => !has_name(entries@, name@),
        },
{
    let mut i: usize = 0;
    while i < entries.len()
        invariant
            0 <= i <= entries@.len(),
            forall|k: int| 0 <= k < i ==> #[trigger] entries@[k].name@ != name@,
        decreases entries@.len() - i,
    {
        if bytes_eq(entries[i].name.as_slice(), name) {
            return Some(i);
        }
        i = i + 1;
    }
    None
}

/// `new` differs from `old` at most in the contents of inode `id`.
spec fn only_data_changed(new: Seq<Inode>, old: Seq<Inode>, id: int) -> bool {
    &&& new.len() == old.len()
    &&& 0 <= id < old.len()
    &&& forall|j: int| 0 <= j < old.len() && j != id ==> new[j] == old[j]
    &&& new[id].mode == old[id].mode
    &&& new[id].mount_id == old[id].mount_id
    &&& new[id].nlinks == old[id].nlinks
    &&& new[id].symlink == old[id].symlink
    &&& new[id].atime == old[id].atime
    &&& new[id].mtime == old[id].mtime
    &&& new[id].ctime == old[id].ctime
    &&& new[id].parent == old[id].parent
    &&& new[id].name == old[id].name
    &&& new[id].entries == old[id].entries
}

proof fn lemma_only_data_changed(new: Seq<Inode>, old: Seq<Inode>, id: int)
    requires
        only_data_changed(new, old, id),
    ensures
        new.map_values(|n: Inode| n@) =~= old.map_values(|n: Inode| n@).update(
            id,
            InodeView { data: new[id].data@, ..old[id]@ },
        ),
{
}

impl FS {
    /// Invariant of the inode table: the view satisfies `fs_wf`, and no
    /// directory holds a name twice.
    pub open spec fn wf(&self) -> bool {
        &&& self.inodes@.len() > 0
        &&& mode_is_dir(self.inodes@[0].mode)
        &&& forall|i: int| 0 <= i < self.inodes@.len() ==> #[trigger] self.inodes@[i].parent < self.inodes@.len()
        &&& forall|i: int, j: int|
            0 <= i < self.inodes@.len() && 0 <= j < self.inodes@[i].entries@.len()
                ==> #[trigger] self.inodes@[i].entries@[j].inode_id < self.inodes@.len()
        &&& forall|i: int| 0 <= i < self.inodes@.len() ==> unique_names(#[trigger] self.inodes@[i].entries@)
    }

    /// The invariant of the table gives that of its view.
    pub proof fn lemma_wf_view(&self)
        requires
            self.wf(),
        ensures
            fs_wf(self@),
    {
        let v = self@;
        assert(self.inodes.len() == self.inodes@.len());
        assert forall|i: int, n: Seq<u8>| 0 <= i < v.len() && #[trigger] v[i].entries.contains_key(n) implies v[i].entries[n]
            < v.len() by {
            let es = self.inodes@[i].entries@;
            let j = choose|j: int| 0 <= j < es.len() && #[trigger] es[j].name@ == n;
            lemma_entries_lookup(es, j);
            assert(self.inodes@[i].entries@[j].inode_id < self.inodes@.len());
        }
    }

    /// A file system that holds only the root directory.
    pub fn new() -> (fs: FS)
        ensures
            fs.wf(),
            fs@ == seq![new_directory_view(0, Seq::empty())],
    {
        let root = Inode {
            mode: DIRECTORY_MODE,
            mount_id: None,
            nlinks: 1,
            data: Vec::new(),
            symlink: Vec::new(),
            atime: 0,
            mtime: 0,
            ctime: 0,
            parent: 0,
            name: Vec::new(),
            entries: Vec::new(),
        };
        let mut inodes: Vec<Inode> = Vec::new();
        inodes.push(root);
        let fs = FS { inodes };
        assert(mode_is_dir(DIRECTORY_MODE)) by (bit_vector);
        assert(entries_map(Seq::<DirEntry>::empty()) =~= Map::empty());
        assert(fs@ =~= seq![new_directory_view(0, Seq::empty())]);
        fs
    }

    /// Number of inodes.
    pub fn len(&self) -> (r: usize)
        ensures
            r == self@.len(),
    {
        self.inodes.len()
    }

    /// The inode `id`.
    pub fn get_inode(&self, id: INodeID) -> (r: &Inode)
        requires
            id < self@.len(),
        ensures
            *r == self.inodes@[id as int],
            r@ == self@[id as int],
    {
        &self.inodes[id]
    }

    /// Whether the inode `id` is a directory.
    pub fn is_directory(&self, id: INodeID) -> (r: bool)
        requires
            id < self@.len(),
        ensures
            r == mode_is_dir(self@[id as int].mode),
    {
        self.inodes[id].mode & S_IFMT == S_IFDIR
    }

    /// Whether the inode `id` is a symbolic link.
    pub fn is_symlink(&self, id: INodeID) -> (r: bool)
        requires
            id < self@.len(),
        ensures
            r == mode_is_symlink(self@[id as int].mode),
    {
        self.inodes[id].mode == S_IFLNK
    }

    /// Size in bytes of the contents of the inode `id`.
    pub fn get_size(&self, id: INodeID) -> (r: usize)
        requires
            id < self@.len(),
        ensures
            r == self@[id as int].data.len(),
    {
        self.inodes[id].data.len()
    }

    /// Sets the entry `name` of directory `dir` to `id`, replacing the entry
    /// of that name if there is one.
    fn set_entry_exec(&mut self, dir: INodeID, name: &[u8], id: INodeID)
        requires
            old(self).wf(),
            dir < old(self)@.len(),
            id < old(self)@.len(),
        ensures
            final(self).wf(),
            final(self).inodes@.len() == old(self).inodes@.len(),
            final(self)@ == set_entry(old(self)@, dir, name@, id),
    {
        let ghost old_entries = self.inodes@[dir as int].entries@;
        match find_entry(&self.inodes[dir].entries, name) {
            Some(i) => {
                self.inodes[dir].entries[i].inode_id = id;
                proof {
                    lemma_entries_update(old_entries, i as int, self.inodes@[dir as int].entries@[i as int]);
                    assert(self.inodes@[dir as int].entries@ =~= old_entries.update(i as int, self.inodes@[dir as int].entries@[i as int]));
                }
            },
            None => {
                let e = DirEntry { name: copy_bytes(name), inode_id: id };
                proof {
                    lemma_entries_push(old_entries, e);
                }
                self.inodes[dir].entries.push(e);
            },
        }
        assert(self@ =~= set_entry(old(self)@, dir, name@, id));
    }

    /// Adds the inode `node` to the table, under the name `name` in directory
    /// `parent`, and returns its ID.
    fn add_inode_exec(&mut self, parent: INodeID, name: &[u8], node: Inode) -> (id: INodeID)
        requires
            old(self).wf(),
            parent < old(self)@.len(),
            node.parent == parent,
            node.entries@.len() == 0,
        ensures
            final(self).wf(),
            id == old(self)@.len(),
            final(self)@ == add_inode(old(self)@, parent, name@, node@),
    {
        let id = self.inodes.len();
        self.inodes.push(node);
        assert(self@ =~= old(self)@.push(node@));
        assert forall|i: int| 0 <= i < self.inodes@.len() implies unique_names(#[trigger] self.inodes@[i].entries@) by {
            if i < old(self)@.len() {
                assert(self.inodes@[i] == old(self).inodes@[i]);
            }
        }
        self.set_entry_exec(parent, name, id);
        id
    }

    /// Creates an empty directory named `name` in directory `parent`.
    pub fn create_directory(&mut self, name: &[u8], parent: INodeID) -> (id: INodeID)
        requires
            old(self).wf(),
            parent < old(self)@.len(),
        ensures
            final(self).wf(),
            id == old(self)@.len(),
            final(self)@ == add_inode(old(self)@, parent, name@, new_directory_view(parent, name@)),
    {
        let node = Inode {
            mode: DIRECTORY_MODE,
            mount_id: None,
            nlinks: 1,
            data: Vec::new(),
            symlink: Vec::new(),
            atime: 0,
            mtime: 0,
            ctime: 0,
            parent,
            name: copy_bytes(name),
            entries: Vec::new(),
        };
        assert(entries_map(node.entries@) =~= Map::empty());
        assert(node@ =~= new_directory_view(parent, name@));
        self.add_inode_exec(parent, name, node)
    }

    /// Creates an empty regular file named `name` in directory `parent`.
    pub fn create_file(&mut self, name: &[u8], parent: INodeID) -> (id: INodeID)
        requires
            old(self).wf(),
            parent < old(self)@.len(),
        ensures
            final(self).wf(),
            id == old(self)@.len(),
            final(self)@ == add_inode(old(self)@, parent, name@, new_file_view(parent, name@)),
    {
        let node = Inode {
            mode: FILE_MODE,
            mount_id: None,
            nlinks: 1,
            data: Vec::new(),
            symlink: Vec::new(),
            atime: 0,
            mtime: 0,
            ctime: 0,
            parent,
            name: copy_bytes(name),
            entries: Vec::new(),
        };
        assert(entries_map(node.entries@) =~= Map::empty());
        assert(node@ =~= new_file_view(parent, name@));
        self.add_inode_exec(parent, name, node)
    }

    /// Creates a symbolic link named `name` in directory `parent`, pointing
    /// to `target`.
    pub fn create_symlink(&mut self, name: &[u8], parent: INodeID, target: &[u8]) -> (id: INodeID)
        requires
            old(self).wf(),
            parent < old(self)@.len(),
        ensures
            final(self).wf(),
            id == old(self)@.len(),
            final(self)@ == add_inode(old(self)@, parent, name@, new_symlink_view(parent, name@, target@)),
    {
        let node = Inode {
            mode: S_IFLNK,
            mount_id: None,
            nlinks: 1,
            data: Vec::new(),
            symlink: copy_bytes(target),
            atime: 0,
            mtime: 0,
            ctime: 0,
            parent,
            name: copy_bytes(name),
            entries: Vec::new(),
        };
        assert(entries_map(node.entries@) =~= Map::empty());
        assert(node@ =~= new_symlink_view(parent, name@, target@));
        self.add_inode_exec(parent, name, node)
    }

    /// Cuts or pads with zero bytes the contents of `id` to `size` bytes.
    pub fn change_size(&mut self, id: INodeID, size: usize)
        requires
            old(self).wf(),
            id < old(self)@.len(),
        ensures
            final(self).wf(),
            final(self)@ == old(self)@.update(
                id as int,
                InodeView { data: resized(old(self)@[id as int].data, size as nat), ..old(self)@[id as int] },
            ),
    {
        self.resize_data(id, size);
        proof {
            lemma_only_data_changed(self.inodes@, old(self).inodes@, id as int);
        }
        assert(self@ =~= old(self)@.update(
            id as int,
            InodeView { data: resized(old(self)@[id as int].data, size as nat), ..old(self)@[id as int] },
        ));
    }

    fn resize_data(&mut self, id: INodeID, size: usize)
        requires
            old(self).wf(),
            id < old(self)@.len(),
        ensures
            final(self).wf(),
            only_data_changed(final(self).inodes@, old(self).inodes@, id as int),
            final(self).inodes@[id as int].data@ == resized(old(self).inodes@[id as int].data@, size as nat),
    {
        let cur = self.inodes[id].data.len();
        if size <= cur {
            self.inodes[id].data.truncate(size);
        } else {
            let mut k: usize = cur;
            while k < size
                invariant
                    cur <= k <= size,
                    cur == old(self).inodes@[id as int].data@.len(),
                    only_data_changed(self.inodes@, old(self).inodes@, id as int),
                    self.inodes@[id as int].data@ =~= resized(old(self).inodes@[id as int].data@, k as nat),
                decreases size - k,
            {
                let ghost prev = self.inodes@[id as int].data@;
                self.inodes[id].data.push(0u8);
                k = k + 1;
                assert(self.inodes@[id as int].data@ =~= resized(old(self).inodes@[id as int].data@, k as nat)) by {
                    assert(self.inodes@[id as int].data@ == prev.push(0u8));
                    assert forall|i: int| 0 <= i < k implies #[trigger] self.inodes@[id as int].data@[i]
                        == resized(old(self).inodes@[id as int].data@, k as nat)[i] by {
                        if i < k - 1 {
                            assert(prev[i] == resized(old(self).inodes@[id as int].data@, (k - 1) as nat)[i]);
                        }
                    }
                }
            }
        }
        assert(self.inodes@[id as int].data@ =~= resized(old(self).inodes@[id as int].data@, size as nat));
    }

    /// The `len` bytes of `id` from `offset` on, or `None` when they do not
    /// lie within its contents.
    pub fn read(&self, id: INodeID, offset: usize, len: usize) -> (r: Option<Vec<u8>>)
        requires
            id < self@.len(),
        ensures
            match r {
                Some(v) => read_range(self@[id as int].data, offset as nat, len as nat) == Some(v@),
                None => read_range(self@[id as int].data, offset as nat, len as nat) is None,
            },
            r is Some ==> offset + len <= usize::MAX,
    {
        let data = &self.inodes[id].data;
        if offset > data.len() || len > data.len() - offset {
            return None;
        }
        let mut out: Vec<u8> = Vec::new();
        let mut k: usize = 0;
        while k < len
            invariant
                offset + len <= data@.len(),
                data@.len() <= usize::MAX,
                0 <= k <= len,
                out@ =~= data@.subrange(offset as int, offset + k),
            decreases len - k,
        {
            out.push(data[offset + k]);
            k = k + 1;
            assert(out@ =~= data@.subrange(offset as int, offset + k));
        }
        Some(out)
    }

    /// Writes `buf` into the contents of `id` from `offset` on, padding the
    /// contents with zero bytes first when they are shorter than the end of
    /// the write.
    pub fn write_arr(&mut self, id: INodeID, offset: usize, buf: &[u8])
        requires
            old(self).wf(),
            id < old(self)@.len(),
            offset + buf@.len() <= usize::MAX,
        ensures
            final(self).wf(),
            final(self)@ == old(self)@.update(
                id as int,
                InodeView { data: written(old(self)@[id as int].data, offset as nat, buf@), ..old(self)@[id as int] },
            ),
    {
        let end = offset + buf.len();
        if self.inodes[id].data.len() < end {
            self.resize_data(id, end);
        }
        let ghost padded_data = padded(old(self)@[id as int].data, end as nat);
        let ghost mid = self.inodes@;
        assert(only_data_changed(mid, old(self).inodes@, id as int));
        assert(mid[id as int].data@ =~= padded_data);
        assert(padded_data.take(offset as int) + buf@.take(0) + padded_data.skip(offset as int) =~= padded_data);
        let mut k: usize = 0;
        while k < buf.len()
            invariant
                end == offset + buf@.len(),
                0 <= k <= buf@.len(),
                padded_data.len() >= end,
                only_data_changed(self.inodes@, old(self).inodes@, id as int),
                self.inodes@[id as int].data@
                    == padded_data.take(offset as int) + buf@.take(k as int) + padded_data.skip(offset + k),
            decreases buf@.len() - k,
        {
            let ghost before = self.inodes@[id as int].data@;
            assert(before.len() == padded_data.len());
            self.inodes[id].data.set(offset + k, buf[k]);
            k = k + 1;
            assert(self.inodes@[id as int].data@
                =~= padded_data.take(offset as int) + buf@.take(k as int) + padded_data.skip(offset + k));
        }
        assert(buf@.take(buf@.len() as int) =~= buf@);
        proof {
            lemma_only_data_changed(self.inodes@, old(self).inodes@, id as int);
        }
        assert(self.inodes@[id as int].data@ =~= written(old(self)@[id as int].data, offset as nat, buf@));
        assert(self@ =~= old(self)@.update(
            id as int,
            InodeView { data: written(old(self)@[id as int].data, offset as nat, buf@), ..old(self)@[id as int] },
        ));
    }

    /// Sets the last access time of `id`.
    pub fn set_atime(&mut self, id: INodeID, t: u64)
        requires
            old(self).wf(),
            id < old(self)@.len(),
        ensures
            final(self).wf(),
            final(self)@ == old(self)@.update(id as int, InodeView { atime: t, ..old(self)@[id as int] }),
    {
        self.inodes[id].atime = t;
        assert(self@ =~= old(self)@.update(id as int, InodeView { atime: t, ..old(self)@[id as int] }));
    }

    /// Sets the last modification time of `id`.
    pub fn set_mtime(&mut self, id: INodeID, t: u64)
        requires
            old(self).wf(),
            id < old(self)@.len(),
        ensures
            final(self).wf(),
            final(self)@ == old(self)@.update(id as int, InodeView { mtime: t, ..old(self)@[id as int] }),
    {
        self.inodes[id].mtime = t;
        assert(self@ =~= old(self)@.update(id as int, InodeView { mtime: t, ..old(self)@[id as int] }));
    }

    /// One step of a path walk from `cur` (see `lookup_step`).
    fn step(&self, cur: INodeID, comp: &[u8]) -> (r: Option<INodeID>)
        requires
            self.wf(),
            cur < self@.len(),
        ensures
            r == lookup_step(self@, cur, comp@),
            r matches Some(id) ==> id < self@.len(),
    {
        if comp.len() == 0 {
            return Some(cur);
        }
        if !self.is_directory(cur) {
            return None;
        }
        if comp.len() == 1 && comp[0] == DOT {
            assert(comp@ =~= seq![DOT]);
            return Some(cur);
        }
        assert(comp@ != seq![DOT]);
        if comp.len() == 2 && comp[0] == DOT && comp[1] == DOT {
            assert(comp@ =~= seq![DOT, DOT]);
            return Some(self.inodes[cur].parent);
        }
        assert(comp@ != seq![DOT, DOT]);
        match find_entry(&self.inodes[cur].entries, comp) {
            Some(i) => {
                proof {
                    lemma_entries_lookup(self.inodes@[cur as int].entries@, i as int);
                }
                Some(self.inodes[cur].entries[i].inode_id)
            },
            None => None,
        }
    }

    /// The inode that `path` names, relative to `start` (see `resolve_path`).
    pub fn search(&self, start: INodeID, path: &[u8]) -> (r: Option<INodeID>)
        requires
            self.wf(),
            start < self@.len(),
        ensures
            r == resolve_path(self@, start, path@),
            r matches Some(id) ==> id < self@.len(),
    {
        let mut cur: INodeID = if path.len() > 0 && path[0] == SLASH {
            0
        } else {
            start
        };
        let mut comp: Vec<u8> = Vec::new();
        let mut i: usize = 0;
        assert(path@.skip(0) =~= path@);
        while i < path.len()
            invariant
                self.wf(),
                cur < self@.len(),
                0 <= i <= path@.len(),
                resolve_path(self@, start, path@) == resolve_from(self@, Some(cur), comp@, path@.skip(i as int)),
            decreases path@.len() - i,
        {
            assert(path@.skip(i as int).drop_first() =~= path@.skip(i + 1));
            assert(path@.skip(i as int)[0] == path@[i as int]);
            if path[i] == SLASH {
                match self.step(cur, comp.as_slice()) {
                    None => {
                        assert(resolve_from(self@, None, Seq::empty(), path@.skip(i + 1)) == None::<INodeID>);
                        return None;
                    },
                    Some(next) => {
                        cur = next;
                        comp = Vec::new();
                        assert(comp@ =~= Seq::<u8>::empty());
                    },
                }
            } else {
                comp.push(path[i]);
            }
            i = i + 1;
        }
        assert(path@.skip(i as int) =~= Seq::<u8>::empty());
        self.step(cur, comp.as_slice())
    }

    /// The inode that the symbolic link `link` points to, with its target
    /// resolved relative to the directory `parent`.
    pub fn follow_symlink(&self, parent: INodeID, link: INodeID) -> (r: Option<INodeID>)
        requires
            self.wf(),
            parent < self@.len(),
            link < self@.len(),
        ensures
            r == resolve_path(self@, parent, self@[link as int].symlink),
            r matches Some(id) ==> id < self@.len(),
    {
        self.search(parent, self.inodes[link].symlink.as_slice())
    }

    fn path_to_exec(&self, id: INodeID, fuel: usize) -> (r: Vec<u8>)
        requires
            self.wf(),
            id < self@.len(),
        ensures
            r@ == path_to(self@, id, fuel as nat),
        decreases fuel,
    {
        if fuel == 0 || id == 0 {
            return Vec::new();
        }
        let mut p = self.path_to_exec(self.inodes[id].parent, fuel - 1);
        p.push(SLASH);
        append_bytes(&mut p, self.inodes[id].name.as_slice());
        p
    }

    /// The absolute path of `id` (see `full_path`).
    pub fn get_full_path(&self, id: INodeID) -> (r: Vec<u8>)
        requires
            self.wf(),
            id < self@.len(),
        ensures
            r@ == full_path(self@, id),
    {
        if id == 0 {
            let mut r: Vec<u8> = Vec::new();
            r.push(SLASH);
            assert(r@ =~= seq![SLASH]);
            r
        } else {
            self.path_to_exec(id, self.inodes.len())
        }
    }

    /// Removes the entry `name` of `dir`, if there is one.
    pub fn unlink_from_dir(&mut self, dir: INodeID, name: &[u8])
        requires
            old(self).wf(),
            dir < old(self)@.len(),
        ensures
            final(self).wf(),
            final(self).inodes@.len() == old(self).inodes@.len(),
            final(self)@ == remove_entry(old(self)@, dir, name@),
    {
        let ghost old_entries = self.inodes@[dir as int].entries@;
        match find_entry(&self.inodes[dir].entries, name) {
            Some(i) => {
                proof {
                    lemma_entries_remove(old_entries, i as int);
                }
                self.inodes[dir].entries.remove(i);
                assert forall|a: int, j: int|
                    0 <= a < self.inodes@.len() && 0 <= j < self.inodes@[a].entries@.len()
                        implies #[trigger] self.inodes@[a].entries@[j].inode_id < self.inodes@.len() by {
                    if a == dir {
                        let j2 = if j < i { j } else { j + 1 };
                        assert(self.inodes@[a].entries@[j] == old_entries[j2]);
                    }
                }
            },
            None => {
                assert(entries_map(old_entries).remove(name@) =~= entries_map(old_entries));
            },
        }
        assert(self@ =~= remove_entry(old(self)@, dir, name@));
    }

    /// Links `target` under `name` in `parent` (see `link_result`, `link_state`).
    pub fn link(&mut self, parent: INodeID, target: INodeID, name: &[u8]) -> (r: ErrorNumber)
        requires
            old(self).wf(),
            parent < old(self)@.len(),
            target < old(self)@.len(),
        ensures
            final(self).wf(),
            r == link_result(old(self)@, parent, target, name@),
            final(self)@ == link_state(old(self)@, parent, target, name@),
    {
        if self.is_directory(target) {
            return ErrorNumber::EPERM;
        }
        if find_entry(&self.inodes[parent].entries, name).is_some() {
            return ErrorNumber::EEXIST;
        }
        self.set_entry_exec(parent, name, target);
        let ghost fs1 = self@;
        let n = self.inodes[target].nlinks;
        self.inodes[target].nlinks = n.saturating_add(1);
        assert(self@ =~= fs1.update(target as int, InodeView { nlinks: sat_inc(fs1[target as int].nlinks), ..fs1[target as int] }));
        ErrorNumber::SUCCESS
    }

    /// Removes the entry `name` of `parent` (see `unlink_result`, `unlink_state`).
    pub fn unlink(&mut self, parent: INodeID, name: &[u8]) -> (r: ErrorNumber)
        requires
            old(self).wf(),
            parent < old(self)@.len(),
        ensures
            final(self).wf(),
            r == unlink_result(old(self)@, parent, name@),
            final(self)@ == unlink_state(old(self)@, parent, name@),
    {
        let i = match find_entry(&self.inodes[parent].entries, name) {
            Some(i) => i,
            None => {
                return ErrorNumber::ENOENT;
            },
        };
        proof {
            lemma_entries_lookup(self.inodes@[parent as int].entries@, i as int);
        }
        let t = self.inodes[parent].entries[i].inode_id;
        if self.is_directory(t) && self.inodes[t].entries.len() > 0 {
            proof {
                lemma_entries_lookup(self.inodes@[t as int].entries@, 0);
                assert(self@[t as int].entries.contains_key(self.inodes@[t as int].entries@[0].name@));
            }
            return ErrorNumber::ENOTEMPTY;
        }
        proof {
            if mode_is_dir(self@[t as int].mode) {
                assert(entries_map(self.inodes@[t as int].entries@) =~= Map::empty());
            }
        }
        self.unlink_from_dir(parent, name);
        let ghost fs1 = self@;
        let n = self.inodes[t].nlinks;
        self.inodes[t].nlinks = n.saturating_sub(1);
        assert(self@ =~= fs1.update(t as int, InodeView { nlinks: sat_dec(fs1[t as int].nlinks), ..fs1[t as int] }));
        ErrorNumber::SUCCESS
    }

    /// Moves the entry `old_name` of `old_dir` to `new_name` in `new_dir`
    /// (see `rename_result`, `rename_state`).
    pub fn rename(&mut self, old_dir: INodeID, old_name: &[u8], new_dir: INodeID, new_name: &[u8]) -> (r: ErrorNumber)
        requires
            old(self).wf(),
            old_dir < old(self)@.len(),
            new_dir < old(self)@.len(),
        ensures
            final(self).wf(),
            r == rename_result(old(self)@, old_dir, old_name@),
            final(self)@ == rename_state(old(self)@, old_dir, old_name@, new_dir, new_name@),
    {
        let i = match find_entry(&self.inodes[old_dir].entries, old_name) {
            Some(i) => i,
            None => {
                return ErrorNumber::ENOENT;
            },
        };
        proof {
            lemma_entries_lookup(self.inodes@[old_dir as int].entries@, i as int);
        }
        let id = self.inodes[old_dir].entries[i].inode_id;
        self.unlink_from_dir(old_dir, old_name);
        self.set_entry_exec(new_dir, new_name, id);
        let ghost fs1 = self@;
        self.inodes[id].parent = new_dir;
        self.inodes[id].name = copy_bytes(new_name);
        assert(self@ =~= fs1.update(id as int, InodeView { parent: new_dir, name: new_name@, ..fs1[id as int] }));
        ErrorNumber::SUCCESS
    }

    /// The names of the entries of directory `id`, each once, in the order
    /// in which they are stored.
    pub fn read_dir_from_inode(&self, id: INodeID) -> (r: Vec<Vec<u8>>)
        requires
            self.wf(),
            id < self@.len(),
        ensures
            r@.map_values(|v: Vec<u8>| v@) == self.dir_names(id),
            is_listing(self@[id as int].entries, self.dir_names(id)),
    {
        let entries = &self.inodes[id].entries;
        let mut r: Vec<Vec<u8>> = Vec::new();
        let mut k: usize = 0;
        while k < entries.len()
            invariant
                entries@ == self.inodes@[id as int].entries@,
                unique_names(entries@),
                0 <= k <= entries@.len(),
                r@.len() == k,
                forall|i: int| 0 <= i < k ==> #[trigger] r@[i]@ == entries@[i].name@,
            decreases entries@.len() - k,
        {
            r.push(copy_bytes(entries[k].name.as_slice()));
            k = k + 1;
        }
        let ghost names = r@.map_values(|v: Vec<u8>| v@);
        let ghost m = self@[id as int].entries;
        assert forall|i: int| 0 <= i < names.len() implies m.contains_key(#[trigger] names[i]) by {
            lemma_entries_lookup(entries@, i);
        }
        assert forall|n: Seq<u8>| m.contains_key(n) implies exists|i: int| 0 <= i < names.len() && #[trigger] names[i] == n by {
            let i = choose|i: int| 0 <= i < entries@.len() && #[trigger] entries@[i].name@ == n;
            assert(names[i] == n);
        }
        assert forall|i: int, j: int| 0 <= i < names.len() && 0 <= j < names.len() && i != j implies #[trigger] names[i]
            != #[trigger] names[j] by {
            assert(entries@[i].name@ != entries@[j].name@);
        }
        assert(names =~= self.dir_names(id));
        r
    }

    /// The names of the entries of directory `id`, in the order in which
    /// they are stored.
    pub open spec fn dir_names(&self, id: INodeID) -> Seq<Seq<u8>> {
        self.inodes@[id as int].entries@.map_values(|e: DirEntry| e.name@)
    }
}

} // verus!
