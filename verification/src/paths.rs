//! Paths that name an entry to make, move or remove: the directory that the
//! part before the last component names, and the last component itself;
//! where a path stands for no such pair, the whole path names an entry of
//! the starting directory.
//!
//! The lemmas here relate the walk of a whole path to the walk of its
//! directory part, and tell which changes of the file system keep the
//! directories that a path walks to.

use vstd::prelude::*;
use crate::filesystem::{
    FS, InodeView, SLASH, DOT, simple_name, add_inode, set_entry, remove_entry, rename_state, rename_result, mode_is_dir, lookup_step, resolve_from, resolve_path,
    lemma_resolve_no_slash, copy_bytes,
};
use crate::types::{ErrorNumber, INodeID};

verus! {

/// Where the last component of `path` starts: just past its last `/`, or 0
/// when it has none.
pub open spec fn last_slash_end(path: Seq<u8>) -> nat
    decreases path.len(),
{
    if path.len() == 0 {
        0
    } else if path.last() == SLASH {
        path.len()
    } else {
        last_slash_end(path.drop_last())
    }
}

/// The part of `path` before its last component, with the `/` that ends it.
pub open spec fn dir_part(path: Seq<u8>) -> Seq<u8> {
    path.take(last_slash_end(path) as int)
}

/// The last component of `path`.
pub open spec fn last_component(path: Seq<u8>) -> Seq<u8> {
    path.skip(last_slash_end(path) as int)
}

/// The directory and the name that `path` (relative to `start`) stands for
/// when an entry is made or removed: the last component must be a simple
/// name (`EINVAL`), and the part before it must name an inode (`ENOENT`)
/// that is a directory (`ENOTDIR`).
pub open spec fn locate(fs: Seq<InodeView>, start: INodeID, path: Seq<u8>) -> Result<(INodeID, Seq<u8>), ErrorNumber> {
    let name = last_component(path);
    if !simple_name(name) {
        Err(ErrorNumber::EINVAL)
    } else {
        match resolve_path(fs, start, dir_part(path)) {
            None => Err(ErrorNumber::ENOENT),
            Some(d) => if d < fs.len() && mode_is_dir(fs[d as int].mode) {
                Ok((d, name))
            } else {
                Err(ErrorNumber::ENOTDIR)
            },
        }
    }
}

/// Where a request that makes, moves or removes an entry acts: the
/// directory and the name that `path` stands for (see `locate`), or, when it
/// stands for none, the directory `start` itself with the whole of `path` as
/// the name of the entry.
pub open spec fn entry_of(fs: Seq<InodeView>, start: INodeID, path: Seq<u8>) -> (INodeID, Seq<u8>) {
    match locate(fs, start, path) {
        Ok(located) => located,
        Err(_) => (start, path),
    }
}

/// Whether `id` is a directory of `fs`.
pub open spec fn is_dir_of(fs: Seq<InodeView>, id: INodeID) -> bool {
    id < fs.len() && mode_is_dir(fs[id as int].mode)
}

/// Whether every step to a directory that a walk can take in `fs` is also
/// possible in `fs2`: the inodes of `fs` are still there, directories stay
/// directories with the same parent, and every entry of a directory that
/// names a directory is kept.
pub open spec fn keeps_dirs(fs: Seq<InodeView>, fs2: Seq<InodeView>) -> bool {
    &&& fs.len() <= fs2.len()
    &&& forall|i: INodeID| #![trigger fs2[i as int]]
        is_dir_of(fs, i) ==> mode_is_dir(fs2[i as int].mode) && fs2[i as int].parent == fs[i as int].parent
    &&& forall|i: INodeID, n: Seq<u8>| #![trigger fs[i as int].entries[n], fs2[i as int]]
        is_dir_of(fs, i) && fs[i as int].entries.contains_key(n) && is_dir_of(fs, fs[i as int].entries[n])
            ==> fs2[i as int].entries.contains_key(n) && fs2[i as int].entries[n] == fs[i as int].entries[n]
}

/// The properties that define `last_slash_end`.
pub proof fn lemma_last_slash_end(path: Seq<u8>)
    ensures
        last_slash_end(path) <= path.len(),
        last_slash_end(path) == 0 || path[last_slash_end(path) - 1] == SLASH,
        forall|j: int| last_slash_end(path) <= j < path.len() ==> #[trigger] path[j] != SLASH,
    decreases path.len(),
{
    if path.len() > 0 && path.last() != SLASH {
        let p2 = path.drop_last();
        lemma_last_slash_end(p2);
        assert forall|j: int| last_slash_end(path) <= j < path.len() implies #[trigger] path[j] != SLASH by {
            if j < p2.len() {
                assert(path[j] == p2[j]);
            }
        }
    }
}

/// `last_slash_end` is the only position with its defining properties.
pub proof fn lemma_last_slash_end_unique(path: Seq<u8>, k: nat)
    requires
        k <= path.len(),
        k == 0 || path[k - 1] == SLASH,
        forall|j: int| k <= j < path.len() ==> #[trigger] path[j] != SLASH,
    ensures
        last_slash_end(path) == k,
    decreases path.len(),
{
    if path.len() > 0 && path.last() != SLASH {
        let p2 = path.drop_last();
        assert(k < path.len());
        assert forall|j: int| k <= j < p2.len() implies #[trigger] p2[j] != SLASH by {
            assert(p2[j] == path[j]);
        }
        if k > 0 {
            assert(p2[k - 1] == path[k - 1]);
        }
        lemma_last_slash_end_unique(p2, k);
    } else if path.len() > 0 {
        if k < path.len() {
            assert(path[path.len() - 1] != SLASH);
        }
    }
}

proof fn lemma_resolve_from_split(fs: Seq<InodeView>, cur: Option<INodeID>, comp: Seq<u8>, a: Seq<u8>, b: Seq<u8>)
    ensures
        resolve_from(fs, cur, comp, a + seq![SLASH] + b) == resolve_from(fs, resolve_from(fs, cur, comp, a), Seq::empty(), b),
    decreases a.len(),
{
    let whole = a + seq![SLASH] + b;
    if let Some(c) = cur {
        if a.len() == 0 {
            assert(whole[0] == SLASH);
            assert(whole.drop_first() =~= b);
        } else {
            assert(whole[0] == a[0]);
            assert(whole.drop_first() =~= a.drop_first() + seq![SLASH] + b);
            if a[0] == SLASH {
                lemma_resolve_from_split(fs, lookup_step(fs, c, comp), Seq::empty(), a.drop_first(), b);
            } else {
                lemma_resolve_from_split(fs, cur, comp.push(a[0]), a.drop_first(), b);
            }
        }
    }
}

/// A path walks to where its last component leads from the directory that
/// its directory part walks to.
pub proof fn lemma_resolve_split(fs: Seq<InodeView>, start: INodeID, path: Seq<u8>)
    ensures
        resolve_path(fs, start, path) == match resolve_path(fs, start, dir_part(path)) {
            Some(d) => lookup_step(fs, d, last_component(path)),
            None => None,
        },
{
    lemma_last_slash_end(path);
    let k = last_slash_end(path);
    let pre = dir_part(path);
    let name = last_component(path);
    let from: INodeID = if path.len() > 0 && path[0] == SLASH { 0 } else { start };
    if k == 0 {
        assert(pre =~= Seq::<u8>::empty());
        assert(name =~= path);
        lemma_resolve_no_slash(fs, start, Seq::empty(), path);
        assert(Seq::<u8>::empty() + path =~= path);
        assert(resolve_path(fs, start, pre) == Some(start));
    } else {
        let a = path.take(k - 1);
        assert(path =~= a + seq![SLASH] + name);
        assert(pre =~= a + seq![SLASH] + Seq::<u8>::empty());
        assert(pre[0] == path[0]);
        lemma_resolve_from_split(fs, Some(from), Seq::empty(), a, name);
        lemma_resolve_from_split(fs, Some(from), Seq::empty(), a, Seq::empty());
        if let Some(d) = resolve_from(fs, Some(from), Seq::empty(), a) {
            lemma_resolve_no_slash(fs, d, Seq::empty(), name);
            assert(Seq::<u8>::empty() + name =~= name);
        }
    }
}

/// When `path` locates the directory `d` and the name `name`, it walks to
/// the entry `name` of `d`, if there is one.
pub proof fn lemma_locate_resolve(fs: Seq<InodeView>, start: INodeID, path: Seq<u8>)
    requires
        locate(fs, start, path) is Ok,
    ensures
        ({
            let (d, name) = locate(fs, start, path)->Ok_0;
            resolve_path(fs, start, path) == if fs[d as int].entries.contains_key(name) {
                Some(fs[d as int].entries[name])
            } else {
                None
            }
        }),
{
    lemma_resolve_split(fs, start, path);
}

/// A walk from an inode that is not a directory stays there or fails.
proof fn lemma_walk_from_non_dir(fs: Seq<InodeView>, c: INodeID, comp: Seq<u8>, rest: Seq<u8>)
    requires
        !is_dir_of(fs, c),
    ensures
        resolve_from(fs, Some(c), comp, rest) matches Some(y) ==> y == c,
    decreases rest.len(),
{
    if rest.len() == 0 {
        assert(resolve_from(fs, Some(c), comp, rest) == lookup_step(fs, c, comp));
    } else if rest[0] == SLASH {
        assert(resolve_from(fs, Some(c), comp, rest) == resolve_from(
            fs,
            lookup_step(fs, c, comp),
            Seq::empty(),
            rest.drop_first(),
        ));
        if let Some(z) = lookup_step(fs, c, comp) {
            assert(z == c);
            lemma_walk_from_non_dir(fs, c, Seq::empty(), rest.drop_first());
        }
    } else {
        assert(resolve_from(fs, Some(c), comp, rest) == resolve_from(
            fs,
            Some(c),
            comp.push(rest[0]),
            rest.drop_first(),
        ));
        lemma_walk_from_non_dir(fs, c, comp.push(rest[0]), rest.drop_first());
    }
}

proof fn lemma_step_keeps_dirs(fs: Seq<InodeView>, fs2: Seq<InodeView>, c: INodeID, comp: Seq<u8>, y: INodeID)
    requires
        keeps_dirs(fs, fs2),
        lookup_step(fs, c, comp) == Some(y),
        is_dir_of(fs, y),
    ensures
        lookup_step(fs2, c, comp) == Some(y),
{
    if comp.len() > 0 {
        assert(is_dir_of(fs, c));
        assert(mode_is_dir(fs2[c as int].mode) && fs2[c as int].parent == fs[c as int].parent);
        if comp != seq![DOT] && comp != seq![DOT, DOT] {
            assert(fs[c as int].entries.contains_key(comp));
            assert(fs2[c as int].entries.contains_key(comp) && fs2[c as int].entries[comp] == fs[c as int].entries[comp]);
        }
    }
}

proof fn lemma_resolve_from_keeps_dirs(
    fs: Seq<InodeView>,
    fs2: Seq<InodeView>,
    c: INodeID,
    comp: Seq<u8>,
    rest: Seq<u8>,
    y: INodeID,
)
    requires
        keeps_dirs(fs, fs2),
        resolve_from(fs, Some(c), comp, rest) == Some(y),
        is_dir_of(fs, y),
    ensures
        resolve_from(fs2, Some(c), comp, rest) == Some(y),
    decreases rest.len(),
{
    if rest.len() == 0 {
        lemma_step_keeps_dirs(fs, fs2, c, comp, y);
    } else if rest[0] == SLASH {
        assert(resolve_from(fs, Some(c), comp, rest) == resolve_from(
            fs,
            lookup_step(fs, c, comp),
            Seq::empty(),
            rest.drop_first(),
        ));
        assert(lookup_step(fs, c, comp) is Some);
        let z = lookup_step(fs, c, comp)->Some_0;
        if !is_dir_of(fs, z) {
            lemma_walk_from_non_dir(fs, z, Seq::empty(), rest.drop_first());
        }
        lemma_step_keeps_dirs(fs, fs2, c, comp, z);
        lemma_resolve_from_keeps_dirs(fs, fs2, z, Seq::empty(), rest.drop_first(), y);
    } else {
        lemma_resolve_from_keeps_dirs(fs, fs2, c, comp.push(rest[0]), rest.drop_first(), y);
    }
}

/// A path that walks to a directory in `fs` walks to the same directory in
/// any `fs2` that keeps the directories of `fs`.
pub proof fn lemma_resolve_keeps_dirs(fs: Seq<InodeView>, fs2: Seq<InodeView>, start: INodeID, path: Seq<u8>)
    requires
        keeps_dirs(fs, fs2),
        resolve_path(fs, start, path) matches Some(y) && is_dir_of(fs, y),
    ensures
        resolve_path(fs2, start, path) == resolve_path(fs, start, path),
{
    let from: INodeID = if path.len() > 0 && path[0] == SLASH { 0 } else { start };
    lemma_resolve_from_keeps_dirs(fs, fs2, from, Seq::empty(), path, resolve_path(fs, start, path)->Some_0);
}

/// A simple name, from a directory, stands for that directory and itself.
pub proof fn lemma_locate_simple(fs: Seq<InodeView>, start: INodeID, name: Seq<u8>)
    requires
        simple_name(name),
        is_dir_of(fs, start),
    ensures
        locate(fs, start, name) == Ok::<(INodeID, Seq<u8>), ErrorNumber>((start, name)),
{
    lemma_last_slash_end_unique(name, 0);
    assert(dir_part(name) =~= Seq::<u8>::empty());
    assert(last_component(name) =~= name);
    assert(resolve_path(fs, start, Seq::<u8>::empty()) == Some(start));
}

/// Adding an inode under a name that its directory does not hold yet keeps
/// the directories of the file system.
pub proof fn lemma_add_inode_keeps_dirs(fs: Seq<InodeView>, d: INodeID, name: Seq<u8>, node: InodeView)
    requires
        d < fs.len(),
        !fs[d as int].entries.contains_key(name),
    ensures
        keeps_dirs(fs, add_inode(fs, d, name, node)),
{
    let t = add_inode(fs, d, name, node);
    assert forall|i: INodeID| #![trigger t[i as int]] is_dir_of(fs, i) implies mode_is_dir(t[i as int].mode)
        && t[i as int].parent == fs[i as int].parent by {
        assert(fs.push(node)[i as int] == fs[i as int]);
    }
    assert forall|i: INodeID, n: Seq<u8>| #![trigger fs[i as int].entries[n], t[i as int]]
        is_dir_of(fs, i) && fs[i as int].entries.contains_key(n) && is_dir_of(fs, fs[i as int].entries[n]) implies
            t[i as int].entries.contains_key(n) && t[i as int].entries[n] == fs[i as int].entries[n] by {
        assert(fs.push(node)[i as int] == fs[i as int]);
        if i == d {
            assert(n != name);
        }
    }
}

/// After an inode is added where `path` stands for, `path` walks to it,
/// provided the name was new there or `path` is a simple name.
pub proof fn lemma_found_after_add(fs: Seq<InodeView>, start: INodeID, path: Seq<u8>, node: InodeView)
    requires
        locate(fs, start, path) is Ok,
        ({
            let (d, name) = locate(fs, start, path)->Ok_0;
            !fs[d as int].entries.contains_key(name) || simple_name(path)
        }),
    ensures
        ({
            let (d, name) = locate(fs, start, path)->Ok_0;
            let t = add_inode(fs, d, name, node);
            &&& resolve_path(t, start, path) == Some(fs.len() as INodeID)
            &&& t[fs.len() as int] == node
        }),
{
    let (d, name) = locate(fs, start, path)->Ok_0;
    let t = add_inode(fs, d, name, node);
    lemma_resolve_split(fs, start, path);
    lemma_resolve_split(t, start, path);
    assert(t[d as int].mode == fs[d as int].mode);
    assert(fs.push(node)[fs.len() as int] == node);
    if !fs[d as int].entries.contains_key(name) {
        lemma_add_inode_keeps_dirs(fs, d, name, node);
        lemma_resolve_keeps_dirs(fs, t, start, dir_part(path));
    } else {
        lemma_last_slash_end(path);
        assert(forall|j: int| 0 <= j < path.len() ==> #[trigger] path[j] != SLASH);
        lemma_last_slash_end_unique(path, 0);
        assert(dir_part(path) =~= Seq::<u8>::empty());
    }
}

/// After the entry that `path` stands for is gone, `path` walks nowhere,
/// in any file system whose directories `fs` keeps.
pub proof fn lemma_gone_after_removal(fs: Seq<InodeView>, fs2: Seq<InodeView>, start: INodeID, path: Seq<u8>)
    requires
        locate(fs, start, path) is Ok,
        keeps_dirs(fs2, fs),
        ({
            let (d, name) = locate(fs, start, path)->Ok_0;
            d < fs2.len() && !fs2[d as int].entries.contains_key(name)
        }),
    ensures
        resolve_path(fs2, start, path) is None,
{
    let (d, name) = locate(fs, start, path)->Ok_0;
    lemma_resolve_split(fs2, start, path);
    if let Some(d2) = resolve_path(fs2, start, dir_part(path)) {
        if is_dir_of(fs2, d2) {
            lemma_resolve_keeps_dirs(fs2, fs, start, dir_part(path));
        }
    }
}

/// A file system whose inodes have the same type bits, the same parents
/// (for directories) and at least the entries of those of `fs` keeps the
/// directories of `fs`.
pub proof fn lemma_subset_keeps_dirs(fs: Seq<InodeView>, fs2: Seq<InodeView>)
    requires
        fs.len() == fs2.len(),
        forall|i: int| 0 <= i < fs.len() ==> #[trigger] fs2[i].mode == fs[i].mode,
        forall|i: int| 0 <= i < fs.len() && mode_is_dir(fs[i].mode) ==> #[trigger] fs2[i].parent == fs[i].parent,
        forall|i: int, n: Seq<u8>| 0 <= i < fs.len() && #[trigger] fs[i].entries.contains_key(n) ==>
            fs2[i].entries.contains_key(n) && fs2[i].entries[n] == fs[i].entries[n],
    ensures
        keeps_dirs(fs, fs2),
{
    assert forall|i: INodeID| #![trigger fs2[i as int]] is_dir_of(fs, i) implies mode_is_dir(fs2[i as int].mode)
        && fs2[i as int].parent == fs[i as int].parent by {
        assert(fs2[i as int].mode == fs[i as int].mode);
    }
    assert forall|i: INodeID, n: Seq<u8>| #![trigger fs[i as int].entries[n], fs2[i as int]]
        is_dir_of(fs, i) && fs[i as int].entries.contains_key(n) && is_dir_of(fs, fs[i as int].entries[n]) implies
            fs2[i as int].entries.contains_key(n) && fs2[i as int].entries[n] == fs[i as int].entries[n] by {
    }
}

/// Whether two file systems agree on all that a walk reads: the number of
/// inodes, and the type bits, parent and entries of each.
pub open spec fn same_shape(fs: Seq<InodeView>, fs2: Seq<InodeView>) -> bool {
    &&& fs.len() == fs2.len()
    &&& forall|i: int| 0 <= i < fs.len() ==> {
        &&& #[trigger] fs2[i].mode == fs[i].mode
        &&& fs2[i].parent == fs[i].parent
        &&& fs2[i].entries == fs[i].entries
    }
}

proof fn lemma_resolve_from_same_shape(
    fs: Seq<InodeView>,
    fs2: Seq<InodeView>,
    cur: Option<INodeID>,
    comp: Seq<u8>,
    rest: Seq<u8>,
)
    requires
        same_shape(fs, fs2),
    ensures
        resolve_from(fs2, cur, comp, rest) == resolve_from(fs, cur, comp, rest),
    decreases rest.len(),
{
    if let Some(c) = cur {
        if c < fs.len() {
            assert(fs2[c as int].mode == fs[c as int].mode);
        }
        if rest.len() > 0 {
            if rest[0] == SLASH {
                lemma_resolve_from_same_shape(fs, fs2, lookup_step(fs, c, comp), Seq::empty(), rest.drop_first());
            } else {
                lemma_resolve_from_same_shape(fs, fs2, cur, comp.push(rest[0]), rest.drop_first());
            }
        }
    }
}

/// File systems of the same shape walk every path alike.
pub proof fn lemma_resolve_same_shape(fs: Seq<InodeView>, fs2: Seq<InodeView>, start: INodeID, path: Seq<u8>)
    requires
        same_shape(fs, fs2),
    ensures
        resolve_path(fs2, start, path) == resolve_path(fs, start, path),
{
    let from: INodeID = if path.len() > 0 && path[0] == SLASH { 0 } else { start };
    lemma_resolve_from_same_shape(fs, fs2, Some(from), Seq::empty(), path);
}

/// Moving the entry `on` of `od`, which names a file that is not a
/// directory, to the name `nn` that is new in `nd` keeps every directory in
/// both directions: the moved file is then under `nn` in `nd` and no longer
/// under `on` in `od`, and no inode changes type.
pub proof fn lemma_move_file_keeps_dirs(fs: Seq<InodeView>, od: INodeID, on: Seq<u8>, nd: INodeID, nn: Seq<u8>)
    requires
        od < fs.len(),
        nd < fs.len(),
        fs[od as int].entries.contains_key(on),
        fs[od as int].entries[on] < fs.len(),
        !mode_is_dir(fs[fs[od as int].entries[on] as int].mode),
        !fs[nd as int].entries.contains_key(nn),
    ensures
        ({
            let t = rename_state(fs, od, on, nd, nn);
            let id = fs[od as int].entries[on];
            &&& rename_result(fs, od, on) == ErrorNumber::SUCCESS
            &&& t.len() == fs.len()
            &&& forall|i: int| 0 <= i < fs.len() ==> #[trigger] t[i].mode == fs[i].mode
            &&& keeps_dirs(fs, t)
            &&& keeps_dirs(t, fs)
            &&& t[nd as int].entries.contains_key(nn)
            &&& t[nd as int].entries[nn] == id
            &&& !t[od as int].entries.contains_key(on)
        }),
{
    let id = fs[od as int].entries[on];
    let t = rename_state(fs, od, on, nd, nn);
    let fs1 = set_entry(remove_entry(fs, od, on), nd, nn, id);
    assert(t == fs1.update(id as int, InodeView { parent: nd, name: nn, ..fs1[id as int] }));
    assert(od != nd || on != nn);
    assert forall|i: INodeID| #![trigger t[i as int]] is_dir_of(fs, i) implies mode_is_dir(t[i as int].mode)
        && t[i as int].parent == fs[i as int].parent by {
        assert(i != id);
    }
    assert forall|i: INodeID, n: Seq<u8>| #![trigger fs[i as int].entries[n], t[i as int]]
        is_dir_of(fs, i) && fs[i as int].entries.contains_key(n) && is_dir_of(fs, fs[i as int].entries[n])
            implies t[i as int].entries.contains_key(n) && t[i as int].entries[n] == fs[i as int].entries[n] by {
        assert(i != id);
        assert(!(i == od && n == on));
        assert(!(i == nd && n == nn));
    }
    assert forall|i: INodeID| #![trigger fs[i as int]] is_dir_of(t, i) implies mode_is_dir(fs[i as int].mode)
        && fs[i as int].parent == t[i as int].parent by {
        assert(i != id);
    }
    assert forall|i: INodeID, n: Seq<u8>| #![trigger t[i as int].entries[n], fs[i as int]]
        is_dir_of(t, i) && t[i as int].entries.contains_key(n) && is_dir_of(t, t[i as int].entries[n])
            implies fs[i as int].entries.contains_key(n) && fs[i as int].entries[n] == t[i as int].entries[n] by {
        assert(i != id);
        assert(!(i == nd && n == nn));
    }
}

/// Where `path` stands for a directory and a name in `fs`, it stands for
/// the same in any `fs2` that keeps the directories of `fs`.
pub proof fn lemma_locate_keeps_dirs(fs: Seq<InodeView>, fs2: Seq<InodeView>, start: INodeID, path: Seq<u8>)
    requires
        keeps_dirs(fs, fs2),
        locate(fs, start, path) is Ok,
    ensures
        locate(fs2, start, path) == locate(fs, start, path),
{
    lemma_resolve_keeps_dirs(fs, fs2, start, dir_part(path));
}

/// Copies the bytes of `src` from `from` up to `to`.
fn sub_bytes(src: &[u8], from: usize, to: usize) -> (r: Vec<u8>)
    requires
        from <= to <= src@.len(),
    ensures
        r@ == src@.subrange(from as int, to as int),
{
    let mut r: Vec<u8> = Vec::new();
    let mut i = from;
    while i < to
        invariant
            from <= i <= to <= src@.len(),
            r@ == src@.subrange(from as int, i as int),
        decreases to - i,
    {
        r.push(src[i]);
        i = i + 1;
        assert(r@ =~= src@.subrange(from as int, i as int));
    }
    r
}

impl FS {
    /// The directory and the name that `path` stands for, relative to
    /// `start` (see `locate`).
    pub fn locate(&self, start: INodeID, path: &[u8]) -> (r: Result<(INodeID, Vec<u8>), ErrorNumber>)
        requires
            self.wf(),
            start < self@.len(),
        ensures
            match r {
                Ok((d, name)) => locate(self@, start, path@) == Ok::<(INodeID, Seq<u8>), ErrorNumber>((d, name@)),
                Err(e) => locate(self@, start, path@) == Err::<(INodeID, Seq<u8>), ErrorNumber>(e),
            },
    {
        let mut k = path.len();
        while k > 0 && path[k - 1] != SLASH
            invariant
                k <= path@.len(),
                forall|j: int| k <= j < path@.len() ==> #[trigger] path@[j] != SLASH,
            decreases k,
        {
            k = k - 1;
        }
        proof {
            lemma_last_slash_end_unique(path@, k as nat);
        }
        let name = sub_bytes(path, k, path.len());
        let prefix = sub_bytes(path, 0, k);
        assert(name@ == last_component(path@));
        assert(prefix@ =~= dir_part(path@));
        assert forall|j: int| 0 <= j < name@.len() implies #[trigger] name@[j] != SLASH by {
            assert(name@[j] == path@[k + j]);
        }
        if name.len() == 0 {
            return Err(ErrorNumber::EINVAL);
        }
        if name.len() == 1 && name[0] == DOT {
            assert(name@ =~= seq![DOT]);
            return Err(ErrorNumber::EINVAL);
        }
        if name.len() == 2 && name[0] == DOT && name[1] == DOT {
            assert(name@ =~= seq![DOT, DOT]);
            return Err(ErrorNumber::EINVAL);
        }
        assert(name@ != seq![DOT]);
        assert(name@ != seq![DOT, DOT]);
        match self.search(start, prefix.as_slice()) {
            None => Err(ErrorNumber::ENOENT),
            Some(d) => {
                if self.is_directory(d) {
                    Ok((d, name))
                } else {
                    Err(ErrorNumber::ENOTDIR)
                }
            },
        }
    }
    /// The directory and the name of the entry that `path` stands for,
    /// relative to `start` (see `entry_of`).
    pub fn entry_of(&self, start: INodeID, path: &[u8]) -> (r: (INodeID, Vec<u8>))
        requires
            self.wf(),
            start < self@.len(),
        ensures
            (r.0, r.1@) == entry_of(self@, start, path@),
            r.0 < self@.len(),
    {
        match self.locate(start, path) {
            Ok(located) => located,
            Err(_) => (start, copy_bytes(path)),
        }
    }
}

} // verus!
