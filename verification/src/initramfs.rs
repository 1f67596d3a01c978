//! Initramfs: the file tree that a cpio ("newc") image describes.
use vstd::prelude::*;
use vstd::utf8::{encode_utf8, valid_utf8};
use vstd::string::StringSliceAdditionalSpecFns;

use crate::components::{path_components, path_components_bytes, SLASH};
use crate::cpio::{parse_header, record_at, CpioRecord, RecordAt, CPIO_HEADER_LEN};
use crate::address::{align_up, spec_align_up};
use crate::result::{Errno, Error};
use crate::stat::{DirEntry, FileMode, FileType, INodeNo, Stat, S_IFDIR, S_IFLNK, S_IFMT, S_IFREG};

verus! {

/// The hash map behind a `NameMap`.
#[verifier::external_body]
pub struct NameTable {
    map: hashbrown::HashMap<Vec<u8>, usize>,
}

/// The names a `NameTable` holds and the node each names.
pub uninterp spec fn name_table_contents(t: NameTable) -> Map<Seq<u8>, usize>;

/// The entries of a directory: names and the nodes they name, and the
/// order in which the map lists them.
pub struct NameMap {
    table: NameTable,
    order: Ghost<Seq<Seq<u8>>>,
}

/// The names a `NameMap` holds and the node each names.
pub closed spec fn name_map_contents(m: NameMap) -> Map<Seq<u8>, usize> {
    name_table_contents(m.table)
}

/// The order in which a `NameMap` lists its names: each name once.
pub closed spec fn name_map_order(m: NameMap) -> Seq<Seq<u8>> {
    m.order@
}

/// `order` lists the names of `contents`, each once.
pub open spec fn lists_names<V>(order: Seq<Seq<u8>>, contents: Map<Seq<u8>, V>) -> bool {
    &&& order.no_duplicates()
    &&& order.len() == contents.dom().len()
    &&& forall|k: Seq<u8>| #[trigger] contents.dom().contains(k) <==> order.contains(k)
}

impl NameMap {
    /// The map lists each of its names once.
    #[verifier::type_invariant]
    pub(crate) open spec fn listed(self) -> bool {
        lists_names(name_map_order(self), name_map_contents(self))
    }

    /// `hashbrown::HashMap::new`: an empty map, which lists nothing.
    #[verifier::external_body]
    fn table_new() -> (r: NameMap)
        ensures
            name_table_contents(r.table) =~= Map::empty(),
            r.order@ == Seq::<Seq<u8>>::empty(),
    {
        NameMap { table: NameTable { map: hashbrown::HashMap::new() }, order: Ghost(Seq::empty()) }
    }

    /// `hashbrown::HashMap::get`: the node that `name` names, if any.
    #[verifier::external_body]
    fn table_get(&self, name: &[u8]) -> (r: Option<usize>)
        ensures
            r == name_table_contents(self.table).get(name@),
    {
        match self.table.map.get(name) {
            Some(v) => Some(*v),
            None => None,
        }
    }

    /// `hashbrown::HashMap::insert`: `name` now names `node`, whatever it
    /// named before. The insertion may rearrange the map's table, and so the
    /// order in which it lists its names; that order lists each name once.
    #[verifier::external_body]
    fn table_insert(&mut self, name: Vec<u8>, node: usize)
        ensures
            name_table_contents(final(self).table) == name_table_contents(old(self).table).insert(name@, node),
            lists_names(final(self).order@, name_table_contents(final(self).table)),
    {
        self.table.map.insert(name, node);
    }

    /// `hashbrown::HashMap::len`: the number of names.
    #[verifier::external_body]
    fn table_len(&self) -> (r: usize)
        ensures
            r == name_table_contents(self.table).dom().len(),
    {
        self.table.map.len()
    }

    /// `hashbrown::HashMap::iter` then `nth`: the `index`-th entry in the
    /// order in which the map lists its entries. The map walks its table in
    /// a fixed order while it is not changed, giving each entry once; which
    /// name comes at which index, the map's hashing decides.
    #[verifier::external_body]
    fn table_nth(&self, index: usize) -> (r: Option<(Vec<u8>, usize)>)
        ensures
            (index < self.order@.len()) == r is Some,
            r matches Some(e) ==> e.0@ == self.order@[index as int] && name_table_contents(
                self.table,
            ).contains_key(e.0@) && name_table_contents(self.table)[e.0@] == e.1,
    {
        match self.table.map.iter().nth(index) {
            Some((k, v)) => Some((k.clone(), *v)),
            None => None,
        }
    }

    /// An empty map.
    pub(crate) fn new() -> (r: NameMap)
        ensures
            name_map_contents(r) =~= Map::empty(),
            name_map_order(r) == Seq::<Seq<u8>>::empty(),
    {
        NameMap::table_new()
    }

    /// The node that `name` names, if any.
    pub(crate) fn get(&self, name: &[u8]) -> (r: Option<usize>)
        ensures
            r == name_map_contents(*self).get(name@),
    {
        self.table_get(name)
    }

    /// `name` now names `node`, whatever it named before; the map lists
    /// each of its names once, in an order of its own.
    pub(crate) fn insert(&mut self, name: Vec<u8>, node: usize)
        ensures
            name_map_contents(*final(self)) == name_map_contents(*old(self)).insert(name@, node),
            lists_names(name_map_order(*final(self)), name_map_contents(*final(self))),
    {
        self.table_insert(name, node);
    }

    /// The number of names.
    pub(crate) fn len(&self) -> (r: usize)
        ensures
            r == name_map_contents(*self).dom().len(),
    {
        self.table_len()
    }

    /// The `index`-th entry in the order in which the map lists them.
    pub(crate) fn nth(&self, index: usize) -> (r: Option<(Vec<u8>, usize)>)
        ensures
            (index < name_map_order(*self).len()) == r is Some,
            r matches Some(e) ==> e.0@ == name_map_order(*self)[index as int]
                && name_map_contents(*self).contains_key(e.0@) && name_map_contents(*self)[e.0@]
                == e.1,
    {
        self.table_nth(index)
    }
}

/// `core::str::from_utf8`: the text that `bytes` encode, if they are valid
/// UTF-8.
#[verifier::external_body]
fn str_from_utf8(bytes: &[u8]) -> (r: Option<&str>)
    ensures
        r is Some == valid_utf8(bytes@),
        r matches Some(s) ==> s.spec_bytes() == bytes@,
{
    match core::str::from_utf8(bytes) {
        Ok(s) => Some(s),
        Err(_) => None,
    }
}

/// What a node of the tree is.
pub enum InitramFsNodeKind {
    /// A regular file: its contents lie in the image at `data_start`.
    File { data_start: usize, data_len: usize },
    Directory,
    /// A symbolic link to `dst`.
    Symlink { dst: String },
}

/// A node of the tree.
pub struct InitramFsNode {
    pub filename: Vec<u8>,
    pub stat: Stat,
    pub kind: InitramFsNodeKind,
}

/// A node's kind as plain values; a link's target is given by its bytes.
pub enum KindView {
    File { data_start: nat, data_len: nat },
    Directory,
    Symlink { target: Seq<u8> },
}

/// A node as plain values.
pub struct NodeView {
    pub ino: nat,
    pub mode: u32,
    pub kind: KindView,
}

impl InitramFsNode {
    pub open spec fn view(&self) -> NodeView {
        NodeView {
            ino: self.stat.inode_no@,
            mode: self.stat.mode@,
            kind: match self.kind {
                InitramFsNodeKind::File { data_start, data_len } => KindView::File {
                    data_start: data_start as nat,
                    data_len: data_len as nat,
                },
                InitramFsNodeKind::Directory => KindView::Directory,
                InitramFsNodeKind::Symlink { dst } => KindView::Symlink { target: encode_utf8(dst@) },
            },
        }
    }
}

/// The files of the tree, by path (the sequence of components from the root).
pub type FsModel = Map<Seq<Seq<u8>>, NodeView>;

/// `pre` is `p` or a leading part of it.
pub open spec fn has_prefix(p: Seq<Seq<u8>>, pre: Seq<Seq<u8>>) -> bool {
    pre.len() <= p.len() && p.take(pre.len() as int) == pre
}

/// The tree holds a directory at `p`.
pub open spec fn is_dir_at(m: FsModel, p: Seq<Seq<u8>>) -> bool {
    m.contains_key(p) && m[p].kind is Directory
}

/// Every proper leading part of `cs` (but the root) names a directory.
pub open spec fn parents_are_dirs(m: FsModel, cs: Seq<Seq<u8>>) -> bool {
    forall|k: int| 1 <= k < cs.len() ==> #[trigger] is_dir_at(m, cs.take(k))
}

/// The tree with `node` at `cs`: whatever lay at `cs` or below it is gone.
pub open spec fn put_node(m: FsModel, cs: Seq<Seq<u8>>, node: NodeView) -> FsModel {
    Map::new(
        |p: Seq<Seq<u8>>| (m.contains_key(p) && !has_prefix(p, cs)) || p == cs,
        |p: Seq<Seq<u8>>|
            if p == cs {
                node
            } else {
                m[p]
            },
    )
}

/// What a record adds to the tree: a node, nothing (other file types), or
/// an error (a link whose target is not UTF-8).
pub enum RecordNode {
    Insert(NodeView),
    Skip,
    Invalid,
}

pub open spec fn record_node(img: Seq<u8>, r: CpioRecord) -> RecordNode {
    let mode = r.mode as u32;
    let data = img.subrange(r.data_start as int, (r.data_start + r.data_len) as int);
    if mode & S_IFMT == S_IFLNK {
        if valid_utf8(data) {
            RecordNode::Insert(
                NodeView { ino: r.ino, mode, kind: KindView::Symlink { target: data } },
            )
        } else {
            RecordNode::Invalid
        }
    } else if mode & S_IFMT == S_IFDIR {
        RecordNode::Insert(NodeView { ino: r.ino, mode, kind: KindView::Directory })
    } else if mode & S_IFMT == S_IFREG {
        RecordNode::Insert(
            NodeView {
                ino: r.ino,
                mode,
                kind: KindView::File { data_start: r.data_start, data_len: r.data_len },
            },
        )
    } else {
        RecordNode::Skip
    }
}

/// The tree after the record `r`: its parent directories must exist; a
/// file, directory or link is put at its path, other types are left out.
pub open spec fn apply_record(img: Seq<u8>, m: FsModel, r: CpioRecord) -> Option<FsModel> {
    let cs = path_components(r.path, SLASH);
    if !parents_are_dirs(m, cs) {
        None
    } else {
        match record_node(img, r) {
            RecordNode::Invalid => None,
            RecordNode::Skip => Some(m),
            RecordNode::Insert(node) => if cs.len() == 0 {
                None
            } else {
                Some(put_node(m, cs, node))
            },
        }
    }
}

/// The tree that the records from `off` up to the trailer build on `m`, or
/// `None` if the image is malformed.
pub open spec fn load_from(img: Seq<u8>, off: int, m: FsModel) -> Option<FsModel>
    decreases img.len() - off,
{
    match record_at(img, off) {
        RecordAt::Malformed => None,
        RecordAt::Trailer => Some(m),
        RecordAt::Entry { record, next } => if off < next <= img.len() {
            match apply_record(img, m, record) {
                Some(m2) => load_from(img, next as int, m2),
                None => None,
            }
        } else {
            None
        },
    }
}

/// The tree that an initramfs image describes, if the image is well formed.
pub open spec fn initramfs_tree(img: Seq<u8>) -> Option<FsModel> {
    load_from(img, 0, Map::empty())
}

/// The stat of the root directory.
pub open spec fn root_view() -> NodeView {
    NodeView { ino: 2, mode: S_IFDIR | 0o755, kind: KindView::Directory }
}

/// The initramfs file tree. Node 0 is the root directory.
pub struct InitramFs {
    nodes: Vec<InitramFsNode>,
    dirs: Vec<NameMap>,
    /// For each node but the root: the directory and the name under which
    /// it was put.
    parents: Ghost<Seq<(int, Seq<u8>)>>,
}

/// The node reached from the root through the components `cs`.
pub open spec fn node_at(
    nodes: Seq<NodeView>,
    children: Seq<Map<Seq<u8>, usize>>,
    cs: Seq<Seq<u8>>,
) -> Option<int>
    decreases cs.len(),
{
    if cs.len() == 0 {
        Some(0)
    } else {
        match node_at(nodes, children, cs.drop_last()) {
            Some(p) => if 0 <= p < nodes.len() && p < children.len() && nodes[p].kind is Directory
                && children[p].contains_key(cs.last()) {
                Some(children[p][cs.last()] as int)
            } else {
                None
            },
            None => None,
        }
    }
}

/// The path under which node `x` was put.
pub open spec fn path_of(parents: Seq<(int, Seq<u8>)>, x: int) -> Seq<Seq<u8>>
    decreases x,
{
    if x <= 0 || x >= parents.len() || parents[x].0 < 0 || parents[x].0 >= x {
        Seq::empty()
    } else {
        path_of(parents, parents[x].0).push(parents[x].1)
    }
}

impl InitramFs {
    pub closed spec fn node_views(&self) -> Seq<NodeView> {
        self.nodes@.map_values(|n: InitramFsNode| n@)
    }

    pub closed spec fn children(&self) -> Seq<Map<Seq<u8>, usize>> {
        self.dirs@.map_values(|d: NameMap| name_map_contents(d))
    }

    /// The number of nodes, reachable or not.
    pub closed spec fn num_nodes(&self) -> nat {
        self.nodes.len() as nat
    }

    /// The node at index `i`.
    pub closed spec fn node_view(&self, i: int) -> NodeView {
        self.nodes@[i]@
    }

    /// The entries of the directory node `d`.
    pub closed spec fn entries(&self, d: int) -> Map<Seq<u8>, usize> {
        name_map_contents(self.dirs@[d])
    }

    /// The order in which `readdir` lists the entries of node `d`.
    pub closed spec fn entry_order(&self, d: int) -> Seq<Seq<u8>> {
        name_map_order(self.dirs@[d])
    }

    /// The files of the tree by path.
    pub closed spec fn view(&self) -> FsModel {
        Map::new(
            |p: Seq<Seq<u8>>| p.len() > 0 && node_at(self.node_views(), self.children(), p) is Some,
            |p: Seq<Seq<u8>>| self.node_views()[node_at(self.node_views(), self.children(), p).unwrap()],
        )
    }

    /// The index of the node at path `p`.
    pub closed spec fn index_at(&self, p: Seq<Seq<u8>>) -> Option<int> {
        node_at(self.node_views(), self.children(), p)
    }

    pub closed spec fn wf(&self) -> bool {
        let n = self.nodes.len();
        let parents = self.parents@;
        &&& n >= 1
        &&& self.dirs.len() == n
        &&& parents.len() == n
        &&& self.nodes@[0]@ == root_view()
        &&& forall|d: int| 0 <= d < n ==> (#[trigger] self.entries(d)).dom().finite()
        &&& forall|d: int, name: Seq<u8>|
            0 <= d < n && #[trigger] self.entries(d).contains_key(name) ==> {
                let c = self.entries(d)[name] as int;
                &&& d < c < n
                &&& parents[c] == (d, name)
            }
        &&& forall|c: int| 0 < c < n ==> 0 <= (#[trigger] parents[c]).0 < c
        &&& forall|c: int| 0 <= c < n ==> (#[trigger] self.nodes@[c]).filename@ == parents[c].1
    }

    /// The name under which node `i` was put in its directory (empty for
    /// the root).
    pub closed spec fn name_of(&self, i: int) -> Seq<u8> {
        self.parents@[i].1
    }
}


impl InitramFs {
    /// The node reached through `cs` is the one put under that path.
    proof fn lemma_node_at_unique(&self, cs: Seq<Seq<u8>>)
        requires
            self.wf(),
            self.index_at(cs) is Some,
        ensures
            0 <= self.index_at(cs).unwrap() < self.nodes.len(),
            cs.len() > 0 ==> self.index_at(cs).unwrap() > 0,
            cs == path_of(self.parents@, self.index_at(cs).unwrap()),
        decreases cs.len(),
    {
        if cs.len() > 0 {
            let q = cs.drop_last();
            self.lemma_node_at_unique(q);
            let p = self.index_at(q).unwrap();
            assert(self.children()[p] == self.entries(p));
            assert(self.entries(p).contains_key(cs.last()));
            let x = self.entries(p)[cs.last()] as int;
            assert(self.index_at(cs) == Some(x));
            assert(self.parents@[x] == (p, cs.last()));
            assert(path_of(self.parents@, x) == path_of(self.parents@, p).push(cs.last()));
            assert(cs =~= q.push(cs.last()));
        } else {
            assert(path_of(self.parents@, 0) == Seq::<Seq<u8>>::empty());
        }
    }

    /// Where each path leads once a node `x` is put under `name` in the
    /// directory `d` at path `pre`.
    proof fn lemma_node_at_after_put(
        &self,
        new: &InitramFs,
        pre: Seq<Seq<u8>>,
        d: int,
        name: Seq<u8>,
        cs: Seq<Seq<u8>>,
    )
        requires
            self.wf(),
            self.index_at(pre) == Some(d),
            self.node_views()[d].kind is Directory,
            new.node_views() == self.node_views().push(new.node_views().last()),
            new.children() == self.children().update(
                d,
                self.children()[d].insert(name, self.nodes.len() as usize),
            ).push(Map::empty()),
            self.nodes.len() < usize::MAX,
        ensures
            new.index_at(cs) == (if cs == pre.push(name) {
                Some(self.nodes.len() as int)
            } else if has_prefix(cs, pre.push(name)) {
                None
            } else {
                self.index_at(cs)
            }),
        decreases cs.len(),
    {
        let x = self.nodes.len() as int;
        let full = pre.push(name);
        self.lemma_node_at_unique(pre);
        if cs.len() == 0 {
            assert(!has_prefix(cs, full));
        } else {
            let q = cs.drop_last();
            let l = cs.last();
            self.lemma_node_at_after_put(new, pre, d, name, q);
            assert(cs =~= q.push(l));
            if q == full {
                assert(has_prefix(cs, full)) by {
                    assert(cs.take(full.len() as int) =~= full);
                }
                assert(cs != full);
                assert(new.children()[x] == Map::<Seq<u8>, usize>::empty());
            } else if has_prefix(q, full) {
                assert(has_prefix(cs, full)) by {
                    assert(cs.take(full.len() as int) =~= q.take(full.len() as int));
                }
                assert(cs != full);
            } else {
                // The walk reaches `q` as before.
                if cs == full {
                    assert(q =~= pre);
                } else if has_prefix(cs, full) {
                    if cs.len() == full.len() {
                        assert(cs.take(full.len() as int) =~= cs);
                    }
                    assert(q.take(full.len() as int) =~= cs.take(full.len() as int));
                    assert(has_prefix(q, full));
                }
                match self.index_at(q) {
                    None => {
                        if cs == full {
                            assert(false);
                        }
                    },
                    Some(p) => {
                        self.lemma_node_at_unique(q);
                        assert(new.node_views()[p] == self.node_views()[p]);
                        if p == d {
                            assert(q == pre);
                            if l == name {
                                assert(cs == full);
                            } else {
                                assert(new.children()[p] == self.children()[p].insert(name, x as usize));
                                assert(cs != full);
                                if has_prefix(cs, full) {
                                    assert(cs.take(cs.len() as int) =~= cs);
                                    assert(cs[cs.len() - 1] == full[full.len() - 1]);
                                }
                            }
                        } else {
                            assert(new.children()[p] == self.children()[p]);
                            if cs == full {
                                assert(false);
                            }
                        }
                    },
                }
            }
        }
    }
}

impl InitramFs {
    /// A tree with the root directory alone.
    fn new_root() -> (r: InitramFs)
        ensures
            r.wf(),
            r@ == FsModel::empty(),
            r.num_nodes() == 1,
    {
        let root = InitramFsNode {
            filename: Vec::new(),
            stat: Stat::new(INodeNo::new(2), FileMode::new(S_IFDIR | 0o755)),
            kind: InitramFsNodeKind::Directory,
        };
        let mut nodes: Vec<InitramFsNode> = Vec::new();
        nodes.push(root);
        let mut dirs: Vec<NameMap> = Vec::new();
        dirs.push(NameMap::new());
        let ghost parents: Seq<(int, Seq<u8>)> = seq![(0int, Seq::<u8>::empty())];
        let r = InitramFs { nodes, dirs, parents: Ghost(parents) };
        proof {
            assert(r.entries(0) == Map::<Seq<u8>, usize>::empty());
            assert forall|p: Seq<Seq<u8>>| p.len() > 0 implies r.index_at(p) is None by {
                r.lemma_root_only(p);
            }
            assert(r@ =~= FsModel::empty());
        }
        r
    }

    proof fn lemma_root_only(&self, p: Seq<Seq<u8>>)
        requires
            self.nodes.len() == 1,
            self.dirs.len() == 1,
            self.entries(0) == Map::<Seq<u8>, usize>::empty(),
            p.len() > 0,
        ensures
            self.index_at(p) is None,
        decreases p.len(),
    {
        if p.len() > 1 {
            self.lemma_root_only(p.drop_last());
        } else {
            assert(p.drop_last().len() == 0);
            assert(self.children()[0] == self.entries(0));
        }
    }

    /// Puts `node` under `name` in the directory node `parent`, which lies at
    /// path `pre`.
    fn put(&mut self, parent: usize, name: Vec<u8>, node: InitramFsNode, Ghost(pre): Ghost<Seq<Seq<u8>>>)
        requires
            old(self).wf(),
            old(self).index_at(pre) == Some(parent as int),
            old(self).node_views()[parent as int].kind is Directory,
            node.filename@ == name@,
            old(self).num_nodes() < usize::MAX,
        ensures
            final(self).wf(),
            final(self)@ == put_node(old(self)@, pre.push(name@), node@),
            final(self).num_nodes() == old(self).num_nodes() + 1,
    {
        let ghost old_fs = *self;
        let ghost nv = node@;
        let ghost nm = name@;
        proof {
            old_fs.lemma_node_at_unique(pre);
        }
        let x = self.nodes.len();
        self.nodes.push(node);
        self.dirs.push(NameMap::new());
        let m = &mut self.dirs[parent];
        m.insert(name, x);
        proof {
            self.parents@ = self.parents@.push((parent as int, nm));
            assert(self.node_views() =~= old_fs.node_views().push(nv));
            assert(self.children() =~= old_fs.children().update(
                parent as int,
                old_fs.children()[parent as int].insert(nm, x),
            ).push(Map::empty()));
            assert(self.node_views().last() == nv);
            let full = pre.push(nm);
            assert forall|p: Seq<Seq<u8>>| true implies #[trigger] self.index_at(p) == (if p == full {
                Some(x as int)
            } else if has_prefix(p, full) {
                None
            } else {
                old_fs.index_at(p)
            }) by {
                old_fs.lemma_node_at_after_put(self, pre, parent as int, nm, p);
            }
            // Well-formedness.
            assert(self.nodes@[0] == old_fs.nodes@[0]);
            assert forall|d: int| 0 <= d < self.nodes.len() implies (#[trigger] self.entries(d)).dom().finite() by {
                if d < x {
                    assert(old_fs.entries(d).dom().finite());
                    if d == parent {
                        assert(self.entries(d) == old_fs.entries(d).insert(nm, x));
                    } else {
                        assert(self.entries(d) == old_fs.entries(d));
                    }
                } else {
                    assert(self.entries(d) == Map::<Seq<u8>, usize>::empty());
                }
            }
            assert forall|d: int, nn: Seq<u8>|
                0 <= d < self.nodes.len() && #[trigger] self.entries(d).contains_key(nn) implies ({
                    let c = self.entries(d)[nn] as int;
                    &&& d < c < self.nodes.len()
                    &&& self.parents@[c] == (d, nn)
                }) by {
                if d == x {
                    assert(self.entries(d) == Map::<Seq<u8>, usize>::empty());
                } else if d == parent && nn == nm {
                    assert(self.entries(d)[nn] == x);
                } else {
                    if d == parent {
                        assert(self.entries(d) == old_fs.entries(d).insert(nm, x));
                    } else {
                        assert(self.entries(d) == old_fs.entries(d));
                    }
                    assert(old_fs.entries(d).contains_key(nn));
                }
            }
            assert forall|c: int| 0 < c < self.nodes.len() implies 0 <= (#[trigger] self.parents@[c]).0 < c by {
                if c < x {
                    assert(self.parents@[c] == old_fs.parents@[c]);
                }
            }
            assert forall|c: int| 0 < c < self.nodes.len() implies (#[trigger] self.nodes@[c]).filename@
                == self.parents@[c].1 by {
                if c < x {
                    assert(self.parents@[c] == old_fs.parents@[c]);
                    assert(self.nodes@[c] == old_fs.nodes@[c]);
                }
            }
            assert(self.wf());
            // The files by path.
            assert forall|p: Seq<Seq<u8>>| true implies #[trigger] self@.contains_key(p) == put_node(
                old_fs@,
                full,
                nv,
            ).contains_key(p) && (self@.contains_key(p) ==> self@[p] == put_node(old_fs@, full, nv)[p]) by {
                assert(self.index_at(p) == (if p == full {
                    Some(x as int)
                } else if has_prefix(p, full) {
                    None
                } else {
                    old_fs.index_at(p)
                }));
                if p == full {
                } else if has_prefix(p, full) {
                } else if old_fs.index_at(p) is Some {
                    old_fs.lemma_node_at_unique(p);
                    let i = old_fs.index_at(p).unwrap();
                    assert(self.node_views()[i] == old_fs.node_views()[i]);
                }
            }
            assert(self@ =~= put_node(old_fs@, full, nv));
        }
    }
}

/// The bytes `TRAILER!!!`.
pub fn is_trailer(path: &[u8]) -> (r: bool)
    ensures
        r == (path@ == crate::cpio::trailer_name()),
{
    let t: [u8; 10] = [0x54, 0x52, 0x41, 0x49, 0x4c, 0x45, 0x52, 0x21, 0x21, 0x21];
    if path.len() != 10 {
        return false;
    }
    let mut i: usize = 0;
    while i < 10
        invariant
            path.len() == 10,
            0 <= i <= 10,
            t@ == crate::cpio::trailer_name(),
            forall|k: int| 0 <= k < i ==> path@[k] == t@[k],
        decreases 10 - i,
    {
        if path[i] != t[i] {
            return false;
        }
        i += 1;
    }
    assert(path@ =~= crate::cpio::trailer_name());
    true
}

impl InitramFs {
    /// The directory that holds the last component of `cs`, if each proper
    /// leading part of `cs` names a directory.
    fn find_parent(&self, cs: &Vec<Vec<u8>>) -> (r: Option<usize>)
        requires
            self.wf(),
        ensures
            r is Some == parents_are_dirs(self@, cs@.map_values(|v: Vec<u8>| v@)),
            r matches Some(d) ==> {
                let csv = cs@.map_values(|v: Vec<u8>| v@);
                &&& d < self.num_nodes()
                &&& self.index_at(csv.take(if csv.len() > 0 { csv.len() - 1 } else { 0 })) == Some(d as int)
                &&& self.node_views()[d as int].kind is Directory
            },
    {
        let ghost csv = cs@.map_values(|v: Vec<u8>| v@);
        let mut cur: usize = 0;
        let mut i: usize = 0;
        proof {
            assert(csv.take(0) =~= Seq::<Seq<u8>>::empty());
            assert(self.nodes@[0]@ == root_view());
        }
        while i + 1 < cs.len()
            invariant
                self.wf(),
                csv == cs@.map_values(|v: Vec<u8>| v@),
                i < cs.len() || cs.len() == 0,
                i == 0 || i < cs.len(),
                cur < self.num_nodes(),
                self.index_at(csv.take(i as int)) == Some(cur as int),
                self.node_views()[cur as int].kind is Directory,
                forall|k: int| 1 <= k <= i ==> #[trigger] is_dir_at(self@, csv.take(k)),
            decreases cs.len() - i,
        {
            let ghost q = csv.take(i + 1);
            proof {
                assert(q.drop_last() =~= csv.take(i as int));
                assert(q.last() == cs@[i as int]@);
                assert(self.children()[cur as int] == self.entries(cur as int));
            }
            let child = self.dirs[cur].get(cs[i].as_slice());
            match child {
                None => {
                    proof {
                        assert(self.index_at(q) is None);
                        assert(!is_dir_at(self@, q));
                    }
                    return None;
                },
                Some(c) => {
                    proof {
                        assert(self.index_at(q) == Some(c as int));
                        assert(self.entries(cur as int).contains_key(q.last()));
                    }
                    match self.nodes[c].kind {
                        InitramFsNodeKind::Directory => {},
                        _ => {
                            proof {
                                assert(self@.contains_key(q));
                                assert(!is_dir_at(self@, q));
                            }
                            return None;
                        },
                    }
                    proof {
                        assert(self@.contains_key(q));
                        assert(is_dir_at(self@, q));
                    }
                    cur = c;
                },
            }
            i += 1;
        }
        proof {
            if cs.len() > 0 {
                assert(i == cs.len() - 1);
            }
        }
        Some(cur)
    }

    /// Parses an initramfs image. `None` if the image is malformed.
    pub fn parse(image: &[u8]) -> (r: Option<InitramFs>)
        requires
            image.len() <= isize::MAX,
        ensures
            match initramfs_tree(image@) {
                Some(m) => r matches Some(fs) && fs.wf() && fs@ == m,
                None => r is None,
            },
    {
        let ghost img = image@;
        let mut fs = InitramFs::new_root();
        let mut off: usize = 0;
        loop
            invariant
                img == image@,
                image.len() <= isize::MAX,
                fs.wf(),
                off <= image.len(),
                fs.num_nodes() <= off + 1,
                initramfs_tree(img) == load_from(img, off as int, fs@),
            decreases image.len() - off,
        {
            let h = match parse_header(image, off) {
                Some(h) => h,
                None => {
                    return None;
                },
            };
            let name_start = off + CPIO_HEADER_LEN;
            if h.namesize - 1 > image.len() - name_start {
                return None;
            }
            let name_end = name_start + h.namesize - 1;
            let name = crate::components::slice_range(image, name_start, name_end);
            let path = if name.len() >= 2 && name[0] == 0x2e && name[1] == 0x2f {
                crate::components::slice_skip(name.as_slice(), 1)
            } else {
                name
            };
            if is_trailer(path.as_slice()) {
                return Some(fs);
            }
            if path.len() == 0 || name_end + 1 > image.len() {
                return None;
            }
            let data_start = align_up(name_end + 1, 4);
            if data_start > image.len() || h.filesize > image.len() - data_start {
                return None;
            }
            let data_end = data_start + h.filesize;
            let next = align_up(data_end, 4);
            if next > image.len() {
                return None;
            }
            let ghost record = CpioRecord {
                path: path@,
                ino: h.ino as nat,
                mode: h.mode as nat,
                data_start: data_start as nat,
                data_len: h.filesize as nat,
            };
            proof {
                assert(record_at(img, off as int) == RecordAt::Entry { record, next: next as nat });
            }
            // Look for the parent directory for the file.
            let cs = path_components_bytes(path.as_slice());
            let ghost csv = cs@.map_values(|v: Vec<u8>| v@);
            let parent = match fs.find_parent(&cs) {
                Some(d) => d,
                None => {
                    return None;
                },
            };
            // Create a file, a directory or a link under its parent.
            let mode = FileMode::new(h.mode as u32);
            let stat = Stat::new(INodeNo::new(h.ino), mode);
            let kind = if mode.is_symbolic_link() {
                let data = crate::components::slice_range(image, data_start, data_end);
                match str_from_utf8(data.as_slice()) {
                    Some(dst) => Some(InitramFsNodeKind::Symlink { dst: dst.to_owned() }),
                    None => {
                        return None;
                    },
                }
            } else if mode.is_directory() {
                Some(InitramFsNodeKind::Directory)
            } else if mode.is_regular_file() {
                Some(InitramFsNodeKind::File { data_start, data_len: h.filesize })
            } else {
                None
            };
            match kind {
                Some(kind) => {
                    if cs.len() == 0 {
                        return None;
                    }
                    let last = cs.len() - 1;
                    let filename = crate::components::slice_range(cs[last].as_slice(), 0, cs[last].len());
                    let key = crate::components::slice_range(cs[last].as_slice(), 0, cs[last].len());
                    let node = InitramFsNode { filename, stat, kind };
                    proof {
                        assert(cs[last as int]@.subrange(0, cs[last as int]@.len() as int) =~= cs[last as int]@);
                        assert(csv.take(csv.len() - 1).push(csv.last()) =~= csv);
                        assert(record_node(img, record) == RecordNode::Insert(node@));
                    }
                    fs.put(parent, key, node, Ghost(csv.take(csv.len() - 1)));
                },
                None => {
                    proof {
                        assert(record_node(img, record) == RecordNode::Skip);
                    }
                },
            }
            off = next;
        }
    }

    /// Parses an initramfs image that is known to be well formed.
    pub fn new(fs_image: &[u8]) -> (r: InitramFs)
        requires
            fs_image.len() <= isize::MAX,
            initramfs_tree(fs_image@) is Some,
        ensures
            r.wf(),
            r@ == initramfs_tree(fs_image@).unwrap(),
    {
        InitramFs::parse(fs_image).unwrap()
    }
}

/// The `d_type` of a node kind.
pub open spec fn kind_file_type(k: KindView) -> FileType {
    match k {
        KindView::Directory => FileType::Directory,
        KindView::File { .. } => FileType::Regular,
        KindView::Symlink { .. } => FileType::Link,
    }
}

/// The bytes that a read of `len` bytes at `offset` of a file with contents
/// `data` returns: nothing past the end.
pub open spec fn read_range(data: Seq<u8>, offset: int, len: int) -> Seq<u8> {
    if offset > data.len() {
        Seq::empty()
    } else if data.len() - offset <= len {
        data.skip(offset)
    } else {
        data.subrange(offset, offset + len)
    }
}

/// A read gives the file's bytes from `offset` on, as many as were asked
/// for and the file still holds: byte `k` of the result is byte
/// `offset + k` of the file.
pub proof fn lemma_read_range(data: Seq<u8>, offset: int, len: int)
    requires
        0 <= offset,
        0 <= len,
    ensures
        read_range(data, offset, len).len() == (if offset > data.len() {
            0
        } else if data.len() - offset <= len {
            data.len() - offset
        } else {
            len
        }),
        forall|k: int|
            0 <= k < read_range(data, offset, len).len() ==> #[trigger] read_range(data, offset, len)[k]
                == data[offset + k],
{
}

impl InitramFs {
    /// The root directory's node.
    pub fn root_dir(&self) -> (r: usize)
        requires
            self.wf(),
        ensures
            r == 0,
            self.index_at(Seq::empty()) == Some(0int),
            self.node_view(0) == root_view(),
    {
        0
    }

    /// The node at index `i`.
    pub fn node(&self, i: usize) -> (r: &InitramFsNode)
        requires
            i < self.num_nodes(),
        ensures
            r@ == self.node_view(i as int),
            self.wf() ==> r.filename@ == self.name_of(i as int),
    {
        &self.nodes[i]
    }

    /// `stat(2)` of a node.
    pub fn stat(&self, i: usize) -> (r: Stat)
        requires
            i < self.num_nodes(),
        ensures
            r.inode_no@ == self.node_view(i as int).ino,
            r.mode@ == self.node_view(i as int).mode,
    {
        self.nodes[i].stat
    }

    /// Looks for the entry `name` of the directory node `dir`.
    pub fn lookup(&self, dir: usize, name: &[u8]) -> (r: Result<usize, Error>)
        requires
            self.wf(),
            dir < self.num_nodes(),
        ensures
            self.entries(dir as int).contains_key(name@) ==> r == Ok::<usize, Error>(
                self.entries(dir as int)[name@],
            ),
            !self.entries(dir as int).contains_key(name@) ==> r == Err::<usize, Error>(
                Error { errno: Errno::ENOENT },
            ),
    {
        match self.dirs[dir].get(name) {
            Some(c) => Ok(c),
            None => Err(Error::new(Errno::ENOENT)),
        }
    }

    /// The `index`-th entry of the directory node `dir` (`readdir(2)`), in
    /// the order of the directory's name map.
    pub fn readdir(&self, dir: usize, index: usize) -> (r: Option<DirEntry>)
        requires
            self.wf(),
            dir < self.num_nodes(),
        ensures
            lists_names(self.entry_order(dir as int), self.entries(dir as int)),
            r is Some == (index < self.entries(dir as int).dom().len()),
            r matches Some(e) ==> {
                &&& e.name@ == self.entry_order(dir as int)[index as int]
                &&& self.entries(dir as int).contains_key(e.name@)
                &&& e.inode_no@ == self.node_view(self.entries(dir as int)[e.name@] as int).ino
                &&& e.file_type == kind_file_type(
                    self.node_view(self.entries(dir as int)[e.name@] as int).kind,
                )
            },
    {
        let m = &self.dirs[dir];
        proof {
            use_type_invariant(m);
        }
        match m.nth(index) {
            Some((name, c)) => {
                proof {
                    assert(self.entries(dir as int).contains_key(name@));
                    assert(c < self.num_nodes());
                }
                let node = &self.nodes[c];
                let file_type = match node.kind {
                    InitramFsNodeKind::Directory => FileType::Directory,
                    InitramFsNodeKind::File { .. } => FileType::Regular,
                    InitramFsNodeKind::Symlink { .. } => FileType::Link,
                };
                Some(DirEntry { inode_no: node.stat.inode_no, file_type, name })
            },
            None => None,
        }
    }

    /// The initramfs is read-only: writing a file gives `EROFS`.
    pub fn write(&self, file: usize, offset: usize, buf: &[u8]) -> (r: Result<usize, Error>)
        ensures
            r == Err::<usize, Error>(Error { errno: Errno::EROFS }),
    {
        Err(Error::new(Errno::EROFS))
    }

    /// Creating a file in a directory gives `EROFS`.
    pub fn create_file(&self, dir: usize, name: &str, mode: FileMode) -> (r: Result<usize, Error>)
        ensures
            r == Err::<usize, Error>(Error { errno: Errno::EROFS }),
    {
        Err(Error::new(Errno::EROFS))
    }

    /// Creating a directory gives `EROFS`.
    pub fn create_dir(&self, dir: usize, name: &str, mode: FileMode) -> (r: Result<usize, Error>)
        ensures
            r == Err::<usize, Error>(Error { errno: Errno::EROFS }),
    {
        Err(Error::new(Errno::EROFS))
    }

    /// Linking into a directory is not supported: `ENOSYS`.
    pub fn link(&self, dir: usize, name: &str, link_to: usize) -> (r: Result<(), Error>)
        ensures
            r == Err::<(), Error>(Error { errno: Errno::ENOSYS }),
    {
        Err(Error::new(Errno::ENOSYS))
    }

    /// Reads at most `len` bytes at `offset` of the regular file node
    /// `file`, whose contents lie in `image`.
    pub fn read(&self, file: usize, image: &[u8], offset: usize, len: usize) -> (r: Vec<u8>)
        requires
            file < self.num_nodes(),
            self.node_view(file as int).kind matches KindView::File { data_start, data_len }
                && data_start + data_len <= image.len(),
        ensures
            self.node_view(file as int).kind matches KindView::File { data_start, data_len }
                && r@ == read_range(
                image@.subrange(data_start as int, (data_start + data_len) as int),
                offset as int,
                len as int,
            ),
            self.node_view(file as int).kind matches KindView::File { data_start, data_len } && {
                &&& r@.len() == (if offset > data_len {
                    0
                } else if data_len - offset <= len {
                    data_len - offset
                } else {
                    len as int
                })
                &&& forall|k: int|
                    0 <= k < r@.len() ==> #[trigger] r@[k] == image@[data_start + offset + k]
            },
    {
        match self.nodes[file].kind {
            InitramFsNodeKind::File { data_start, data_len } => {
                let ghost data = image@.subrange(data_start as int, data_start + data_len);
                proof {
                    lemma_read_range(data, offset as int, len as int);
                }
                if offset > data_len {
                    return Vec::new();
                }
                let n = if data_len - offset <= len {
                    data_len - offset
                } else {
                    len
                };
                let r = crate::components::slice_range(image, data_start + offset, data_start + offset + n);
                proof {
                    if data_len - offset <= len {
                        assert(r@ =~= data.skip(offset as int));
                    } else {
                        assert(r@ =~= data.subrange(offset as int, offset + len));
                    }
                }
                r
            },
            _ => Vec::new(),
        }
    }
}

/// Looking up `name` in the directory at path `p` finds the file at path
/// `p` followed by `name`, and nothing else.
pub proof fn lemma_lookup_agrees_with_tree(fs: InitramFs, p: Seq<Seq<u8>>, name: Seq<u8>)
    requires
        fs.wf(),
        fs.index_at(p) is Some,
        fs.node_view(fs.index_at(p).unwrap()).kind is Directory,
    ensures
        fs.entries(fs.index_at(p).unwrap()).contains_key(name) == fs@.contains_key(p.push(name)),
        fs.entries(fs.index_at(p).unwrap()).contains_key(name) ==> fs@[p.push(name)] == fs.node_view(
            fs.entries(fs.index_at(p).unwrap())[name] as int,
        ),
{
    fs.lemma_node_at_unique(p);
    let d = fs.index_at(p).unwrap();
    assert(p.push(name).drop_last() =~= p);
    assert(fs.children()[d] == fs.entries(d));
    assert(fs.node_views()[d] == fs.node_view(d));
    if fs.entries(d).contains_key(name) {
        let c = fs.entries(d)[name] as int;
        assert(fs.node_views()[c] == fs.node_view(c));
    }
}
} // verus!
