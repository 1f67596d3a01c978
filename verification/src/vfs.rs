//! Path resolution over mounted file systems: inodes, path components and
//! the walk from a directory along a path.
use vstd::prelude::*;
use vstd::string::{StrSliceExecFns, StringExecFns};
use crate::components::{first_index_of, lemma_first_index_of};
use crate::path::{slash_char, spec_parent_and_basename, str_equals, Components, Path, PathBuf};
use crate::opened_file::{Fd, OpenFlags, OpenOptions, OpenedFileTable, O_NONBLOCK, lookup};
use crate::result::{Errno, Error};
use crate::stat::{FileMode, INodeNo, Stat};

verus! {

/// An inode: what kind of object it is and which node of the file-system
/// graph holds it.
#[derive(Clone, Copy, Debug, PartialEq, Eq, Structural)]
pub enum INode {
    FileLike(usize),
    Directory(usize),
    Symlink(usize),
}

impl INode {
    /// The node of the graph that holds the inode.
    pub open spec fn node(self) -> nat {
        match self {
            INode::FileLike(n) => n as nat,
            INode::Directory(n) => n as nat,
            INode::Symlink(n) => n as nat,
        }
    }

    /// Unwraps as a file. If it's not, returns `EBADF`.
    pub fn as_file(&self) -> (r: Result<usize, Error>)
        ensures
            r == (match *self {
                INode::FileLike(n) => Ok::<usize, Error>(n),
                _ => Err::<usize, Error>(Error { errno: Errno::EBADF }),
            }),
    {
        match self {
            INode::FileLike(n) => Ok(*n),
            _ => Err(Error::new(Errno::EBADF)),
        }
    }

    /// Unwraps as a directory. If it's not, returns `EBADF`.
    pub fn as_dir(&self) -> (r: Result<usize, Error>)
        ensures
            r == (match *self {
                INode::Directory(n) => Ok::<usize, Error>(n),
                _ => Err::<usize, Error>(Error { errno: Errno::EBADF }),
            }),
    {
        match self {
            INode::Directory(n) => Ok(*n),
            _ => Err(Error::new(Errno::EBADF)),
        }
    }

    /// Returns `true` if it's a file.
    pub fn is_file(&self) -> (r: bool)
        ensures
            r == (*self is FileLike),
    {
        match self {
            INode::FileLike(_) => true,
            _ => false,
        }
    }

    /// Returns `true` if it's a directory.
    pub fn is_dir(&self) -> (r: bool)
        ensures
            r == (*self is Directory),
    {
        match self {
            INode::Directory(_) => true,
            _ => false,
        }
    }
}

/// A path component: a name, the inode it resolved to, and the component
/// of its parent directory (`None` for the root directory).
pub struct PathComponent {
    pub parent_dir: Option<Box<PathComponent>>,
    pub name: String,
    pub inode: INode,
}

/// A chain of components, from the outermost ancestor to the component
/// itself: each name with its inode.
pub type Chain = Seq<(Seq<char>, INode)>;

impl PathComponent {
    /// The chain that ends at this component.
    pub open spec fn view(&self) -> Chain
        decreases self,
    {
        match self.parent_dir {
            None => seq![(self.name@, self.inode)],
            Some(p) => p.view().push((self.name@, self.inode)),
        }
    }

    /// The number of ancestors.
    pub open spec fn depth(&self) -> nat
        decreases self,
    {
        match self.parent_dir {
            None => 0,
            Some(p) => 1 + p.depth(),
        }
    }

    /// A chain is never empty, and it is one longer than the ancestors.
    pub proof fn lemma_view_len(&self)
        ensures
            self@.len() == self.depth() + 1,
            self@.last() == (self.name@, self.inode),
        decreases self,
    {
        match self.parent_dir {
            None => {},
            Some(p) => {
                p.lemma_view_len();
            },
        }
    }

    /// The parent's chain is this chain without its last element.
    pub proof fn lemma_parent(&self)
        ensures
            self.parent_dir is None <==> self@.len() == 1,
            self.parent_dir matches Some(p) ==> p@ == self@.drop_last(),
    {
        match self.parent_dir {
            None => {},
            Some(p) => {
                p.lemma_view_len();
                assert(self@.drop_last() =~= p@);
            },
        }
    }

    /// A component with no parent, for objects that no path reaches (such
    /// as unnamed pipes).
    pub fn new_anonymous(inode: INode) -> (r: PathComponent)
        ensures
            r.parent_dir is None,
            r.name@ == "anon"@,
            r.inode == inode,
    {
        PathComponent { parent_dir: None, name: String::from_str("anon"), inode }
    }

    /// A copy of the component and of its ancestors.
    pub fn duplicate(&self) -> (r: PathComponent)
        ensures
            r@ == self@,
        decreases self,
    {
        let parent_dir = match &self.parent_dir {
            None => None,
            Some(p) => Some(Box::new(p.duplicate())),
        };
        PathComponent { parent_dir, name: self.name.clone(), inode: self.inode }
    }
}

/// The names of a chain joined by `/`: the path from the outermost
/// ancestor.
pub open spec fn joined_names(chain: Chain) -> Seq<char>
    decreases chain.len(),
{
    if chain.len() <= 1 {
        if chain.len() == 1 { chain[0].0 } else { Seq::empty() }
    } else {
        joined_names(chain.drop_last()) + seq![slash_char()] + chain.last().0
    }
}

/// The absolute path of a chain: `/` for a component without parent, else
/// the names joined by `/` (the root's name is empty, so the path starts
/// with `/`).
pub open spec fn absolute_path(chain: Chain) -> Seq<char> {
    if chain.len() <= 1 {
        seq![slash_char()]
    } else {
        joined_names(chain)
    }
}

impl PathComponent {
    /// Resolves into the absolute path.
    pub fn resolve_absolute_path(&self) -> (r: PathBuf)
        ensures
            r@ == absolute_path(self@),
    {
        proof {
            self.lemma_view_len();
        }
        match &self.parent_dir {
            None => {
                proof {
                    reveal_strlit("/");
                    assert("/"@ =~= seq![slash_char()]);
                }
                PathBuf::from_str("/")
            },
            Some(_) => {
                let mut path = self.name.clone();
                let mut cur: &PathComponent = self;
                proof {
                    assert(self@.len() > 1);
                }
                while cur.parent_dir.is_some()
                    invariant
                        cur@.len() >= 1,
                        self@.len() >= 2,
                        cur@.len() <= self@.len(),
                        cur@ == self@.take(cur@.len() as int),
                        cur.depth() + 1 == cur@.len(),
                        joined_names(self@) == joined_names(cur@) + path@.subrange(
                            cur@.last().0.len() as int,
                            path@.len() as int,
                        ),
                        path@.take(cur@.last().0.len() as int) == cur@.last().0,
                        cur@.last().0.len() <= path@.len(),
                    decreases cur.depth(),
                {
                    let p: &PathComponent = match &cur.parent_dir {
                        Some(p) => p,
                        None => cur,
                    };
                    proof {
                        p.lemma_view_len();
                        cur.lemma_view_len();
                    }
                    let prefix = p.name.clone().concat("/");
                    let ghost old_path = path@;
                    path = prefix.concat(path.as_str());
                    proof {
                        reveal_strlit("/");
                        assert(cur@ == p@.push((cur.name@, cur.inode)));
                        assert(cur@.drop_last() =~= p@);
                        assert(joined_names(cur@) == joined_names(p@) + seq![slash_char()] + cur@.last().0);
                        assert(path@ == p.name@ + seq![slash_char()] + old_path);
                        assert(path@.take(p.name@.len() as int) =~= p.name@);
                        assert(p@.last().0 == p.name@);
                        assert(old_path =~= cur@.last().0 + old_path.subrange(cur@.last().0.len() as int, old_path.len() as int));
                        assert(path@.subrange(p.name@.len() as int, path@.len() as int) =~= seq![slash_char()] + old_path);
                        assert(p@ =~= self@.take(p@.len() as int));
                    }
                    cur = p;
                }
                proof {
                    cur.lemma_view_len();
                    assert(cur@.len() == 1);
                    assert(joined_names(cur@) == cur@[0].0);
                    assert(path@ =~= cur@.last().0 + path@.subrange(cur@.last().0.len() as int, path@.len() as int));
                }
                PathBuf::from_string(path)
            },
        }
    }
}


/// A node of the file-system graph as plain values: the inode number that
/// `stat` reports, the entries if it is a directory (names and inodes, in
/// order), and the target if it is a symbolic link.
pub struct VfsNode {
    pub inode_no: usize,
    pub entries: Seq<(Seq<char>, INode)>,
    pub target: Seq<char>,
}

/// A directory entry: a name and the inode it names.
pub struct DirLink {
    pub name: String,
    pub inode: INode,
}

/// A node of the file-system graph. `mode` is what `stat(2)` reports with
/// the inode number; a file that reports nothing has none.
pub struct FsNode {
    pub inode_no: usize,
    pub entries: Vec<DirLink>,
    pub link_target: String,
    pub mode: Option<FileMode>,
}

impl FsNode {
    pub open spec fn view(&self) -> VfsNode {
        VfsNode {
            inode_no: self.inode_no,
            entries: self.entries@.map_values(|l: DirLink| (l.name@, l.inode)),
            target: self.link_target@,
        }
    }
}

/// The files, directories and symbolic links of the mounted file systems;
/// an inode names its node by index.
pub struct FsGraph {
    pub nodes: Vec<FsNode>,
}

/// The first entry of `entries` named `name`.
pub open spec fn dir_lookup(entries: Seq<(Seq<char>, INode)>, name: Seq<char>) -> Option<INode>
    decreases entries.len(),
{
    if entries.len() == 0 {
        None
    } else if entries[0].0 == name {
        Some(entries[0].1)
    } else {
        dir_lookup(entries.skip(1), name)
    }
}

/// Whether every inode of `chain` names a node of `g`.
pub open spec fn chain_valid(g: Seq<VfsNode>, chain: Chain) -> bool {
    &&& chain.len() >= 1
    &&& forall|k: int| 0 <= k < chain.len() ==> (#[trigger] chain[k]).1.node() < g.len()
}

/// Whether every entry of every directory names a node of `g`.
pub open spec fn graph_valid(g: Seq<VfsNode>) -> bool {
    forall|n: int, k: int|
        0 <= n < g.len() && 0 <= k < g[n].entries.len() ==> (#[trigger] g[n].entries[k]).1.node()
            < g.len()
}

/// A found entry names a node of a valid graph.
pub proof fn lemma_dir_lookup_valid(g: Seq<VfsNode>, n: int, entries: Seq<(Seq<char>, INode)>, name: Seq<char>)
    requires
        forall|k: int| 0 <= k < entries.len() ==> (#[trigger] entries[k]).1.node() < g.len(),
    ensures
        dir_lookup(entries, name) matches Some(i) ==> i.node() < g.len(),
    decreases entries.len(),
{
    if entries.len() > 0 && entries[0].0 != name {
        assert forall|k: int| 0 <= k < entries.skip(1).len() implies (#[trigger] entries.skip(1)[k]).1.node() < g.len() by {
            assert(entries.skip(1)[k] == entries[k + 1]);
        }
        lemma_dir_lookup_valid(g, n, entries.skip(1), name);
    }
}

impl FsGraph {
    pub open spec fn view(&self) -> Seq<VfsNode> {
        self.nodes@.map_values(|n: FsNode| n@)
    }

    /// Looks `name` up in the directory held by node `dir`.
    pub fn lookup(&self, dir: usize, name: &str) -> (r: Option<INode>)
        requires
            dir < self@.len(),
        ensures
            r == dir_lookup(self@[dir as int].entries, name@),
    {
        let entries = &self.nodes[dir].entries;
        let ghost es = self@[dir as int].entries;
        let mut i: usize = 0;
        proof {
            assert(es.skip(0) =~= es);
        }
        while i < entries.len()
            invariant
                es == self@[dir as int].entries,
                es.len() == entries.len(),
                forall|k: int| 0 <= k < es.len() ==> #[trigger] es[k] == (entries@[k].name@, entries@[k].inode),
                0 <= i <= entries.len(),
                dir_lookup(es, name@) == dir_lookup(es.skip(i as int), name@),
            decreases entries.len() - i,
        {
            proof {
                assert(es[i as int] == (entries@[i as int].name@, entries@[i as int].inode));
                assert(es.skip(i as int)[0] == es[i as int]);
                assert(es.skip(i as int).skip(1) =~= es.skip(i + 1));
            }
            if str_equals(entries[i].name.as_str(), name) {
                return Some(entries[i].inode);
            }
            i += 1;
        }
        None
    }
}

impl INode {
    /// `readlink(2)`: a symbolic link's target; anything else gives
    /// `EINVAL`.
    pub fn readlink(&self, g: &FsGraph) -> (r: Result<PathBuf, Error>)
        requires
            self.node() < g@.len(),
        ensures
            match self {
                INode::Symlink(n) => r matches Ok(p) && p@ == g@[*n as int].target,
                _ => r == Err::<PathBuf, Error>(Error { errno: Errno::EINVAL }),
            },
    {
        match self {
            INode::Symlink(n) => Ok(PathBuf::from_str(g.nodes[*n].link_target.as_str())),
            _ => Err(Error::new(Errno::EINVAL)),
        }
    }

    /// `stat(2)`: the inode number and the mode of the node; `EBADF` for a
    /// file that reports none.
    pub fn stat(&self, g: &FsGraph) -> (r: Result<Stat, Error>)
        requires
            self.node() < g@.len(),
        ensures
            match g.nodes@[self.node() as int].mode {
                Some(m) => r matches Ok(st) && st.inode_no@ == g@[self.node() as int].inode_no
                    && st.mode == m,
                None => r == Err::<Stat, Error>(Error { errno: Errno::EBADF }),
            },
    {
        let n = match self {
            INode::FileLike(n) => *n,
            INode::Directory(n) => *n,
            INode::Symlink(n) => *n,
        };
        match g.nodes[n].mode {
            Some(m) => Ok(Stat::new(INodeNo::new(g.nodes[n].inode_no), m)),
            None => Err(Error::new(Errno::EBADF)),
        }
    }

    /// `chmod(2)`: a directory or a symbolic link that has a mode takes
    /// `mode`; a file, or a node without a mode, gives `EBADF`. Nothing
    /// that a lookup reads changes.
    pub fn chmod(&self, g: &mut FsGraph, mode: FileMode) -> (r: Result<(), Error>)
        requires
            self.node() < old(g)@.len(),
        ensures
            final(g)@ == old(g)@,
            final(g).nodes@.len() == old(g).nodes@.len(),
            ({
                let n = self.node() as int;
                if !(self is FileLike) && old(g).nodes@[n].mode is Some {
                    &&& r is Ok
                    &&& final(g).nodes@[n].mode == Some(mode)
                    &&& forall|k: int| 0 <= k < old(g).nodes@.len() && k != n
                        ==> #[trigger] final(g).nodes@[k].mode == old(g).nodes@[k].mode
                } else {
                    &&& r == Err::<(), Error>(Error { errno: Errno::EBADF })
                    &&& forall|k: int| 0 <= k < old(g).nodes@.len()
                        ==> #[trigger] final(g).nodes@[k].mode == old(g).nodes@[k].mode
                }
            }),
    {
        let n = match self {
            INode::FileLike(_) => {
                return Err(Error::new(Errno::EBADF));
            },
            INode::Directory(n) => *n,
            INode::Symlink(n) => *n,
        };
        if g.nodes[n].mode.is_none() {
            return Err(Error::new(Errno::EBADF));
        }
        g.nodes[n].mode = Some(mode);
        proof {
            assert(g@ =~= old(g)@);
        }
        Ok(())
    }

    /// `fsync(2)`: nothing is cached, so it succeeds at once.
    pub fn fsync(&self) -> (r: Result<(), Error>)
        ensures
            r is Ok,
    {
        Ok(())
    }
}

/// The mount points: the inode number of a directory, and the node of the
/// root directory of the file system mounted there.
#[verifier::external_body]
pub struct MountTable {
    map: hashbrown::HashMap<usize, usize>,
}

/// The mount points a `MountTable` holds.
pub uninterp spec fn mount_table_contents(m: MountTable) -> Map<usize, usize>;

impl MountTable {
    /// `hashbrown::HashMap::new`: no mount point.
    #[verifier::external_body]
    pub(crate) fn new() -> (r: MountTable)
        ensures
            mount_table_contents(r) =~= Map::empty(),
    {
        MountTable { map: hashbrown::HashMap::new() }
    }

    /// `hashbrown::HashMap::get`: the root mounted on the directory with
    /// inode number `inode_no`, if any.
    #[verifier::external_body]
    pub(crate) fn get(&self, inode_no: usize) -> (r: Option<usize>)
        ensures
            r == mount_table_contents(*self).get(inode_no),
    {
        match self.map.get(&inode_no) {
            Some(v) => Some(*v),
            None => None,
        }
    }

    /// `hashbrown::HashMap::insert`: `root` is now mounted on `inode_no`,
    /// in place of what was mounted there before.
    #[verifier::external_body]
    pub(crate) fn insert(&mut self, inode_no: usize, root: usize)
        ensures
            mount_table_contents(*final(self)) == mount_table_contents(*old(self)).insert(inode_no, root),
    {
        self.map.insert(inode_no, root);
    }
}


/// The symbolic links a lookup follows before it gives up with `ELOOP`.
pub const DEFAULT_SYMLINK_FOLLOW_MAX: usize = 8;

/// The inode that a lookup yields for the entry `inode`: a directory on
/// which a file system is mounted gives way to that file system's root.
pub open spec fn mounted(g: Seq<VfsNode>, mounts: Map<usize, usize>, inode: INode) -> INode {
    match inode {
        INode::Directory(d) => if mounts.contains_key(g[d as int].inode_no) {
            INode::Directory(mounts[g[d as int].inode_no])
        } else {
            inode
        },
        _ => inode,
    }
}

/// The characters of `path` that are split into components: one leading
/// `/` is skipped.
pub open spec fn components_of(path: Seq<char>) -> Seq<char> {
    if path.len() > 0 && path[0] == slash_char() {
        path.skip(1)
    } else {
        path
    }
}

/// Where a walk along the target of a symbolic link starts: the root for
/// an absolute target, else the directory that holds the link.
pub open spec fn follow_from(root: Chain, dir: Chain, target: Seq<char>) -> Chain {
    if target.len() > 0 && target[0] == slash_char() {
        root
    } else {
        dir
    }
}

/// The walk from the component chain `from` along the characters `rest`
/// of a path (components separated by `/`), as `RootFs` does it: `.` is
/// skipped; `..` goes to the parent (the root has none, and gives the
/// root); any other name is looked up in the current directory (`EBADF`
/// when it is not a directory, `ENOENT` when the name is missing), and a
/// directory with a file system mounted on it gives way to that file
/// system's root. A symbolic link in the middle of the path is always
/// followed, through any links its target ends on, and must lead to a
/// directory (`ENOTDIR` otherwise, as for a file in the middle); the last
/// one is followed when `follow` holds. Each
/// link followed takes one from `limit`; at zero, `ELOOP`. An empty target
/// gives `ENOENT`.
pub open spec fn walk(
    g: Seq<VfsNode>,
    mounts: Map<usize, usize>,
    root: Chain,
    from: Chain,
    rest: Seq<char>,
    follow: bool,
    limit: nat,
) -> Result<Chain, Error>
    decreases limit, rest.len(),
{
    if rest.len() == 0 {
        Ok(from)
    } else {
        let i = first_index_of(rest, slash_char());
        proof {
            lemma_first_index_of(rest, slash_char());
        }
        let name = rest.take(i);
        let after = if i < rest.len() {
            rest.skip(i + 1)
        } else {
            Seq::<char>::empty()
        };
        if name == "."@ {
            walk(g, mounts, root, from, after, follow, limit)
        } else {
            let comp: Result<Chain, Error> = if name == ".."@ {
                Ok(
                    if from.len() > 1 {
                        from.drop_last()
                    } else {
                        root
                    },
                )
            } else {
                match from.last().1 {
                    INode::Directory(d) => match dir_lookup(g[d as int].entries, name) {
                        None => Err(Error { errno: Errno::ENOENT }),
                        Some(inode) => Ok(from.push((name, mounted(g, mounts, inode)))),
                    },
                    _ => Err(Error { errno: Errno::EBADF }),
                }
            };
            match comp {
                Err(e) => Err(e),
                Ok(c) => if after.len() > 0 {
                    match c.last().1 {
                        INode::Directory(_) => walk(g, mounts, root, c, after, follow, limit),
                        INode::Symlink(s) => if limit == 0 {
                            Err(Error { errno: Errno::ELOOP })
                        } else {
                            let target = g[s as int].target;
                            if target.len() == 0 {
                                Err(Error { errno: Errno::ENOENT })
                            } else {
                                match walk(
                                    g,
                                    mounts,
                                    root,
                                    follow_from(root, from, target),
                                    components_of(target),
                                    true,
                                    (limit - 1) as nat,
                                ) {
                                    Err(e) => Err(e),
                                    Ok(dst) => match dst.last().1 {
                                        INode::Directory(_) => walk(
                                            g,
                                            mounts,
                                            root,
                                            dst,
                                            after,
                                            follow,
                                            limit,
                                        ),
                                        _ => Err(Error { errno: Errno::ENOTDIR }),
                                    },
                                }
                            }
                        },
                        INode::FileLike(_) => Err(Error { errno: Errno::ENOTDIR }),
                    }
                } else {
                    match c.last().1 {
                        INode::Symlink(s) => if follow {
                            if limit == 0 {
                                Err(Error { errno: Errno::ELOOP })
                            } else {
                                let target = g[s as int].target;
                                if target.len() == 0 {
                                    Err(Error { errno: Errno::ENOENT })
                                } else {
                                    walk(
                                        g,
                                        mounts,
                                        root,
                                        follow_from(root, from, target),
                                        components_of(target),
                                        follow,
                                        (limit - 1) as nat,
                                    )
                                }
                            }
                        } else {
                            Ok(c)
                        },
                        _ => Ok(c),
                    }
                },
            }
        }
    }
}

/// The lookup of a whole path from `from`: an empty path gives `ENOENT`.
pub open spec fn lookup_chain(
    g: Seq<VfsNode>,
    mounts: Map<usize, usize>,
    root: Chain,
    from: Chain,
    path: Seq<char>,
    follow: bool,
    limit: nat,
) -> Result<Chain, Error> {
    if path.len() == 0 {
        Err(Error { errno: Errno::ENOENT })
    } else {
        walk(g, mounts, root, from, components_of(path), follow, limit)
    }
}

/// The chain of a lookup's result.
pub open spec fn result_chain(r: Result<PathComponent, Error>) -> Result<Chain, Error> {
    match r {
        Ok(pc) => Ok(pc@),
        Err(e) => Err(e),
    }
}

/// The root file system and the current directory, and what is mounted
/// where.
pub struct RootFs {
    root_path: PathComponent,
    cwd_path: PathComponent,
    mount_points: MountTable,
    symlink_follow_limit: usize,
}

impl RootFs {
    /// The chain of the root directory.
    pub closed spec fn root_chain(&self) -> Chain {
        self.root_path@
    }

    /// The chain of the current directory.
    pub closed spec fn cwd_chain(&self) -> Chain {
        self.cwd_path@
    }

    /// The mount points.
    pub closed spec fn mounts(&self) -> Map<usize, usize> {
        mount_table_contents(self.mount_points)
    }

    pub closed spec fn follow_limit(&self) -> nat {
        self.symlink_follow_limit as nat
    }

    /// Whether the state fits the graph `g`: every node it names is in `g`.
    pub open spec fn wf(&self, g: Seq<VfsNode>) -> bool {
        &&& graph_valid(g)
        &&& chain_valid(g, self.root_chain())
        &&& chain_valid(g, self.cwd_chain())
        &&& no_symlinks(self.root_chain())
        &&& no_symlinks(self.cwd_chain())
        &&& forall|k: usize| #[trigger] self.mounts().contains_key(k) ==> self.mounts()[k] < g.len()
    }

    /// The file system whose root directory is node `root_dir`: the current
    /// directory is the root, nothing is mounted.
    pub fn new(root_dir: usize) -> (r: RootFs)
        ensures
            r.root_chain() == seq![(Seq::<char>::empty(), INode::Directory(root_dir))],
            r.cwd_chain() == r.root_chain(),
            r.mounts() == Map::<usize, usize>::empty(),
            r.follow_limit() == DEFAULT_SYMLINK_FOLLOW_MAX,
    {
        let root_path = PathComponent {
            parent_dir: None,
            name: String::new(),
            inode: INode::Directory(root_dir),
        };
        RootFs {
            cwd_path: root_path.duplicate(),
            root_path,
            mount_points: MountTable::new(),
            symlink_follow_limit: DEFAULT_SYMLINK_FOLLOW_MAX,
        }
    }

    /// Mounts the file system whose root directory is node `fs_root` on the
    /// directory with inode number `dir_inode_no`.
    pub fn mount(&mut self, dir_inode_no: usize, fs_root: usize) -> (r: Result<(), Error>)
        ensures
            r is Ok,
            final(self).mounts() == old(self).mounts().insert(dir_inode_no, fs_root),
            final(self).root_chain() == old(self).root_chain(),
            final(self).cwd_chain() == old(self).cwd_chain(),
            final(self).follow_limit() == old(self).follow_limit(),
    {
        self.mount_points.insert(dir_inode_no, fs_root);
        Ok(())
    }

    /// The current directory.
    pub fn cwd_path(&self) -> (r: &PathComponent)
        ensures
            r@ == self.cwd_chain(),
    {
        &self.cwd_path
    }

    /// The walk of `comps` from `from` (see `walk`).
    fn do_walk(
        &self,
        g: &FsGraph,
        from: &PathComponent,
        comps: Components,
        follow: bool,
        limit: usize,
    ) -> (r: Result<PathComponent, Error>)
        requires
            self.wf(g@),
            chain_valid(g@, from@),
        ensures
            result_chain(r) == walk(g@, self.mounts(), self.root_chain(), from@, comps@, follow, limit as nat),
            r matches Ok(pc) ==> chain_valid(g@, pc@),
        decreases limit, comps@.len(),
    {
        let ghost rest = comps@;
        let mut comps = comps;
        proof {
            from.lemma_view_len();
        }
        let name = match comps.next_component() {
            None => {
                return Ok(from.duplicate());
            },
            Some(name) => name,
        };
        let ghost i = first_index_of(rest, slash_char());
        proof {
            lemma_first_index_of(rest, slash_char());
            reveal_strlit(".");
            reveal_strlit("..");
        }
        let ghost after = if i < rest.len() {
            rest.skip(i + 1)
        } else {
            Seq::<char>::empty()
        };
        proof {
            assert(name@ == rest.take(i));
            assert(comps@ == after);
            from.lemma_parent();
        }
        if str_equals(name, ".") {
            return self.do_walk(g, from, comps, follow, limit);
        }
        let comp = if str_equals(name, "..") {
            match &from.parent_dir {
                Some(p) => p.duplicate(),
                None => self.root_path.duplicate(),
            }
        } else {
            let d = match from.inode.as_dir() {
                Ok(d) => d,
                Err(e) => {
                    return Err(e);
                },
            };
            let found = match g.lookup(d, name) {
                Some(inode) => inode,
                None => {
                    return Err(Error::new(Errno::ENOENT));
                },
            };
            proof {
                lemma_dir_lookup_valid(g@, d as int, g@[d as int].entries, name@);
            }
            let inode = match found {
                INode::Directory(dd) => match self.mount_points.get(g.nodes[dd].inode_no) {
                    Some(root) => INode::Directory(root),
                    None => found,
                },
                _ => found,
            };
            PathComponent {
                parent_dir: Some(Box::new(from.duplicate())),
                name: String::from_str(name),
                inode,
            }
        };
        proof {
            comp.lemma_view_len();
            let spec_comp: Chain = if name@ == ".."@ {
                if from@.len() > 1 { from@.drop_last() } else { self.root_chain() }
            } else {
                match from@.last().1 {
                    INode::Directory(d) => from@.push((name@, mounted(g@, self.mounts(), dir_lookup(g@[d as int].entries, name@)->0))),
                    _ => from@,
                }
            };
            assert(comp@ == spec_comp);
            assert(chain_valid(g@, comp@));
        }
        if !comps.is_empty() {
            match comp.inode {
                INode::Directory(_) => self.do_walk(g, &comp, comps, follow, limit),
                INode::Symlink(s) => {
                    if limit == 0 {
                        return Err(Error::new(Errno::ELOOP));
                    }
                    let target = Path::new(g.nodes[s].link_target.as_str());
                    if target.as_str().is_empty() {
                        return Err(Error::new(Errno::ENOENT));
                    }
                    let start: &PathComponent = if target.is_absolute() {
                        &self.root_path
                    } else {
                        from
                    };
                    let dst = match self.do_walk(g, start, target.components(), true, limit - 1) {
                        Ok(dst) => dst,
                        Err(e) => {
                            return Err(e);
                        },
                    };
                    proof {
                        dst.lemma_view_len();
                    }
                    match dst.inode {
                        INode::Directory(_) => self.do_walk(g, &dst, comps, follow, limit),
                        _ => Err(Error::new(Errno::ENOTDIR)),
                    }
                },
                INode::FileLike(_) => Err(Error::new(Errno::ENOTDIR)),
            }
        } else {
            match comp.inode {
                INode::Symlink(s) => {
                    if !follow {
                        return Ok(comp);
                    }
                    if limit == 0 {
                        return Err(Error::new(Errno::ELOOP));
                    }
                    let target = Path::new(g.nodes[s].link_target.as_str());
                    if target.as_str().is_empty() {
                        return Err(Error::new(Errno::ENOENT));
                    }
                    let start: &PathComponent = if target.is_absolute() {
                        &self.root_path
                    } else {
                        from
                    };
                    self.do_walk(g, start, target.components(), follow, limit - 1)
                },
                _ => Ok(comp),
            }
        }
    }
}

/// No inode of `chain` is a symbolic link.
pub open spec fn no_symlinks(chain: Chain) -> bool {
    forall|k: int| 0 <= k < chain.len() ==> !((#[trigger] chain[k]).1 is Symlink)
}

/// A walk that follows symbolic links never ends on one, nor passes one:
/// when the root and the starting chain hold no symbolic link, neither does
/// the result.
pub proof fn lemma_walk_no_symlink(
    g: Seq<VfsNode>,
    mounts: Map<usize, usize>,
    root: Chain,
    from: Chain,
    rest: Seq<char>,
    limit: nat,
)
    requires
        no_symlinks(root),
        no_symlinks(from),
        root.len() >= 1,
        from.len() >= 1,
    ensures
        walk(g, mounts, root, from, rest, true, limit) matches Ok(c) ==> no_symlinks(c) && c.len() >= 1,
    decreases limit, rest.len(),
{
    if rest.len() > 0 {
        let i = first_index_of(rest, slash_char());
        lemma_first_index_of(rest, slash_char());
        let name = rest.take(i);
        let after = if i < rest.len() {
            rest.skip(i + 1)
        } else {
            Seq::<char>::empty()
        };
        if name == "."@ {
            lemma_walk_no_symlink(g, mounts, root, from, after, limit);
        } else {
            let comp: Result<Chain, Error> = if name == ".."@ {
                Ok(
                    if from.len() > 1 {
                        from.drop_last()
                    } else {
                        root
                    },
                )
            } else {
                match from.last().1 {
                    INode::Directory(d) => match dir_lookup(g[d as int].entries, name) {
                        None => Err(Error { errno: Errno::ENOENT }),
                        Some(inode) => Ok(from.push((name, mounted(g, mounts, inode)))),
                    },
                    _ => Err(Error { errno: Errno::EBADF }),
                }
            };
            if let Ok(c) = comp {
                if after.len() > 0 {
                    match c.last().1 {
                        INode::Directory(_) => {
                            assert(no_symlinks(c)) by {
                                if name != ".."@ {
                                    assert forall|k: int| 0 <= k < c.len() implies !((#[trigger] c[k]).1 is Symlink) by {
                                        if k < from.len() {
                                            assert(c[k] == from[k]);
                                        }
                                    }
                                }
                            }
                            lemma_walk_no_symlink(g, mounts, root, c, after, limit);
                        },
                        INode::Symlink(s) => {
                            if limit > 0 {
                                let target = g[s as int].target;
                                if target.len() > 0 {
                                    let start = follow_from(root, from, target);
                                    lemma_walk_no_symlink(
                                        g,
                                        mounts,
                                        root,
                                        start,
                                        components_of(target),
                                        (limit - 1) as nat,
                                    );
                                    if let Ok(dst) = walk(
                                        g,
                                        mounts,
                                        root,
                                        start,
                                        components_of(target),
                                        true,
                                        (limit - 1) as nat,
                                    ) {
                                        lemma_walk_no_symlink(g, mounts, root, dst, after, limit);
                                    }
                                }
                            }
                        },
                        INode::FileLike(_) => {},
                    }
                } else {
                    match c.last().1 {
                        INode::Symlink(s) => {
                            if limit > 0 {
                                let target = g[s as int].target;
                                if target.len() > 0 {
                                    lemma_walk_no_symlink(
                                        g,
                                        mounts,
                                        root,
                                        follow_from(root, from, target),
                                        components_of(target),
                                        (limit - 1) as nat,
                                    );
                                }
                            }
                        },
                        _ => {
                            if name != ".."@ {
                                assert forall|k: int| 0 <= k < c.len() implies !((#[trigger] c[k]).1 is Symlink) by {
                                    if k < from.len() {
                                        assert(c[k] == from[k]);
                                    }
                                }
                            }
                        },
                    }
                }
            }
        }
    }
}

/// Where a lookup of `path` starts: the root for an absolute path, else the
/// current directory.
pub open spec fn start_of(root: Chain, cwd: Chain, path: Seq<char>) -> Chain {
    if path.len() > 0 && path[0] == slash_char() {
        root
    } else {
        cwd
    }
}

impl RootFs {
    /// The lookup of `path` from the current state (see `walk`).
    pub open spec fn spec_lookup(&self, g: Seq<VfsNode>, path: Seq<char>, follow: bool) -> Result<Chain, Error> {
        lookup_chain(
            g,
            self.mounts(),
            self.root_chain(),
            start_of(self.root_chain(), self.cwd_chain(), path),
            path,
            follow,
            self.follow_limit(),
        )
    }

    /// Resolves `path` from `lookup_from` (see `walk`), following at most
    /// `symlink_follow_limit` symbolic links.
    pub fn do_lookup_path(
        &self,
        g: &FsGraph,
        lookup_from: &PathComponent,
        path: Path,
        follow_symlink: bool,
        symlink_follow_limit: usize,
    ) -> (r: Result<PathComponent, Error>)
        requires
            self.wf(g@),
            chain_valid(g@, lookup_from@),
        ensures
            result_chain(r) == lookup_chain(
                g@,
                self.mounts(),
                self.root_chain(),
                lookup_from@,
                path@,
                follow_symlink,
                symlink_follow_limit as nat,
            ),
            r matches Ok(pc) ==> chain_valid(g@, pc@),
    {
        if path.as_str().is_empty() {
            return Err(Error::new(Errno::ENOENT));
        }
        self.do_walk(g, lookup_from, path.components(), follow_symlink, symlink_follow_limit)
    }

    /// Resolves a path into a `PathComponent`: from the root if it is
    /// absolute, else from the current directory. If `follow_symlink` is
    /// `true`, symbolic links are resolved and it never ends on one.
    pub fn lookup_path(&self, g: &FsGraph, path: Path, follow_symlink: bool) -> (r: Result<
        PathComponent,
        Error,
    >)
        requires
            self.wf(g@),
        ensures
            result_chain(r) == self.spec_lookup(g@, path@, follow_symlink),
            r matches Ok(pc) ==> chain_valid(g@, pc@),
            follow_symlink ==> (r matches Ok(pc) ==> no_symlinks(pc@)),
    {
        let lookup_from = if path.is_absolute() {
            &self.root_path
        } else {
            &self.cwd_path
        };
        proof {
            if path@.len() > 0 && follow_symlink {
                lemma_walk_no_symlink(
                    g@,
                    self.mounts(),
                    self.root_chain(),
                    lookup_from@,
                    components_of(path@),
                    self.follow_limit(),
                );
            }
        }
        self.do_lookup_path(g, lookup_from, path, follow_symlink, self.symlink_follow_limit)
    }

    /// Resolves a path into an inode. If `follow_symlink` is `true`,
    /// symbolic links are resolved and it never returns `INode::Symlink`.
    pub fn lookup_inode(&self, g: &FsGraph, path: Path, follow_symlink: bool) -> (r: Result<INode, Error>)
        requires
            self.wf(g@),
        ensures
            r == (match self.spec_lookup(g@, path@, follow_symlink) {
                Ok(c) => Ok::<INode, Error>(c.last().1),
                Err(e) => Err::<INode, Error>(e),
            }),
            follow_symlink ==> !(r matches Ok(INode::Symlink(_))),
    {
        match self.lookup_path(g, path, follow_symlink) {
            Ok(pc) => {
                proof {
                    pc.lemma_view_len();
                }
                Ok(pc.inode)
            },
            Err(e) => Err(e),
        }
    }

    /// Resolves a path (from the current working directory) into an inode,
    /// following symbolic links.
    pub fn lookup(&self, g: &FsGraph, path: Path) -> (r: Result<INode, Error>)
        requires
            self.wf(g@),
        ensures
            r == (match self.spec_lookup(g@, path@, true) {
                Ok(c) => Ok::<INode, Error>(c.last().1),
                Err(e) => Err::<INode, Error>(e),
            }),
            !(r matches Ok(INode::Symlink(_))),
    {
        self.lookup_inode(g, path, true)
    }

    /// Resolves a path into an inode without following a symbolic link at
    /// its end.
    pub fn lookup_no_symlink_follow(&self, g: &FsGraph, path: Path) -> (r: Result<INode, Error>)
        requires
            self.wf(g@),
        ensures
            r == (match self.spec_lookup(g@, path@, false) {
                Ok(c) => Ok::<INode, Error>(c.last().1),
                Err(e) => Err::<INode, Error>(e),
            }),
    {
        self.lookup_inode(g, path, false)
    }

    /// Resolves a path into a file: a directory gives `EISDIR`.
    pub fn lookup_file(&self, g: &FsGraph, path: Path) -> (r: Result<usize, Error>)
        requires
            self.wf(g@),
        ensures
            r == (match self.spec_lookup(g@, path@, true) {
                Ok(c) => match c.last().1 {
                    INode::FileLike(f) => Ok::<usize, Error>(f),
                    _ => Err::<usize, Error>(Error { errno: Errno::EISDIR }),
                },
                Err(e) => Err::<usize, Error>(e),
            }),
    {
        match self.lookup(g, path) {
            Ok(INode::FileLike(f)) => Ok(f),
            Ok(_) => Err(Error::new(Errno::EISDIR)),
            Err(e) => Err(e),
        }
    }

    /// Resolves a path into a directory: anything else gives `EISDIR`.
    pub fn lookup_dir(&self, g: &FsGraph, path: Path) -> (r: Result<usize, Error>)
        requires
            self.wf(g@),
        ensures
            r == (match self.spec_lookup(g@, path@, true) {
                Ok(c) => match c.last().1 {
                    INode::Directory(d) => Ok::<usize, Error>(d),
                    _ => Err::<usize, Error>(Error { errno: Errno::EISDIR }),
                },
                Err(e) => Err::<usize, Error>(e),
            }),
            r matches Ok(d) ==> d < g@.len(),
    {
        match self.lookup_path(g, path, true) {
            Ok(pc) => {
                proof {
                    pc.lemma_view_len();
                    assert(pc@.last() == pc@[pc@.len() - 1]);
                }
                match pc.inode {
                    INode::Directory(d) => Ok(d),
                    _ => Err(Error::new(Errno::EISDIR)),
                }
            },
            Err(e) => Err(e),
        }
    }

    /// Changes the current working directory to what `path` resolves to.
    pub fn chdir(&mut self, g: &FsGraph, path: Path) -> (r: Result<(), Error>)
        requires
            old(self).wf(g@),
        ensures
            final(self).wf(g@),
            final(self).root_chain() == old(self).root_chain(),
            final(self).mounts() == old(self).mounts(),
            final(self).follow_limit() == old(self).follow_limit(),
            match old(self).spec_lookup(g@, path@, true) {
                Ok(c) => r is Ok && final(self).cwd_chain() == c,
                Err(e) => r == Err::<(), Error>(e) && final(self).cwd_chain() == old(self).cwd_chain(),
            },
    {
        match self.lookup_path(g, path, true) {
            Ok(pc) => {
                self.cwd_path = pc;
                Ok(())
            },
            Err(e) => Err(e),
        }
    }
}

/// An absolute path resolves the same whatever the current directory.
pub proof fn lemma_absolute_lookup_ignores_cwd(
    g: Seq<VfsNode>,
    a: RootFs,
    b: RootFs,
    path: Seq<char>,
    follow: bool,
)
    requires
        a.root_chain() == b.root_chain(),
        a.mounts() == b.mounts(),
        a.follow_limit() == b.follow_limit(),
        path.len() > 0 && path[0] == slash_char(),
    ensures
        a.spec_lookup(g, path, follow) == b.spec_lookup(g, path, follow),
{
}

/// `.` resolves to where the lookup starts, and `/` from the root to the
/// root.
pub proof fn lemma_dot_and_slash(
    g: Seq<VfsNode>,
    mounts: Map<usize, usize>,
    root: Chain,
    from: Chain,
    follow: bool,
    limit: nat,
)
    ensures
        lookup_chain(g, mounts, root, from, "."@, follow, limit) == Ok::<Chain, Error>(from),
        lookup_chain(g, mounts, root, root, "/"@, follow, limit) == Ok::<Chain, Error>(root),
{
    reveal_strlit(".");
    reveal_strlit("/");
    let dot = "."@;
    assert(dot.len() == 1 && dot[0] == '.');
    assert(first_index_of(dot.skip(1), slash_char()) == 0);
    assert(first_index_of(dot, slash_char()) == 1);
    assert(dot.take(1) =~= dot);
    assert(components_of(dot) == dot);
    assert(walk(g, mounts, root, from, Seq::<char>::empty(), follow, limit) == Ok::<Chain, Error>(from));
    assert(walk(g, mounts, root, from, dot, follow, limit) == Ok::<Chain, Error>(from));
    assert(components_of("/"@) =~= Seq::<char>::empty());
}

/// The directory a lookup found, as `lookup_dir` gives it.
pub open spec fn dir_of(r: Result<Chain, Error>) -> Result<usize, Error> {
    match r {
        Ok(c) => match c.last().1 {
            INode::Directory(d) => Ok(d),
            _ => Err(Error { errno: Errno::EISDIR }),
        },
        Err(e) => Err(e),
    }
}

/// The root file system set up at boot on the file system whose root
/// directory is `root_dir`: `/dev` and `/tmp` are looked up, the file
/// systems whose roots are `dev_root` and `tmp_root` are mounted on them
/// (under their inode numbers), then `/dev/console` and `init` are looked
/// up. The result is the mounts
/// and the two chains found, or the first error.
pub open spec fn spec_prepare_root_fs(
    g: Seq<VfsNode>,
    root_dir: usize,
    dev_root: usize,
    tmp_root: usize,
    init: Seq<char>,
) -> Result<(Map<usize, usize>, Chain, Chain), Error> {
    let root = seq![(Seq::<char>::empty(), INode::Directory(root_dir))];
    let limit = DEFAULT_SYMLINK_FOLLOW_MAX as nat;
    let none = Map::<usize, usize>::empty();
    match dir_of(lookup_chain(g, none, root, root, "/dev"@, true, limit)) {
        Err(e) => Err(e),
        Ok(dev) => match dir_of(lookup_chain(g, none, root, root, "/tmp"@, true, limit)) {
            Err(e) => Err(e),
            Ok(tmp) => {
                let m = none.insert(g[dev as int].inode_no, dev_root).insert(g[tmp as int].inode_no, tmp_root);
                match lookup_chain(g, m, root, root, "/dev/console"@, true, limit) {
                    Err(e) => Err(e),
                    Ok(console) => match lookup_chain(g, m, root, start_of(root, root, init), init, true, limit) {
                        Err(e) => Err(e),
                        Ok(exe) => Ok((m, console, exe)),
                    },
                }
            },
        },
    }
}

/// Sets up the root file system at boot (see `spec_prepare_root_fs`):
/// returns it with `/dev/console` and the init executable `init_path`.
pub fn prepare_root_fs(g: &FsGraph, root_dir: usize, dev_root: usize, tmp_root: usize, init_path: &str) -> (r: Result<
    (RootFs, PathComponent, PathComponent),
    Error,
>)
    requires
        graph_valid(g@),
        root_dir < g@.len(),
        dev_root < g@.len(),
        tmp_root < g@.len(),
    ensures
        match (r, spec_prepare_root_fs(g@, root_dir, dev_root, tmp_root, init_path@)) {
            (Ok((fs, console, exe)), Ok((m, c, x))) => {
                &&& fs.wf(g@)
                &&& fs.root_chain() == seq![(Seq::<char>::empty(), INode::Directory(root_dir))]
                &&& fs.cwd_chain() == fs.root_chain()
                &&& fs.mounts() == m
                &&& fs.follow_limit() == DEFAULT_SYMLINK_FOLLOW_MAX
                &&& console@ == c
                &&& exe@ == x
            },
            (Err(e1), Err(e2)) => e1 == e2,
            _ => false,
        },
{
    let mut root_fs = RootFs::new(root_dir);
    let ghost root = root_fs.root_chain();
    proof {
        assert(chain_valid(g@, root));
        assert(no_symlinks(root));
    }
    let dev_dir = match root_fs.lookup_dir(g, Path::new("/dev")) {
        Ok(d) => d,
        Err(e) => {
            return Err(e);
        },
    };
    let tmp_dir = match root_fs.lookup_dir(g, Path::new("/tmp")) {
        Ok(d) => d,
        Err(e) => {
            return Err(e);
        },
    };
    let dev_ino = g.nodes[dev_dir].inode_no;
    let tmp_ino = g.nodes[tmp_dir].inode_no;
    let _ = root_fs.mount(dev_ino, dev_root);
    let _ = root_fs.mount(tmp_ino, tmp_root);
    proof {
        assert(root_fs.mounts() =~= Map::<usize, usize>::empty().insert(dev_ino, dev_root).insert(
            tmp_ino,
            tmp_root,
        ));
    }
    let console = match root_fs.lookup_path(g, Path::new("/dev/console"), true) {
        Ok(pc) => pc,
        Err(e) => {
            return Err(e);
        },
    };
    let executable = match root_fs.lookup_path(g, Path::new(init_path), true) {
        Ok(pc) => pc,
        Err(e) => {
            return Err(e);
        },
    };
    Ok((root_fs, console, executable))
}

/// Where a relative path of an `*at` system call starts: the current
/// directory, or the directory opened as `fd`.
#[derive(Clone, Copy, Debug, PartialEq, Eq, Structural)]
pub enum CwdOrFd {
    AtCwd,
    Fd(Fd),
}

/// Every opened file of `files` (each held as its path) names nodes of `g`.
pub open spec fn files_valid(g: Seq<VfsNode>, files: OpenedFileTable<PathComponent>) -> bool {
    forall|fd: int| #[trigger] lookup(files@, fd) matches Some(pc) ==> chain_valid(g, pc@)
}

impl RootFs {
    /// Where a lookup of `path` starts for an `*at` system call, or the
    /// error (`EBADF` for a descriptor that holds no file).
    pub open spec fn spec_start_at(
        &self,
        files: OpenedFileTable<PathComponent>,
        cwd_or_fd: CwdOrFd,
        path: Seq<char>,
    ) -> Result<Chain, Error> {
        if path.len() > 0 && path[0] == slash_char() {
            Ok(self.root_chain())
        } else {
            match cwd_or_fd {
                CwdOrFd::AtCwd => Ok(self.cwd_chain()),
                CwdOrFd::Fd(fd) => match lookup(files@, fd@ as int) {
                    Some(pc) => Ok(pc@),
                    None => Err(Error { errno: Errno::EBADF }),
                },
            }
        }
    }

    /// Where a lookup of `path` starts: the root for an absolute path, else
    /// the current directory or the path of the file opened as the
    /// descriptor.
    fn resolve_cwd_or_fd(
        &self,
        g: &FsGraph,
        opened_files: &OpenedFileTable<PathComponent>,
        cwd_or_fd: &CwdOrFd,
        path: Path,
    ) -> (r: Result<PathComponent, Error>)
        requires
            self.wf(g@),
            files_valid(g@, *opened_files),
        ensures
            result_chain(r) == self.spec_start_at(*opened_files, *cwd_or_fd, path@),
            r matches Ok(pc) ==> chain_valid(g@, pc@),
    {
        if path.is_absolute() {
            Ok(self.root_path.duplicate())
        } else {
            match cwd_or_fd {
                CwdOrFd::AtCwd => Ok(self.cwd_path.duplicate()),
                CwdOrFd::Fd(fd) => match opened_files.get(*fd) {
                    Ok(pc) => {
                        proof {
                            assert(lookup(opened_files@, fd@ as int) matches Some(p) && chain_valid(g@, p@));
                        }
                        Ok(pc.duplicate())
                    },
                    Err(e) => Err(e),
                },
            }
        }
    }

    /// Resolves `path` for an `*at` system call: from the root if it is
    /// absolute, else from the current directory or from the directory
    /// opened as the descriptor (see `walk`).
    pub fn lookup_path_at(
        &self,
        g: &FsGraph,
        opened_files: &OpenedFileTable<PathComponent>,
        cwd_or_fd: &CwdOrFd,
        path: Path,
        follow_symlink: bool,
    ) -> (r: Result<PathComponent, Error>)
        requires
            self.wf(g@),
            files_valid(g@, *opened_files),
        ensures
            result_chain(r) == match self.spec_start_at(*opened_files, *cwd_or_fd, path@) {
                Ok(from) => lookup_chain(
                    g@,
                    self.mounts(),
                    self.root_chain(),
                    from,
                    path@,
                    follow_symlink,
                    self.follow_limit(),
                ),
                Err(e) => Err(e),
            },
    {
        let from = match self.resolve_cwd_or_fd(g, opened_files, cwd_or_fd, path) {
            Ok(pc) => pc,
            Err(e) => {
                return Err(e);
            },
        };
        self.do_lookup_path(g, &from, path, follow_symlink, self.symlink_follow_limit)
    }

    /// Looks up the directory that holds what `path` names, as
    /// `lookup_path_at` does, and gives it with the last component of the
    /// path. `EEXIST` for the root, which no directory holds.
    pub fn lookup_parent_path_at<'a>(
        &self,
        g: &FsGraph,
        opened_files: &OpenedFileTable<PathComponent>,
        cwd_or_fd: &CwdOrFd,
        path: Path<'a>,
        follow_symlink: bool,
    ) -> (r: Result<(PathComponent, &'a str), Error>)
        requires
            self.wf(g@),
            files_valid(g@, *opened_files),
        ensures
            match spec_parent_and_basename(path@) {
                None => r == Err::<(PathComponent, &'a str), Error>(Error { errno: Errno::EEXIST }),
                Some((dir, name)) => {
                    &&& result_chain(
                        match r {
                            Ok((pc, _)) => Ok(pc),
                            Err(e) => Err(e),
                        },
                    ) == match self.spec_start_at(*opened_files, *cwd_or_fd, dir) {
                        Ok(from) => lookup_chain(
                            g@,
                            self.mounts(),
                            self.root_chain(),
                            from,
                            dir,
                            follow_symlink,
                            self.follow_limit(),
                        ),
                        Err(e) => Err(e),
                    }
                    &&& r matches Ok((_, n)) ==> n@ == name
                },
            },
    {
        let (parent_dir, name) = match path.parent_and_basename() {
            Some(pair) => pair,
            None => {
                return Err(Error::new(Errno::EEXIST));
            },
        };
        match self.lookup_path_at(g, opened_files, cwd_or_fd, parent_dir, follow_symlink) {
            Ok(pc) => Ok((pc, name)),
            Err(e) => Err(e),
        }
    }
}

/// An `*at` lookup from the current directory, or of an absolute path from
/// any descriptor, is the plain lookup of the path.
pub proof fn lemma_lookup_at_cwd_or_absolute(
    fs: RootFs,
    g: Seq<VfsNode>,
    files: OpenedFileTable<PathComponent>,
    cwd_or_fd: CwdOrFd,
    path: Seq<char>,
    follow: bool,
)
    requires
        cwd_or_fd == CwdOrFd::AtCwd || (path.len() > 0 && path[0] == slash_char()),
    ensures
        (match fs.spec_start_at(files, cwd_or_fd, path) {
            Ok(from) => lookup_chain(g, fs.mounts(), fs.root_chain(), from, path, follow, fs.follow_limit()),
            Err(e) => Err(e),
        }) == fs.spec_lookup(g, path, follow),
{
}

/// `a + b` in a `usize`, wrapping around.
pub open spec fn wrapped_sum(a: nat, b: nat) -> nat {
    if a + b > usize::MAX {
        (a + b - usize::MAX - 1) as nat
    } else {
        a + b
    }
}

/// A file opened by a process: its path, its position and its options.
pub struct OpenedFile {
    path: PathComponent,
    pos: usize,
    options: OpenOptions,
}

impl OpenedFile {
    pub closed spec fn spec_path(&self) -> Chain {
        self.path@
    }

    pub closed spec fn spec_pos(&self) -> nat {
        self.pos as nat
    }

    pub closed spec fn spec_options(&self) -> OpenOptions {
        self.options
    }

    /// The inode opened.
    pub open spec fn spec_inode(&self) -> INode {
        self.spec_path().last().1
    }

    pub fn new(path: PathComponent, options: OpenOptions, pos: usize) -> (r: OpenedFile)
        ensures
            r.spec_path() == path@,
            r.spec_options() == options,
            r.spec_pos() == pos,
    {
        OpenedFile { path, pos, options }
    }

    pub fn pos(&self) -> (r: usize)
        ensures
            r == self.spec_pos(),
    {
        self.pos
    }

    pub fn options(&self) -> (r: OpenOptions)
        ensures
            r == self.spec_options(),
    {
        self.options
    }

    pub fn path(&self) -> (r: &PathComponent)
        ensures
            r@ == self.spec_path(),
    {
        &self.path
    }

    pub fn inode(&self) -> (r: INode)
        ensures
            r == self.spec_inode(),
    {
        proof {
            self.path.lemma_view_len();
        }
        self.path.inode
    }

    /// The opened file, when it is not a directory or a symbolic link
    /// (`EBADF` otherwise).
    pub fn as_file(&self) -> (r: Result<usize, Error>)
        ensures
            match self.spec_inode() {
                INode::FileLike(f) => r == Ok::<usize, Error>(f),
                _ => r == Err::<usize, Error>(Error { errno: Errno::EBADF }),
            },
    {
        self.inode().as_file()
    }

    /// The opened directory (`EBADF` for anything else).
    pub fn as_dir(&self) -> (r: Result<usize, Error>)
        ensures
            match self.spec_inode() {
                INode::Directory(d) => r == Ok::<usize, Error>(d),
                _ => r == Err::<usize, Error>(Error { errno: Errno::EBADF }),
            },
    {
        self.inode().as_dir()
    }

    pub fn set_cloexec(&mut self, cloexec: bool)
        ensures
            final(self).spec_options() == (OpenOptions {
                close_on_exec: cloexec,
                ..old(self).spec_options()
            }),
            final(self).spec_path() == old(self).spec_path(),
            final(self).spec_pos() == old(self).spec_pos(),
    {
        self.options.close_on_exec = cloexec;
    }

    /// `fcntl(F_SETFL)`: `O_NONBLOCK` makes the file non-blocking; nothing
    /// else changes.
    pub fn set_flags(&mut self, flags: OpenFlags) -> (r: Result<(), Error>)
        ensures
            r is Ok,
            final(self).spec_options() == (if flags@ & O_NONBLOCK == O_NONBLOCK {
                OpenOptions { nonblock: true, ..old(self).spec_options() }
            } else {
                old(self).spec_options()
            }),
            final(self).spec_path() == old(self).spec_path(),
            final(self).spec_pos() == old(self).spec_pos(),
    {
        if flags.contains(O_NONBLOCK) {
            self.options.nonblock = true;
        }
        Ok(())
    }

    /// A read or a write of the file at `pos()` ended with `done`: the
    /// position moves past what was transferred. Returns `done`.
    pub fn transferred(&mut self, done: Result<usize, Error>) -> (r: Result<usize, Error>)
        ensures
            r == done,
            match done {
                Ok(n) => final(self).spec_pos() == wrapped_sum(old(self).spec_pos(), n as nat),
                Err(_) => final(self).spec_pos() == old(self).spec_pos(),
            },
            final(self).spec_options() == old(self).spec_options(),
            final(self).spec_path() == old(self).spec_path(),
    {
        if let Ok(n) = done {
            self.pos = self.pos.wrapping_add(n);
        }
        done
    }

    /// A `readdir` at entry `pos()` succeeded: the position moves to the next
    /// entry.
    pub fn next_entry(&mut self)
        ensures
            final(self).spec_pos() == wrapped_sum(old(self).spec_pos(), 1),
            final(self).spec_options() == old(self).spec_options(),
            final(self).spec_path() == old(self).spec_path(),
    {
        self.pos = self.pos.wrapping_add(1);
    }

    /// `fsync(2)` of the opened inode.
    pub fn fsync(&self) -> (r: Result<(), Error>)
        ensures
            r is Ok,
    {
        self.inode().fsync()
    }
}

} // verus!
