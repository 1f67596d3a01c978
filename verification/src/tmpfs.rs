//! tmpfs: a file system in memory. Directories map names to inodes; files
//! hold their bytes.
use vstd::prelude::*;
use vstd::string::StringSliceAdditionalSpecFns;
use crate::initramfs::{NameMap, lists_names, name_map_contents, name_map_order};
use crate::result::{Errno, Error};
use crate::stat::{DirEntry, FileMode, FileType, INodeNo, Stat, S_IFDIR, S_IFREG};

verus! {

/// An inode of a tmpfs: a file of its own, a directory of its own, or a
/// file of another kind added from outside (a device), each by its index.
#[derive(Clone, Copy, Debug, PartialEq, Eq, Structural)]
pub enum TmpFsINode {
    File(usize),
    Directory(usize),
    Device(usize),
}

/// A regular file: its bytes.
pub struct File {
    data: Vec<u8>,
    stat: Stat,
}

/// A directory: its entries, each naming an element of the link table.
pub struct Dir {
    files: NameMap,
    stat: Stat,
}

/// A tmpfs instance.
pub struct TmpFs {
    dirs: Vec<Dir>,
    files: Vec<File>,
    /// The inode number of each device file added.
    devices: Vec<INodeNo>,
    /// What each directory entry names.
    links: Vec<TmpFsINode>,
    next_inode_no: usize,
}

/// The bytes that a read of `len` bytes at `offset` gives from `data`:
/// nothing when `offset` is past the end.
pub open spec fn file_read(data: Seq<u8>, offset: int, len: int) -> Seq<u8> {
    if offset > data.len() {
        Seq::empty()
    } else if data.len() - offset <= len {
        data.skip(offset)
    } else {
        data.subrange(offset, offset + len)
    }
}

/// The bytes of a file after `buf` was written at `offset`: the file is
/// resized to end right after the written bytes (zero-filled where it
/// grows), then `buf` is copied in.
pub open spec fn file_write(data: Seq<u8>, offset: int, buf: Seq<u8>) -> Seq<u8> {
    let end = offset + buf.len();
    let resized = if end <= data.len() {
        data.take(end)
    } else {
        data + Seq::new((end - data.len()) as nat, |i: int| 0u8)
    };
    resized.take(offset) + buf
}

impl TmpFs {
    /// What the entries of directory `d` name.
    pub closed spec fn entries(&self, d: int) -> Map<Seq<u8>, TmpFsINode> {
        let m = name_map_contents(self.dirs@[d].files);
        Map::new(|k: Seq<u8>| m.contains_key(k), |k: Seq<u8>| self.links@[m[k] as int])
    }

    /// The bytes of file `f`.
    pub closed spec fn data(&self, f: int) -> Seq<u8> {
        self.files@[f].data@
    }

    pub closed spec fn num_dirs(&self) -> nat {
        self.dirs@.len()
    }

    pub closed spec fn num_files(&self) -> nat {
        self.files@.len()
    }

    /// The number of entries ever made.
    pub closed spec fn num_links(&self) -> nat {
        self.links@.len()
    }

    pub closed spec fn num_devices(&self) -> nat {
        self.devices@.len()
    }

    /// The stat of directory `d`.
    pub closed spec fn dir_stat(&self, d: int) -> Stat {
        self.dirs@[d].stat
    }

    /// The stat of file `f`.
    pub closed spec fn spec_file_stat(&self, f: int) -> Stat {
        self.files@[f].stat
    }

    /// The inode number of device `v`.
    pub closed spec fn device_ino(&self, v: int) -> INodeNo {
        self.devices@[v]
    }

    /// The inode number the next new inode gets.
    pub closed spec fn spec_next_inode_no(&self) -> usize {
        self.next_inode_no
    }

    /// Whether `i` names an existing inode.
    pub open spec fn inode_valid(&self, i: TmpFsINode) -> bool {
        match i {
            TmpFsINode::File(f) => f < self.num_files(),
            TmpFsINode::Directory(d) => d < self.num_dirs(),
            TmpFsINode::Device(v) => v < self.num_devices(),
        }
    }

    pub closed spec fn wf(&self) -> bool {
        &&& self.dirs@.len() >= 1
        &&& forall|i: int| 0 <= i < self.links@.len() ==> self.inode_valid(#[trigger] self.links@[i])
        &&& forall|d: int, k: Seq<u8>|
            0 <= d < self.dirs@.len() && #[trigger] name_map_contents(self.dirs@[d].files).contains_key(k)
                ==> name_map_contents(self.dirs@[d].files)[k] < self.links@.len()
    }

    /// The entries of a valid file system name valid inodes.
    pub proof fn lemma_entries_valid(&self, d: int, k: Seq<u8>)
        requires
            self.wf(),
            0 <= d < self.num_dirs(),
            self.entries(d).contains_key(k),
        ensures
            self.inode_valid(self.entries(d)[k]),
    {
        let m = name_map_contents(self.dirs@[d].files);
        assert(m.contains_key(k));
        assert(m[k] < self.links@.len());
    }

    /// An empty tmpfs: its root directory (index 0) has inode number 1.
    pub fn new() -> (r: TmpFs)
        ensures
            r.wf(),
            r.num_dirs() == 1,
            r.num_files() == 0,
            r.num_devices() == 0,
            r.entries(0) == Map::<Seq<u8>, TmpFsINode>::empty(),
            r.dir_stat(0).inode_no@ == 1,
            r.dir_stat(0).mode@ == S_IFDIR | 0o755u32,
            r.spec_next_inode_no() == 2,
            r.num_links() == 0,
    {
        let root = Dir {
            files: NameMap::new(),
            stat: Stat::new(INodeNo::new(1), FileMode::new(S_IFDIR | 0o755)),
        };
        let mut dirs: Vec<Dir> = Vec::new();
        dirs.push(root);
        let r = TmpFs {
            dirs,
            files: Vec::new(),
            devices: Vec::new(),
            links: Vec::new(),
            next_inode_no: 2,
        };
        proof {
            assert(r.entries(0) =~= Map::<Seq<u8>, TmpFsINode>::empty());
        }
        r
    }

    /// The root directory.
    pub fn root_tmpfs_dir(&self) -> (r: usize)
        ensures
            r == 0,
    {
        0
    }

    /// Takes the next inode number. The counter wraps around as an atomic
    /// counter does.
    fn alloc_inode_no(&mut self) -> (r: INodeNo)
        ensures
            r@ == old(self).spec_next_inode_no(),
            final(self).spec_next_inode_no() == old(self).spec_next_inode_no().wrapping_add(1),
            final(self).dirs@ == old(self).dirs@,
            final(self).files@ == old(self).files@,
            final(self).devices@ == old(self).devices@,
            final(self).links@ == old(self).links@,
    {
        let no = self.next_inode_no;
        self.next_inode_no = self.next_inode_no.wrapping_add(1);
        INodeNo::new(no)
    }

    /// Makes `name` in directory `dir` name `inode`, in place of what it
    /// named before.
    fn insert_entry(&mut self, dir: usize, name: &str, inode: TmpFsINode)
        requires
            old(self).wf(),
            dir < old(self).num_dirs(),
            old(self).inode_valid(inode),
            old(self).num_links() < usize::MAX,
        ensures
            final(self).wf(),
            final(self).num_dirs() == old(self).num_dirs(),
            final(self).files@ == old(self).files@,
            final(self).devices@ == old(self).devices@,
            final(self).spec_next_inode_no() == old(self).spec_next_inode_no(),
            final(self).num_links() == old(self).num_links() + 1,
            forall|d: int| 0 <= d < old(self).num_dirs() ==> #[trigger] final(self).dir_stat(d) == old(self).dir_stat(d),
            final(self).entries(dir as int) == old(self).entries(dir as int).insert(name.spec_bytes(), inode),
            forall|d: int|
                0 <= d < old(self).num_dirs() && d != dir ==> #[trigger] final(self).entries(d)
                    == old(self).entries(d),
    {
        let ghost old_self = *self;
        let link = self.links.len();
        self.links.push(inode);
        let mut key: Vec<u8> = Vec::new();
        let bytes = name.as_bytes();
        let mut i: usize = 0;
        while i < bytes.len()
            invariant
                0 <= i <= bytes.len(),
                key@ == bytes@.take(i as int),
            decreases bytes.len() - i,
        {
            key.push(bytes[i]);
            i += 1;
        }
        proof {
            assert(bytes@.take(bytes.len() as int) =~= bytes@);
        }
        let ghost key_view = key@;
        self.dirs[dir].files.insert(key, link);
        proof {
            assert forall|d: int, k: Seq<u8>|
                0 <= d < self.dirs@.len() && #[trigger] name_map_contents(self.dirs@[d].files).contains_key(k)
                    implies name_map_contents(self.dirs@[d].files)[k] < self.links@.len() by {
                if d != dir as int {
                    assert(self.dirs@[d] == old_self.dirs@[d]);
                } else {
                    let m0 = name_map_contents(old_self.dirs@[dir as int].files);
                    assert(name_map_contents(self.dirs@[d].files) == m0.insert(key_view, link));
                    if k != key_view {
                        assert(m0.contains_key(k));
                    }
                }
            }
            assert forall|ii: int| 0 <= ii < self.links@.len() implies self.inode_valid(#[trigger] self.links@[ii]) by {
                if ii < old_self.links@.len() {
                    assert(self.links@[ii] == old_self.links@[ii]);
                }
            }
            assert(self.entries(dir as int) =~= old_self.entries(dir as int).insert(name.spec_bytes(), inode)) by {
                let m0 = name_map_contents(old_self.dirs@[dir as int].files);
                let m1 = name_map_contents(self.dirs@[dir as int].files);
                assert(m1 == m0.insert(key_view, link));
                assert forall|k: Seq<u8>| m0.contains_key(k) implies old_self.links@[m0[k] as int] == self.links@[m0[k] as int] by {
                    assert(m0[k] < old_self.links@.len());
                }
            }
            assert forall|d: int|
                0 <= d < old_self.num_dirs() && d != dir implies #[trigger] self.entries(d) == old_self.entries(d) by {
                assert(self.dirs@[d] == old_self.dirs@[d]);
                let m0 = name_map_contents(old_self.dirs@[d].files);
                assert forall|k: Seq<u8>| m0.contains_key(k) implies old_self.links@[m0[k] as int] == self.links@[m0[k] as int] by {
                    assert(m0[k] < old_self.links@.len());
                }
                assert(self.entries(d) =~= old_self.entries(d));
            }
            assert forall|d: int| 0 <= d < old_self.num_dirs() implies #[trigger] self.dir_stat(d) == old_self.dir_stat(d) by {
                if d != dir as int {
                    assert(self.dirs@[d] == old_self.dirs@[d]);
                }
            }
        }
    }
}


/// A name as bytes, for the name map.
fn name_bytes(name: &str) -> (r: Vec<u8>)
    ensures
        r@ == name.spec_bytes(),
{
    let bytes = name.as_bytes();
    let mut key: Vec<u8> = Vec::new();
    let mut i: usize = 0;
    while i < bytes.len()
        invariant
            0 <= i <= bytes.len(),
            key@ == bytes@.take(i as int),
        decreases bytes.len() - i,
    {
        key.push(bytes[i]);
        i += 1;
    }
    proof {
        assert(bytes@.take(bytes.len() as int) =~= bytes@);
    }
    key
}

impl TmpFs {
    /// Adds an empty directory `name` (mode 0755, a fresh inode number) to
    /// directory `dir`, in place of what `name` named; returns it.
    pub fn add_dir(&mut self, dir: usize, name: &str) -> (r: usize)
        requires
            old(self).wf(),
            dir < old(self).num_dirs(),
            old(self).num_dirs() < usize::MAX,
            old(self).num_links() < usize::MAX,
        ensures
            final(self).wf(),
            r == old(self).num_dirs(),
            final(self).num_dirs() == old(self).num_dirs() + 1,
            final(self).num_files() == old(self).num_files(),
            final(self).num_devices() == old(self).num_devices(),
            final(self).entries(r as int) == Map::<Seq<u8>, TmpFsINode>::empty(),
            final(self).dir_stat(r as int).inode_no@ == old(self).spec_next_inode_no(),
            final(self).dir_stat(r as int).mode@ == S_IFDIR | 0o755u32,
            final(self).entries(dir as int) == old(self).entries(dir as int).insert(
                name.spec_bytes(),
                TmpFsINode::Directory(r),
            ),
            forall|d: int|
                0 <= d < old(self).num_dirs() && d != dir ==> #[trigger] final(self).entries(d)
                    == old(self).entries(d),
            forall|f: int| 0 <= f < old(self).num_files() ==> #[trigger] final(self).data(f) == old(self).data(f),
            final(self).spec_next_inode_no() == old(self).spec_next_inode_no().wrapping_add(1),
            final(self).num_links() == old(self).num_links() + 1,
            forall|k: int|
                0 <= k < old(self).num_devices() ==> #[trigger] final(self).device_ino(k) == old(self).device_ino(k),
    {
        let ghost old_self = *self;
        let ino = self.alloc_inode_no();
        let new_dir = Dir { files: NameMap::new(), stat: Stat::new(ino, FileMode::new(S_IFDIR | 0o755)) };
        let r = self.dirs.len();
        self.dirs.push(new_dir);
        proof {
            assert forall|d: int, k: Seq<u8>|
                0 <= d < self.dirs@.len() && #[trigger] name_map_contents(self.dirs@[d].files).contains_key(k)
                    implies name_map_contents(self.dirs@[d].files)[k] < self.links@.len() by {
                if d < old_self.dirs@.len() {
                    assert(self.dirs@[d] == old_self.dirs@[d]);
                }
            }
            assert forall|i: int| 0 <= i < self.links@.len() implies self.inode_valid(#[trigger] self.links@[i]) by {
                assert(old_self.inode_valid(old_self.links@[i]));
            }
            assert forall|d: int| 0 <= d < old_self.num_dirs() implies #[trigger] self.entries(d) == old_self.entries(d) by {
                assert(self.dirs@[d] == old_self.dirs@[d]);
                assert(self.entries(d) =~= old_self.entries(d));
            }
            assert(self.entries(r as int) =~= Map::<Seq<u8>, TmpFsINode>::empty());
        }
        let ghost mid = *self;
        self.insert_entry(dir, name, TmpFsINode::Directory(r));
        proof {
            assert(self.dirs@[r as int] == mid.dirs@[r as int] || true);
            assert(self.entries(r as int) == mid.entries(r as int));
            assert(self.dir_stat(r as int) == mid.dir_stat(r as int));
        }
        r
    }

    /// Adds the outside file with inode number `inode_no` (a device) as
    /// `name` in directory `dir`; returns it.
    pub fn add_file(&mut self, dir: usize, name: &str, inode_no: INodeNo) -> (r: usize)
        requires
            old(self).wf(),
            dir < old(self).num_dirs(),
            old(self).num_links() < usize::MAX,
        ensures
            final(self).wf(),
            r == old(self).num_devices(),
            final(self).num_dirs() == old(self).num_dirs(),
            final(self).num_files() == old(self).num_files(),
            final(self).num_devices() == old(self).num_devices() + 1,
            final(self).device_ino(r as int) == inode_no,
            forall|k: int|
                0 <= k < old(self).num_devices() ==> #[trigger] final(self).device_ino(k) == old(self).device_ino(k),
            final(self).entries(dir as int) == old(self).entries(dir as int).insert(
                name.spec_bytes(),
                TmpFsINode::Device(r),
            ),
            forall|d: int|
                0 <= d < old(self).num_dirs() && d != dir ==> #[trigger] final(self).entries(d)
                    == old(self).entries(d),
            forall|f: int| 0 <= f < old(self).num_files() ==> #[trigger] final(self).data(f) == old(self).data(f),
            final(self).spec_next_inode_no() == old(self).spec_next_inode_no(),
            final(self).num_links() == old(self).num_links() + 1,
    {
        let ghost old_self = *self;
        let r = self.devices.len();
        self.devices.push(inode_no);
        proof {
            assert forall|i: int| 0 <= i < self.links@.len() implies self.inode_valid(#[trigger] self.links@[i]) by {
                assert(old_self.inode_valid(old_self.links@[i]));
            }
            assert forall|d: int| 0 <= d < old_self.num_dirs() implies #[trigger] self.entries(d) == old_self.entries(d) by {
                assert(self.entries(d) =~= old_self.entries(d));
            }
        }
        self.insert_entry(dir, name, TmpFsINode::Device(r));
        r
    }

    /// Looks `name` up in directory `dir`: `ENOENT` when it is missing.
    pub fn lookup(&self, dir: usize, name: &str) -> (r: Result<TmpFsINode, Error>)
        requires
            self.wf(),
            dir < self.num_dirs(),
        ensures
            self.entries(dir as int).contains_key(name.spec_bytes()) ==> r == Ok::<TmpFsINode, Error>(
                self.entries(dir as int)[name.spec_bytes()],
            ),
            !self.entries(dir as int).contains_key(name.spec_bytes()) ==> r == Err::<TmpFsINode, Error>(
                Error { errno: Errno::ENOENT },
            ),
            r matches Ok(i) ==> self.inode_valid(i),
    {
        let key = name_bytes(name);
        match self.dirs[dir].files.get(key.as_slice()) {
            Some(link) => {
                proof {
                    assert(name_map_contents(self.dirs@[dir as int].files).contains_key(name.spec_bytes()));
                    self.lemma_entries_valid(dir as int, name.spec_bytes());
                }
                Ok(self.links[link])
            },
            None => Err(Error::new(Errno::ENOENT)),
        }
    }

    /// The order in which `readdir` lists the entries of directory `d`.
    pub closed spec fn entry_order(&self, d: int) -> Seq<Seq<u8>> {
        name_map_order(self.dirs@[d].files)
    }

    /// The stat of an inode of this file system.
    pub open spec fn inode_stat(&self, i: TmpFsINode) -> (INodeNo, FileType) {
        match i {
            TmpFsINode::Directory(d) => (self.dir_stat(d as int).inode_no, FileType::Directory),
            TmpFsINode::File(f) => (self.spec_file_stat(f as int).inode_no, FileType::Regular),
            TmpFsINode::Device(v) => (self.device_ino(v as int), FileType::Regular),
        }
    }

    /// The `index`-th entry of directory `dir` (`readdir(2)`), in the order
    /// of the directory's name map; `None` past the last one.
    pub fn readdir(&self, dir: usize, index: usize) -> (r: Result<Option<DirEntry>, Error>)
        requires
            self.wf(),
            dir < self.num_dirs(),
        ensures
            lists_names(self.entry_order(dir as int), self.entries(dir as int)),
            r matches Ok(o) && (o is Some == (index < self.entries(dir as int).dom().len())),
            r matches Ok(Some(e)) ==> {
                &&& e.name@ == self.entry_order(dir as int)[index as int]
                &&& self.entries(dir as int).contains_key(e.name@)
                &&& (e.inode_no, e.file_type) == self.inode_stat(self.entries(dir as int)[e.name@])
            },
    {
        proof {
            assert(self.entries(dir as int).dom() =~= name_map_contents(self.dirs@[dir as int].files).dom());
        }
        let m = &self.dirs[dir].files;
        proof {
            use_type_invariant(m);
            assert(self.entries(dir as int).dom() =~= name_map_contents(self.dirs@[dir as int].files).dom());
        }
        match m.nth(index) {
            None => Ok(None),
            Some((name, link)) => {
                proof {
                    self.lemma_entries_valid(dir as int, name@);
                }
                let (inode_no, file_type) = match self.links[link] {
                    TmpFsINode::Directory(d) => (self.dirs[d].stat.inode_no, FileType::Directory),
                    TmpFsINode::File(f) => (self.files[f].stat.inode_no, FileType::Regular),
                    TmpFsINode::Device(v) => (self.devices[v], FileType::Regular),
                };
                Ok(Some(DirEntry { inode_no, file_type, name }))
            },
        }
    }

    /// The stat of directory `dir`.
    pub fn stat(&self, dir: usize) -> (r: Result<Stat, Error>)
        requires
            dir < self.num_dirs(),
        ensures
            r == Ok::<Stat, Error>(self.dir_stat(dir as int)),
    {
        Ok(self.dirs[dir].stat)
    }

    /// Makes `name` in directory `dir` name `link_to`, in place of what it
    /// named.
    pub fn link(&mut self, dir: usize, name: &str, link_to: TmpFsINode) -> (r: Result<(), Error>)
        requires
            old(self).wf(),
            dir < old(self).num_dirs(),
            old(self).inode_valid(link_to),
            old(self).num_links() < usize::MAX,
        ensures
            final(self).wf(),
            r is Ok,
            final(self).num_dirs() == old(self).num_dirs(),
            final(self).num_files() == old(self).num_files(),
            final(self).entries(dir as int) == old(self).entries(dir as int).insert(name.spec_bytes(), link_to),
            forall|d: int|
                0 <= d < old(self).num_dirs() && d != dir ==> #[trigger] final(self).entries(d)
                    == old(self).entries(d),
            forall|f: int| 0 <= f < old(self).num_files() ==> #[trigger] final(self).data(f) == old(self).data(f),
    {
        self.insert_entry(dir, name, link_to);
        Ok(())
    }

    /// Creates an empty file `name` (mode 0644, a fresh inode number) in
    /// directory `dir`; `EEXIST` if the name is taken.
    pub fn create_file(&mut self, dir: usize, name: &str, mode: FileMode) -> (r: Result<TmpFsINode, Error>)
        requires
            old(self).wf(),
            dir < old(self).num_dirs(),
            old(self).num_files() < usize::MAX,
            old(self).num_links() < usize::MAX,
        ensures
            final(self).wf(),
            final(self).num_dirs() == old(self).num_dirs(),
            old(self).entries(dir as int).contains_key(name.spec_bytes()) ==> r == Err::<TmpFsINode, Error>(
                Error { errno: Errno::EEXIST },
            ) && *final(self) == *old(self),
            !old(self).entries(dir as int).contains_key(name.spec_bytes()) ==> {
                &&& r == Ok::<TmpFsINode, Error>(TmpFsINode::File(old(self).num_files() as usize))
                &&& final(self).num_files() == old(self).num_files() + 1
                &&& final(self).data(old(self).num_files() as int) == Seq::<u8>::empty()
                &&& final(self).spec_file_stat(old(self).num_files() as int).inode_no@ == old(self).spec_next_inode_no()
                &&& final(self).spec_file_stat(old(self).num_files() as int).mode@ == S_IFREG | 0o644u32
                &&& final(self).entries(dir as int) == old(self).entries(dir as int).insert(
                    name.spec_bytes(),
                    TmpFsINode::File(old(self).num_files() as usize),
                )
                &&& forall|d: int|
                    0 <= d < old(self).num_dirs() && d != dir ==> #[trigger] final(self).entries(d)
                        == old(self).entries(d)
                &&& forall|f: int| 0 <= f < old(self).num_files() ==> #[trigger] final(self).data(f) == old(self).data(f)
            },
    {
        let key = name_bytes(name);
        if self.dirs[dir].files.get(key.as_slice()).is_some() {
            return Err(Error::new(Errno::EEXIST));
        }
        let ghost old_self = *self;
        let ino = self.alloc_inode_no();
        let f = self.files.len();
        self.files.push(File { data: Vec::new(), stat: Stat::new(ino, FileMode::new(S_IFREG | 0o644)) });
        proof {
            assert forall|i: int| 0 <= i < self.links@.len() implies self.inode_valid(#[trigger] self.links@[i]) by {
                assert(old_self.inode_valid(old_self.links@[i]));
            }
            assert forall|d: int| 0 <= d < old_self.num_dirs() implies #[trigger] self.entries(d) == old_self.entries(d) by {
                assert(self.entries(d) =~= old_self.entries(d));
            }
        }
        self.insert_entry(dir, name, TmpFsINode::File(f));
        Ok(TmpFsINode::File(f))
    }

    /// Creates an empty directory `name` (mode 0755, a fresh inode number)
    /// in directory `dir`; `EEXIST` if the name is taken.
    pub fn create_dir(&mut self, dir: usize, name: &str, mode: FileMode) -> (r: Result<TmpFsINode, Error>)
        requires
            old(self).wf(),
            dir < old(self).num_dirs(),
            old(self).num_dirs() < usize::MAX,
            old(self).num_links() < usize::MAX,
        ensures
            final(self).wf(),
            old(self).entries(dir as int).contains_key(name.spec_bytes()) ==> r == Err::<TmpFsINode, Error>(
                Error { errno: Errno::EEXIST },
            ) && *final(self) == *old(self),
            !old(self).entries(dir as int).contains_key(name.spec_bytes()) ==> {
                &&& r == Ok::<TmpFsINode, Error>(TmpFsINode::Directory(old(self).num_dirs() as usize))
                &&& final(self).num_dirs() == old(self).num_dirs() + 1
                &&& final(self).num_files() == old(self).num_files()
                &&& final(self).entries(old(self).num_dirs() as int) == Map::<Seq<u8>, TmpFsINode>::empty()
                &&& final(self).dir_stat(old(self).num_dirs() as int).inode_no@ == old(self).spec_next_inode_no()
                &&& final(self).dir_stat(old(self).num_dirs() as int).mode@ == S_IFDIR | 0o755u32
                &&& final(self).entries(dir as int) == old(self).entries(dir as int).insert(
                    name.spec_bytes(),
                    TmpFsINode::Directory(old(self).num_dirs() as usize),
                )
                &&& forall|d: int|
                    0 <= d < old(self).num_dirs() && d != dir ==> #[trigger] final(self).entries(d)
                        == old(self).entries(d)
                &&& forall|f: int| 0 <= f < old(self).num_files() ==> #[trigger] final(self).data(f) == old(self).data(f)
            },
    {
        let key = name_bytes(name);
        if self.dirs[dir].files.get(key.as_slice()).is_some() {
            return Err(Error::new(Errno::EEXIST));
        }
        let d = self.add_dir(dir, name);
        Ok(TmpFsINode::Directory(d))
    }

    /// The stat of file `file`.
    pub fn file_stat(&self, file: usize) -> (r: Result<Stat, Error>)
        requires
            file < self.num_files(),
        ensures
            r == Ok::<Stat, Error>(self.spec_file_stat(file as int)),
    {
        Ok(self.files[file].stat)
    }

    /// Reads at most `len` bytes at `offset` of file `file`.
    pub fn read(&self, file: usize, offset: usize, len: usize) -> (r: Vec<u8>)
        requires
            file < self.num_files(),
        ensures
            r@ == file_read(self.data(file as int), offset as int, len as int),
    {
        let data = &self.files[file].data;
        if offset > data.len() {
            return Vec::new();
        }
        let n = if data.len() - offset <= len {
            data.len() - offset
        } else {
            len
        };
        let r = crate::components::slice_range(data.as_slice(), offset, offset + n);
        proof {
            if data.len() - offset <= len {
                assert(r@ =~= data@.skip(offset as int));
            }
        }
        r
    }

    /// Writes `buf` at `offset` of file `file` (see `file_write`); returns
    /// the number of bytes written.
    pub fn write(&mut self, file: usize, offset: usize, buf: &[u8]) -> (r: Result<usize, Error>)
        requires
            old(self).wf(),
            file < old(self).num_files(),
            offset + buf@.len() <= usize::MAX,
        ensures
            final(self).wf(),
            r == Ok::<usize, Error>(buf@.len() as usize),
            final(self).data(file as int) == file_write(old(self).data(file as int), offset as int, buf@),
            final(self).num_files() == old(self).num_files(),
            final(self).num_dirs() == old(self).num_dirs(),
            forall|f: int| 0 <= f < old(self).num_files() && f != file ==> #[trigger] final(self).data(f) == old(self).data(f),
            forall|d: int| 0 <= d < old(self).num_dirs() ==> #[trigger] final(self).entries(d) == old(self).entries(d),
    {
        let ghost old_self = *self;
        let ghost old_data = self.files@[file as int].data@;
        let end = offset + buf.len();
        let mut data = Vec::new();
        let mut i: usize = 0;
        let cur = &self.files[file].data;
        while i < end
            invariant
                cur@ == old_data,
                end == offset + buf@.len(),
                0 <= i <= end,
                data@.len() == i,
                forall|k: int|
                    0 <= k < i ==> #[trigger] data@[k] == (if k < offset {
                        if k < old_data.len() { old_data[k] } else { 0u8 }
                    } else {
                        buf@[k - offset]
                    }),
            decreases end - i,
        {
            let b = if i < offset {
                if i < cur.len() { cur[i] } else { 0u8 }
            } else {
                buf[i - offset]
            };
            data.push(b);
            i += 1;
        }
        proof {
            assert(data@ =~= file_write(old_data, offset as int, buf@));
        }
        self.files[file].data = data;
        proof {
            assert forall|i: int| 0 <= i < self.links@.len() implies self.inode_valid(#[trigger] self.links@[i]) by {
                assert(old_self.inode_valid(old_self.links@[i]));
            }
            assert forall|d: int| 0 <= d < old_self.num_dirs() implies #[trigger] self.entries(d) == old_self.entries(d) by {
                assert(self.entries(d) =~= old_self.entries(d));
            }
        }
        Ok(buf.len())
    }
}

/// What a read gives back of a write: the bytes just written at `offset`
/// are read back at `offset`, and the file ends right after them.
pub proof fn lemma_read_after_write(data: Seq<u8>, offset: nat, buf: Seq<u8>)
    ensures
        file_read(file_write(data, offset as int, buf), offset as int, buf.len() as int) == buf,
        file_write(data, offset as int, buf).len() == offset + buf.len(),
        forall|k: int| 0 <= k < offset && k < data.len() ==> #[trigger] file_write(data, offset as int, buf)[k] == data[k],
{
    let w = file_write(data, offset as int, buf);
    assert(w.len() == offset + buf.len());
    assert(w.skip(offset as int) =~= buf);
}
} // verus!
