use vstd::prelude::*;

verus! {

pub const S_IFMT: u32 = 0o170000;
pub const S_IFCHR: u32 = 0o020000;
pub const S_IFDIR: u32 = 0o040000;
pub const S_IFREG: u32 = 0o100000;
pub const S_IFLNK: u32 = 0o120000;

/// The inode number.
#[derive(Clone, Copy, Debug, PartialEq, Eq, Structural, Hash)]
pub struct INodeNo(usize);

impl INodeNo {
    pub closed spec fn view(self) -> nat {
        self.0 as nat
    }

    pub fn new(no: usize) -> (r: INodeNo)
        ensures
            r@ == no,
    {
        INodeNo(no)
    }

    pub fn as_u64(self) -> (r: u64)
        ensures
            r == self@,
    {
        self.0 as u64
    }
}

/// The file type and permission bits of a file.
#[derive(Clone, Copy, Debug, PartialEq, Eq, Structural)]
pub struct FileMode(u32);

/// The file-type bits of a mode.
pub open spec fn file_type_bits(mode: u32) -> u32 {
    mode & S_IFMT
}

impl FileMode {
    pub closed spec fn view(self) -> u32 {
        self.0
    }

    pub fn new(value: u32) -> (r: FileMode)
        ensures
            r@ == value,
    {
        FileMode(value)
    }

    pub fn is_directory(self) -> (r: bool)
        ensures
            r == (file_type_bits(self@) == S_IFDIR),
    {
        (self.0 & S_IFMT) == S_IFDIR
    }

    pub fn is_regular_file(self) -> (r: bool)
        ensures
            r == (file_type_bits(self@) == S_IFREG),
    {
        (self.0 & S_IFMT) == S_IFREG
    }

    pub fn is_symbolic_link(self) -> (r: bool)
        ensures
            r == (file_type_bits(self@) == S_IFLNK),
    {
        (self.0 & S_IFMT) == S_IFLNK
    }
}

/// The part of `stat(2)` that the kernel fills in.
#[derive(Clone, Copy, Debug, PartialEq, Eq, Structural)]
pub struct Stat {
    pub inode_no: INodeNo,
    pub mode: FileMode,
}

impl Stat {
    pub fn new(inode_no: INodeNo, mode: FileMode) -> (r: Stat)
        ensures
            r.inode_no == inode_no,
            r.mode == mode,
    {
        Stat { inode_no, mode }
    }
}

/// Represents `d_type` in `linux_dirent`. See `getdents64(2)` manual.
#[derive(Clone, Copy, Debug, PartialEq, Eq, Structural)]
pub enum FileType {
    Directory,
    Regular,
    Link,
}

impl FileType {
    /// The `d_type` value.
    pub fn as_u8(self) -> (r: u8)
        ensures
            r == (match self {
                FileType::Directory => 4u8,
                FileType::Regular => 8u8,
                FileType::Link => 10u8,
            }),
    {
        match self {
            FileType::Directory => 4,
            FileType::Regular => 8,
            FileType::Link => 10,
        }
    }
}

/// A directory entry (ones returned from `readdir(3)`).
pub struct DirEntry {
    pub inode_no: INodeNo,
    pub file_type: FileType,
    pub name: Vec<u8>,
}

} // verus!
