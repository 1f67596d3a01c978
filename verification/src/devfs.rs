//! The `/dev` file system and the `/proc/metrics` file.
use vstd::prelude::*;
use crate::path::str_equals;
use crate::result::{Errno, Error};
use crate::stat::{FileMode, INodeNo, Stat, S_IFCHR, S_IFDIR};
use crate::tmpfs::{TmpFs, TmpFsINode};
use std::collections::VecDeque;
use vstd::string::StringSliceAdditionalSpecFns;

verus! {

/// What a name in `/dev` stands for.
#[derive(Clone, Copy, Debug, PartialEq, Eq, Structural)]
pub enum DevNode {
    /// `/dev/null`.
    Null,
    /// `/dev/console`.
    Console,
}

/// The `/dev` directory.
pub struct DevRootDir {}

impl DevRootDir {
    pub fn new() -> (r: DevRootDir) {
        DevRootDir {}
    }

    /// Looks `name` up in `/dev`: `null` and `console` are there, nothing else.
    pub fn lookup(&self, name: &str) -> (r: Result<DevNode, Error>)
        ensures
            name@ == "null"@ ==> r == Ok::<DevNode, Error>(DevNode::Null),
            name@ == "console"@ ==> r == Ok::<DevNode, Error>(DevNode::Console),
            name@ != "null"@ && name@ != "console"@ ==> r == Err::<DevNode, Error>(
                Error { errno: Errno::ENOENT },
            ),
    {
        proof {
            reveal_strlit("null");
            reveal_strlit("console");
            assert("null"@.len() != "console"@.len());
        }
        if str_equals(name, "null") {
            Ok(DevNode::Null)
        } else if str_equals(name, "console") {
            Ok(DevNode::Console)
        } else {
            Err(Error::new(Errno::ENOENT))
        }
    }

    /// The directory's metadata: inode 1, a directory with mode 0755.
    pub fn stat(&self) -> (r: Result<Stat, Error>)
        ensures
            r matches Ok(s) && s.inode_no@ == 1 && s.mode@ == (S_IFDIR | 0o755u32),
    {
        Ok(Stat::new(INodeNo::new(1), FileMode::new(S_IFDIR | 0o755)))
    }
}

/// The `/dev/null` file: reads find nothing, writes take everything.
pub struct NullFile {}

impl NullFile {
    pub fn new() -> (r: NullFile) {
        NullFile {}
    }

    /// Reading gives end of file at once.
    pub fn read(&self, offset: usize, buf: &mut [u8]) -> (r: Result<usize, Error>)
        ensures
            r == Ok::<usize, Error>(0),
            final(buf)@ == old(buf)@,
    {
        Ok(0)
    }

    /// Writing accepts the whole buffer and drops it.
    pub fn write(&self, offset: usize, buf: &[u8]) -> (r: Result<usize, Error>)
        ensures
            r == Ok::<usize, Error>(buf@.len() as usize),
    {
        Ok(buf.len())
    }
}

/// The `/dev/console` file: the characters typed on the console wait here
/// to be read.
pub struct ConsoleFile {
    input: VecDeque<char>,
}

impl ConsoleFile {
    /// The characters typed and not read yet, oldest first.
    pub closed spec fn spec_input(&self) -> Seq<char> {
        self.input@
    }

    pub fn new() -> (r: ConsoleFile)
        ensures
            r.spec_input() == Seq::<char>::empty(),
    {
        ConsoleFile { input: VecDeque::new() }
    }

    /// `ch` was typed: it is queued for readers. Returns the byte to echo
    /// on the console.
    pub fn input_char(&mut self, ch: char) -> (r: u8)
        ensures
            r == ch as u8,
            final(self).spec_input() == old(self).spec_input().push(ch),
    {
        self.input.push_back(ch);
        ch as u8
    }

    /// Moves every queued character, as a byte, to the front of `buf`, and
    /// returns how many there were. With none queued it returns 0, and the
    /// reader is to wait for input and read again.
    pub fn read(&mut self, offset: usize, buf: &mut [u8]) -> (r: Result<usize, Error>)
        requires
            old(self).spec_input().len() <= old(buf)@.len(),
        ensures
            r == Ok::<usize, Error>(old(self).spec_input().len() as usize),
            final(self).spec_input() == Seq::<char>::empty(),
            final(buf)@.len() == old(buf)@.len(),
            forall|i: int|
                0 <= i < old(self).spec_input().len() ==> #[trigger] final(buf)@[i] == old(
                    self,
                ).spec_input()[i] as u8,
            forall|i: int|
                old(self).spec_input().len() <= i < old(buf)@.len() ==> #[trigger] final(buf)@[i]
                    == old(buf)@[i],
    {
        let ghost input = self.input@;
        let mut read_len: usize = 0;
        loop
            invariant
                read_len <= input.len() <= buf@.len(),
                buf@.len() == old(buf)@.len(),
                self.input@ == input.subrange(read_len as int, input.len() as int),
                forall|i: int| 0 <= i < read_len ==> #[trigger] buf@[i] == input[i] as u8,
                forall|i: int| read_len <= i < buf@.len() ==> #[trigger] buf@[i] == old(buf)@[i],
            ensures
                read_len == input.len(),
                self.input@ == Seq::<char>::empty(),
            decreases input.len() - read_len,
        {
            match self.input.pop_front() {
                Some(ch) => {
                    buf[read_len] = ch as u8;
                    read_len += 1;
                },
                None => {
                    break;
                },
            }
        }
        Ok(read_len)
    }
}

/// The `/dev` file system: a tmpfs holding the `pts` directory and the
/// device files.
pub struct DevFs {
    fs: TmpFs,
}

impl DevFs {
    pub closed spec fn spec_fs(&self) -> TmpFs {
        self.fs
    }

    /// Sets `/dev` up: an empty `pts` directory, then `null`, `tty`,
    /// `console` (the serial terminal again) and `ptmx`, the devices whose
    /// inode numbers are `null_ino`, `serial_tty_ino` and `ptmx_ino`.
    pub fn new(null_ino: INodeNo, serial_tty_ino: INodeNo, ptmx_ino: INodeNo) -> (r: DevFs)
        ensures
            r.spec_fs().wf(),
            r.spec_fs().num_dirs() == 2,
            r.spec_fs().num_devices() == 4,
            r.spec_fs().entries(1) == Map::<Seq<u8>, TmpFsINode>::empty(),
            r.spec_fs().entries(0) == Map::<Seq<u8>, TmpFsINode>::empty()
                .insert("pts".spec_bytes(), TmpFsINode::Directory(1))
                .insert("null".spec_bytes(), TmpFsINode::Device(0))
                .insert("tty".spec_bytes(), TmpFsINode::Device(1))
                .insert("console".spec_bytes(), TmpFsINode::Device(2))
                .insert("ptmx".spec_bytes(), TmpFsINode::Device(3)),
            r.spec_fs().device_ino(0) == null_ino,
            r.spec_fs().device_ino(1) == serial_tty_ino,
            r.spec_fs().device_ino(2) == serial_tty_ino,
            r.spec_fs().device_ino(3) == ptmx_ino,
    {
        let mut fs = TmpFs::new();
        let root_dir = fs.root_tmpfs_dir();
        let _pts_dir = fs.add_dir(root_dir, "pts");
        fs.add_file(root_dir, "null", null_ino);
        fs.add_file(root_dir, "tty", serial_tty_ino);
        fs.add_file(root_dir, "console", serial_tty_ino);
        fs.add_file(root_dir, "ptmx", ptmx_ino);
        DevFs { fs }
    }

    /// The file system.
    pub fn fs(&self) -> (r: &TmpFs)
        ensures
            *r == self.spec_fs(),
    {
        &self.fs
    }

    /// The root directory of `/dev`.
    pub fn root_dir(&self) -> (r: usize)
        ensures
            r == 0,
    {
        self.fs.root_tmpfs_dir()
    }
}

} // verus!
