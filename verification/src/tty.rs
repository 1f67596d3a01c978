//! Terminals: their name, their metadata and the `ioctl(2)` requests they
//! take.
use vstd::prelude::*;
use crate::address::{UserVAddr, valid_user_addr};
use crate::result::{Errno, Error};
use crate::stat::{FileMode, INodeNo, Stat, S_IFCHR};
use vstd::string::StringSliceAdditionalSpecFns;

verus! {

#[verifier::external_type_specification]
#[verifier::external_body]
pub struct ExArrayString<const CAP: usize>(arrayvec::ArrayString<CAP>);

/// The bytes that a terminal's name buffer holds.
pub uninterp spec fn tty_name_bytes(s: arrayvec::ArrayString<8>) -> Seq<u8>;

/// `arrayvec::ArrayString::new`: an empty string.
#[verifier::external_body]
fn tty_name_new() -> (r: arrayvec::ArrayString<8>)
    ensures
        tty_name_bytes(r) == Seq::<u8>::empty(),
{
    arrayvec::ArrayString::new()
}

/// `arrayvec::ArrayString::try_push_str`: `s` is appended when its bytes fit
/// in the capacity left (eight bytes in all); otherwise it fails and nothing
/// changes.
#[verifier::external_body]
fn tty_name_try_push_str(buf: &mut arrayvec::ArrayString<8>, s: &str) -> (r: bool)
    ensures
        r == (tty_name_bytes(*old(buf)).len() + s.spec_bytes().len() <= 8),
        r ==> tty_name_bytes(*final(buf)) == tty_name_bytes(*old(buf)) + s.spec_bytes(),
        !r ==> tty_name_bytes(*final(buf)) == tty_name_bytes(*old(buf)),
{
    buf.try_push_str(s).is_ok()
}

/// `arrayvec::ArrayString::as_str`: the string held.
#[verifier::external_body]
fn tty_name_as_str(buf: &arrayvec::ArrayString<8>) -> (r: &str)
    ensures
        r.spec_bytes() == tty_name_bytes(*buf),
{
    buf.as_str()
}

/// `ioctl(2)`: get the foreground process group.
pub const TIOCGPGRP: usize = 0x540f;

/// `ioctl(2)`: set the foreground process group.
pub const TIOCSPGRP: usize = 0x5410;

/// `ioctl(2)`: get the window size.
pub const TIOCGWINSZ: usize = 0x5413;

/// What is left to do for an accepted `ioctl(2)` request, which then
/// returns 0.
#[derive(Clone, Copy, Debug, PartialEq, Eq, Structural)]
pub enum TtyIoctl {
    /// Write the process group id `pgid` (a C `int`) at `addr`.
    WritePgid { addr: UserVAddr, pgid: i32 },
    /// Read a process group id at `addr` and make that group the
    /// foreground one (`ESRCH` if there is none with that id).
    ReadPgid { addr: UserVAddr },
    /// Nothing.
    Done,
}

/// A terminal.
pub struct Tty {
    name: arrayvec::ArrayString<8>,
}

impl Tty {
    /// The name's bytes.
    pub closed spec fn spec_name(&self) -> Seq<u8> {
        tty_name_bytes(self.name)
    }

    /// A terminal named `name`; a name longer than eight bytes leaves it
    /// unnamed.
    pub fn new(name: &str) -> (r: Tty)
        ensures
            name.spec_bytes().len() <= 8 ==> r.spec_name() == name.spec_bytes(),
            name.spec_bytes().len() > 8 ==> r.spec_name() == Seq::<u8>::empty(),
    {
        let mut name_buf = tty_name_new();
        let _ = tty_name_try_push_str(&mut name_buf, name);
        proof {
            assert(Seq::<u8>::empty() + name.spec_bytes() =~= name.spec_bytes());
        }
        Tty { name: name_buf }
    }

    /// The terminal's name.
    pub fn name(&self) -> (r: &str)
        ensures
            r.spec_bytes() == self.spec_name(),
    {
        tty_name_as_str(&self.name)
    }

    /// The terminal's metadata: inode 3, a character device with mode 0666.
    pub fn stat(&self) -> (r: Result<Stat, Error>)
        ensures
            r matches Ok(s) && s.inode_no@ == 3 && s.mode@ == (S_IFCHR | 0o666u32),
    {
        Ok(Stat::new(INodeNo::new(3), FileMode::new(S_IFCHR | 0o666)))
    }

    /// Checks an `ioctl(2)` request; `foreground_pgid` is the id of the
    /// foreground process group, if there is one. `TIOCGPGRP` fails with
    /// `ENOENT` without a foreground group; the requests that take a user
    /// pointer fail with `EFAULT` on an invalid one; an unknown `cmd` fails
    /// with `ENOSYS`.
    pub fn ioctl(&self, cmd: usize, arg: usize, foreground_pgid: Option<i32>) -> (r: Result<
        TtyIoctl,
        Error,
    >)
        ensures
            cmd == TIOCGPGRP ==> match foreground_pgid {
                None => r == Err::<TtyIoctl, Error>(Error { errno: Errno::ENOENT }),
                Some(pgid) => if valid_user_addr(arg as int) {
                    r matches Ok(TtyIoctl::WritePgid { addr, pgid: p }) && addr@ == arg && p == pgid
                } else {
                    r == Err::<TtyIoctl, Error>(Error { errno: Errno::EFAULT })
                },
            },
            cmd == TIOCSPGRP ==> if valid_user_addr(arg as int) {
                r matches Ok(TtyIoctl::ReadPgid { addr }) && addr@ == arg
            } else {
                r == Err::<TtyIoctl, Error>(Error { errno: Errno::EFAULT })
            },
            cmd == TIOCGWINSZ ==> r == Ok::<TtyIoctl, Error>(TtyIoctl::Done),
            cmd != TIOCGPGRP && cmd != TIOCSPGRP && cmd != TIOCGWINSZ ==> r == Err::<
                TtyIoctl,
                Error,
            >(Error { errno: Errno::ENOSYS }),
    {
        if cmd == TIOCGPGRP {
            let pgid = match foreground_pgid {
                Some(p) => p,
                None => {
                    return Err(Error::new(Errno::ENOENT));
                },
            };
            let addr = match UserVAddr::new_nonnull(arg) {
                Ok(a) => a,
                Err(e) => {
                    return Err(e);
                },
            };
            Ok(TtyIoctl::WritePgid { addr, pgid })
        } else if cmd == TIOCSPGRP {
            let addr = match UserVAddr::new_nonnull(arg) {
                Ok(a) => a,
                Err(e) => {
                    return Err(e);
                },
            };
            Ok(TtyIoctl::ReadPgid { addr })
        } else if cmd == TIOCGWINSZ {
            Ok(TtyIoctl::Done)
        } else {
            Err(Error::new(Errno::ENOSYS))
        }
    }
}

} // verus!
