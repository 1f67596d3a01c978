use vstd::prelude::*;

verus! {

/// Error numbers (a subset of Linux `errno` values) that the kernel returns.
#[derive(Clone, Copy, Debug, PartialEq, Eq, Structural)]
pub enum Errno {
    EPERM,
    ENOENT,
    ESRCH,
    EINTR,
    EBADF,
    ENOMEM,
    EFAULT,
    EEXIST,
    ENOTDIR,
    EISDIR,
    EINVAL,
    ENFILE,
    EROFS,
    ENOSYS,
    ELOOP,
}

impl Errno {
    /// The numeric value of the error as Linux defines it.
    pub fn as_i32(self) -> (r: i32)
        ensures
            r == errno_value(self),
    {
        match self {
            Errno::EPERM => 1,
            Errno::ENOENT => 2,
            Errno::ESRCH => 3,
            Errno::EINTR => 4,
            Errno::EBADF => 9,
            Errno::ENOMEM => 12,
            Errno::EFAULT => 14,
            Errno::EEXIST => 17,
            Errno::ENOTDIR => 20,
            Errno::EISDIR => 21,
            Errno::EINVAL => 22,
            Errno::ENFILE => 23,
            Errno::EROFS => 30,
            Errno::ENOSYS => 38,
            Errno::ELOOP => 40,
        }
    }
}

/// The numeric value of each error number.
pub open spec fn errno_value(e: Errno) -> i32 {
    match e {
        Errno::EPERM => 1,
        Errno::ENOENT => 2,
        Errno::ESRCH => 3,
        Errno::EINTR => 4,
        Errno::EBADF => 9,
        Errno::ENOMEM => 12,
        Errno::EFAULT => 14,
        Errno::EEXIST => 17,
        Errno::ENOTDIR => 20,
        Errno::EISDIR => 21,
        Errno::EINVAL => 22,
        Errno::ENFILE => 23,
        Errno::EROFS => 30,
        Errno::ENOSYS => 38,
        Errno::ELOOP => 40,
    }
}

/// A kernel error: an error number.
#[derive(Clone, Copy, Debug, PartialEq, Eq, Structural)]
pub struct Error {
    pub errno: Errno,
}

impl Error {
    pub fn new(errno: Errno) -> (r: Error)
        ensures
            r.errno == errno,
    {
        Error { errno }
    }

    pub fn errno(&self) -> (r: Errno)
        ensures
            r == self.errno,
    {
        self.errno
    }
}

} // verus!
