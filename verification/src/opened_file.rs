use vstd::prelude::*;

use crate::result::{Errno, Error};

verus! {

/// The number of file descriptors a process can have.
pub const FD_MAX: i32 = 1024;

pub const O_RDONLY: i32 = 0o0;
pub const O_WRONLY: i32 = 0o1;
pub const O_RDWR: i32 = 0o2;
pub const O_CREAT: i32 = 0o100;
pub const O_EXCL: i32 = 0o200;
pub const O_NOCTTY: i32 = 0o400;
pub const O_TRUNC: i32 = 0o1000;
pub const O_APPEND: i32 = 0o2000;
pub const O_NONBLOCK: i32 = 0o4000;
pub const O_DIRECTORY: i32 = 0o200000;
pub const O_CLOEXEC: i32 = 0o2000000;

/// The union of all flags `open(2)` knows.
pub const OPEN_FLAGS_ALL: i32 = 0o2205703;

/// Flags given to `open(2)` and `fcntl(2)`.
#[derive(Clone, Copy, Debug, PartialEq, Eq, Structural)]
pub struct OpenFlags {
    bits: i32,
}

impl OpenFlags {
    pub closed spec fn view(self) -> i32 {
        self.bits
    }

    /// Keeps only the known flag bits of `bits`.
    pub fn from_bits_truncate(bits: i32) -> (r: OpenFlags)
        ensures
            r@ == bits & OPEN_FLAGS_ALL,
    {
        OpenFlags { bits: bits & OPEN_FLAGS_ALL }
    }

    pub fn bits(&self) -> (r: i32)
        ensures
            r == self@,
    {
        self.bits
    }

    /// Returns `true` if every bit of `flag` is set.
    pub fn contains(&self, flag: i32) -> (r: bool)
        ensures
            r == (self@ & flag == flag),
    {
        self.bits & flag == flag
    }
}

/// Per-open options of a file.
#[derive(Clone, Copy, Debug, PartialEq, Eq, Structural)]
pub struct OpenOptions {
    pub nonblock: bool,
    pub close_on_exec: bool,
}

impl OpenOptions {
    pub fn new(nonblock: bool, cloexec: bool) -> (r: OpenOptions)
        ensures
            r.nonblock == nonblock,
            r.close_on_exec == cloexec,
    {
        OpenOptions { nonblock, close_on_exec: cloexec }
    }

    pub fn empty() -> (r: OpenOptions)
        ensures
            !r.nonblock,
            !r.close_on_exec,
    {
        OpenOptions { nonblock: false, close_on_exec: false }
    }

    pub fn readwrite() -> (r: OpenOptions)
        ensures
            !r.nonblock,
            !r.close_on_exec,
    {
        OpenOptions { nonblock: false, close_on_exec: false }
    }

    /// The options that `open(2)` flags ask for.
    pub fn from_flags(flags: OpenFlags) -> (r: OpenOptions)
        ensures
            r.nonblock == (flags@ & O_NONBLOCK == O_NONBLOCK),
            r.close_on_exec == (flags@ & O_CLOEXEC == O_CLOEXEC),
    {
        OpenOptions {
            nonblock: flags.contains(O_NONBLOCK),
            close_on_exec: flags.contains(O_CLOEXEC),
        }
    }
}

/// A file descriptor.
#[derive(Clone, Copy, Debug, PartialEq, Eq, Structural, Hash)]
pub struct Fd(i32);

impl Fd {
    pub closed spec fn view(self) -> i32 {
        self.0
    }

    pub fn new(value: i32) -> (r: Fd)
        ensures
            r@ == value,
    {
        Fd(value)
    }

    pub fn as_int(self) -> (r: i32)
        ensures
            r == self@,
    {
        self.0
    }

    pub fn as_usize(self) -> (r: usize)
        ensures
            r == self@ as usize,
            self@ >= 0 ==> r == self@,
    {
        self.0 as usize
    }
}

/// An opened file with process-local fields.
#[derive(Clone)]
pub struct LocalOpenedFile<F> {
    pub opened_file: F,
    pub close_on_exec: bool,
}

/// The opened file table of a process. `F` is the shared opened-file handle.
#[derive(Clone)]
pub struct OpenedFileTable<F> {
    files: Vec<Option<LocalOpenedFile<F>>>,
    prev_fd: i32,
}

/// The slot `i` of `files` holds no file (also true past the end).
pub open spec fn slot_free<F>(files: Seq<Option<LocalOpenedFile<F>>>, i: int) -> bool {
    i < 0 || i >= files.len() || files[i] is None
}

/// How many steps are left before the descriptor search starting at `i`
/// reaches `prev`.
pub open spec fn fd_distance(prev: int, i: int) -> int {
    if i <= prev {
        prev - i
    } else {
        prev + FD_MAX - i
    }
}

/// The descriptor that the search for a free slot finds: starting at `i`,
/// stepping by one modulo `FD_MAX`, stopping (with nothing found) at `prev`
/// or below `lower`.
pub open spec fn fd_search<F>(
    files: Seq<Option<LocalOpenedFile<F>>>,
    prev: int,
    lower: int,
    i: int,
) -> Option<int>
    decreases
            (if 0 <= i < FD_MAX && 0 <= prev < FD_MAX {
                fd_distance(prev, i)
            } else {
                0
            }),
{
    if i == prev || i < lower {
        None
    } else if slot_free(files, i) {
        Some(i)
    } else if !(0 <= i < FD_MAX && 0 <= prev < FD_MAX) {
        None
    } else {
        fd_search(files, prev, lower, (i + 1) % (FD_MAX as int))
    }
}

/// The table after `entry` is installed at the free slot `fd`: the table grows
/// with empty slots up to `fd` if needed.
pub open spec fn install<F>(
    files: Seq<Option<LocalOpenedFile<F>>>,
    fd: int,
    entry: LocalOpenedFile<F>,
) -> Seq<Option<LocalOpenedFile<F>>> {
    if fd < files.len() {
        files.update(fd, Some(entry))
    } else {
        files + Seq::new((fd - files.len()) as nat, |k: int| None::<LocalOpenedFile<F>>).push(
            Some(entry),
        )
    }
}

/// The file held at descriptor `fd`, if any.
pub open spec fn lookup<F>(files: Seq<Option<LocalOpenedFile<F>>>, fd: int) -> Option<F> {
    if slot_free(files, fd) {
        None
    } else {
        Some(files[fd].unwrap().opened_file)
    }
}

impl<F> OpenedFileTable<F> {
    /// The slots of the table.
    pub closed spec fn view(&self) -> Seq<Option<LocalOpenedFile<F>>> {
        self.files@
    }

    /// The descriptor after which a search for a free descriptor starts.
    pub closed spec fn prev_fd(&self) -> i32 {
        self.prev_fd
    }

    pub closed spec fn wf(&self) -> bool {
        &&& self.files.len() <= FD_MAX
        &&& 0 <= self.prev_fd < FD_MAX
    }

    pub fn new() -> (r: OpenedFileTable<F>)
        ensures
            r.wf(),
            r@.len() == 0,
            r.prev_fd() == 1,
    {
        OpenedFileTable { files: Vec::new(), prev_fd: 1 }
    }

    /// Resolves the opened file by the file descriptor.
    pub fn get(&self, fd: Fd) -> (r: Result<&F, Error>)
        ensures
            match lookup(self@, fd@ as int) {
                Some(f) => r matches Ok(g) && *g == f,
                None => r == Err::<&F, Error>(Error { errno: Errno::EBADF }),
            },
    {
        if fd.as_int() < 0 || fd.as_usize() >= self.files.len() {
            return Err(Error::new(Errno::EBADF));
        }
        match &self.files[fd.as_usize()] {
            Some(local) => Ok(&local.opened_file),
            None => Err(Error::new(Errno::EBADF)),
        }
    }

    /// Closes an opened file. Closing an empty slot inside the table succeeds.
    pub fn close(&mut self, fd: Fd) -> (r: Result<(), Error>)
        requires
            old(self).wf(),
        ensures
            final(self).wf(),
            final(self).prev_fd() == old(self).prev_fd(),
            0 <= fd@ < old(self)@.len() ==> r == Ok::<(), Error>(()) && final(self)@ == old(
                self,
            )@.update(fd@ as int, None),
            !(0 <= fd@ < old(self)@.len()) ==> r == Err::<(), Error>(
                Error { errno: Errno::EBADF },
            ) && final(self)@ == old(self)@,
    {
        if fd.as_int() < 0 || fd.as_usize() >= self.files.len() {
            return Err(Error::new(Errno::EBADF));
        }
        self.files.set(fd.as_usize(), None);
        Ok(())
    }

    /// Installs `opened_file` at the descriptor `fd`.
    ///
    /// Returns `EBADF` if the file descriptor is already in use or too large.
    pub fn open_with_fixed_fd(&mut self, fd: Fd, opened_file: F, options: OpenOptions) -> (r:
        Result<(), Error>)
        requires
            old(self).wf(),
            fd@ >= 0,
        ensures
            final(self).wf(),
            final(self).prev_fd() == old(self).prev_fd(),
            !slot_free(old(self)@, fd@ as int) ==> r == Err::<(), Error>(
                Error { errno: Errno::EBADF },
            ) && final(self)@ == old(self)@,
            slot_free(old(self)@, fd@ as int) && fd@ >= FD_MAX ==> r == Err::<(), Error>(
                Error { errno: Errno::EBADF },
            ) && final(self)@ == old(self)@,
            slot_free(old(self)@, fd@ as int) && fd@ < FD_MAX ==> r == Ok::<(), Error>(())
                && final(self)@ == install(
                old(self)@,
                fd@ as int,
                LocalOpenedFile { opened_file, close_on_exec: options.close_on_exec },
            ),
    {
        let idx = fd.as_usize();
        if idx < self.files.len() {
            if self.files[idx].is_some() {
                return Err(Error::new(Errno::EBADF));
            }
            self.files.set(
                idx,
                Some(LocalOpenedFile { opened_file, close_on_exec: options.close_on_exec }),
            );
            return Ok(());
        }
        if fd.as_int() >= FD_MAX {
            return Err(Error::new(Errno::EBADF));
        }
        let ghost old_files = self.files@;
        while self.files.len() < idx
            invariant
                old_files.len() <= self.files.len() <= idx,
                idx < FD_MAX,
                self.prev_fd == old(self).prev_fd,
                0 <= self.prev_fd < FD_MAX,
                self.files@ == old_files + Seq::new(
                    (self.files.len() - old_files.len()) as nat,
                    |k: int| None::<LocalOpenedFile<F>>,
                ),
            decreases idx - self.files.len(),
        {
            self.files.push(None);
        }
        self.files.push(Some(LocalOpenedFile { opened_file, close_on_exec: options.close_on_exec }));
        Ok(())
    }

    /// Allocates an unused fd: with `gte`, the lowest free descriptor at or
    /// above it; else the first free one after `prev_fd`, wrapping around.
    /// Note that this method does not any reservations for the fd: the
    /// caller must register it before unlocking this table.
    fn alloc_fd(&self, gte: Option<i32>) -> (r: Result<Fd, Error>)
        requires
            self.wf(),
            gte matches Some(g) ==> g >= 0,
        ensures
            match alloc_search(self@, self.prev_fd(), gte) {
                Some(i) => r matches Ok(fd) && fd@ == i,
                None => r == Err::<Fd, Error>(Error { errno: Errno::ENFILE }),
            },
    {
        match gte {
            Some(g) => {
                let mut i = g;
                while i < FD_MAX
                    invariant
                        self.wf(),
                        gte == Some(g),
                        0 <= g <= i,
                        first_free_from(self@, g as int) == first_free_from(self@, i as int),
                    decreases FD_MAX - i,
                {
                    if i as usize >= self.files.len() || self.files[i as usize].is_none() {
                        // It looks the fd number is not in use.
                        assert(slot_free(self@, i as int));
                        return Ok(Fd::new(i));
                    }
                    i = i + 1;
                }
                Err(Error::new(Errno::ENFILE))
            },
            None => {
                let mut i = (self.prev_fd + 1) % FD_MAX;
                let ghost start = i as int;
                while i != self.prev_fd
                    invariant
                        self.wf(),
                        gte is None,
                        start == start_of(self.prev_fd, None),
                        0 <= i < FD_MAX,
                        fd_search(self@, self.prev_fd as int, 0, start) == fd_search(
                            self@,
                            self.prev_fd as int,
                            0,
                            i as int,
                        ),
                    decreases fd_distance(self.prev_fd as int, i as int),
                {
                    if i as usize >= self.files.len() || self.files[i as usize].is_none() {
                        // It looks the fd number is not in use.
                        assert(slot_free(self@, i as int));
                        assert(fd_search(self@, self.prev_fd as int, 0, i as int) == Some(i as int));
                        return Ok(Fd::new(i));
                    }
                    i = (i + 1) % FD_MAX;
                }
                Err(Error::new(Errno::ENFILE))
            },
        }
    }

    /// Opens a file at the first free descriptor after `prev_fd`.
    pub fn open(&mut self, opened_file: F, options: OpenOptions) -> (r: Result<Fd, Error>)
        requires
            old(self).wf(),
        ensures
            final(self).wf(),
            final(self).prev_fd() == old(self).prev_fd(),
            match fd_search(old(self)@, old(self).prev_fd() as int, 0, start_of(old(self).prev_fd(), None)) {
                Some(i) => r matches Ok(fd) && fd@ == i && final(self)@ == install(
                    old(self)@,
                    i,
                    LocalOpenedFile { opened_file, close_on_exec: options.close_on_exec },
                ),
                None => r == Err::<Fd, Error>(Error { errno: Errno::ENFILE }) && final(self)@ == old(
                    self,
                )@,
            },
            r matches Ok(fd) ==> slot_free(old(self)@, fd@ as int) && forall|k: int|
                0 <= k < FD_MAX && place_after(old(self).prev_fd() as int, k) < place_after(
                    old(self).prev_fd() as int,
                    fd@ as int,
                ) ==> !slot_free(old(self)@, k),
            r is Err ==> forall|k: int|
                0 <= k < FD_MAX && k != old(self).prev_fd() ==> !slot_free(old(self)@, k),
    {
        proof {
            lemma_open_takes_first_free(self@, self.prev_fd);
        }
        let fd = self.alloc_fd(None)?;
        proof {
            lemma_alloc_search_in_range(self@, self.prev_fd, None);
        }
        let r = self.open_with_fixed_fd(fd, opened_file, options);
        match r {
            Ok(()) => Ok(fd),
            Err(e) => Err(e),
        }
    }

    /// Closes all opened files.
    pub fn close_all(&mut self)
        requires
            old(self).wf(),
        ensures
            final(self).wf(),
            final(self).prev_fd() == old(self).prev_fd(),
            final(self)@.len() == 0,
    {
        self.files.clear();
    }

    /// Closes opened files with `CLOEXEC` set.
    pub fn close_cloexec_files(&mut self)
        requires
            old(self).wf(),
        ensures
            final(self).wf(),
            final(self).prev_fd() == old(self).prev_fd(),
            final(self)@ == drop_cloexec(old(self)@),
    {
        let n = self.files.len();
        let mut i: usize = 0;
        while i < n
            invariant
                n == self.files.len() == old(self)@.len(),
                0 <= i <= n,
                self.prev_fd == old(self).prev_fd,
                n <= FD_MAX,
                0 <= self.prev_fd < FD_MAX,
                forall|k: int|
                    0 <= k < i ==> self.files@[k] == drop_cloexec(old(self)@)[k],
                forall|k: int| i <= k < n ==> self.files@[k] == old(self)@[k],
            decreases n - i,
        {
            let close = match &self.files[i] {
                Some(local) => local.close_on_exec,
                None => false,
            };
            if close {
                self.files.set(i, None);
            }
            i += 1;
        }
        assert(self.files@ =~= drop_cloexec(old(self)@));
    }
}

impl<F: Clone> OpenedFileTable<F> {
    /// Duplicates a file descriptor.
    ///
    /// If `gte` is `Some`, a new file descriptor will be greater than or equals
    /// to that value.
    pub fn dup(&mut self, fd: Fd, gte: Option<i32>, options: OpenOptions) -> (r: Result<
        Fd,
        Error,
    >)
        requires
            old(self).wf(),
            gte matches Some(g) ==> g >= 0,
        ensures
            final(self).wf(),
            final(self).prev_fd() == old(self).prev_fd(),
            lookup(old(self)@, fd@ as int) is None ==> r == Err::<Fd, Error>(
                Error { errno: Errno::EBADF },
            ) && final(self)@ == old(self)@,
            lookup(old(self)@, fd@ as int) is Some ==> match alloc_search(
                old(self)@,
                old(self).prev_fd(),
                gte,
            ) {
                None => r == Err::<Fd, Error>(Error { errno: Errno::ENFILE }) && final(self)@
                    == old(self)@,
                Some(i) => {
                    &&& r matches Ok(nfd) && nfd@ == i
                    &&& installed_copy(
                        old(self)@,
                        final(self)@,
                        i,
                        lookup(old(self)@, fd@ as int).unwrap(),
                        options.close_on_exec,
                    )
                },
            },
    {
        let opened_file = match self.get(fd) {
            Ok(f) => f.clone(),
            Err(e) => return Err(e),
        };
        let nfd = self.alloc_fd(gte)?;
        proof {
            lemma_alloc_search_in_range(self@, self.prev_fd, gte);
        }
        match self.open_with_fixed_fd(nfd, opened_file, options) {
            Ok(()) => Ok(nfd),
            Err(e) => Err(e),
        }
    }

    /// Duplicates the file descriptor `old_fd` into the given file descriptor `new_fd`.
    pub fn dup2(&mut self, old_fd: Fd, new_fd: Fd, options: OpenOptions) -> (r: Result<(), Error>)
        requires
            old(self).wf(),
            new_fd@ >= 0,
        ensures
            final(self).wf(),
            final(self).prev_fd() == old(self).prev_fd(),
            lookup(old(self)@, old_fd@ as int) is None ==> r == Err::<(), Error>(
                Error { errno: Errno::EBADF },
            ) && final(self)@ == old(self)@,
            lookup(old(self)@, old_fd@ as int) is Some && new_fd@ >= FD_MAX ==> r == Err::<(), Error>(
                Error { errno: Errno::EBADF },
            ) && final(self)@ == old(self)@,
            lookup(old(self)@, old_fd@ as int) is Some && new_fd@ < FD_MAX ==> {
                &&& r == Ok::<(), Error>(())
                &&& installed_copy(
                    clear_slot(old(self)@, new_fd@ as int),
                    final(self)@,
                    new_fd@ as int,
                    lookup(old(self)@, old_fd@ as int).unwrap(),
                    options.close_on_exec,
                )
            },
    {
        let opened_file = match self.get(old_fd) {
            Ok(f) => f.clone(),
            Err(e) => return Err(e),
        };
        let idx = new_fd.as_usize();
        if idx < self.files.len() && self.files[idx].is_some() {
            let _ = self.close(new_fd);
        }
        self.open_with_fixed_fd(new_fd, opened_file, options)
    }
}

/// The table with the slot `i` emptied, if the table has it.
pub open spec fn clear_slot<F>(files: Seq<Option<LocalOpenedFile<F>>>, i: int) -> Seq<
    Option<LocalOpenedFile<F>>,
> {
    if 0 <= i < files.len() {
        files.update(i, None)
    } else {
        files
    }
}

/// `after` is `before` with a copy (by `clone`) of `orig` installed at the
/// free slot `i`.
pub open spec fn installed_copy<F: Clone>(
    before: Seq<Option<LocalOpenedFile<F>>>,
    after: Seq<Option<LocalOpenedFile<F>>>,
    i: int,
    orig: F,
    cloexec: bool,
) -> bool {
    &&& after.len() == (if i < before.len() {
        before.len() as int
    } else {
        i + 1
    })
    &&& forall|k: int|
        0 <= k < after.len() && k != i ==> after[k] == (if k < before.len() {
            before[k]
        } else {
            None
        })
    &&& (after[i] matches Some(e) && e.close_on_exec == cloexec && cloned(orig, e.opened_file))
}

/// The lowest free descriptor from `i` on, below `FD_MAX`.
pub open spec fn first_free_from<F>(files: Seq<Option<LocalOpenedFile<F>>>, i: int) -> Option<int>
    decreases FD_MAX - i,
{
    if i >= FD_MAX {
        None
    } else if slot_free(files, i) {
        Some(i)
    } else {
        first_free_from(files, i + 1)
    }
}

/// The descriptor that an allocation takes: with `gte`, the lowest free one
/// at or above it; else the first free one after `prev`, wrapping around.
pub open spec fn alloc_search<F>(files: Seq<Option<LocalOpenedFile<F>>>, prev: i32, gte: Option<i32>) -> Option<int> {
    match gte {
        Some(g) => first_free_from(files, g as int),
        None => fd_search(files, prev as int, 0, start_of(prev, None)),
    }
}

/// The descriptor at which a search for a free descriptor starts.
pub open spec fn start_of(prev: i32, gte: Option<i32>) -> int {
    match gte {
        Some(g) => g as int,
        None => (prev + 1) % (FD_MAX as int),
    }
}

/// The table with every file marked close-on-exec removed.
pub open spec fn drop_cloexec<F>(files: Seq<Option<LocalOpenedFile<F>>>) -> Seq<
    Option<LocalOpenedFile<F>>,
> {
    Seq::new(
        files.len(),
        |k: int|
            match files[k] {
                Some(e) => if e.close_on_exec {
                    None
                } else {
                    Some(e)
                },
                None => None,
            },
    )
}

/// A file installed at a descriptor is what a lookup of that descriptor gives
/// back, and the other descriptors keep what they held.
pub proof fn lemma_lookup_after_install<F>(
    files: Seq<Option<LocalOpenedFile<F>>>,
    fd: int,
    entry: LocalOpenedFile<F>,
    other: int,
)
    requires
        fd >= 0,
    ensures
        lookup(install(files, fd, entry), fd) == Some(entry.opened_file),
        other != fd ==> lookup(install(files, fd, entry), other) == lookup(files, other),
{
}

/// A closed descriptor holds no file, and the other descriptors keep what
/// they held.
pub proof fn lemma_lookup_after_close<F>(
    files: Seq<Option<LocalOpenedFile<F>>>,
    fd: int,
    other: int,
)
    ensures
        lookup(clear_slot(files, fd), fd) is None,
        other != fd ==> lookup(clear_slot(files, fd), other) == lookup(files, other),
{
}

/// After an `execve(2)`, exactly the files not marked close-on-exec remain.
pub proof fn lemma_lookup_after_drop_cloexec<F>(files: Seq<Option<LocalOpenedFile<F>>>, fd: int)
    ensures
        lookup(drop_cloexec(files), fd) == (if !slot_free(files, fd)
            && files[fd].unwrap().close_on_exec {
            None
        } else {
            lookup(files, fd)
        }),
{
}

/// With a lower bound, an allocation takes the lowest free descriptor at or
/// above it: every descriptor in between is in use, and when none is found
/// every descriptor from the bound up to `FD_MAX` is in use.
pub proof fn lemma_first_free_from<F>(files: Seq<Option<LocalOpenedFile<F>>>, i: int)
    requires
        i >= 0,
    ensures
        first_free_from(files, i) matches Some(j) ==> i <= j < FD_MAX && slot_free(files, j)
            && forall|k: int| i <= k < j ==> !slot_free(files, k),
        first_free_from(files, i) is None ==> forall|k: int| i <= k < FD_MAX ==> !slot_free(files, k),
    decreases FD_MAX - i,
{
    if i < FD_MAX && !slot_free(files, i) {
        lemma_first_free_from(files, i + 1);
    }
}

/// What an allocation finds is a free descriptor below `FD_MAX`.
pub proof fn lemma_alloc_search_in_range<F>(files: Seq<Option<LocalOpenedFile<F>>>, prev: i32, gte: Option<i32>)
    requires
        0 <= prev < FD_MAX,
        gte matches Some(g) ==> g >= 0,
    ensures
        alloc_search(files, prev, gte) matches Some(j) ==> slot_free(files, j) && 0 <= j < FD_MAX,
{
    match gte {
        Some(g) => lemma_first_free_from(files, g as int),
        None => lemma_fd_search_in_range(files, prev as int, 0, start_of(prev, None)),
    }
}

/// What a search finds is a free slot at or above `lower`.
pub proof fn lemma_fd_search_in_range<F>(
    files: Seq<Option<LocalOpenedFile<F>>>,
    prev: int,
    lower: int,
    i: int,
)
    requires
        0 <= prev < FD_MAX,
    ensures
        fd_search(files, prev, lower, i) matches Some(j) ==> slot_free(files, j) && j >= lower
            && (j >= 0 || j == i),
        lower >= 0 && 0 <= i < FD_MAX ==> (fd_search(files, prev, lower, i) matches Some(j) ==> j
            < FD_MAX),
    decreases
            (if 0 <= i < FD_MAX {
                fd_distance(prev, i)
            } else {
                0
            }),
{
    if i == prev || i < lower {
    } else if slot_free(files, i) {
    } else if !(0 <= i < FD_MAX) {
    } else {
        lemma_fd_search_in_range(files, prev, lower, (i + 1) % (FD_MAX as int));
    }
}


/// How many steps up from `from`, wrapping at `FD_MAX`, it takes to reach
/// the descriptor `x`.
pub open spec fn steps_from(from: int, x: int) -> int {
    if from <= x {
        x - from
    } else {
        x + FD_MAX - from
    }
}

/// The order in which `open` tries descriptors after `prev`: the place of
/// `x` in the sequence `prev + 1, prev + 2, ..., FD_MAX - 1, 0, ..., prev`.
pub open spec fn place_after(prev: int, x: int) -> int {
    if x > prev {
        x - prev
    } else {
        x + FD_MAX - prev
    }
}

proof fn lemma_fd_search_first<F>(files: Seq<Option<LocalOpenedFile<F>>>, prev: int, i: int)
    requires
        0 <= prev < FD_MAX,
        0 <= i < FD_MAX,
    ensures
        fd_search(files, prev, 0, i) matches Some(j) ==> {
            &&& 0 <= j < FD_MAX
            &&& slot_free(files, j)
            &&& steps_from(i, j) < steps_from(i, prev)
            &&& forall|k: int|
                0 <= k < FD_MAX && steps_from(i, k) < steps_from(i, j) ==> !slot_free(files, k)
        },
        fd_search(files, prev, 0, i) is None ==> forall|k: int|
            0 <= k < FD_MAX && steps_from(i, k) < steps_from(i, prev) ==> !slot_free(files, k),
    decreases fd_distance(prev, i),
{
    if i == prev {
    } else if slot_free(files, i) {
    } else {
        let n = (i + 1) % (FD_MAX as int);
        assert(n == if i + 1 == FD_MAX { 0 } else { i + 1 });
        lemma_fd_search_first(files, prev, n);
        assert forall|k: int| 0 <= k < FD_MAX && k != i implies steps_from(i, k) == steps_from(n, k)
            + 1 by {}
        assert(steps_from(i, prev) == steps_from(n, prev) + 1);
    }
}

/// `open` takes the first free descriptor after the last one it handed out:
/// trying `prev + 1`, `prev + 2`, ... and wrapping at `FD_MAX`, every
/// descriptor tried before the one it takes is in use, whether it lies in
/// the table or past its end. When it finds none, every descriptor but
/// `prev` is in use.
pub proof fn lemma_open_takes_first_free<F>(files: Seq<Option<LocalOpenedFile<F>>>, prev: i32)
    requires
        0 <= prev < FD_MAX,
    ensures
        alloc_search(files, prev, None) matches Some(j) ==> {
            &&& 0 <= j < FD_MAX
            &&& j != prev
            &&& slot_free(files, j)
            &&& forall|k: int|
                0 <= k < FD_MAX && place_after(prev as int, k) < place_after(prev as int, j)
                    ==> !slot_free(files, k)
        },
        alloc_search(files, prev, None) is None ==> forall|k: int|
            0 <= k < FD_MAX && k != prev ==> !slot_free(files, k),
{
    let s = start_of(prev, None);
    assert(s == if prev + 1 == FD_MAX { 0 } else { prev + 1 });
    lemma_fd_search_first(files, prev as int, s);
    assert forall|k: int| 0 <= k < FD_MAX implies place_after(prev as int, k) == steps_from(s, k)
        + 1 by {}
}

} // verus!
