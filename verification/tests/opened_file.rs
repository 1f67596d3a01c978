use kerla::opened_file::{
    Fd, OpenFlags, OpenOptions, OpenedFileTable, O_CLOEXEC, O_NONBLOCK, O_RDWR, FD_MAX,
};
use kerla::result::Errno;

#[test]
fn open_options_from_flags() {
    let o = OpenOptions::from_flags(OpenFlags::from_bits_truncate(O_RDWR | O_CLOEXEC));
    assert!(o.close_on_exec);
    assert!(!o.nonblock);
    let o = OpenOptions::from_flags(OpenFlags::from_bits_truncate(O_NONBLOCK));
    assert!(o.nonblock);
    assert!(!o.close_on_exec);
    assert!(!OpenOptions::empty().nonblock && !OpenOptions::empty().close_on_exec);
    assert!(!OpenOptions::readwrite().close_on_exec);
    let o = OpenOptions::new(true, false);
    assert!(o.nonblock && !o.close_on_exec);
}

#[test]
fn fd_conversions() {
    let fd = Fd::new(7);
    assert_eq!(fd.as_int(), 7);
    assert_eq!(fd.as_usize(), 7);
}

#[test]
fn open_starts_after_prev_fd() {
    let mut t: OpenedFileTable<u32> = OpenedFileTable::new();
    let a = t.open(10, OpenOptions::empty()).unwrap();
    let b = t.open(11, OpenOptions::empty()).unwrap();
    assert_eq!(a.as_int(), 2);
    assert_eq!(b.as_int(), 3);
    assert_eq!(*t.get(a).unwrap(), 10);
    assert_eq!(*t.get(b).unwrap(), 11);
    assert_eq!(t.get(Fd::new(0)).unwrap_err().errno(), Errno::EBADF);
    assert_eq!(t.get(Fd::new(-1)).unwrap_err().errno(), Errno::EBADF);
}

#[test]
fn fixed_fd_and_close() {
    let mut t: OpenedFileTable<u32> = OpenedFileTable::new();
    t.open_with_fixed_fd(Fd::new(0), 5, OpenOptions::empty()).unwrap();
    assert_eq!(
        t.open_with_fixed_fd(Fd::new(0), 6, OpenOptions::empty()).unwrap_err().errno(),
        Errno::EBADF
    );
    assert_eq!(
        t.open_with_fixed_fd(Fd::new(FD_MAX), 6, OpenOptions::empty()).unwrap_err().errno(),
        Errno::EBADF
    );
    assert_eq!(*t.get(Fd::new(0)).unwrap(), 5);
    t.close(Fd::new(0)).unwrap();
    assert_eq!(t.get(Fd::new(0)).unwrap_err().errno(), Errno::EBADF);
    // Closing an empty slot inside the table succeeds; past it, EBADF.
    t.close(Fd::new(0)).unwrap();
    assert_eq!(t.close(Fd::new(5)).unwrap_err().errno(), Errno::EBADF);
}

#[test]
fn dup_and_dup2() {
    let mut t: OpenedFileTable<u32> = OpenedFileTable::new();
    let a = t.open(42, OpenOptions::empty()).unwrap();
    let b = t.dup(a, None, OpenOptions::empty()).unwrap();
    assert_eq!(b.as_int(), 3);
    assert_eq!(*t.get(b).unwrap(), 42);
    let c = t.dup(a, Some(10), OpenOptions::empty()).unwrap();
    assert_eq!(c.as_int(), 10);
    assert_eq!(t.dup(Fd::new(9), None, OpenOptions::empty()).unwrap_err().errno(), Errno::EBADF);
    t.open_with_fixed_fd(Fd::new(0), 7, OpenOptions::empty()).unwrap();
    t.dup2(Fd::new(0), a, OpenOptions::empty()).unwrap();
    assert_eq!(*t.get(a).unwrap(), 7);
    assert_eq!(t.dup2(Fd::new(1), a, OpenOptions::empty()).unwrap_err().errno(), Errno::EBADF);
    assert_eq!(
        t.dup2(Fd::new(0), Fd::new(FD_MAX), OpenOptions::empty()).unwrap_err().errno(),
        Errno::EBADF
    );
}

#[test]
fn close_on_exec_files_are_closed() {
    let mut t: OpenedFileTable<u32> = OpenedFileTable::new();
    let keep = t.open(1, OpenOptions::new(false, false)).unwrap();
    let drop = t.open(2, OpenOptions::new(false, true)).unwrap();
    t.close_cloexec_files();
    assert_eq!(*t.get(keep).unwrap(), 1);
    assert_eq!(t.get(drop).unwrap_err().errno(), Errno::EBADF);
    t.close_all();
    assert_eq!(t.get(keep).unwrap_err().errno(), Errno::EBADF);
}

#[test]
fn lookup_after_install_and_close_law() {
    // What is installed at a descriptor is what `get` gives back, until the
    // descriptor is closed.
    let mut t: OpenedFileTable<u32> = OpenedFileTable::new();
    t.open_with_fixed_fd(Fd::new(4), 99, OpenOptions::empty()).unwrap();
    assert_eq!(*t.get(Fd::new(4)).unwrap(), 99);
    t.close(Fd::new(4)).unwrap();
    assert!(t.get(Fd::new(4)).is_err());
}

#[test]
fn dup_takes_the_lowest_free_descriptor_at_or_above_the_bound() {
    let mut t: OpenedFileTable<u32> = OpenedFileTable::new();
    t.open_with_fixed_fd(Fd::new(0), 5, OpenOptions::empty()).unwrap();
    // The bound equals the descriptor the plain search starts after.
    let n = t.dup(Fd::new(0), Some(1), OpenOptions::empty()).unwrap();
    assert_eq!(n.as_int(), 1);
    assert_eq!(*t.get(n).unwrap(), 5);
    assert_eq!(*t.get(Fd::new(0)).unwrap(), 5);
    let m = t.dup(Fd::new(0), Some(0), OpenOptions::empty()).unwrap();
    assert_eq!(m.as_int(), 2);
    t.open_with_fixed_fd(Fd::new(1023), 6, OpenOptions::empty()).unwrap();
    assert_eq!(t.dup(Fd::new(0), Some(1023), OpenOptions::empty()).unwrap_err().errno(), Errno::ENFILE);
    assert_eq!(t.dup(Fd::new(0), Some(1024), OpenOptions::empty()).unwrap_err().errno(), Errno::ENFILE);
}
