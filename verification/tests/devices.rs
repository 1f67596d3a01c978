use kerla::address::{UserVAddr, KERNEL_BASE_ADDR};
use kerla::backtrace::{Backtrace, StackFrame, BACKTRACE_MAX};
use kerla::devfs::ConsoleFile;
use kerla::interrupt::{early_syscall, AttachedIrqs, EarlySyscall};
use kerla::result::Errno;
use kerla::stat::{FileMode, S_IFCHR};
use kerla::thread::{arch_prctl, ARCH_SET_FS};
use kerla::tty::{Tty, TtyIoctl, TIOCGPGRP, TIOCGWINSZ, TIOCSPGRP};

#[test]
fn tty_name_and_stat() {
    let t = Tty::new("serial");
    assert_eq!(t.name(), "serial");
    assert_eq!(Tty::new("12345678").name(), "12345678");
    assert_eq!(Tty::new("123456789").name(), "");
    let st = t.stat().unwrap();
    assert_eq!(st.inode_no.as_u64(), 3);
    assert_eq!(st.mode, FileMode::new(S_IFCHR | 0o666));
}

#[test]
fn tty_ioctl_requests() {
    let t = Tty::new("serial");
    assert_eq!(t.ioctl(TIOCGPGRP, 0x1000, None).unwrap_err().errno(), Errno::ENOENT);
    match t.ioctl(TIOCGPGRP, 0x1000, Some(7)).unwrap() {
        TtyIoctl::WritePgid { addr, pgid } => {
            assert_eq!(addr.value(), 0x1000);
            assert_eq!(pgid, 7);
        }
        other => panic!("unexpected {:?}", other),
    }
    assert_eq!(t.ioctl(TIOCGPGRP, 0, Some(7)).unwrap_err().errno(), Errno::EFAULT);
    match t.ioctl(TIOCSPGRP, 0x2000, None).unwrap() {
        TtyIoctl::ReadPgid { addr } => assert_eq!(addr.value(), 0x2000),
        other => panic!("unexpected {:?}", other),
    }
    assert_eq!(
        t.ioctl(TIOCSPGRP, KERNEL_BASE_ADDR as usize, None).unwrap_err().errno(),
        Errno::EFAULT
    );
    assert_eq!(t.ioctl(TIOCGWINSZ, 0, None).unwrap(), TtyIoctl::Done);
    assert_eq!(t.ioctl(0x1234, 0, None).unwrap_err().errno(), Errno::ENOSYS);
}

#[test]
fn console_queues_typed_characters() {
    let mut c = ConsoleFile::new();
    assert_eq!(c.input_char('a'), b'a');
    assert_eq!(c.input_char('b'), b'b');
    let mut buf = [0u8; 4];
    assert_eq!(c.read(0, &mut buf).unwrap(), 2);
    assert_eq!(buf, [b'a', b'b', 0, 0]);
    assert_eq!(c.read(0, &mut buf).unwrap(), 0);
    assert_eq!(buf, [b'a', b'b', 0, 0]);
}

#[test]
fn arch_prctl_codes() {
    let u = UserVAddr::new_nonnull(0x4000).unwrap();
    assert_eq!(arch_prctl(ARCH_SET_FS, u).unwrap(), 0x4000);
    assert_eq!(arch_prctl(0x1001, u).unwrap_err().errno(), Errno::EINVAL);
}

#[test]
fn backtrace_walks_frame_pointers() {
    let f1 = KERNEL_BASE_ADDR + 0x100;
    let f2 = KERNEL_BASE_ADDR + 0x200;
    let read = |a: u64| {
        if a == f1 {
            StackFrame { next: f2, return_addr: 0x11 }
        } else if a == f2 {
            StackFrame { next: 0, return_addr: 0x22 }
        } else {
            panic!("unexpected frame {:x}", a)
        }
    };
    assert_eq!(Backtrace::current_frame(f1).traverse(read), vec![(0, 0x11), (1, 0x22)]);
    // A user-space frame pointer stops the walk at once.
    assert!(Backtrace::current_frame(0x1000).traverse(read).is_empty());
    // A frame that points to itself is reported at most BACKTRACE_MAX times.
    let looped = |_a: u64| StackFrame { next: f1, return_addr: 0x33 };
    let r = Backtrace::current_frame(f1).traverse(looped);
    assert_eq!(r.len(), BACKTRACE_MAX);
    assert_eq!(r[15], (15, 0x33));
}

#[test]
fn attached_irqs() {
    let mut irqs = AttachedIrqs::new();
    assert!(!irqs.is_attached(5));
    irqs.attach(5);
    assert!(irqs.is_attached(5));
    assert!(!irqs.is_attached(6));
    irqs.attach(255);
    assert!(irqs.is_attached(255));
}

#[test]
fn early_system_calls() {
    let (call, n) = early_syscall(1, 0x1000, 5, 1);
    assert_eq!(n, 1);
    match call {
        EarlySyscall::Write { fd, buf, len } => {
            assert_eq!(fd, 1);
            assert_eq!(buf.value(), 0x1000);
            assert_eq!(len, 5);
        }
        other => panic!("unexpected {:?}", other),
    }
    assert_eq!(early_syscall(3, 0, 0, 60), (EarlySyscall::Exit { status: 3 }, 60));
}
