use kerla::address::{UserVAddr, VAddr, KERNEL_BASE_ADDR};
use kerla::driver::MacAddress;
use kerla::interrupt::{interrupt_action, is_logged, InterruptAction, PageFaultReason, PF_CAUSED_BY_USER};
use kerla::probe::{mmio_probe, Bar, MmioProbe, VirtioBlkProber, VirtioBlockProber, VirtioNetBuilder};
use kerla::result::{Errno, Error};
use kerla::semihosting::ExitStatus;
use kerla::serial::{console_input, serial_bytes};
use kerla::stat::{FileMode, INodeNo, Stat, S_IFDIR, S_IFLNK, S_IFREG};
use kerla::thread::{restore_signaled_stack, signal_stack_layout, trampoline_bytes, SyscallFrame, Thread};

#[test]
fn mac_address_round_trip() {
    let m = MacAddress::new([0x52, 0x54, 0, 0x12, 0x34, 0x56]);
    assert_eq!(m.as_array(), [0x52, 0x54, 0, 0x12, 0x34, 0x56]);
}

#[test]
fn errno_values() {
    assert_eq!(Errno::ENOENT.as_i32(), 2);
    assert_eq!(Errno::EINVAL.as_i32(), 22);
    assert_eq!(Errno::ELOOP.as_i32(), 40);
    assert_eq!(Error::new(Errno::EBADF).errno(), Errno::EBADF);
}

#[test]
fn file_modes() {
    assert!(FileMode::new(S_IFDIR | 0o755).is_directory());
    assert!(!FileMode::new(S_IFDIR | 0o755).is_regular_file());
    assert!(FileMode::new(S_IFREG | 0o644).is_regular_file());
    assert!(FileMode::new(S_IFLNK | 0o777).is_symbolic_link());
    let st = Stat::new(INodeNo::new(9), FileMode::new(S_IFREG));
    assert_eq!(st.inode_no.as_u64(), 9);
}

#[test]
fn exit_status_codes() {
    assert_eq!(ExitStatus::Success.code(), 0x10);
    assert_eq!(ExitStatus::Failure.code(), 0x11);
}

#[test]
fn probes() {
    assert_eq!(mmio_probe(0x74726976, 2, 1, 1), MmioProbe::Found);
    assert_eq!(mmio_probe(0x74726977, 2, 1, 1), MmioProbe::NotVirtio);
    assert_eq!(mmio_probe(0x74726976, 1, 1, 1), MmioProbe::UnsupportedVersion);
    assert_eq!(mmio_probe(0x74726976, 2, 2, 1), MmioProbe::OtherDevice);

    let blk = VirtioBlkProber::new();
    assert!(blk.pci_device_matches(0x1af4, 0x1042));
    assert!(!blk.pci_device_matches(0x1af4, 0x1041));
    assert!(blk.pci_device_matches(0x8086, 0x1234));
    assert_eq!(blk.mmio_probe(0x74726976, 2, 2), MmioProbe::Found);

    let block = VirtioBlockProber::new();
    assert!(block.pci_device_matches(0x1af4, 0x1042));
    assert!(block.pci_device_matches(0x1af4, 0x1001));
    assert!(!block.pci_device_matches(0x1af4, 0x1000));
    assert!(!block.pci_device_matches(0x8086, 0x1042));
    assert_eq!(block.mmio_probe(0x74726976, 2, 1), MmioProbe::OtherDevice);

    let net = VirtioNetBuilder::new();
    assert_eq!(net.check_pci(0x1af4, 0x1000, Bar::IOMapped { port: 0xc000 }).unwrap(), 0xc000);
    assert_eq!(
        net.check_pci(0x8086, 0x100e, Bar::IOMapped { port: 1 }).unwrap_err().errno(),
        Errno::EINVAL
    );
    assert_eq!(
        net.check_pci(0x1af4, 0x1000, Bar::MemoryMapped { paddr: 0xfe00_0000 }).unwrap_err().errno(),
        Errno::EINVAL
    );
    // Only one of the two ids needs to match.
    assert_eq!(net.check_pci(0x8086, 0x1000, Bar::IOMapped { port: 2 }).unwrap(), 2);
    assert!(net.pci_device_matches(0x1af4, 0x1041));
    assert!(!net.pci_device_matches(0x1af4, 0x1000));
    assert_eq!(net.mmio_probe(0x74726976, 2, 1), MmioProbe::Found);
}

#[test]
fn thread_frames() {
    let sp = VAddr::new((KERNEL_BASE_ADDR + 0x10000) as usize);
    let istack = VAddr::new((KERNEL_BASE_ADDR + 0x20000) as usize);
    let sstack = VAddr::new((KERNEL_BASE_ADDR + 0x30000) as usize);
    let ip = VAddr::new((KERNEL_BASE_ADDR + 0x1234) as usize);
    let (_t, words) = Thread::new_kthread(ip, sp, 0xaaaa, istack, sstack);
    assert_eq!(words, vec![0x02, 0, 0, 0, 0, 0, 0, 0xaaaa, KERNEL_BASE_ADDR + 0x1234]);

    let uip = UserVAddr::new_nonnull(0x40_0000).unwrap();
    let usp = UserVAddr::new_nonnull(0x7fff_0000).unwrap();
    let (_t, words) = Thread::new_user_thread(uip, usp, sp, 0xbbbb, istack, sstack);
    assert_eq!(
        words,
        vec![0x02, 0, 0, 0, 0, 0, 0, 0xbbbb, 0x40_0000, 32 | 3, 0x202, 0x7fff_0000, 40 | 3]
    );

    let idle = Thread::new_idle_thread(istack, sstack);
    let (rsp0, tss_rsp0) = idle.kernel_stack_tops();
    assert_eq!(rsp0, KERNEL_BASE_ADDR + 0x30000 + 4096 * 256);
    assert_eq!(tss_rsp0, KERNEL_BASE_ADDR + 0x20000 + 4096 * 256);
}

fn frame(rsp: u64) -> SyscallFrame {
    SyscallFrame {
        r15: 1, r14: 2, r13: 3, r12: 4, rbp: 5, rbx: 6, r11: 7, r10: 8, r9: 9, r8: 10,
        rax: 11, rcx: 12, rdx: 13, rsi: 14, rdi: 15, orig_rax: 16, rip: 17, cs: 18,
        rflags: 19, rsp, ss: 21,
    }
}

#[test]
fn signal_frames() {
    let mut current = frame(100);
    let saved = frame(200);
    restore_signaled_stack(&mut current, &saved);
    assert_eq!(current, saved);

    let l = signal_stack_layout(0x7fff_0000).unwrap();
    assert_eq!(l.trampoline.value(), 0x7fff_0000 - 128 - 8);
    assert_eq!(l.rsp.value(), 0x7fff_0000 - 128 - 16);
    assert_eq!(signal_stack_layout(0).unwrap_err().errno(), Errno::EFAULT);
    assert_eq!(signal_stack_layout(KERNEL_BASE_ADDR as usize).unwrap_err().errno(), Errno::EFAULT);
    assert_eq!(signal_stack_layout(100).unwrap_err().errno(), Errno::EFAULT);
    assert_eq!(trampoline_bytes(), vec![0xb8, 0x0f, 0x00, 0x00, 0x00, 0x0f, 0x05, 0x90]);
}

#[test]
fn interrupt_dispatch() {
    assert_eq!(interrupt_action(34, 0, 0, 1, 2, 0, 40), InterruptAction::Timer { switch: true });
    assert_eq!(interrupt_action(34, 0, 0, 1, 2, 0, 41), InterruptAction::Timer { switch: false });
    assert_eq!(interrupt_action(36, 0, 0, 1, 2, 0, 0), InterruptAction::Serial);
    assert_eq!(interrupt_action(33, 0, 0, 1, 2, 0, 0), InterruptAction::Irq { irq: 1 });
    assert_eq!(interrupt_action(32, 0, 0, 1, 2, 0, 0), InterruptAction::Unsupported);
    assert_eq!(interrupt_action(13, 0, 0, 1, 2, 0, 0), InterruptAction::Unsupported);
    // A page fault in the kernel outside the user-copy routines.
    assert_eq!(interrupt_action(14, 0, 0x99, 1, 2, 0x1000, 0), InterruptAction::KernelPageFault);
    match interrupt_action(14, PF_CAUSED_BY_USER as u64 | 2, 0x99, 1, 2, 0x1000, 0) {
        InterruptAction::UserPageFault { vaddr, reason } => {
            assert_eq!(vaddr.unwrap().value(), 0x1000);
            assert_eq!(reason.bits(), 6);
            assert!(reason.contains(PF_CAUSED_BY_USER));
        },
        other => panic!("unexpected {:?}", other),
    }
    // Faults in the user-copy routines count as user faults.
    match interrupt_action(14, 0, 2, 1, 2, 0, 0) {
        InterruptAction::UserPageFault { vaddr, .. } => assert!(vaddr.is_none()),
        other => panic!("unexpected {:?}", other),
    }
    assert_eq!(
        interrupt_action(14, 4, 0, 1, 2, KERNEL_BASE_ADDR as usize, 0),
        InterruptAction::BadUserAddress
    );
    assert_eq!(PageFaultReason::from_bits_truncate(0xffff_ffff).bits(), 0x1f);
    assert!(!is_logged(34) && !is_logged(14) && !is_logged(36));
    assert!(is_logged(33));
}

#[test]
fn serial_line_endings() {
    assert_eq!(serial_bytes(b"a\nb", true), b"a\r\nb".to_vec());
    assert_eq!(serial_bytes(b"a\nb", false), b"a\nb".to_vec());
    assert_eq!(serial_bytes(b"", true), Vec::<u8>::new());
    assert_eq!(console_input(b'\r'), b'\n');
    assert_eq!(console_input(b'x'), b'x');
}
