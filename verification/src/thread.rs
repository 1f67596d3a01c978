//! Kernel threads: their kernel stacks, the frames their first switch
//! restores, and the user stack of a signal handler.
use vstd::prelude::*;
use crate::address::{KERNEL_BASE_ADDR, PAGE_SIZE, UserVAddr, VAddr, valid_user_addr};
use crate::result::{Errno, Error};

verus! {

/// The size of each kernel stack.
pub const KERNEL_STACK_SIZE: usize = PAGE_SIZE * 256;

/// The 64-bit user code segment selector.
pub const USER_CS64: u16 = 32;

/// The user data segment selector.
pub const USER_DS: u16 = 40;

/// The requested privilege level of user segments.
pub const USER_RPL: u16 = 3;

/// RFLAGS with interrupts disabled (bit 1 is always set).
pub const RFLAGS_INTERRUPTS_DISABLED: u64 = 0x02;

/// RFLAGS with interrupts enabled.
pub const RFLAGS_INTERRUPTS_ENABLED: u64 = 0x202;

/// A thread's saved kernel stack pointer and its two kernel stacks.
pub struct Thread {
    rsp: u64,
    interrupt_stack: VAddr,
    syscall_stack: VAddr,
}

/// The words that a kernel thread's first switch pops, from the stack
/// pointer upward: RFLAGS, the six callee-saved registers, the address of
/// `kthread_entry`, then the thread's entry point.
pub open spec fn kthread_frame(ip: u64, kthread_entry: u64) -> Seq<u64> {
    seq![RFLAGS_INTERRUPTS_DISABLED, 0, 0, 0, 0, 0, 0, kthread_entry, ip]
}

/// The words that a user thread's first switch pops, from the stack pointer
/// upward: RFLAGS, the six callee-saved registers, the address of
/// `userland_entry`, then the frame that IRET restores (RIP, CS, RFLAGS,
/// RSP, SS).
pub open spec fn user_thread_frame(ip: u64, sp: u64, userland_entry: u64) -> Seq<u64> {
    seq![
        RFLAGS_INTERRUPTS_DISABLED,
        0,
        0,
        0,
        0,
        0,
        0,
        userland_entry,
        ip,
        (USER_CS64 | USER_RPL) as u64,
        RFLAGS_INTERRUPTS_ENABLED,
        sp,
        (USER_DS | USER_RPL) as u64,
    ]
}

impl Thread {
    pub closed spec fn spec_rsp(&self) -> u64 {
        self.rsp
    }

    pub closed spec fn spec_interrupt_stack(&self) -> nat {
        self.interrupt_stack@
    }

    pub closed spec fn spec_syscall_stack(&self) -> nat {
        self.syscall_stack@
    }

    /// A kernel thread that starts at `ip` on the stack whose top is `sp`.
    /// Returns the thread and the words to write at its stack pointer
    /// (`kthread_entry` is the address of the assembly entry routine).
    pub fn new_kthread(
        ip: VAddr,
        sp: VAddr,
        kthread_entry: u64,
        interrupt_stack: VAddr,
        syscall_stack: VAddr,
    ) -> (r: (Thread, Vec<u64>))
        requires
            sp@ >= KERNEL_BASE_ADDR + 8 * 9,
            ip@ <= u64::MAX,
        ensures
            r.0.spec_rsp() == sp@ - 8 * 9,
            r.1@ == kthread_frame(ip@ as u64, kthread_entry),
            r.0.spec_interrupt_stack() == interrupt_stack@,
            r.0.spec_syscall_stack() == syscall_stack@,
    {
        let words: Vec<u64> = vec![
            RFLAGS_INTERRUPTS_DISABLED,
            0,
            0,
            0,
            0,
            0,
            0,
            kthread_entry,
            ip.as_u64(),
        ];
        proof {
            assert(words@ =~= kthread_frame(ip@ as u64, kthread_entry));
        }
        let rsp = sp.sub(8 * 9);
        (Thread { rsp: rsp.as_u64(), interrupt_stack, syscall_stack }, words)
    }

    /// A user thread that enters user mode at `ip` with the user stack `sp`,
    /// on the kernel stack whose top is `kernel_sp`. Returns the thread and
    /// the words to write at its stack pointer (`userland_entry` is the
    /// address of the assembly entry routine).
    pub fn new_user_thread(
        ip: UserVAddr,
        sp: UserVAddr,
        kernel_sp: VAddr,
        userland_entry: u64,
        interrupt_stack: VAddr,
        syscall_stack: VAddr,
    ) -> (r: (Thread, Vec<u64>))
        requires
            kernel_sp@ >= KERNEL_BASE_ADDR + 8 * 13,
        ensures
            r.0.spec_rsp() == kernel_sp@ - 8 * 13,
            r.1@ == user_thread_frame(ip@ as u64, sp@ as u64, userland_entry),
            r.0.spec_interrupt_stack() == interrupt_stack@,
            r.0.spec_syscall_stack() == syscall_stack@,
    {
        let cs: u16 = USER_CS64 | USER_RPL;
        let ss: u16 = USER_DS | USER_RPL;
        let words: Vec<u64> = vec![
            RFLAGS_INTERRUPTS_DISABLED,
            0,
            0,
            0,
            0,
            0,
            0,
            userland_entry,
            ip.as_u64(),
            cs as u64,
            RFLAGS_INTERRUPTS_ENABLED,
            sp.as_u64(),
            ss as u64,
        ];
        proof {
            assert(words@ =~= user_thread_frame(ip@ as u64, sp@ as u64, userland_entry));
        }
        let rsp = kernel_sp.sub(8 * 13);
        (Thread { rsp: rsp.as_u64(), interrupt_stack, syscall_stack }, words)
    }

    /// The idle thread: it never starts from a prepared frame.
    pub fn new_idle_thread(interrupt_stack: VAddr, syscall_stack: VAddr) -> (r: Thread)
        ensures
            r.spec_rsp() == 0,
            r.spec_interrupt_stack() == interrupt_stack@,
            r.spec_syscall_stack() == syscall_stack@,
    {
        Thread { rsp: 0, interrupt_stack, syscall_stack }
    }

    /// Where the stacks of this thread end, for a switch to it: the top of
    /// its syscall stack (the CPU-local `rsp0`) and of its interrupt stack
    /// (the TSS `rsp0`).
    pub fn kernel_stack_tops(&self) -> (r: (u64, u64))
        requires
            self.spec_syscall_stack() + KERNEL_STACK_SIZE <= u64::MAX,
            self.spec_interrupt_stack() + KERNEL_STACK_SIZE <= u64::MAX,
            self.spec_syscall_stack() + KERNEL_STACK_SIZE <= usize::MAX,
            self.spec_interrupt_stack() + KERNEL_STACK_SIZE <= usize::MAX,
        ensures
            r.0 == self.spec_syscall_stack() + KERNEL_STACK_SIZE,
            r.1 == self.spec_interrupt_stack() + KERNEL_STACK_SIZE,
    {
        ((self.syscall_stack.value() + KERNEL_STACK_SIZE) as u64, (self.interrupt_stack.value()
            + KERNEL_STACK_SIZE) as u64)
    }
}

/// The registers saved on entry to a system call.
#[derive(Clone, Copy, Debug, PartialEq, Eq, Structural)]
pub struct SyscallFrame {
    pub r15: u64,
    pub r14: u64,
    pub r13: u64,
    pub r12: u64,
    pub rbp: u64,
    pub rbx: u64,
    pub r11: u64,
    pub r10: u64,
    pub r9: u64,
    pub r8: u64,
    pub rax: u64,
    pub rcx: u64,
    pub rdx: u64,
    pub rsi: u64,
    pub rdi: u64,
    pub orig_rax: u64,
    pub rip: u64,
    pub cs: u64,
    pub rflags: u64,
    pub rsp: u64,
    pub ss: u64,
}

/// Returns from a signal handler: the frame saved when the signal was
/// delivered replaces the current one.
pub fn restore_signaled_stack(current_frame: &mut SyscallFrame, signaled_frame: &SyscallFrame)
    ensures
        *final(current_frame) == *signaled_frame,
{
    *current_frame = *signaled_frame;
}

/// The code a signal handler returns into: `mov eax, 15` (`rt_sigreturn`),
/// `syscall`, then a `nop` for alignment.
pub open spec fn trampoline() -> Seq<u8> {
    seq![0xb8u8, 0x0f, 0x00, 0x00, 0x00, 0x0f, 0x05, 0x90]
}

/// The bytes of the trampoline.
pub fn trampoline_bytes() -> (r: Vec<u8>)
    ensures
        r@ == trampoline(),
{
    let r: Vec<u8> = vec![0xb8, 0x0f, 0x00, 0x00, 0x00, 0x0f, 0x05, 0x90];
    proof {
        assert(r@ =~= trampoline());
    }
    r
}

/// The size of the red zone that a signal frame must not touch.
pub const RED_ZONE_SIZE: usize = 128;

/// Where a signal handler's stack goes, below the interrupted user stack.
#[derive(Clone, Copy, Debug, PartialEq, Eq, Structural)]
pub struct SignalStackLayout {
    /// Where the trampoline is copied; the handler returns there.
    pub trampoline: UserVAddr,
    /// The handler's stack pointer: the return address (the trampoline's
    /// address) is stored there.
    pub rsp: UserVAddr,
}

/// Lays out the stack of a signal handler below the user stack pointer
/// `user_rsp`: past the red zone the trampoline, then below it the return
/// address. A null or kernel `user_rsp` gives `EFAULT`, as does a stack too
/// close to address zero to hold the frame.
pub fn signal_stack_layout(user_rsp: usize) -> (r: Result<SignalStackLayout, Error>)
    ensures
        !valid_user_addr(user_rsp as int) ==> r == Err::<SignalStackLayout, Error>(
            Error { errno: Errno::EFAULT },
        ),
        valid_user_addr(user_rsp as int) && user_rsp < RED_ZONE_SIZE + 8 + 8 + 1 ==> r == Err::<
            SignalStackLayout,
            Error,
        >(Error { errno: Errno::EFAULT }),
        valid_user_addr(user_rsp as int) && user_rsp >= RED_ZONE_SIZE + 8 + 8 + 1 ==> (r matches Ok(
            l,
        ) && l.trampoline@ == user_rsp - RED_ZONE_SIZE - 8 && l.rsp@ == user_rsp - RED_ZONE_SIZE
            - 8 - 8),
{
    let rsp = match UserVAddr::new_nonnull(user_rsp) {
        Ok(v) => v,
        Err(e) => {
            return Err(e);
        },
    };
    if user_rsp < RED_ZONE_SIZE + 8 + 8 + 1 {
        return Err(Error::new(Errno::EFAULT));
    }
    let below_red_zone = rsp.sub(RED_ZONE_SIZE);
    let trampoline = below_red_zone.sub(8);
    let ret_slot = trampoline.sub(8);
    Ok(SignalStackLayout { trampoline, rsp: ret_slot })
}

/// The `arch_prctl(2)` code that sets the FS segment base.
pub const ARCH_SET_FS: i32 = 0x1002;

/// `arch_prctl(2)`: with `ARCH_SET_FS`, the value the thread's FS base is
/// set to (the address `uaddr`); any other code fails with `EINVAL`.
pub fn arch_prctl(code: i32, uaddr: UserVAddr) -> (r: Result<u64, Error>)
    ensures
        code == ARCH_SET_FS ==> r == Ok::<u64, Error>(uaddr@ as u64),
        code != ARCH_SET_FS ==> r == Err::<u64, Error>(Error { errno: Errno::EINVAL }),
{
    if code == ARCH_SET_FS {
        Ok(uaddr.as_u64())
    } else {
        Err(Error::new(Errno::EINVAL))
    }
}

} // verus!
