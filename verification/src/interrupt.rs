//! What the kernel does on each interrupt vector, and the interface through
//! which the architecture layer hands events to the kernel.
use vstd::prelude::*;
use crate::address::{KERNEL_BASE_ADDR, UserVAddr, valid_user_addr};
use crate::thread::SyscallFrame;

verus! {

/// The vector of the timer interrupt.
pub const TIMER_VECTOR: u8 = 34;

/// The vector of the serial port interrupt.
pub const SERIAL_VECTOR: u8 = 36;

/// The vector of page faults.
pub const PAGE_FAULT_VECTOR: u8 = 14;

/// Device interrupts come on the vectors above this one.
pub const IRQ_VECTOR_BASE: u8 = 32;

/// A context switch is considered every this many timer ticks.
pub const TICKS_PER_SWITCH: usize = 20;

pub const PF_PRESENT: u32 = 1;
pub const PF_CAUSED_BY_WRITE: u32 = 2;
pub const PF_CAUSED_BY_USER: u32 = 4;
pub const PF_RESERVED_WRITE: u32 = 8;
pub const PF_CAUSED_BY_INST_FETCH: u32 = 16;

/// The error code of a page fault, reduced to the bits the kernel knows.
#[derive(Clone, Copy, Debug, PartialEq, Eq, Structural)]
pub struct PageFaultReason {
    bits: u32,
}

impl PageFaultReason {
    pub closed spec fn view(self) -> u32 {
        self.bits
    }

    /// Keeps the known bits of `bits` and drops the others.
    pub fn from_bits_truncate(bits: u32) -> (r: PageFaultReason)
        ensures
            r@ == bits & 0x1f,
    {
        PageFaultReason { bits: bits & 0x1f }
    }

    pub fn bits(&self) -> (r: u32)
        ensures
            r == self@,
    {
        self.bits
    }

    /// Whether every bit of `flag` is set.
    pub fn contains(&self, flag: u32) -> (r: bool)
        ensures
            r == (self@ & flag == flag),
    {
        self.bits & flag == flag
    }
}

/// What to do for an interrupt.
#[derive(Clone, Copy, Debug, PartialEq, Eq, Structural)]
pub enum InterruptAction {
    /// The timer: acknowledge it, and let another process run when `switch`.
    Timer { switch: bool },
    /// The serial port: acknowledge it, then take the input.
    Serial,
    /// A page fault from user space (or from a user-copy routine) at `vaddr`
    /// (`None` for the null address).
    UserPageFault { vaddr: Option<UserVAddr>, reason: PageFaultReason },
    /// A user page fault at a kernel address: not handled yet.
    BadUserAddress,
    /// A page fault in the kernel itself: a bug, the kernel panics.
    KernelPageFault,
    /// A device interrupt: handle IRQ `irq`, then acknowledge it.
    Irq { irq: u8 },
    /// A vector the kernel does not handle.
    Unsupported,
}

/// Whether the interrupt is logged: all but the timer, the serial port and
/// page faults are.
pub open spec fn spec_is_logged(vec: u8) -> bool {
    vec != TIMER_VECTOR && vec != PAGE_FAULT_VECTOR && vec != SERIAL_VECTOR
}

/// The action for vector `vec`. `error` is the error code pushed by the
/// CPU, `rip` the interrupted instruction, `usercopy1` and `usercopy2` the
/// two instructions of the user-copy routines that may fault, `cr2` the
/// faulting address and `ticks` the timer ticks counted before this one.
pub open spec fn spec_interrupt_action(
    vec: u8,
    error: u64,
    rip: u64,
    usercopy1: u64,
    usercopy2: u64,
    cr2: usize,
    ticks: usize,
) -> InterruptAction {
    if vec == TIMER_VECTOR {
        InterruptAction::Timer { switch: ticks % TICKS_PER_SWITCH == 0 }
    } else if vec == SERIAL_VECTOR {
        InterruptAction::Serial
    } else if vec == PAGE_FAULT_VECTOR {
        let reason = (error as u32) & 0x1f;
        let in_user = (reason & PF_CAUSED_BY_USER == PF_CAUSED_BY_USER) || rip == usercopy1 || rip
            == usercopy2;
        if !in_user {
            InterruptAction::KernelPageFault
        } else if cr2 >= KERNEL_BASE_ADDR {
            InterruptAction::BadUserAddress
        } else {
            InterruptAction::UserPageFault {
                vaddr: if cr2 == 0 {
                    None
                } else {
                    Some(choose|u: UserVAddr| u@ == cr2)
                },
                reason: choose|p: PageFaultReason| p@ == reason,
            }
        }
    } else if vec > IRQ_VECTOR_BASE {
        InterruptAction::Irq { irq: (vec - IRQ_VECTOR_BASE) as u8 }
    } else {
        InterruptAction::Unsupported
    }
}

/// Whether the kernel prints the interrupt.
pub fn is_logged(vec: u8) -> (r: bool)
    ensures
        r == spec_is_logged(vec),
{
    vec != TIMER_VECTOR && vec != PAGE_FAULT_VECTOR && vec != SERIAL_VECTOR
}

/// Decides what to do for an interrupt (see `spec_interrupt_action`).
/// A device interrupt is handed to the IRQ whose number is the vector less
/// `IRQ_VECTOR_BASE`: every vector above the base but the timer's and the
/// serial port's is such an interrupt, and no other vector is.
pub proof fn lemma_irq_vectors(
    vec: u8,
    error: u64,
    rip: u64,
    usercopy1: u64,
    usercopy2: u64,
    cr2: usize,
    ticks: usize,
)
    ensures
        vec > IRQ_VECTOR_BASE && vec != TIMER_VECTOR && vec != SERIAL_VECTOR ==> (spec_interrupt_action(
            vec,
            error,
            rip,
            usercopy1,
            usercopy2,
            cr2,
            ticks,
        ) matches InterruptAction::Irq { irq } && irq + IRQ_VECTOR_BASE == vec),
        spec_interrupt_action(vec, error, rip, usercopy1, usercopy2, cr2, ticks) matches InterruptAction::Irq { irq }
            ==> vec > IRQ_VECTOR_BASE && vec != TIMER_VECTOR && vec != SERIAL_VECTOR && irq
            + IRQ_VECTOR_BASE == vec,
{
}

pub fn interrupt_action(
    vec: u8,
    error: u64,
    rip: u64,
    usercopy1: u64,
    usercopy2: u64,
    cr2: usize,
    ticks: usize,
) -> (r: InterruptAction)
    ensures
        match spec_interrupt_action(vec, error, rip, usercopy1, usercopy2, cr2, ticks) {
            InterruptAction::UserPageFault { vaddr, reason } => r matches InterruptAction::UserPageFault {
                vaddr: v,
                reason: p,
            } && p@ == reason@ && (vaddr is None <==> v is None) && (v matches Some(u) ==> u@ == cr2),
            a => r == a,
        },
        vec > IRQ_VECTOR_BASE && vec != TIMER_VECTOR && vec != SERIAL_VECTOR ==> (r matches InterruptAction::Irq { irq } && irq + IRQ_VECTOR_BASE == vec),
        r matches InterruptAction::Irq { irq } ==> vec > IRQ_VECTOR_BASE && vec != TIMER_VECTOR
            && vec != SERIAL_VECTOR && irq + IRQ_VECTOR_BASE == vec,
{
    proof {
        lemma_irq_vectors(vec, error, rip, usercopy1, usercopy2, cr2, ticks);
    }
    if vec == TIMER_VECTOR {
        return InterruptAction::Timer { switch: ticks % TICKS_PER_SWITCH == 0 };
    }
    if vec == SERIAL_VECTOR {
        return InterruptAction::Serial;
    }
    if vec == PAGE_FAULT_VECTOR {
        let reason = PageFaultReason::from_bits_truncate(error as u32);
        let occurred_in_user = reason.contains(PF_CAUSED_BY_USER) || rip == usercopy1 || rip
            == usercopy2;
        if !occurred_in_user {
            return InterruptAction::KernelPageFault;
        }
        return match UserVAddr::new(cr2) {
            Ok(vaddr) => InterruptAction::UserPageFault { vaddr, reason },
            Err(_) => InterruptAction::BadUserAddress,
        };
    }
    if vec > IRQ_VECTOR_BASE {
        return InterruptAction::Irq { irq: vec - IRQ_VECTOR_BASE };
    }
    InterruptAction::Unsupported
}

/// What the architecture layer calls into: the kernel implements it.
pub trait Handler {
    /// A character arrived on the console.
    fn handle_console_rx(&self, ch: u8);

    /// Device interrupt `irq` arrived.
    fn handle_irq(&self, irq: u8);

    /// The timer ticked.
    fn handle_timer_irq(&self);

    /// A user page fault at `unaligned_vaddr` (`None` when it is not a user
    /// address), from the instruction at `ip`.
    fn handle_page_fault(&self, unaligned_vaddr: Option<UserVAddr>, ip: usize, reason: PageFaultReason);

    /// System call `n` with its six arguments; returns the value for the
    /// user.
    fn handle_syscall(
        &self,
        a1: usize,
        a2: usize,
        a3: usize,
        a4: usize,
        a5: usize,
        a6: usize,
        n: usize,
        frame: &mut SyscallFrame,
    ) -> isize;
}

/// The IRQs that have a handler attached.
pub struct AttachedIrqs {
    attached: Vec<bool>,
}

impl AttachedIrqs {
    /// The IRQs attached.
    pub closed spec fn view(&self) -> Set<u8> {
        Set::new(|irq: u8| self.attached@[irq as int])
    }

    pub closed spec fn wf(&self) -> bool {
        self.attached@.len() == 256
    }

    /// No IRQ is attached.
    pub fn new() -> (r: AttachedIrqs)
        ensures
            r.wf(),
            r@ == Set::<u8>::empty(),
    {
        let mut attached: Vec<bool> = Vec::new();
        let mut i: usize = 0;
        while i < 256
            invariant
                i <= 256,
                attached@.len() == i,
                forall|k: int| 0 <= k < i ==> !(#[trigger] attached@[k]),
            decreases 256 - i,
        {
            attached.push(false);
            i += 1;
        }
        let r = AttachedIrqs { attached };
        assert(r@ =~= Set::<u8>::empty());
        r
    }

    /// Whether `irq` has a handler.
    pub fn is_attached(&self, irq: u8) -> (r: bool)
        requires
            self.wf(),
        ensures
            r == self@.contains(irq),
    {
        self.attached[irq as usize]
    }

    /// Records that `irq` has a handler now. A second handler for one IRQ
    /// is a bug that `requires` rules out.
    pub fn attach(&mut self, irq: u8)
        requires
            old(self).wf(),
            !old(self)@.contains(irq),
        ensures
            final(self).wf(),
            final(self)@ == old(self)@.insert(irq),
    {
        self.attached.set(irq as usize, true);
        assert(self@ =~= old(self)@.insert(irq));
    }
}

/// What the early system call entry does.
#[derive(Clone, Copy, Debug, PartialEq, Eq, Structural)]
pub enum EarlySyscall {
    /// `write(2)`: print the `len` bytes at `buf` (the descriptor is not
    /// looked at).
    Write { fd: i64, buf: UserVAddr, len: usize },
    /// `exit(2)` with `status`: the kernel stops there.
    Exit { status: i64 },
}

/// Decodes a system call of the early entry: number 1 is `write` and
/// number 60 `exit`. The entry stops on any other number, and on a `write`
/// whose buffer is not a valid user address or whose length is negative;
/// `requires` leaves those out. It returns `n`.
pub fn early_syscall(a1: i64, a2: i64, a3: i64, n: i64) -> (r: (EarlySyscall, i64))
    requires
        n == 1 || n == 60,
        n == 1 ==> valid_user_addr(a2 as usize as int) && 0 <= a3 <= usize::MAX,
    ensures
        r.1 == n,
        n == 1 ==> (r.0 matches EarlySyscall::Write { fd, buf, len } && fd == a1 && buf@ == a2 as usize
            && len == a3),
        n == 60 ==> r.0 == (EarlySyscall::Exit { status: a1 }),
{
    if n == 1 {
        let buf = UserVAddr::new_nonnull(a2 as usize).unwrap();
        (EarlySyscall::Write { fd: a1, buf, len: a3 as usize }, n)
    } else {
        (EarlySyscall::Exit { status: a1 }, n)
    }
}

} // verus!
