//! Walking the chain of saved frame pointers on the kernel stack.
use vstd::prelude::*;
use crate::address::KERNEL_BASE_ADDR;

verus! {

/// The most frames a backtrace reports.
pub const BACKTRACE_MAX: usize = 16;

/// A saved frame: the caller's frame pointer and the return address.
#[derive(Clone, Copy, Debug, PartialEq, Eq, Structural)]
pub struct StackFrame {
    pub next: u64,
    pub return_addr: u64,
}

/// Whether a frame pointer may be followed: non-null and in the kernel's
/// address space.
pub open spec fn walkable(frame: u64) -> bool {
    frame != 0 && frame >= KERNEL_BASE_ADDR
}

/// A backtrace from a frame pointer.
pub struct Backtrace {
    frame: u64,
}

impl Backtrace {
    pub closed spec fn view(&self) -> u64 {
        self.frame
    }

    /// A backtrace from the frame pointer `rbp` (the current one).
    pub fn current_frame(rbp: u64) -> (r: Backtrace)
        ensures
            r@ == rbp,
    {
        Backtrace { frame: rbp }
    }

    /// Walks the frames, reading each with `read`, until a frame pointer
    /// that is null or outside the kernel, or `BACKTRACE_MAX` frames.
    /// Returns each frame's depth and return address, in order.
    pub fn traverse<F: Fn(u64) -> StackFrame>(self, read: F) -> (r: Vec<(usize, u64)>)
        requires
            forall|a: u64| walkable(a) ==> call_requires(read, (a,)),
        ensures
            r@.len() <= BACKTRACE_MAX,
            forall|k: int| 0 <= k < r@.len() ==> (#[trigger] r@[k]).0 == k,
            exists|frames: Seq<u64>|
                #![trigger frames.len()]
                {
                    &&& frames.len() == r@.len() + 1
                    &&& frames[0] == self@
                    &&& forall|k: int|
                        0 <= k < r@.len() ==> walkable(#[trigger] frames[k]) && call_ensures(
                            read,
                            (frames[k],),
                            StackFrame { next: frames[k + 1], return_addr: r@[k].1 },
                        )
                    &&& r@.len() < BACKTRACE_MAX ==> !walkable(frames[r@.len() as int])
                },
    {
        let mut out: Vec<(usize, u64)> = Vec::new();
        let mut frame = self.frame;
        let ghost mut frames: Seq<u64> = seq![self.frame];
        let mut i: usize = 0;
        while i < BACKTRACE_MAX
            invariant_except_break
                i <= BACKTRACE_MAX,
            invariant
                forall|a: u64| walkable(a) ==> call_requires(read, (a,)),
                out@.len() == i,
                frames.len() == i + 1,
                frames[0] == self.frame,
                frames[i as int] == frame,
                forall|k: int| 0 <= k < i ==> (#[trigger] out@[k]).0 == k,
                forall|k: int|
                    0 <= k < i ==> walkable(#[trigger] frames[k]) && call_ensures(
                        read,
                        (frames[k],),
                        StackFrame { next: frames[k + 1], return_addr: out@[k].1 },
                    ),
            ensures
                i <= BACKTRACE_MAX,
                i < BACKTRACE_MAX ==> !walkable(frame),
            decreases BACKTRACE_MAX - i,
        {
            if frame == 0 || frame < KERNEL_BASE_ADDR {
                break;
            }
            assert(walkable(frame));
            let saved = read(frame);
            out.push((i, saved.return_addr));
            proof {
                frames = frames.push(saved.next);
            }
            frame = saved.next;
            i += 1;
        }
        proof {
            assert(frames.len() == out@.len() + 1);
        }
        out
    }
}

} // verus!
