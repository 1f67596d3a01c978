//! The exit status reported to the emulator when the kernel halts.
use vstd::prelude::*;

verus! {

/// How the kernel's run ended.
#[derive(Clone, Copy, Debug, PartialEq, Eq, Structural)]
pub enum ExitStatus {
    Success,
    Failure,
}

impl ExitStatus {
    /// The value written to the emulator's exit port.
    pub fn code(self) -> (r: u16)
        ensures
            r == (match self {
                ExitStatus::Success => 0x10u16,
                ExitStatus::Failure => 0x11u16,
            }),
    {
        match self {
            ExitStatus::Success => 0x10,
            ExitStatus::Failure => 0x11,
        }
    }
}

} // verus!
