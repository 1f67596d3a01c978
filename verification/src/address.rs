use vstd::prelude::*;

use crate::result::{Errno, Error};

verus! {

/// The base virtual address of straight mapping.
pub const KERNEL_BASE_ADDR: u64 = 0xffff_8000_0000_0000;

/// The end of straight mapping. Any physical address `P` is mapped into the
/// kernel's virtual memory address `KERNEL_BASE_ADDR + P`.
pub const KERNEL_STRAIGHT_MAP_PADDR_END: u64 = 0x1_0000_0000;

/// The size of a page.
pub const PAGE_SIZE: usize = 4096;

/// `value` rounded down to a multiple of `align`.
pub open spec fn spec_align_down(value: int, align: int) -> int {
    value - value % align
}

/// `value` rounded up to a multiple of `align`.
pub open spec fn spec_align_up(value: int, align: int) -> int {
    if value % align == 0 {
        value
    } else {
        value - value % align + align
    }
}

/// Facts about rounding down: the remainder is below `align` and what is
/// left is a multiple of `align`.
pub proof fn lemma_align_down(value: int, align: int)
    requires
        value >= 0,
        align > 0,
    ensures
        0 <= value % align < align,
        value % align <= value,
        (value - value % align) % align == 0,
        (value - value % align + align) % align == 0,
{
    let q = value / align;
    vstd::arithmetic::div_mod::lemma_fundamental_div_mod(value, align);
    vstd::arithmetic::div_mod::lemma_mod_pos_bound(value, align);
    vstd::arithmetic::div_mod::lemma_mod_decreases(value as nat, align as nat);
    vstd::arithmetic::div_mod::lemma_mod_multiples_basic(q, align);
    vstd::arithmetic::div_mod::lemma_mod_multiples_basic(q + 1, align);
    assert(align * q == q * align) by (nonlinear_arith);
    assert((q + 1) * align == q * align + align) by (nonlinear_arith);
}

/// Rounds `value` down to a multiple of `align`.
pub fn align_down(value: usize, align: usize) -> (r: usize)
    requires
        align > 0,
    ensures
        r == spec_align_down(value as int, align as int),
        r <= value,
        r % align == 0,
        value - r < align,
{
    proof {
        lemma_align_down(value as int, align as int);
    }
    value - value % align
}

/// Rounds `value` up to a multiple of `align`.
pub fn align_up(value: usize, align: usize) -> (r: usize)
    requires
        align > 0,
        spec_align_up(value as int, align as int) <= usize::MAX,
    ensures
        r == spec_align_up(value as int, align as int),
        r >= value,
        r % align == 0,
        r - value < align,
{
    let rem = value % align;
    proof {
        lemma_align_down(value as int, align as int);
    }
    if rem == 0 {
        value
    } else {
        value - rem + align
    }
}

/// The number of pages that hold `len` bytes.
pub open spec fn pages_for(len: int) -> int {
    spec_align_up(len, PAGE_SIZE as int) / PAGE_SIZE as int
}

/// The number of pages that hold `len` bytes.
pub fn pages_for_bytes(len: usize) -> (r: usize)
    requires
        len <= usize::MAX - PAGE_SIZE,
    ensures
        r == pages_for(len as int),
{
    proof {
        lemma_align_down(len as int, PAGE_SIZE as int);
    }
    align_up(len, PAGE_SIZE) / PAGE_SIZE
}

/// Returns `true` if `value` is a multiple of `align`.
pub fn is_aligned(value: usize, align: usize) -> (r: bool)
    requires
        align > 0,
    ensures
        r == (value % align == 0),
{
    value % align == 0
}

/// Represents a physical memory address.
#[derive(Clone, Copy, Debug, PartialEq, Eq, Structural, PartialOrd, Ord, Hash)]
pub struct PAddr(usize);

impl PAddr {
    /// The address as an integer.
    pub closed spec fn view(self) -> nat {
        self.0 as nat
    }

    pub fn new(addr: usize) -> (r: PAddr)
        ensures
            r@ == addr,
    {
        PAddr(addr)
    }

    pub fn is_null(self) -> (r: bool)
        ensures
            r == (self@ == 0),
    {
        self.0 == 0
    }

    /// The kernel virtual address at which this physical address is straight
    /// mapped.
    pub fn as_vaddr(self) -> (r: VAddr)
        requires
            self@ < KERNEL_STRAIGHT_MAP_PADDR_END,
        ensures
            r@ == self@ + KERNEL_BASE_ADDR,
    {
        VAddr(self.0 as u64 + KERNEL_BASE_ADDR)
    }

    pub fn add(self, offset: usize) -> (r: PAddr)
        requires
            self@ + offset <= usize::MAX,
        ensures
            r@ == self@ + offset,
    {
        PAddr(self.0 + offset)
    }

    pub fn value(self) -> (r: usize)
        ensures
            r == self@,
    {
        self.0
    }
}

/// A physical address fits in a `usize`.
pub proof fn lemma_paddr_bound(p: PAddr)
    ensures
        p@ <= usize::MAX,
{
}

/// Represents a *kernel* virtual memory address.
#[derive(Clone, Copy, Debug, PartialEq, Eq, Structural, PartialOrd, Ord, Hash)]
pub struct VAddr(u64);

impl VAddr {
    /// The address as an integer.
    pub closed spec fn view(self) -> nat {
        self.0 as nat
    }

    pub fn new(addr: usize) -> (r: VAddr)
        requires
            addr >= KERNEL_BASE_ADDR,
        ensures
            r@ == addr,
    {
        VAddr(addr as u64)
    }

    /// The physical address that is straight mapped at this address.
    pub fn as_paddr(self) -> (r: PAddr)
        requires
            self@ >= KERNEL_BASE_ADDR,
            self@ - KERNEL_BASE_ADDR <= usize::MAX,
        ensures
            r@ == self@ - KERNEL_BASE_ADDR,
    {
        PAddr((self.0 - KERNEL_BASE_ADDR) as usize)
    }

    pub fn add(self, offset: usize) -> (r: VAddr)
        requires
            self@ >= KERNEL_BASE_ADDR,
            self@ + offset <= u64::MAX,
        ensures
            r@ == self@ + offset,
    {
        VAddr(self.0 + offset as u64)
    }

    pub fn sub(self, offset: usize) -> (r: VAddr)
        requires
            self@ - offset >= KERNEL_BASE_ADDR,
        ensures
            r@ == self@ - offset,
    {
        VAddr(self.0 - offset as u64)
    }

    pub fn align_down(self, alignment: usize) -> (r: VAddr)
        requires
            alignment > 0,
            spec_align_down(self@ as int, alignment as int) >= KERNEL_BASE_ADDR,
        ensures
            r@ == spec_align_down(self@ as int, alignment as int),
    {
        let a = alignment as u64;
        VAddr(self.0 - self.0 % a)
    }

    pub fn value(self) -> (r: usize)
        ensures
            r == self@ as usize,
    {
        self.0 as usize
    }

    /// The address as a 64-bit integer.
    pub fn as_u64(self) -> (r: u64)
        ensures
            r == self@,
    {
        self.0
    }
}

/// Represents a user virtual memory address.
///
/// Those built by `new` and `new_nonnull` are non-null and lie below
/// `KERNEL_BASE_ADDR`; `add` and `sub` compute without that check.
#[derive(Clone, Copy, Debug, PartialEq, Eq, Structural, PartialOrd, Ord, Hash)]
pub struct UserVAddr(u64);

/// `addr` is a valid user address: non-null and below the kernel's space.
pub open spec fn valid_user_addr(addr: int) -> bool {
    0 < addr < KERNEL_BASE_ADDR
}

impl UserVAddr {
    /// The address as an integer.
    pub closed spec fn view(self) -> nat {
        self.0 as nat
    }

    /// Checks a user pointer: `EFAULT` for a kernel address, `None` for null.
    pub fn new(addr: usize) -> (r: Result<Option<UserVAddr>, Error>)
        ensures
            addr >= KERNEL_BASE_ADDR ==> r == Err::<Option<UserVAddr>, Error>(
                Error { errno: Errno::EFAULT },
            ),
            addr == 0 ==> r == Ok::<Option<UserVAddr>, Error>(None),
            valid_user_addr(addr as int) ==> (r matches Ok(Some(u)) && u@ == addr),
    {
        if (addr as u64) >= KERNEL_BASE_ADDR {
            return Err(Error::new(Errno::EFAULT));
        }
        if addr == 0 {
            Ok(None)
        } else {
            Ok(Some(UserVAddr(addr as u64)))
        }
    }

    /// Checks a user pointer that must not be null.
    pub fn new_nonnull(addr: usize) -> (r: Result<UserVAddr, Error>)
        ensures
            !valid_user_addr(addr as int) ==> r == Err::<UserVAddr, Error>(
                Error { errno: Errno::EFAULT },
            ),
            valid_user_addr(addr as int) ==> (r matches Ok(u) && u@ == addr),
    {
        if (addr as u64) >= KERNEL_BASE_ADDR {
            return Err(Error::new(Errno::EFAULT));
        }
        if addr == 0 {
            return Err(Error::new(Errno::EFAULT));
        }
        Ok(UserVAddr(addr as u64))
    }

    pub fn as_isize(self) -> (r: isize)
        ensures
            r == self@ as isize,
    {
        self.0 as isize
    }

    pub fn add(self, offset: usize) -> (r: UserVAddr)
        requires
            self@ + offset <= u64::MAX,
        ensures
            r@ == self@ + offset,
    {
        UserVAddr(self.0 + offset as u64)
    }

    pub fn sub(self, offset: usize) -> (r: UserVAddr)
        requires
            self@ >= offset,
        ensures
            r@ == self@ - offset,
    {
        UserVAddr(self.0 - offset as u64)
    }

    pub fn value(self) -> (r: usize)
        ensures
            r == self@ as usize,
    {
        self.0 as usize
    }

    /// The address as a 64-bit integer.
    pub fn as_u64(self) -> (r: u64)
        ensures
            r == self@,
    {
        self.0
    }

    /// Checks that `len` bytes from this address lie entirely in user space.
    pub fn access_ok(self, len: usize) -> (r: Result<(), Error>)
        ensures
            self@ + len <= KERNEL_BASE_ADDR ==> r == Ok::<(), Error>(()),
            self@ + len > KERNEL_BASE_ADDR ==> r == Err::<(), Error>(
                Error { errno: Errno::EFAULT },
            ),
    {
        match self.0.checked_add(len as u64) {
            Some(end) => {
                if end <= KERNEL_BASE_ADDR {
                    Ok(())
                } else {
                    Err(Error::new(Errno::EFAULT))
                }
            },
            None => Err(Error::new(Errno::EFAULT)),
        }
    }
}

} // verus!
