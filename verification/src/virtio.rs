//! A virtio device driver library: virtqueues and their descriptor free list.
//!
//! The descriptor table and the available ring are held here; the device's
//! view of them (shared memory) and the I/O port accesses are the caller's.
use vstd::prelude::*;

use crate::address::{align_up, spec_align_up, PAddr, PAGE_SIZE};
use crate::result::{Errno, Error};

verus! {

pub const VIRTIO_STATUS_ACK: u8 = 1;
pub const VIRTIO_STATUS_DRIVER: u8 = 2;
pub const VIRTIO_STATUS_DRIVER_OK: u8 = 4;
pub const VIRTIO_STATUS_FEAT_OK: u8 = 8;

pub const VIRTIO_REG_DEVICE_FEATS: u16 = 0x00;
pub const VIRTIO_REG_DRIVER_FEATS: u16 = 0x04;
pub const VIRTIO_REG_QUEUE_ADDR_PFN: u16 = 0x08;
pub const VIRTIO_REG_NUM_DESCS: u16 = 0x0c;
pub const VIRTIO_REG_QUEUE_SELECT: u16 = 0x0e;
pub const VIRTIO_REG_QUEUE_NOTIFY: u16 = 0x10;
pub const VIRTIO_REG_DEVICE_STATUS: u16 = 0x12;
pub const VIRTIO_REG_ISR_STATUS: u16 = 0x13;
pub const VIRTIO_REG_DEVICE_CONFIG_BASE: u16 = 0x14;

pub const VIRTQ_DESC_F_NEXT: u16 = 1;
pub const VIRTQ_DESC_F_WRITE: u16 = 2;

/// The size of a descriptor in the descriptor table.
pub const VIRTQ_DESC_SIZE: usize = 16;
/// The size of an element of the used ring.
pub const VIRTQ_USED_ELEM_SIZE: usize = 8;

/// A descriptor of the descriptor table.
#[derive(Clone, Copy, Debug, PartialEq, Eq, Structural)]
pub struct VirtqDesc {
    pub addr: u64,
    pub len: u32,
    pub flags: u16,
    pub next: u16,
}

impl VirtqDesc {
    pub open spec fn spec_is_writable(self) -> bool {
        self.flags & VIRTQ_DESC_F_WRITE != 0
    }

    pub open spec fn spec_has_next(self) -> bool {
        self.flags & VIRTQ_DESC_F_NEXT != 0
    }

    pub fn is_writable(&self) -> (r: bool)
        ensures
            r == self.spec_is_writable(),
    {
        self.flags & VIRTQ_DESC_F_WRITE != 0
    }

    pub fn has_next(&self) -> (r: bool)
        ensures
            r == self.spec_has_next(),
    {
        self.flags & VIRTQ_DESC_F_NEXT != 0
    }
}

/// An element of the used ring: the head of a processed chain and the number
/// of bytes the device wrote.
#[derive(Clone, Copy, Debug, PartialEq, Eq, Structural)]
pub struct VirtqUsedElem {
    pub id: u32,
    pub len: u32,
}

/// A buffer handed to the device.
#[derive(Clone, Copy, Debug, PartialEq, Eq, Structural)]
pub enum VirtqDescBuffer {
    ReadOnlyFromDevice { addr: PAddr, len: usize },
    WritableFromDevice { addr: PAddr, len: usize },
}

/// A buffer as plain values: whether the device may write it, its physical
/// address and its length.
pub struct BufferView {
    pub writable: bool,
    pub addr: nat,
    pub len: nat,
}

impl VirtqDescBuffer {
    pub open spec fn view(self) -> BufferView {
        match self {
            VirtqDescBuffer::ReadOnlyFromDevice { addr, len } => BufferView {
                writable: false,
                addr: addr@,
                len: len as nat,
            },
            VirtqDescBuffer::WritableFromDevice { addr, len } => BufferView {
                writable: true,
                addr: addr@,
                len: len as nat,
            },
        }
    }
}

/// The buffer that a descriptor describes.
pub open spec fn desc_buffer(d: VirtqDesc) -> BufferView {
    BufferView {
        writable: d.spec_is_writable(),
        addr: (d.addr as usize) as nat,
        len: (d.len as usize) as nat,
    }
}

/// A chain of descriptors processed by the device.
pub struct VirtqUsedChain {
    pub descs: Vec<VirtqDescBuffer>,
    pub total_len: usize,
}

/// Where the rings of a virtqueue with a given number of descriptors lie in
/// its memory area, and how many pages the area takes.
#[derive(Clone, Copy, Debug, PartialEq, Eq, Structural)]
pub struct VirtqLayout {
    pub avail_ring_off: usize,
    pub used_ring_off: usize,
    pub virtq_size: usize,
    pub num_pages: usize,
}

/// The layout of a legacy virtqueue: the descriptor table, then the available
/// ring, then (page aligned) the used ring.
pub open spec fn spec_virtq_layout(num_descs: nat) -> VirtqLayout {
    let avail_ring_off = VIRTQ_DESC_SIZE * num_descs;
    let avail_ring_size = 2 * (3 + num_descs);
    let used_ring_off = spec_align_up(avail_ring_off + avail_ring_size, PAGE_SIZE as int);
    let used_ring_size = 2 * 3 + VIRTQ_USED_ELEM_SIZE * num_descs;
    let virtq_size = used_ring_off + spec_align_up(used_ring_size, PAGE_SIZE as int);
    VirtqLayout {
        avail_ring_off: avail_ring_off as usize,
        used_ring_off: used_ring_off as usize,
        virtq_size: virtq_size as usize,
        num_pages: (spec_align_up(virtq_size, PAGE_SIZE as int) / PAGE_SIZE as int) as usize,
    }
}

/// Computes the memory layout of a virtqueue with `num_descs` descriptors.
pub fn virtq_layout(num_descs: u16) -> (r: VirtqLayout)
    ensures
        r == spec_virtq_layout(num_descs as nat),
        r.avail_ring_off + 2 * (3 + num_descs) <= r.used_ring_off,
        r.used_ring_off % PAGE_SIZE == 0,
        r.virtq_size % PAGE_SIZE == 0,
        r.num_pages * PAGE_SIZE == r.virtq_size,
{
    let n = num_descs as usize;
    let avail_ring_off = VIRTQ_DESC_SIZE * n;
    let avail_ring_size: usize = 2 * (3 + n);
    let used_ring_off = align_up(avail_ring_off + avail_ring_size, PAGE_SIZE);
    let used_ring_size = 2 * 3 + VIRTQ_USED_ELEM_SIZE * n;
    let used_ring_area = align_up(used_ring_size, PAGE_SIZE);
    let virtq_size = used_ring_off + used_ring_area;
    let total = align_up(virtq_size, PAGE_SIZE);
    proof {
        assert(virtq_size % 4096 == 0) by (nonlinear_arith)
            requires
                used_ring_off % 4096 == 0,
                used_ring_area % 4096 == 0,
                virtq_size == used_ring_off + used_ring_area,
        {
            vstd::arithmetic::div_mod::lemma_mod_adds(used_ring_off as int, used_ring_area as int, 4096);
        }
        assert(total == virtq_size);
        vstd::arithmetic::div_mod::lemma_fundamental_div_mod(total as int, 4096);
    }
    VirtqLayout { avail_ring_off, used_ring_off, virtq_size, num_pages: total / PAGE_SIZE }
}

/// `c` is a well-formed descriptor chain starting at `h` in the table `descs`
/// of `n` descriptors: every descriptor but the last links to the next one.
pub open spec fn chain_wf(descs: Seq<VirtqDesc>, n: int, h: u16, c: Seq<u16>) -> bool {
    &&& c.len() > 0
    &&& c[0] == h
    &&& c.no_duplicates()
    &&& forall|j: int| 0 <= j < c.len() ==> (#[trigger] c[j]) < n
    &&& forall|j: int|
        0 <= j < c.len() - 1 ==> (#[trigger] descs[c[j] as int]).spec_has_next()
            && descs[c[j] as int].next == c[j + 1]
    &&& !descs[c[c.len() - 1] as int].spec_has_next()
}

/// A virtqueue.
pub struct VirtQueue {
    index: u16,
    num_descs: u16,
    last_used_index: u16,
    free_head: u16,
    num_free_descs: u16,
    descs: Vec<VirtqDesc>,
    avail_ring: Vec<u16>,
    avail_index: u16,
    /// The free descriptors, in list order.
    free_list: Ghost<Seq<u16>>,
    /// The chains handed to the device and not yet returned, by head.
    chains: Ghost<Map<u16, Seq<u16>>>,
}

impl VirtQueue {
    pub closed spec fn wf(&self) -> bool {
        let n = self.num_descs as int;
        let free = self.free_list@;
        let chains = self.chains@;
        &&& self.descs.len() == n
        &&& self.avail_ring.len() == n
        &&& free.len() == self.num_free_descs
        &&& free.no_duplicates()
        &&& forall|i: int| 0 <= i < free.len() ==> (#[trigger] free[i]) < n
        &&& free.len() > 0 ==> self.free_head == free[0]
        &&& forall|i: int|
            0 <= i < free.len() - 1 ==> (#[trigger] self.descs@[free[i] as int]).next == free[i
                + 1]
        &&& chains.dom().finite()
        &&& forall|h: u16| #[trigger] chains.dom().contains(h) ==> chain_wf(self.descs@, n, h, chains[h])
        &&& forall|h: u16, i: int|
            chains.dom().contains(h) && 0 <= i < chains[h].len() ==> !free.contains(
                #[trigger] chains[h][i],
            )
        &&& forall|h1: u16, h2: u16, i: int, j: int|
            chains.dom().contains(h1) && chains.dom().contains(h2) && h1 != h2 && 0 <= i
                < chains[h1].len() && 0 <= j < chains[h2].len() ==> #[trigger] chains[h1][i]
                != #[trigger] chains[h2][j]
    }

    /// The queue's index in its device.
    pub closed spec fn queue_index(&self) -> u16 {
        self.index
    }

    pub closed spec fn spec_num_descs(&self) -> u16 {
        self.num_descs
    }

    /// The number of free descriptors.
    pub closed spec fn num_free(&self) -> nat {
        self.num_free_descs as nat
    }

    /// The index of the next element of the used ring to consume.
    pub closed spec fn last_used(&self) -> u16 {
        self.last_used_index
    }

    /// The index of the next free slot of the available ring.
    pub closed spec fn avail_idx(&self) -> u16 {
        self.avail_index
    }

    /// The available ring.
    pub closed spec fn avail(&self) -> Seq<u16> {
        self.avail_ring@
    }

    /// The chains handed to the device and not returned yet: their buffers,
    /// keyed by the head descriptor.
    pub closed spec fn pending(&self) -> Map<u16, Seq<BufferView>> {
        Map::new(
            |h: u16| self.chains@.dom().contains(h),
            |h: u16| self.chains@[h].map_values(|d: u16| desc_buffer(self.descs@[d as int])),
        )
    }

    /// Creates a virtqueue of `num_descs` descriptors, all of them free.
    pub fn new(index: u16, num_descs: u16) -> (r: VirtQueue)
        ensures
            r.wf(),
            r.queue_index() == index,
            r.spec_num_descs() == num_descs,
            r.num_free() == num_descs,
            r.last_used() == 0,
            r.avail_idx() == 0,
            r.avail() == Seq::new(num_descs as nat, |i: int| 0u16),
            r.pending() == Map::<u16, Seq<BufferView>>::empty(),
    {
        let mut descs: Vec<VirtqDesc> = Vec::new();
        let mut avail_ring: Vec<u16> = Vec::new();
        let mut i: u16 = 0;
        while i < num_descs
            invariant
                i <= num_descs,
                descs.len() == i,
                avail_ring@ == Seq::new(i as nat, |k: int| 0u16),
                forall|k: int| 0 <= k < i ==> (#[trigger] descs@[k]).next == (if k == num_descs - 1 {
                    0
                } else {
                    k + 1
                }),
            decreases num_descs - i,
        {
            let next = if i == num_descs - 1 {
                0
            } else {
                i + 1
            };
            descs.push(VirtqDesc { addr: 0, len: 0, flags: 0, next });
            avail_ring.push(0);
            i += 1;
        }
        let ghost free = Seq::new(num_descs as nat, |k: int| k as u16);
        assert(free.no_duplicates());
        let q = VirtQueue {
            index,
            num_descs,
            last_used_index: 0,
            free_head: 0,
            num_free_descs: num_descs,
            descs,
            avail_ring,
            avail_index: 0,
            free_list: Ghost(free),
            chains: Ghost(Map::empty()),
        };
        assert(q.pending() =~= Map::<u16, Seq<BufferView>>::empty());
        q
    }

    /// The slot of the used ring that holds the next chain to consume: the
    /// used index taken modulo the ring's size, as for the available ring.
    pub fn used_slot(&self) -> (r: usize)
        requires
            self.spec_num_descs() > 0,
        ensures
            r == self.last_used() % self.spec_num_descs(),
            r < self.spec_num_descs(),
    {
        (self.last_used_index % self.num_descs) as usize
    }

    /// Returns the defined number of descriptors in the virtqueue.
    pub fn num_descs(&self) -> (r: u16)
        ensures
            r == self.spec_num_descs(),
    {
        self.num_descs
    }

    /// The queue's index in its device.
    pub fn index(&self) -> (r: u16)
        ensures
            r == self.queue_index(),
    {
        self.index
    }

    /// The descriptor table, to be copied to the device's memory.
    pub fn descs(&self) -> (r: &Vec<VirtqDesc>)
        requires
            self.wf(),
        ensures
            r.len() == self.spec_num_descs(),
            forall|h: u16, j: int|
                self.pending().contains_key(h) && 0 <= j < self.pending()[h].len() ==> exists|
                    d: int,
                | 0 <= d < r.len() && desc_buffer(#[trigger] r@[d]) == #[trigger] self.pending()[h][j],
    {
        proof {
            assert forall|h: u16, j: int|
                self.pending().contains_key(h) && 0 <= j < self.pending()[h].len() implies exists|
                    d: int,
                | 0 <= d < self.descs.len() && desc_buffer(#[trigger] self.descs@[d])
                    == #[trigger] self.pending()[h][j] by {
                let d = self.chains@[h][j] as int;
                assert(chain_wf(self.descs@, self.num_descs as int, h, self.chains@[h]));
                assert(self.chains@[h][j] < self.num_descs);
                assert(desc_buffer(self.descs@[d]) == self.pending()[h][j]);
            }
        }
        &self.descs
    }

    /// The available ring, to be copied to the device's memory.
    pub fn avail_ring(&self) -> (r: &Vec<u16>)
        ensures
            r@ == self.avail(),
    {
        &self.avail_ring
    }

    /// The index of the next free slot of the available ring.
    pub fn avail_index(&self) -> (r: u16)
        ensures
            r == self.avail_idx(),
    {
        self.avail_index
    }

    /// The index of the next element of the used ring to consume.
    pub fn last_used_index(&self) -> (r: u16)
        ensures
            r == self.last_used(),
    {
        self.last_used_index
    }
}

/// The flags a descriptor for buffer `b` carries, before chaining.
pub open spec fn buffer_flags(b: BufferView) -> u16 {
    if b.writable {
        VIRTQ_DESC_F_WRITE
    } else {
        0
    }
}

/// The descriptor written for the `j`-th buffer of a chain whose descriptor
/// `j` was `old`: the last one ends the chain, the others keep their link.
pub open spec fn chained_desc(b: BufferView, old: VirtqDesc, last: bool) -> VirtqDesc {
    if last {
        VirtqDesc { addr: b.addr as u64, len: b.len as u32, flags: buffer_flags(b), next: 0 }
    } else {
        VirtqDesc {
            addr: b.addr as u64,
            len: b.len as u32,
            flags: buffer_flags(b) | VIRTQ_DESC_F_NEXT,
            next: old.next,
        }
    }
}

/// The descriptor that the next request starts at, if one is free.
pub open spec fn wrapping_inc(x: u16) -> u16 {
    ((x + 1) % 0x10000) as u16
}

/// `new` is `old` after the chain of `bufs` was enqueued: it is pending
/// under the head that was first in the free list, and that head is in the
/// available ring.
pub open spec fn enqueued(old: VirtQueue, new: VirtQueue, bufs: Seq<BufferView>) -> bool {
    let head = old.next_free();
    &&& new.wf()
    &&& new.queue_index() == old.queue_index()
    &&& new.spec_num_descs() == old.spec_num_descs()
    &&& new.last_used() == old.last_used()
    &&& new.num_free() == old.num_free() - bufs.len()
    &&& !old.pending().contains_key(head)
    &&& new.pending() == old.pending().insert(head, bufs)
    &&& new.avail_idx() == wrapping_inc(old.avail_idx())
    &&& new.avail().len() == new.spec_num_descs()
    &&& new.avail()[(old.avail_idx() % old.spec_num_descs()) as int] == head
    &&& new.avail() == old.avail().update((old.avail_idx() % old.spec_num_descs()) as int, head)
    &&& new.chain_of(head) == old.free_list().take(bufs.len() as int)
    &&& new.free_list() == old.free_list().skip(bufs.len() as int)
    &&& chain_wf(new.desc_table(), new.spec_num_descs() as int, head, new.chain_of(head))
    &&& new.next_free() == old.desc_table()[old.free_list()[bufs.len() - 1] as int].next
    &&& forall|j: int|
        0 <= j < bufs.len() ==> new.desc_table()[#[trigger] old.free_list()[j] as int]
            == chained_desc(bufs[j], old.desc_table()[old.free_list()[j] as int], j == bufs.len() - 1)
}

impl VirtQueue {
    /// The head of the free list (meaningful while descriptors are free).
    pub closed spec fn next_free(&self) -> u16 {
        self.free_head
    }

    /// The free descriptors, in the order of the free list.
    pub closed spec fn free_list(&self) -> Seq<u16> {
        self.free_list@
    }

    /// The descriptors of the pending chain with head `h`, in chain order.
    pub closed spec fn chain_of(&self, h: u16) -> Seq<u16> {
        self.chains@[h]
    }

    /// The descriptor table.
    pub closed spec fn desc_table(&self) -> Seq<VirtqDesc> {
        self.descs@
    }

    /// Enqueues a request to the device. A request is a chain of descriptors
    /// (e.g. `struct virtio_blk_req` as defined in the spec).
    ///
    /// Once you've enqueued all requests, you need to notify the device.
    pub fn enqueue(&mut self, chain: &[VirtqDescBuffer]) -> (r: Result<(), Error>)
        requires
            old(self).wf(),
            chain.len() > 0,
            old(self).num_free() >= chain.len() ==> forall|i: int|
                0 <= i < chain.len() ==> (#[trigger] chain@[i])@.len <= u32::MAX,
        ensures
            old(self).num_free() < chain.len() ==> r == Err::<(), Error>(
                Error { errno: Errno::ENOMEM },
            ) && *final(self) == *old(self),
            old(self).num_free() >= chain.len() ==> r == Ok::<(), Error>(()) && enqueued(
                *old(self),
                *final(self),
                chain@.map_values(|b: VirtqDescBuffer| b@),
            ),
    {
        // Check if we have the enough number of free descriptors.
        if (self.num_free_descs as usize) < chain.len() {
            return Err(Error::new(Errno::ENOMEM));
        }
        let ghost old_q = *self;
        let ghost free = self.free_list@;
        let ghost n = self.num_descs as int;
        let ghost bufs = chain@.map_values(|b: VirtqDescBuffer| b@);
        let k = chain.len();
        let head_index = self.free_head;
        let mut desc_index = self.free_head;
        let mut unused_next: u16 = 0;
        let mut i: usize = 0;
        while i < k
            invariant
                old_q.wf(),
                free == old_q.free_list@,
                n == old_q.num_descs,
                bufs == chain@.map_values(|b: VirtqDescBuffer| b@),
                forall|j: int| 0 <= j < chain.len() ==> (#[trigger] chain@[j])@.len <= u32::MAX,
                k == chain.len(),
                0 < k <= free.len(),
                0 <= i <= k,
                head_index == free[0],
                i < k ==> desc_index == free[i as int],
                i == k ==> unused_next == old_q.descs@[free[k - 1] as int].next,
                self.descs.len() == n,
                self.num_descs == old_q.num_descs,
                self.index == old_q.index,
                self.free_head == old_q.free_head,
                self.num_free_descs == old_q.num_free_descs,
                self.last_used_index == old_q.last_used_index,
                self.avail_ring == old_q.avail_ring,
                self.avail_index == old_q.avail_index,
                self.free_list == old_q.free_list,
                self.chains == old_q.chains,
                forall|j: int|
                    0 <= j < i ==> self.descs@[#[trigger] free[j] as int] == chained_desc(
                        bufs[j],
                        old_q.descs@[free[j] as int],
                        j == k - 1,
                    ),
                forall|d: int|
                    0 <= d < n && !free.take(i as int).contains(d as u16) ==> #[trigger] self.descs@[d]
                        == old_q.descs@[d],
            decreases k - i,
        {
            let cur = desc_index;
            let old_desc = self.descs[cur as usize];
            let (addr, len, writable) = match &chain[i] {
                VirtqDescBuffer::ReadOnlyFromDevice { addr, len } => (*addr, *len, false),
                VirtqDescBuffer::WritableFromDevice { addr, len } => (*addr, *len, true),
            };
            assert(bufs[i as int] == chain@[i as int]@);
            let flags: u16 = if writable {
                VIRTQ_DESC_F_WRITE
            } else {
                0
            };
            let new_desc = if i == k - 1 {
                unused_next = old_desc.next;
                VirtqDesc { addr: addr.value() as u64, len: len as u32, flags, next: 0 }
            } else {
                desc_index = old_desc.next;
                VirtqDesc {
                    addr: addr.value() as u64,
                    len: len as u32,
                    flags: flags | VIRTQ_DESC_F_NEXT,
                    next: old_desc.next,
                }
            };
            proof {
                assert(old_desc == old_q.descs@[free[i as int] as int]);
                if i < k - 1 {
                    assert(old_q.descs@[free[i as int] as int].next == free[i + 1]);
                }
                assert(free.take(i + 1) == free.take(i as int).push(free[i as int]));
            }
            self.descs.set(cur as usize, new_desc);
            proof {
                assert forall|j: int| 0 <= j < i + 1 implies self.descs@[#[trigger] free[j] as int]
                    == chained_desc(bufs[j], old_q.descs@[free[j] as int], j == k - 1) by {
                    if j < i {
                        assert(free[j] != free[i as int]);
                    }
                }
                assert forall|d: int|
                    0 <= d < n && !free.take(i + 1).contains(d as u16) implies #[trigger] self.descs@[d]
                    == old_q.descs@[d] by {
                    assert(free.take(i + 1)[i as int] == free[i as int]);
                    if free.take(i as int).contains(d as u16) {
                        let w = choose|w: int| 0 <= w < i && free.take(i as int)[w] == d as u16;
                        assert(free.take(i + 1)[w] == d as u16);
                    }
                }
            }
            i += 1;
        }
        self.free_head = unused_next;
        self.num_free_descs = self.num_free_descs - k as u16;
        let avail_elem_index = self.avail_index % self.num_descs;
        self.avail_ring.set(avail_elem_index as usize, head_index);
        self.avail_index = self.avail_index.wrapping_add(1);
        proof {
            self.free_list@ = free.skip(k as int);
            self.chains@ = old_q.chains@.insert(head_index, free.take(k as int));
            assert forall|j: int| 0 <= j < k implies (#[trigger] bufs[j]).addr <= usize::MAX by {
                assert(bufs[j] == chain@[j]@);
                match chain@[j] {
                    VirtqDescBuffer::ReadOnlyFromDevice { addr, len } => crate::address::lemma_paddr_bound(addr),
                    VirtqDescBuffer::WritableFromDevice { addr, len } => crate::address::lemma_paddr_bound(addr),
                }
            }
            self.lemma_enqueue_wf(old_q, bufs, k as int);
            assert(self.chains@.dom().contains(head_index));
            assert(self.chain_of(head_index) == free.take(k as int));
            assert(chain_wf(self.descs@, n, head_index, self.chains@[head_index]));
            assert(bufs.len() == k);
        }
        Ok(())
    }

    proof fn lemma_enqueue_wf(&self, old_q: VirtQueue, bufs: Seq<BufferView>, k: int)
        requires
            old_q.wf(),
            0 < k <= old_q.free_list@.len(),
            bufs.len() == k,
            forall|j: int| 0 <= j < k ==> (#[trigger] bufs[j]).len <= u32::MAX,
            forall|j: int| 0 <= j < k ==> (#[trigger] bufs[j]).addr <= usize::MAX,
            self.num_descs == old_q.num_descs,
            self.index == old_q.index,
            self.last_used_index == old_q.last_used_index,
            self.descs.len() == old_q.num_descs,
            self.avail_ring.len() == old_q.num_descs,
            self.num_free_descs == old_q.num_free_descs - k,
            self.free_list@ == old_q.free_list@.skip(k),
            self.chains@ == old_q.chains@.insert(old_q.free_list@[0], old_q.free_list@.take(k)),
            self.free_head == old_q.descs@[old_q.free_list@[k - 1] as int].next,
            forall|j: int|
                0 <= j < k ==> self.descs@[#[trigger] old_q.free_list@[j] as int] == chained_desc(
                    bufs[j],
                    old_q.descs@[old_q.free_list@[j] as int],
                    j == k - 1,
                ),
            forall|d: int|
                0 <= d < old_q.num_descs && !old_q.free_list@.take(k).contains(d as u16)
                    ==> #[trigger] self.descs@[d] == old_q.descs@[d],
        ensures
            self.wf(),
            !old_q.pending().contains_key(old_q.free_list@[0]),
            self.pending() == old_q.pending().insert(old_q.free_list@[0], bufs),
    {
        let n = old_q.num_descs as int;
        let free = old_q.free_list@;
        let c = free.take(k);
        let nf = free.skip(k);
        let h = free[0];
        let chains = old_q.chains@;
        lemma_flag_bits();
        // Descriptors outside the new chain are untouched.
        assert forall|d: u16| d < n && !free.contains(d) implies self.descs@[d as int]
            == old_q.descs@[d as int] by {
            if c.contains(d) {
                let w = choose|w: int| 0 <= w < k && c[w] == d;
                assert(free[w] == d);
            }
        }
        assert forall|i: int| 0 <= i < nf.len() implies #[trigger] self.descs@[nf[i] as int]
            == old_q.descs@[nf[i] as int] by {
            assert(nf[i] == free[k + i]);
            if c.contains(nf[i]) {
                let w = choose|w: int| 0 <= w < k && c[w] == nf[i];
                assert(free[w] == free[k + i]);
            }
        }
        // The new free list.
        assert(nf.no_duplicates()) by {
            assert forall|i: int, j: int| 0 <= i < nf.len() && 0 <= j < nf.len() && i != j implies nf[i]
                != nf[j] by {
                assert(nf[i] == free[k + i] && nf[j] == free[k + j]);
            }
        }
        assert forall|i: int| 0 <= i < nf.len() - 1 implies (#[trigger] self.descs@[nf[i] as int]).next
            == nf[i + 1] by {
            assert(nf[i] == free[k + i] && nf[i + 1] == free[k + i + 1]);
            assert(old_q.descs@[free[k + i] as int].next == free[k + i + 1]);
        }
        if nf.len() > 0 {
            assert(old_q.descs@[free[k - 1] as int].next == free[k]);
        }
        // The head is not pending yet.
        if chains.dom().contains(h) {
            assert(chain_wf(old_q.descs@, n, h, chains[h]));
            assert(chains[h][0] == h);
            assert(!free.contains(chains[h][0]));
            assert(free[0] == h);
        }
        // The new chain is well formed.
        assert(c.no_duplicates()) by {
            assert forall|i: int, j: int| 0 <= i < c.len() && 0 <= j < c.len() && i != j implies c[i]
                != c[j] by {
                assert(c[i] == free[i] && c[j] == free[j]);
            }
        }
        assert forall|j: int| 0 <= j < c.len() - 1 implies (#[trigger] self.descs@[c[j] as int]).spec_has_next()
            && self.descs@[c[j] as int].next == c[j + 1] by {
            assert(c[j] == free[j] && c[j + 1] == free[j + 1]);
            assert(self.descs@[free[j] as int] == chained_desc(bufs[j], old_q.descs@[free[j] as int], false));
            assert(old_q.descs@[free[j] as int].next == free[j + 1]);
        }
        assert(!self.descs@[c[c.len() - 1] as int].spec_has_next()) by {
            assert(c[k - 1] == free[k - 1]);
            assert(self.descs@[free[k - 1] as int] == chained_desc(bufs[k - 1], old_q.descs@[free[k - 1] as int], true));
        }
        assert(chain_wf(self.descs@, n, h, c));
        // The old chains are untouched.
        assert forall|g: u16| #[trigger] chains.dom().contains(g) implies chain_wf(self.descs@, n, g, chains[g])
            && chains[g].map_values(|d: u16| desc_buffer(self.descs@[d as int])) == chains[g].map_values(
            |d: u16| desc_buffer(old_q.descs@[d as int]),
        ) by {
            let cg = chains[g];
            assert(chain_wf(old_q.descs@, n, g, cg));
            assert forall|j: int| 0 <= j < cg.len() implies self.descs@[#[trigger] cg[j] as int]
                == old_q.descs@[cg[j] as int] by {
                assert(!free.contains(cg[j]));
            }
            assert(cg.map_values(|d: u16| desc_buffer(self.descs@[d as int])) =~= cg.map_values(
                |d: u16| desc_buffer(old_q.descs@[d as int]),
            ));
        }
        let nchains = self.chains@;
        assert forall|g: u16| #[trigger] nchains.dom().contains(g) implies chain_wf(self.descs@, n, g, nchains[g]) by {
            if g != h {
                assert(chains.dom().contains(g));
            }
        }
        assert forall|g: u16, i: int|
            nchains.dom().contains(g) && 0 <= i < nchains[g].len() implies !nf.contains(
            #[trigger] nchains[g][i],
        ) by {
            if nf.contains(nchains[g][i]) {
                let w = choose|w: int| 0 <= w < nf.len() && nf[w] == nchains[g][i];
                assert(nf[w] == free[k + w]);
                if g == h {
                    assert(c[i] == free[i]);
                } else {
                    assert(chains.dom().contains(g));
                    assert(!free.contains(chains[g][i]));
                }
            }
        }
        assert forall|g1: u16, g2: u16, i: int, j: int|
            nchains.dom().contains(g1) && nchains.dom().contains(g2) && g1 != g2 && 0 <= i
                < nchains[g1].len() && 0 <= j < nchains[g2].len() implies #[trigger] nchains[g1][i]
            != #[trigger] nchains[g2][j] by {
            if g1 == h {
                assert(c[i] == free[i]);
                assert(chains.dom().contains(g2));
                assert(!free.contains(chains[g2][j]));
            } else if g2 == h {
                assert(c[j] == free[j]);
                assert(chains.dom().contains(g1));
                assert(!free.contains(chains[g1][i]));
            }
        }
        assert(self.wf());
        // The buffers of the new chain are those given.
        assert(c.map_values(|d: u16| desc_buffer(self.descs@[d as int])) =~= bufs) by {
            assert forall|j: int| 0 <= j < k implies desc_buffer(self.descs@[#[trigger] c[j] as int]) == bufs[j] by {
                assert(c[j] == free[j]);
                assert(self.descs@[free[j] as int] == chained_desc(bufs[j], old_q.descs@[free[j] as int], j == k - 1));
            }
        }
        assert(self.pending() =~= old_q.pending().insert(h, bufs));
    }
}

/// `new` is `old` after the chain with head `h`, made of the buffers `bufs`,
/// came back from the device: its descriptors are free again, in front of
/// the free list.
pub open spec fn popped(old: VirtQueue, new: VirtQueue, h: u16, bufs: Seq<BufferView>) -> bool {
    &&& new.wf()
    &&& new.queue_index() == old.queue_index()
    &&& new.spec_num_descs() == old.spec_num_descs()
    &&& new.avail() == old.avail()
    &&& new.avail_idx() == old.avail_idx()
    &&& old.pending().contains_key(h)
    &&& bufs == old.pending()[h]
    &&& new.pending() == old.pending().remove(h)
    &&& new.num_free() == old.num_free() + bufs.len()
    &&& new.next_free() == h
    &&& new.last_used() == wrapping_inc(old.last_used())
}

impl VirtQueue {
    /// Returns a chain of descriptors processed by the device.
    ///
    /// `used_index` is the index of the used ring as the device last wrote
    /// it, and `used_elem` the element of the used ring at the slot of
    /// `last_used_index`: the device returns only chains it was given.
    pub fn pop_used(&mut self, used_index: u16, used_elem: VirtqUsedElem) -> (r: Option<
        VirtqUsedChain,
    >)
        requires
            old(self).wf(),
            old(self).last_used() != used_index ==> old(self).pending().contains_key(
                used_elem.id as u16,
            ),
        ensures
            old(self).last_used() == used_index ==> r is None && *final(self) == *old(self),
            old(self).last_used() != used_index ==> (r matches Some(chain) && chain.total_len
                == used_elem.len && popped(
                *old(self),
                *final(self),
                used_elem.id as u16,
                chain.descs@.map_values(|b: VirtqDescBuffer| b@),
            )),
    {
        if self.last_used_index == used_index {
            return None;
        }
        let ghost old_q = *self;
        let head = used_elem;
        self.last_used_index = self.last_used_index.wrapping_add(1);
        let mut used_descs: Vec<VirtqDescBuffer> = Vec::new();
        let head_id = head.id as u16;
        let ghost c = self.chains@[head_id];
        let ghost n = self.num_descs as int;
        proof {
            assert(chain_wf(self.descs@, n, head_id, c));
            lemma_distinct_bounded_len(c, n);
        }
        let mut next_desc_index = head_id;
        let mut num_descs_in_chain: u16 = 1;
        let current_free_head = self.free_head;
        let ghost mut j: int = 0;
        loop
            invariant_except_break
                0 <= j < c.len(),
                next_desc_index == c[j],
                num_descs_in_chain == j + 1,
                self.descs@ == old_q.descs@,
                self.num_free_descs == old_q.num_free_descs,
                used_descs@.map_values(|b: VirtqDescBuffer| b@) == c.take(j).map_values(
                    |d: u16| desc_buffer(old_q.descs@[d as int]),
                ),
            invariant
                old_q.wf(),
                c == old_q.chains@[head_id],
                n == old_q.num_descs,
                chain_wf(old_q.descs@, n, head_id, c),
                c.len() <= n,
                old_q.chains@.dom().contains(head_id),
                self.num_descs == old_q.num_descs,
                self.index == old_q.index,
                self.last_used_index == wrapping_inc(old_q.last_used_index),
                self.avail_ring == old_q.avail_ring,
                self.avail_index == old_q.avail_index,
                self.free_list == old_q.free_list,
                self.chains == old_q.chains,
                current_free_head == old_q.free_head,
                self.descs.len() == n,
            ensures
                j == c.len() - 1,
                used_descs@.map_values(|b: VirtqDescBuffer| b@) == c.map_values(
                    |d: u16| desc_buffer(old_q.descs@[d as int]),
                ),
                self.free_head == head_id,
                self.num_free_descs == old_q.num_free_descs + c.len(),
                self.descs@ == old_q.descs@.update(
                    c[c.len() - 1] as int,
                    VirtqDesc { next: current_free_head, ..old_q.descs@[c[c.len() - 1] as int] },
                ),
            decreases c.len() - j,
        {
            let desc = self.descs[next_desc_index as usize];
            let buffer = if desc.is_writable() {
                VirtqDescBuffer::WritableFromDevice {
                    addr: PAddr::new(desc.addr as usize),
                    len: desc.len as usize,
                }
            } else {
                VirtqDescBuffer::ReadOnlyFromDevice {
                    addr: PAddr::new(desc.addr as usize),
                    len: desc.len as usize,
                }
            };
            let ghost prev_descs = used_descs@;
            used_descs.push(buffer);
            proof {
                assert(desc == old_q.descs@[c[j] as int]);
                assert(buffer@ == desc_buffer(desc));
                assert(c.take(j + 1) == c.take(j).push(c[j]));
                assert(used_descs@ == prev_descs.push(buffer));
                assert(prev_descs.map_values(|b: VirtqDescBuffer| b@).len() == prev_descs.len());
                assert(c.take(j).map_values(|d: u16| desc_buffer(old_q.descs@[d as int])).len() == j);
                assert(prev_descs.len() == j);
                assert forall|i: int| 0 <= i < j + 1 implies #[trigger] used_descs@[i]@ == desc_buffer(
                    old_q.descs@[c.take(j + 1)[i] as int],
                ) by {
                    if i < j {
                        assert(used_descs@[i] == prev_descs[i]);
                        assert(prev_descs.map_values(|b: VirtqDescBuffer| b@)[i] == c.take(j).map_values(
                            |d: u16| desc_buffer(old_q.descs@[d as int]),
                        )[i]);
                    }
                }
                assert(used_descs@.map_values(|b: VirtqDescBuffer| b@) =~= c.take(j + 1).map_values(
                    |d: u16| desc_buffer(old_q.descs@[d as int]),
                ));
            }
            if !desc.has_next() {
                // Prepend the popped chain into the free list.
                proof {
                    if j < c.len() - 1 {
                        assert(old_q.descs@[c[j] as int].spec_has_next());
                    }
                    assert(c.take(j + 1) =~= c);
                }
                self.descs.set(next_desc_index as usize, VirtqDesc { next: current_free_head, ..desc });
                self.free_head = head_id;
                proof {
                    assert forall|i: int| 0 <= i < (c + old_q.free_list@).len()
                        implies (#[trigger] (c + old_q.free_list@)[i]) < n by {
                        if i >= c.len() {
                            assert((c + old_q.free_list@)[i] == old_q.free_list@[i - c.len()]);
                        }
                    }
                    assert((c + old_q.free_list@).no_duplicates()) by {
                        assert forall|a: int, b: int|
                            0 <= a < (c + old_q.free_list@).len() && 0 <= b < (c
                                + old_q.free_list@).len() && a != b implies (c + old_q.free_list@)[a]
                            != (c + old_q.free_list@)[b] by {
                            if a < c.len() && b >= c.len() {
                                assert(!old_q.free_list@.contains(c[a]));
                                assert(old_q.free_list@[b - c.len()] == (c + old_q.free_list@)[b]);
                            } else if a >= c.len() && b < c.len() {
                                assert(!old_q.free_list@.contains(c[b]));
                                assert(old_q.free_list@[a - c.len()] == (c + old_q.free_list@)[a]);
                            }
                        }
                    }
                    lemma_distinct_bounded_len(c + old_q.free_list@, n);
                    assert(old_q.free_list@.len() == old_q.num_free_descs);
                    assert(num_descs_in_chain == c.len());
                }
                self.num_free_descs = self.num_free_descs + num_descs_in_chain;
                break;
            }
            proof {
                assert(j < c.len() - 1);
            }
            next_desc_index = desc.next;
            num_descs_in_chain += 1;
            proof {
                j = j + 1;
            }
        }
        proof {
            self.free_list@ = c + old_q.free_list@;
            self.chains@ = old_q.chains@.remove(head_id);
            self.lemma_pop_wf(old_q, head_id, current_free_head);
        }
        Some(VirtqUsedChain { total_len: head.len as usize, descs: used_descs })
    }

    proof fn lemma_pop_wf(&self, old_q: VirtQueue, h: u16, old_head: u16)
        requires
            old_q.wf(),
            old_q.chains@.dom().contains(h),
            old_head == old_q.free_head,
            self.num_descs == old_q.num_descs,
            self.index == old_q.index,
            self.avail_ring == old_q.avail_ring,
            self.avail_index == old_q.avail_index,
            self.descs@ == old_q.descs@.update(
                old_q.chains@[h][old_q.chains@[h].len() - 1] as int,
                VirtqDesc {
                    next: old_head,
                    ..old_q.descs@[old_q.chains@[h][old_q.chains@[h].len() - 1] as int]
                },
            ),
            self.free_head == h,
            self.num_free_descs == old_q.num_free_descs + old_q.chains@[h].len(),
            self.free_list@ == old_q.chains@[h] + old_q.free_list@,
            self.chains@ == old_q.chains@.remove(h),
        ensures
            self.wf(),
            self.pending() == old_q.pending().remove(h),
    {
        let n = old_q.num_descs as int;
        let c = old_q.chains@[h];
        let free = old_q.free_list@;
        let nf = c + free;
        let last = c[c.len() - 1];
        assert(chain_wf(old_q.descs@, n, h, c));
        assert(self.descs@[last as int].spec_has_next() == old_q.descs@[last as int].spec_has_next());
        assert(nf.no_duplicates()) by {
            assert forall|a: int, b: int| 0 <= a < nf.len() && 0 <= b < nf.len() && a != b implies nf[a]
                != nf[b] by {
                if a < c.len() && b >= c.len() {
                    assert(!free.contains(c[a]));
                    assert(free[b - c.len()] == nf[b]);
                } else if a >= c.len() && b < c.len() {
                    assert(!free.contains(c[b]));
                    assert(free[a - c.len()] == nf[a]);
                } else if a >= c.len() && b >= c.len() {
                    assert(free[a - c.len()] == nf[a]);
                    assert(free[b - c.len()] == nf[b]);
                }
            }
        }
        assert forall|i: int| 0 <= i < nf.len() implies (#[trigger] nf[i]) < n by {
            if i >= c.len() {
                assert(nf[i] == free[i - c.len()]);
            }
        }
        assert forall|i: int| 0 <= i < nf.len() - 1 implies (#[trigger] self.descs@[nf[i] as int]).next
            == nf[i + 1] by {
            if i < c.len() - 1 {
                assert(nf[i] == c[i] && nf[i + 1] == c[i + 1]);
                assert(c[i] != last);
            } else if i == c.len() - 1 {
                assert(nf[i + 1] == free[0]);
            } else {
                assert(nf[i] == free[i - c.len()] && nf[i + 1] == free[i - c.len() + 1]);
                assert(!free.contains(last));
                assert(free[i - c.len()] != last);
            }
        }
        let nchains = self.chains@;
        assert forall|g: u16| #[trigger] nchains.dom().contains(g) implies chain_wf(self.descs@, n, g, nchains[g])
            && nchains[g].map_values(|d: u16| desc_buffer(self.descs@[d as int])) == old_q.chains@[g].map_values(
            |d: u16| desc_buffer(old_q.descs@[d as int]),
        ) by {
            let cg = old_q.chains@[g];
            assert(chain_wf(old_q.descs@, n, g, cg));
            assert forall|j: int| 0 <= j < cg.len() implies self.descs@[#[trigger] cg[j] as int]
                == old_q.descs@[cg[j] as int] by {
                assert(cg[j] != c[c.len() - 1]);
            }
            assert(nchains[g].map_values(|d: u16| desc_buffer(self.descs@[d as int])) =~= cg.map_values(
                |d: u16| desc_buffer(old_q.descs@[d as int]),
            ));
        }
        assert forall|g: u16, i: int|
            nchains.dom().contains(g) && 0 <= i < nchains[g].len() implies !nf.contains(
            #[trigger] nchains[g][i],
        ) by {
            if nf.contains(nchains[g][i]) {
                let w = choose|w: int| 0 <= w < nf.len() && nf[w] == nchains[g][i];
                if w < c.len() {
                    assert(nf[w] == c[w]);
                } else {
                    assert(nf[w] == free[w - c.len()]);
                }
            }
        }
        assert(self.wf());
        assert(self.pending() =~= old_q.pending().remove(h));
    }
}

/// The chain that the device hands back is the chain that was enqueued, and
/// once it is back the queue holds as many free descriptors, and the same
/// pending chains, as before the request.
pub proof fn lemma_enqueue_then_pop(
    q0: VirtQueue,
    q1: VirtQueue,
    q2: VirtQueue,
    bufs: Seq<BufferView>,
    returned: Seq<BufferView>,
)
    requires
        enqueued(q0, q1, bufs),
        popped(q1, q2, q0.next_free(), returned),
    ensures
        returned == bufs,
        q2.num_free() == q0.num_free(),
        q2.pending() == q0.pending(),
        q2.next_free() == q0.next_free(),
{
    assert(q2.pending() =~= q0.pending());
}

/// A queue never has more free descriptors than descriptors.
pub proof fn lemma_free_bounded(q: VirtQueue)
    requires
        q.wf(),
    ensures
        q.num_free() <= q.spec_num_descs(),
{
    q.lemma_free_bounded_inner();
}

/// The available ring of a queue has one slot per descriptor.
pub proof fn lemma_avail_len(q: VirtQueue)
    requires
        q.wf(),
    ensures
        q.avail().len() == q.spec_num_descs(),
{
}

impl VirtQueue {
    proof fn lemma_free_bounded_inner(&self)
        requires
            self.wf(),
        ensures
            self.num_free() <= self.spec_num_descs(),
    {
        lemma_distinct_bounded_len(self.free_list@, self.num_descs as int);
    }
}

/// The device status with `bit` set.
pub fn status_with(status: u8, bit: u8) -> (r: u8)
    ensures
        r == status | bit,
{
    status | bit
}

/// The device must offer every feature the driver needs (`EINVAL`
/// otherwise).
pub fn check_device_features(device_features: u32, features: u32) -> (r: Result<(), Error>)
    ensures
        (device_features & features) == features ==> r == Ok::<(), Error>(()),
        (device_features & features) != features ==> r == Err::<(), Error>(
            Error { errno: Errno::EINVAL },
        ),
{
    if (device_features & features) != features {
        return Err(Error::new(Errno::EINVAL));
    }
    Ok(())
}

/// The device must keep `FEATURES_OK` set once the driver wrote the features
/// (`EINVAL` otherwise).
pub fn check_features_ok(device_status: u8) -> (r: Result<(), Error>)
    ensures
        (device_status & VIRTIO_STATUS_FEAT_OK) != 0 ==> r == Ok::<(), Error>(()),
        (device_status & VIRTIO_STATUS_FEAT_OK) == 0 ==> r == Err::<(), Error>(
            Error { errno: Errno::EINVAL },
        ),
{
    if (device_status & VIRTIO_STATUS_FEAT_OK) == 0 {
        return Err(Error::new(Errno::EINVAL));
    }
    Ok(())
}

/// Interrupt status bits of a virtio device.
#[derive(Clone, Copy, Debug, PartialEq, Eq, Structural)]
pub struct IsrStatus {
    bits: u8,
}

pub const ISR_QUEUE_INTR: u8 = 1;
pub const ISR_DEVICE_CONFIG_INTR: u8 = 2;

impl IsrStatus {
    pub closed spec fn view(self) -> u8 {
        self.bits
    }

    /// The status for `bits`, if it has no unknown bits.
    pub fn from_bits(bits: u8) -> (r: Option<IsrStatus>)
        ensures
            (bits & !3u8) == 0 ==> (r matches Some(s) && s@ == bits),
            (bits & !3u8) != 0 ==> r is None,
    {
        if bits & !3u8 == 0 {
            Some(IsrStatus { bits })
        } else {
            None
        }
    }

    /// The status for `bits`, which hold no bit but the known ones.
    pub fn decode(bits: u8) -> (r: IsrStatus)
        requires
            bits & !3u8 == 0,
        ensures
            r@ == bits,
            r.contains_spec(ISR_QUEUE_INTR) == (bits & 1 != 0),
            r.contains_spec(ISR_DEVICE_CONFIG_INTR) == (bits & 2 != 0),
    {
        assert((bits & 1 == 1) == (bits & 1 != 0)) by (bit_vector);
        assert((bits & 2 == 2) == (bits & 2 != 0)) by (bit_vector);
        IsrStatus { bits }
    }

    /// Whether every bit of `flag` is set.
    pub open spec fn contains_spec(self, flag: u8) -> bool {
        self@ & flag == flag
    }

    pub fn contains(&self, flag: u8) -> (r: bool)
        ensures
            r == self.contains_spec(flag),
    {
        self.bits & flag == flag
    }
}

/// A virtio device: its virtqueues.
pub struct Virtio {
    virtqueues: Vec<VirtQueue>,
}

impl Virtio {
    pub closed spec fn view(&self) -> Seq<VirtQueue> {
        self.virtqueues@
    }

    pub fn new() -> (r: Virtio)
        ensures
            r@.len() == 0,
    {
        Virtio { virtqueues: Vec::new() }
    }

    /// Creates the virtqueues, the `i`-th of `queue_sizes[i]` descriptors.
    pub fn init_virtqueues(&mut self, queue_sizes: &[u16])
        requires
            queue_sizes.len() <= u16::MAX,
        ensures
            final(self)@.len() == queue_sizes.len(),
            forall|i: int|
                0 <= i < queue_sizes.len() ==> {
                    let q = #[trigger] final(self)@[i];
                    &&& q.wf()
                    &&& q.queue_index() == i
                    &&& q.spec_num_descs() == queue_sizes@[i]
                    &&& q.num_free() == queue_sizes@[i]
                    &&& q.pending() == Map::<u16, Seq<BufferView>>::empty()
                },
    {
        let mut virtqueues: Vec<VirtQueue> = Vec::new();
        let mut index: usize = 0;
        while index < queue_sizes.len()
            invariant
                index <= queue_sizes.len() <= u16::MAX,
                virtqueues.len() == index,
                forall|i: int|
                    0 <= i < index ==> {
                        let q = #[trigger] virtqueues@[i];
                        &&& q.wf()
                        &&& q.queue_index() == i
                        &&& q.spec_num_descs() == queue_sizes@[i]
                        &&& q.num_free() == queue_sizes@[i]
                        &&& q.pending() == Map::<u16, Seq<BufferView>>::empty()
                    },
            decreases queue_sizes.len() - index,
        {
            virtqueues.push(VirtQueue::new(index as u16, queue_sizes[index]));
            index += 1;
        }
        self.virtqueues = virtqueues;
    }

    /// Returns the `i`-th virtqueue.
    pub fn virtq(&self, i: u16) -> (r: &VirtQueue)
        requires
            i < self@.len(),
        ensures
            *r == self@[i as int],
    {
        &self.virtqueues[i as usize]
    }

    /// Returns the `i`-th virtqueue, to enqueue into it.
    pub fn virtq_mut(&mut self, i: u16) -> (r: &mut VirtQueue)
        requires
            i < old(self)@.len(),
        ensures
            *r == old(self)@[i as int],
            final(self)@ == old(self)@.update(i as int, *final(r)),
    {
        &mut self.virtqueues[i as usize]
    }
}

/// A register access or other outside step that the driver asks for.
#[derive(Clone, Copy, Debug, PartialEq, Eq, Structural)]
pub enum VirtioIo {
    Write8 { reg: u16, value: u8 },
    Write16 { reg: u16, value: u16 },
    Write32 { reg: u16, value: u32 },
    /// Read a byte register; its value is the next input.
    Read8 { reg: u16 },
    /// Read a 16-bit register; its value is the next input.
    Read16 { reg: u16 },
    /// Read a 32-bit register; its value is the next input.
    Read32 { reg: u16 },
    /// Allocate zeroed memory for virtqueue `index` of `num_descs`
    /// descriptors (see `virtq_layout`) and write its page number to
    /// `VIRTIO_REG_QUEUE_ADDR_PFN`.
    SetUpQueue { index: u16, num_descs: u16 },
    /// The initialization is over and succeeded.
    Done,
    /// The initialization is over and failed with `error`.
    Failed { error: Error },
}

impl VirtQueue {
    /// The register write that notifies the device of new descriptors in
    /// this queue.
    pub fn notify(&self) -> (r: VirtioIo)
        ensures
            r == (VirtioIo::Write16 { reg: VIRTIO_REG_QUEUE_NOTIFY, value: self.queue_index() }),
    {
        VirtioIo::Write16 { reg: VIRTIO_REG_QUEUE_NOTIFY, value: self.index }
    }
}

impl Virtio {
    /// The register read that gives the byte at `offset` of the device
    /// configuration.
    pub fn read_device_config8(&self, offset: u16) -> (r: VirtioIo)
        requires
            VIRTIO_REG_DEVICE_CONFIG_BASE + offset <= u16::MAX,
        ensures
            r == (VirtioIo::Read8 { reg: (VIRTIO_REG_DEVICE_CONFIG_BASE + offset) as u16 }),
    {
        VirtioIo::Read8 { reg: VIRTIO_REG_DEVICE_CONFIG_BASE + offset }
    }

    /// The register read that gives the interrupt status (see
    /// `IsrStatus::from_bits`).
    pub fn read_isr_status(&self) -> (r: VirtioIo)
        ensures
            r == (VirtioIo::Read8 { reg: VIRTIO_REG_ISR_STATUS }),
    {
        VirtioIo::Read8 { reg: VIRTIO_REG_ISR_STATUS }
    }
}

/// Where the initialization of a device stands ("3.1.1 Driver Requirements:
/// Device Initialization").
#[derive(Clone, Copy, Debug, PartialEq, Eq, Structural)]
pub enum InitState {
    /// Nothing done yet: the device is reset next.
    Start,
    /// The status is read, to set `ACKNOWLEDGE`.
    ReadStatusForAck,
    SetAck,
    /// The status is read, to set `DRIVER`.
    ReadStatusForDriver,
    SetDriver,
    /// The device's features are read.
    ReadFeatures,
    CheckFeatures,
    /// The status is read, to set `FEATURES_OK`.
    ReadStatusForFeatOk,
    SetFeatOk,
    /// The status is read back, to see that `FEATURES_OK` stuck.
    ReadStatusAfterFeatOk,
    CheckFeatOk,
    /// Virtqueue `i` is selected next.
    SelectQueue(u16),
    /// The size of the selected virtqueue `i` is read.
    ReadQueueSize(u16),
    /// Virtqueue `i` is set up with the size that was read.
    SetUpQueue(u16),
    /// The status is read, to set `DRIVER_OK`.
    ReadStatusForDriverOk,
    SetDriverOk,
    /// Over.
    Finished,
}

/// The step after `state` on `input` (the value of the last read), for a
/// driver that needs `features` and `num_virtqueues` queues: the next state,
/// and the access to make.
pub open spec fn init_step(state: InitState, features: u32, num_virtqueues: u16, input: u32) -> (
    InitState,
    VirtioIo,
) {
    match state {
        InitState::Start => (InitState::ReadStatusForAck, VirtioIo::Write8 { reg: VIRTIO_REG_DEVICE_STATUS, value: 0 }),
        InitState::ReadStatusForAck => (InitState::SetAck, VirtioIo::Read8 { reg: VIRTIO_REG_DEVICE_STATUS }),
        InitState::SetAck => (InitState::ReadStatusForDriver, VirtioIo::Write8 { reg: VIRTIO_REG_DEVICE_STATUS, value: (input as u8) | VIRTIO_STATUS_ACK }),
        InitState::ReadStatusForDriver => (InitState::SetDriver, VirtioIo::Read8 { reg: VIRTIO_REG_DEVICE_STATUS }),
        InitState::SetDriver => (InitState::ReadFeatures, VirtioIo::Write8 { reg: VIRTIO_REG_DEVICE_STATUS, value: (input as u8) | VIRTIO_STATUS_DRIVER }),
        InitState::ReadFeatures => (InitState::CheckFeatures, VirtioIo::Read32 { reg: VIRTIO_REG_DEVICE_FEATS }),
        InitState::CheckFeatures => if input & features != features {
            (InitState::Finished, VirtioIo::Failed { error: Error { errno: Errno::EINVAL } })
        } else {
            (InitState::ReadStatusForFeatOk, VirtioIo::Write32 { reg: VIRTIO_REG_DRIVER_FEATS, value: features })
        },
        InitState::ReadStatusForFeatOk => (InitState::SetFeatOk, VirtioIo::Read8 { reg: VIRTIO_REG_DEVICE_STATUS }),
        InitState::SetFeatOk => (InitState::ReadStatusAfterFeatOk, VirtioIo::Write8 { reg: VIRTIO_REG_DEVICE_STATUS, value: (input as u8) | VIRTIO_STATUS_FEAT_OK }),
        InitState::ReadStatusAfterFeatOk => (InitState::CheckFeatOk, VirtioIo::Read8 { reg: VIRTIO_REG_DEVICE_STATUS }),
        InitState::CheckFeatOk => if (input as u8) & VIRTIO_STATUS_FEAT_OK == 0 {
            (InitState::Finished, VirtioIo::Failed { error: Error { errno: Errno::EINVAL } })
        } else if num_virtqueues == 0 {
            (InitState::SetDriverOk, VirtioIo::Read8 { reg: VIRTIO_REG_DEVICE_STATUS })
        } else {
            (InitState::ReadQueueSize(0), VirtioIo::Write16 { reg: VIRTIO_REG_QUEUE_SELECT, value: 0 })
        },
        InitState::SelectQueue(i) => (InitState::ReadQueueSize(i), VirtioIo::Write16 { reg: VIRTIO_REG_QUEUE_SELECT, value: i }),
        InitState::ReadQueueSize(i) => (InitState::SetUpQueue(i), VirtioIo::Read16 { reg: VIRTIO_REG_NUM_DESCS }),
        InitState::SetUpQueue(i) => (
            if i + 1 < num_virtqueues { InitState::SelectQueue((i + 1) as u16) } else { InitState::ReadStatusForDriverOk },
            VirtioIo::SetUpQueue { index: i, num_descs: input as u16 },
        ),
        InitState::ReadStatusForDriverOk => (InitState::SetDriverOk, VirtioIo::Read8 { reg: VIRTIO_REG_DEVICE_STATUS }),
        InitState::SetDriverOk => (InitState::Finished, VirtioIo::Write8 { reg: VIRTIO_REG_DEVICE_STATUS, value: (input as u8) | VIRTIO_STATUS_DRIVER_OK }),
        InitState::Finished => (InitState::Finished, VirtioIo::Done),
    }
}

/// The initialization of a virtio device, driven one access at a time.
pub struct VirtioInit {
    features: u32,
    num_virtqueues: u16,
    state: InitState,
    queue_sizes: Vec<u16>,
}

impl VirtioInit {
    pub closed spec fn spec_state(&self) -> InitState {
        self.state
    }

    pub closed spec fn spec_features(&self) -> u32 {
        self.features
    }

    pub closed spec fn spec_num_virtqueues(&self) -> u16 {
        self.num_virtqueues
    }

    /// The sizes of the queues set up so far.
    pub closed spec fn spec_queue_sizes(&self) -> Seq<u16> {
        self.queue_sizes@
    }

    pub open spec fn wf(&self) -> bool {
        match self.spec_state() {
            InitState::SelectQueue(i) => i == self.spec_queue_sizes().len() && i < self.spec_num_virtqueues(),
            InitState::ReadQueueSize(i) => i == self.spec_queue_sizes().len() && i < self.spec_num_virtqueues(),
            InitState::SetUpQueue(i) => i == self.spec_queue_sizes().len() && i < self.spec_num_virtqueues(),
            InitState::ReadStatusForDriverOk => self.spec_queue_sizes().len() == self.spec_num_virtqueues(),
            InitState::SetDriverOk => self.spec_queue_sizes().len() == self.spec_num_virtqueues(),
            InitState::Finished => true,
            _ => self.spec_queue_sizes().len() == 0,
        }
    }
}

impl Virtio {
    /// Starts the initialization of the device for a driver that needs
    /// `features` and `num_virtqueues` virtqueues. It aborts with `EINVAL` if
    /// any of the features is not supported. Drive it with `VirtioInit::step`.
    pub fn initialize(&self, features: u32, num_virtqueues: u16) -> (r: VirtioInit)
        ensures
            r.wf(),
            r.spec_state() == InitState::Start,
            r.spec_features() == features,
            r.spec_num_virtqueues() == num_virtqueues,
            r.spec_queue_sizes().len() == 0,
    {
        VirtioInit { features, num_virtqueues, state: InitState::Start, queue_sizes: Vec::new() }
    }
}

impl VirtioInit {
    /// The next access of the initialization, given `input`, the value of
    /// the last read (ignored after a write). When the device accepts the
    /// `DRIVER_OK` status, `virtio` gets one virtqueue per size read.
    pub fn step(&mut self, virtio: &mut Virtio, input: u32) -> (r: VirtioIo)
        requires
            old(self).wf(),
        ensures
            final(self).wf(),
            final(self).spec_features() == old(self).spec_features(),
            final(self).spec_num_virtqueues() == old(self).spec_num_virtqueues(),
            (final(self).spec_state(), r) == init_step(
                old(self).spec_state(),
                old(self).spec_features(),
                old(self).spec_num_virtqueues(),
                input,
            ),
            old(self).spec_state() matches InitState::SetUpQueue(_) ==> final(self).spec_queue_sizes()
                == old(self).spec_queue_sizes().push(input as u16),
            !(old(self).spec_state() matches InitState::SetUpQueue(_)) ==> final(self).spec_queue_sizes()
                == old(self).spec_queue_sizes(),
            old(self).spec_state() == InitState::SetDriverOk ==> {
                &&& final(virtio)@.len() == old(self).spec_queue_sizes().len()
                &&& forall|i: int|
                    0 <= i < old(self).spec_queue_sizes().len() ==> {
                        let q = #[trigger] final(virtio)@[i];
                        &&& q.wf()
                        &&& q.queue_index() == i
                        &&& q.spec_num_descs() == old(self).spec_queue_sizes()[i]
                        &&& q.num_free() == old(self).spec_queue_sizes()[i]
                        &&& q.pending() == Map::<u16, Seq<BufferView>>::empty()
                    }
            },
            old(self).spec_state() != InitState::SetDriverOk ==> final(virtio)@ == old(virtio)@,
    {
        match self.state {
            InitState::Start => {
                self.state = InitState::ReadStatusForAck;
                VirtioIo::Write8 { reg: VIRTIO_REG_DEVICE_STATUS, value: 0 }
            },
            InitState::ReadStatusForAck => {
                self.state = InitState::SetAck;
                VirtioIo::Read8 { reg: VIRTIO_REG_DEVICE_STATUS }
            },
            InitState::SetAck => {
                self.state = InitState::ReadStatusForDriver;
                VirtioIo::Write8 { reg: VIRTIO_REG_DEVICE_STATUS, value: status_with(input as u8, VIRTIO_STATUS_ACK) }
            },
            InitState::ReadStatusForDriver => {
                self.state = InitState::SetDriver;
                VirtioIo::Read8 { reg: VIRTIO_REG_DEVICE_STATUS }
            },
            InitState::SetDriver => {
                self.state = InitState::ReadFeatures;
                VirtioIo::Write8 { reg: VIRTIO_REG_DEVICE_STATUS, value: status_with(input as u8, VIRTIO_STATUS_DRIVER) }
            },
            InitState::ReadFeatures => {
                self.state = InitState::CheckFeatures;
                VirtioIo::Read32 { reg: VIRTIO_REG_DEVICE_FEATS }
            },
            InitState::CheckFeatures => match check_device_features(input, self.features) {
                Err(e) => {
                    self.state = InitState::Finished;
                    VirtioIo::Failed { error: e }
                },
                Ok(()) => {
                    self.state = InitState::ReadStatusForFeatOk;
                    VirtioIo::Write32 { reg: VIRTIO_REG_DRIVER_FEATS, value: self.features }
                },
            },
            InitState::ReadStatusForFeatOk => {
                self.state = InitState::SetFeatOk;
                VirtioIo::Read8 { reg: VIRTIO_REG_DEVICE_STATUS }
            },
            InitState::SetFeatOk => {
                self.state = InitState::ReadStatusAfterFeatOk;
                VirtioIo::Write8 { reg: VIRTIO_REG_DEVICE_STATUS, value: status_with(input as u8, VIRTIO_STATUS_FEAT_OK) }
            },
            InitState::ReadStatusAfterFeatOk => {
                self.state = InitState::CheckFeatOk;
                VirtioIo::Read8 { reg: VIRTIO_REG_DEVICE_STATUS }
            },
            InitState::CheckFeatOk => match check_features_ok(input as u8) {
                Err(e) => {
                    self.state = InitState::Finished;
                    VirtioIo::Failed { error: e }
                },
                Ok(()) => {
                    if self.num_virtqueues == 0 {
                        self.state = InitState::SetDriverOk;
                        VirtioIo::Read8 { reg: VIRTIO_REG_DEVICE_STATUS }
                    } else {
                        self.state = InitState::ReadQueueSize(0);
                        VirtioIo::Write16 { reg: VIRTIO_REG_QUEUE_SELECT, value: 0 }
                    }
                },
            },
            InitState::SelectQueue(i) => {
                self.state = InitState::ReadQueueSize(i);
                VirtioIo::Write16 { reg: VIRTIO_REG_QUEUE_SELECT, value: i }
            },
            InitState::ReadQueueSize(i) => {
                self.state = InitState::SetUpQueue(i);
                VirtioIo::Read16 { reg: VIRTIO_REG_NUM_DESCS }
            },
            InitState::SetUpQueue(i) => {
                self.queue_sizes.push(input as u16);
                if i + 1 < self.num_virtqueues {
                    self.state = InitState::SelectQueue(i + 1);
                } else {
                    self.state = InitState::ReadStatusForDriverOk;
                }
                VirtioIo::SetUpQueue { index: i, num_descs: input as u16 }
            },
            InitState::ReadStatusForDriverOk => {
                self.state = InitState::SetDriverOk;
                VirtioIo::Read8 { reg: VIRTIO_REG_DEVICE_STATUS }
            },
            InitState::SetDriverOk => {
                virtio.init_virtqueues(self.queue_sizes.as_slice());
                self.state = InitState::Finished;
                VirtioIo::Write8 { reg: VIRTIO_REG_DEVICE_STATUS, value: status_with(input as u8, VIRTIO_STATUS_DRIVER_OK) }
            },
            InitState::Finished => VirtioIo::Done,
        }
    }
}

/// The flag bits that descriptors carry.
pub proof fn lemma_flag_bits()
    ensures
        0u16 & VIRTQ_DESC_F_NEXT == 0,
        VIRTQ_DESC_F_WRITE & VIRTQ_DESC_F_NEXT == 0,
        0u16 & VIRTQ_DESC_F_WRITE == 0,
        VIRTQ_DESC_F_WRITE & VIRTQ_DESC_F_WRITE != 0,
        (0u16 | VIRTQ_DESC_F_NEXT) & VIRTQ_DESC_F_NEXT != 0,
        (VIRTQ_DESC_F_WRITE | VIRTQ_DESC_F_NEXT) & VIRTQ_DESC_F_NEXT != 0,
        (0u16 | VIRTQ_DESC_F_NEXT) & VIRTQ_DESC_F_WRITE == 0,
        (VIRTQ_DESC_F_WRITE | VIRTQ_DESC_F_NEXT) & VIRTQ_DESC_F_WRITE != 0,
{
    assert(0u16 & 1u16 == 0) by (bit_vector);
    assert(2u16 & 1u16 == 0) by (bit_vector);
    assert(0u16 & 2u16 == 0) by (bit_vector);
    assert(2u16 & 2u16 != 0) by (bit_vector);
    assert((0u16 | 1u16) & 1u16 != 0) by (bit_vector);
    assert((2u16 | 1u16) & 1u16 != 0) by (bit_vector);
    assert((0u16 | 1u16) & 2u16 == 0) by (bit_vector);
    assert((2u16 | 1u16) & 2u16 != 0) by (bit_vector);
}

/// A sequence without duplicates of numbers below `n` has at most `n` elements.
pub proof fn lemma_distinct_bounded_len(s: Seq<u16>, n: int)
    requires
        s.no_duplicates(),
        forall|i: int| 0 <= i < s.len() ==> (#[trigger] s[i]) < n,
        n >= 0,
    ensures
        s.len() <= n,
{
    let bound = Set::new(|x: u16| x < n);
    assert(bound =~= vstd::set_lib::set_int_range(0, n).map(|i: int| i as u16)) by {
        assert forall|x: u16| bound.contains(x) implies vstd::set_lib::set_int_range(0, n).map(
            |i: int| i as u16,
        ).contains(x) by {
            assert(vstd::set_lib::set_int_range(0, n).contains(x as int));
        }
    }
    vstd::set_lib::lemma_int_range(0, n);
    vstd::set_lib::lemma_map_size_bound(
        vstd::set_lib::set_int_range(0, n),
        bound,
        |i: int| i as u16,
    );
    s.unique_seq_to_set();
    assert(s.to_set().subset_of(bound));
    vstd::set_lib::lemma_len_subset(s.to_set(), bound);
}

} // verus!
