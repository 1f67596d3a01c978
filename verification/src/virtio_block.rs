//! The virtio block drivers: the request header they write, the buffers they
//! set aside and the requests they queue.
use vstd::prelude::*;
use crate::address::{KERNEL_BASE_ADDR, VAddr, pages_for, pages_for_bytes};
use crate::result::{Errno, Error};
use crate::virtio::{BufferView, Virtio, VirtQueue, VirtqDescBuffer, VirtqUsedElem, enqueued, popped};

verus! {

/// The device feature bit: the device reports its capacity.
pub const VIRTIO_BLK_F_SIZE: u64 = 1 << 6;

/// The index of the request queue.
pub const VIRTIO_REQUEST_QUEUE: u16 = 0;

/// The size of a block, and of each request slot.
pub const MAX_BLK_SIZE: usize = 512;

/// The size of a request header (`struct virtio_blk_req` up to its data).
pub const BLOCK_REQUEST_HEADER_LEN: usize = 16;

/// The offset of the capacity (in sectors) in the device configuration.
pub const VIRTIO_BLK_CONFIG_CAPACITY: u16 = 0;

/// The kind of a block request.
#[derive(Clone, Copy, Debug, PartialEq, Eq, Structural)]
pub enum RequestType {
    Read,
    Write,
}

impl RequestType {
    pub open spec fn spec_code(self) -> u32 {
        match self {
            RequestType::Read => 0,
            RequestType::Write => 1,
        }
    }

    /// The request's code in the request header.
    pub fn code(&self) -> (r: u32)
        ensures
            r == self.spec_code(),
    {
        match self {
            RequestType::Read => 0,
            RequestType::Write => 1,
        }
    }
}

/// The `n` low bytes of `x`, least significant first.
pub open spec fn le_bytes(x: nat, n: nat) -> Seq<u8>
    decreases n,
{
    if n == 0 {
        Seq::empty()
    } else {
        seq![(x % 256) as u8] + le_bytes(x / 256, (n - 1) as nat)
    }
}

/// Appends the `n` low bytes of `x` to `out`, least significant first.
fn push_le_bytes(out: &mut Vec<u8>, x: u64, n: usize)
    ensures
        final(out)@ == old(out)@ + le_bytes(x as nat, n as nat),
    decreases n,
{
    if n == 0 {
        assert(old(out)@ + le_bytes(x as nat, 0) =~= old(out)@);
        return ;
    }
    out.push((x % 256) as u8);
    let ghost mid = out@;
    push_le_bytes(out, x / 256, n - 1);
    assert(final(out)@ =~= old(out)@ + le_bytes(x as nat, n as nat)) by {
        assert(mid == old(out)@ + seq![(x % 256) as u8]);
    }
}

/// The header of a block request (`struct virtio_blk_req`).
#[derive(Clone, Copy, Debug, PartialEq, Eq, Structural)]
pub struct VirtioBlockRequest {
    pub type_: u32,
    pub reserved: u32,
    pub sector: u64,
}

impl VirtioBlockRequest {
    /// The header as the device reads it: packed, little-endian.
    pub open spec fn spec_bytes(self) -> Seq<u8> {
        le_bytes(self.type_ as nat, 4) + le_bytes(self.reserved as nat, 4) + le_bytes(
            self.sector as nat,
            8,
        )
    }

    /// The header's bytes.
    pub fn to_bytes(&self) -> (r: Vec<u8>)
        ensures
            r@ == self.spec_bytes(),
            r@.len() == BLOCK_REQUEST_HEADER_LEN,
    {
        let mut out: Vec<u8> = Vec::new();
        push_le_bytes(&mut out, self.type_ as u64, 4);
        push_le_bytes(&mut out, self.reserved as u64, 4);
        push_le_bytes(&mut out, self.sector, 8);
        proof {
            lemma_le_bytes_len(self.type_ as nat, 4);
            lemma_le_bytes_len(self.reserved as nat, 4);
            lemma_le_bytes_len(self.sector as nat, 8);
            assert(out@ =~= self.spec_bytes());
        }
        out
    }
}

/// `le_bytes(x, n)` has `n` bytes.
pub proof fn lemma_le_bytes_len(x: nat, n: nat)
    ensures
        le_bytes(x, n).len() == n,
    decreases n,
{
    if n > 0 {
        lemma_le_bytes_len(x / 256, (n - 1) as nat);
    }
}

/// Whether `n` request slots from `base` on, with `extra` bytes more, lie
/// in the straight map with physical addresses that fit in a `usize`.
pub open spec fn slots_fit(base: nat, n: nat, extra: nat) -> bool {
    &&& base >= KERNEL_BASE_ADDR
    &&& base + n * MAX_BLK_SIZE + extra <= u64::MAX
    &&& base + n * MAX_BLK_SIZE + extra - KERNEL_BASE_ADDR <= usize::MAX
}

/// The physical address of `base + off`.
pub open spec fn phys(base: nat, off: int) -> nat {
    (base + off - KERNEL_BASE_ADDR) as nat
}

/// A virtio-block device (the driver that writes blocks through a request
/// slot ring).
pub struct VirtioBlock {
    virtio: Virtio,
    request_buffer: VAddr,
    read_buffer: VAddr,
    status_buffer: VAddr,
    request_buffer_index: usize,
    ring_len: usize,
}

/// Where a request's header goes, and the header to write there.
#[derive(Clone, Copy, Debug, PartialEq, Eq, Structural)]
pub struct RequestSlot {
    pub addr: VAddr,
    pub request: VirtioBlockRequest,
}

impl VirtioBlock {
    /// The request queue.
    pub closed spec fn request_queue(&self) -> VirtQueue {
        self.virtio@[VIRTIO_REQUEST_QUEUE as int]
    }

    /// The number of request slots: as many as the request queue has
    /// descriptors.
    pub closed spec fn spec_ring_len(&self) -> nat {
        self.ring_len as nat
    }

    /// The slot counter.
    pub closed spec fn spec_request_buffer_index(&self) -> nat {
        self.request_buffer_index as nat
    }

    pub closed spec fn spec_request_buffer(&self) -> nat {
        self.request_buffer@
    }

    pub closed spec fn spec_status_buffer(&self) -> nat {
        self.status_buffer@
    }

    pub closed spec fn spec_read_buffer(&self) -> nat {
        self.read_buffer@
    }

    pub closed spec fn wf(&self) -> bool {
        &&& self.virtio@.len() == 1
        &&& self.request_queue().wf()
        &&& self.request_queue().queue_index() == VIRTIO_REQUEST_QUEUE
        &&& self.ring_len == self.request_queue().spec_num_descs()
        &&& slots_fit(self.request_buffer@, self.ring_len as nat, 0)
        &&& slots_fit(self.status_buffer@, self.ring_len as nat, 1)
        &&& slots_fit(self.read_buffer@, self.ring_len as nat, 2)
    }

    /// The pages to set aside for a device with `ring_len` request slots:
    /// for the request headers, the status bytes and the data.
    pub fn buffer_pages(ring_len: u16) -> (r: (usize, usize, usize))
        ensures
            r.0 == pages_for(MAX_BLK_SIZE * ring_len),
            r.1 == pages_for(MAX_BLK_SIZE * ring_len + 1),
            r.2 == pages_for(MAX_BLK_SIZE * ring_len + 2),
    {
        let n = ring_len as usize;
        (
            pages_for_bytes(MAX_BLK_SIZE * n),
            pages_for_bytes(MAX_BLK_SIZE * n + 1),
            pages_for_bytes(MAX_BLK_SIZE * n + 2),
        )
    }

    /// Sets the driver up on an initialized device with one virtqueue, and
    /// the buffers that `buffer_pages` sized.
    pub fn new(virtio: Virtio, request_buffer: VAddr, status_buffer: VAddr, read_buffer: VAddr) -> (r:
        VirtioBlock)
        requires
            virtio@.len() == 1,
            virtio@[0].wf(),
            virtio@[0].queue_index() == VIRTIO_REQUEST_QUEUE,
            slots_fit(request_buffer@, virtio@[0].spec_num_descs() as nat, 0),
            slots_fit(status_buffer@, virtio@[0].spec_num_descs() as nat, 1),
            slots_fit(read_buffer@, virtio@[0].spec_num_descs() as nat, 2),
        ensures
            r.wf(),
            r.request_queue() == virtio@[0],
            r.spec_ring_len() == virtio@[0].spec_num_descs(),
            r.spec_request_buffer_index() == 0,
            r.spec_request_buffer() == request_buffer@,
            r.spec_status_buffer() == status_buffer@,
            r.spec_read_buffer() == read_buffer@,
    {
        let ring_len = virtio.virtq(VIRTIO_REQUEST_QUEUE).num_descs() as usize;
        VirtioBlock {
            virtio,
            request_buffer,
            status_buffer,
            read_buffer,
            request_buffer_index: 0,
            ring_len,
        }
    }

    /// The device's virtqueue.
    pub fn virtio(&self) -> (r: &Virtio)
        requires
            self.wf(),
        ensures
            r@.len() == 1,
            r@[VIRTIO_REQUEST_QUEUE as int] == self.request_queue(),
    {
        &self.virtio
    }

    /// Queues a write of `buf` to `sector`: a chain of the request header,
    /// the data and the status byte of the current slot. Fails with `ENOMEM`
    /// when the request queue has fewer than three free descriptors.
    /// Returns the header and where it must be written before the device is
    /// notified. The slot counter is left as it is.
    pub fn write_to_device(&mut self, sector: u64, buf: &[u8]) -> (r: Result<RequestSlot, Error>)
        requires
            old(self).wf(),
            old(self).spec_ring_len() > 0,
            buf.len() <= u32::MAX,
        ensures
            final(self).wf(),
            final(self).spec_ring_len() == old(self).spec_ring_len(),
            final(self).spec_request_buffer_index() == old(self).spec_request_buffer_index(),
            final(self).spec_request_buffer() == old(self).spec_request_buffer(),
            final(self).spec_status_buffer() == old(self).spec_status_buffer(),
            final(self).spec_read_buffer() == old(self).spec_read_buffer(),
            ({
                let off = (old(self).spec_request_buffer_index() % old(self).spec_ring_len())
                    * MAX_BLK_SIZE;
                &&& old(self).request_queue().num_free() < 3 ==> r == Err::<RequestSlot, Error>(
                    Error { errno: Errno::ENOMEM },
                ) && final(self).request_queue() == old(self).request_queue()
                &&& old(self).request_queue().num_free() >= 3 ==> (r matches Ok(slot) && {
                    &&& slot.addr@ == old(self).spec_request_buffer() + off
                    &&& slot.request == (VirtioBlockRequest { type_: 1, reserved: 0, sector })
                    &&& enqueued(
                        old(self).request_queue(),
                        final(self).request_queue(),
                        seq![
                            BufferView {
                                writable: false,
                                addr: phys(old(self).spec_request_buffer(), off),
                                len: BLOCK_REQUEST_HEADER_LEN as nat,
                            },
                            BufferView {
                                writable: false,
                                addr: phys(old(self).spec_read_buffer(), off + 2),
                                len: buf.len() as nat,
                            },
                            BufferView {
                                writable: true,
                                addr: phys(old(self).spec_status_buffer(), off + 1),
                                len: 1,
                            },
                        ],
                    )
                })
            }),
    {
        let i = self.request_buffer_index % self.ring_len;
        proof {
            assert(i * MAX_BLK_SIZE + MAX_BLK_SIZE <= self.ring_len * MAX_BLK_SIZE) by (nonlinear_arith)
                requires
                    i < self.ring_len,
            ;
        }
        let request_addr = self.request_buffer.add(MAX_BLK_SIZE * i);
        let status_addr = self.status_buffer.add((MAX_BLK_SIZE * i) + 1);
        let read_addr = self.read_buffer.add((MAX_BLK_SIZE * i) + 2);
        let request = VirtioBlockRequest { type_: 1, reserved: 0, sector };
        let chain = [
            VirtqDescBuffer::ReadOnlyFromDevice {
                addr: request_addr.as_paddr(),
                len: BLOCK_REQUEST_HEADER_LEN,
            },
            VirtqDescBuffer::ReadOnlyFromDevice { addr: read_addr.as_paddr(), len: buf.len() },
            VirtqDescBuffer::WritableFromDevice { addr: status_addr.as_paddr(), len: 1 },
        ];
        proof {
            let off = (self.request_buffer_index % self.ring_len) * MAX_BLK_SIZE;
            assert(off == MAX_BLK_SIZE * i);
            assert(chain@.map_values(|b: VirtqDescBuffer| b@) =~= seq![
                BufferView {
                    writable: false,
                    addr: phys(self.request_buffer@, off),
                    len: BLOCK_REQUEST_HEADER_LEN as nat,
                },
                BufferView { writable: false, addr: phys(self.read_buffer@, off + 2), len: buf.len() as nat },
                BufferView { writable: true, addr: phys(self.status_buffer@, off + 1), len: 1 },
            ]);
        }
        let request_virtq = self.virtio.virtq_mut(VIRTIO_REQUEST_QUEUE);
        match request_virtq.enqueue(&chain) {
            Ok(()) => Ok(RequestSlot { addr: request_addr, request }),
            Err(e) => Err(e),
        }
    }

    /// Takes the next chain the device processed, if any, and hands its
    /// buffer back to the device as a `MAX_BLK_SIZE`-byte writable buffer.
    /// `used_index` and `used_elem` are read from the request queue's used
    /// ring, as for `VirtQueue::pop_used`; a processed chain must be one
    /// writable buffer.
    pub fn handle_used(&mut self, used_index: u16, used_elem: VirtqUsedElem) -> (r: bool)
        requires
            old(self).wf(),
            old(self).request_queue().last_used() != used_index ==> {
                let bufs = old(self).request_queue().pending()[used_elem.id as u16];
                &&& old(self).request_queue().pending().contains_key(used_elem.id as u16)
                &&& bufs.len() == 1
                &&& bufs[0].writable
            },
        ensures
            final(self).wf(),
            final(self).spec_ring_len() == old(self).spec_ring_len(),
            final(self).spec_request_buffer_index() == old(self).spec_request_buffer_index(),
            final(self).spec_request_buffer() == old(self).spec_request_buffer(),
            final(self).spec_status_buffer() == old(self).spec_status_buffer(),
            final(self).spec_read_buffer() == old(self).spec_read_buffer(),
            r == (old(self).request_queue().last_used() != used_index),
            !r ==> final(self).request_queue() == old(self).request_queue(),
            r ==> {
                let h = used_elem.id as u16;
                let bufs = old(self).request_queue().pending()[h];
                exists|mid: VirtQueue|
                    #![trigger popped(old(self).request_queue(), mid, h, bufs)]
                    popped(old(self).request_queue(), mid, h, bufs) && enqueued(
                        mid,
                        final(self).request_queue(),
                        seq![BufferView { writable: true, addr: bufs[0].addr, len: MAX_BLK_SIZE as nat }],
                    )
            },
    {
        let request_virtq = self.virtio.virtq_mut(VIRTIO_REQUEST_QUEUE);
        let ghost q0 = *request_virtq;
        match request_virtq.pop_used(used_index, used_elem) {
            None => false,
            Some(chain) => {
                let ghost mid = *request_virtq;
                proof {
                    assert(chain.descs@.map_values(|b: VirtqDescBuffer| b@).len() == 1);
                    assert(chain.descs@.map_values(|b: VirtqDescBuffer| b@)[0] == chain.descs@[0]@);
                }
                let addr = match chain.descs[0] {
                    VirtqDescBuffer::WritableFromDevice { addr, .. } => addr,
                    VirtqDescBuffer::ReadOnlyFromDevice { addr, .. } => addr,
                };
                let bufs = [VirtqDescBuffer::WritableFromDevice { addr, len: MAX_BLK_SIZE }];
                proof {
                    assert(bufs@.map_values(|b: VirtqDescBuffer| b@) =~= seq![
                        BufferView { writable: true, addr: addr@, len: MAX_BLK_SIZE as nat },
                    ]);
                }
                let res = request_virtq.enqueue(&bufs);
                proof {
                    assert(mid.num_free() >= 1);
                    assert(popped(q0, mid, used_elem.id as u16, q0.pending()[used_elem.id as u16]));
                }
                true
            },
        }
    }
}

/// A virtio-blk device (the driver that sends each request from one
/// buffer).
pub struct VirtioBlk {
    virtio: Virtio,
    buffer: VAddr,
}

impl VirtioBlk {
    /// The request queue.
    pub closed spec fn request_queue(&self) -> VirtQueue {
        self.virtio@[VIRTIO_REQUEST_QUEUE as int]
    }

    pub closed spec fn spec_buffer(&self) -> nat {
        self.buffer@
    }

    pub closed spec fn wf(&self) -> bool {
        &&& self.virtio@.len() >= 1
        &&& self.request_queue().wf()
        &&& self.buffer@ >= KERNEL_BASE_ADDR
    }

    /// The pages to set aside for a device with `ring_len` descriptors.
    pub fn buffer_pages(ring_len: u16) -> (r: usize)
        ensures
            r == pages_for(MAX_BLK_SIZE * ring_len),
    {
        pages_for_bytes(MAX_BLK_SIZE * ring_len as usize)
    }

    /// Sets the driver up on a device with a request queue and a buffer
    /// that `buffer_pages` sized.
    pub fn new(virtio: Virtio, buffer: VAddr) -> (r: VirtioBlk)
        requires
            virtio@.len() >= 1,
            virtio@[VIRTIO_REQUEST_QUEUE as int].wf(),
            buffer@ >= KERNEL_BASE_ADDR,
        ensures
            r.wf(),
            r.request_queue() == virtio@[VIRTIO_REQUEST_QUEUE as int],
            r.spec_buffer() == buffer@,
    {
        VirtioBlk { virtio, buffer }
    }

    /// The device's virtqueues.
    pub fn virtio(&self) -> (r: &Virtio)
        requires
            self.wf(),
        ensures
            r@.len() >= 1,
            r@[VIRTIO_REQUEST_QUEUE as int] == self.request_queue(),
    {
        &self.virtio
    }

    /// Queues a request of `request_type` on `sector` carrying `frame`: one
    /// read-only buffer `MAX_BLK_SIZE` bytes into the buffer, holding the
    /// header and then the frame. Fails with `ENOMEM` when the request queue
    /// has no free descriptor. Returns where the request goes and its bytes,
    /// to be written there before the device is notified.
    pub fn request_to_device(&mut self, request_type: RequestType, sector: u64, frame: &[u8]) -> (r:
        Result<(VAddr, Vec<u8>), Error>)
        requires
            old(self).wf(),
            old(self).spec_buffer() + MAX_BLK_SIZE + BLOCK_REQUEST_HEADER_LEN + frame.len()
                <= u64::MAX,
            old(self).spec_buffer() + MAX_BLK_SIZE - KERNEL_BASE_ADDR <= usize::MAX,
            BLOCK_REQUEST_HEADER_LEN + frame.len() <= u32::MAX,
        ensures
            final(self).wf(),
            final(self).spec_buffer() == old(self).spec_buffer(),
            old(self).request_queue().num_free() == 0 ==> r == Err::<(VAddr, Vec<u8>), Error>(
                Error { errno: Errno::ENOMEM },
            ) && final(self).request_queue() == old(self).request_queue(),
            old(self).request_queue().num_free() > 0 ==> (r matches Ok((addr, bytes)) && {
                &&& addr@ == old(self).spec_buffer() + MAX_BLK_SIZE
                &&& bytes@ == (VirtioBlockRequest {
                    type_: request_type.spec_code(),
                    reserved: 0,
                    sector,
                }).spec_bytes() + frame@
                &&& enqueued(
                    old(self).request_queue(),
                    final(self).request_queue(),
                    seq![
                        BufferView {
                            writable: false,
                            addr: phys(old(self).spec_buffer(), MAX_BLK_SIZE as int),
                            len: (BLOCK_REQUEST_HEADER_LEN + frame.len()) as nat,
                        },
                    ],
                )
            }),
    {
        let addr = self.buffer.add(MAX_BLK_SIZE);
        let request = VirtioBlockRequest { type_: request_type.code(), reserved: 0, sector };
        let mut bytes = request.to_bytes();
        let mut k: usize = 0;
        while k < frame.len()
            invariant
                k <= frame.len(),
                bytes@ == request.spec_bytes() + frame@.subrange(0, k as int),
            decreases frame.len() - k,
        {
            bytes.push(frame[k]);
            k += 1;
            assert(bytes@ =~= request.spec_bytes() + frame@.subrange(0, k as int));
        }
        assert(frame@.subrange(0, frame.len() as int) =~= frame@);
        let chain = [
            VirtqDescBuffer::ReadOnlyFromDevice {
                addr: addr.as_paddr(),
                len: BLOCK_REQUEST_HEADER_LEN + frame.len(),
            },
        ];
        proof {
            assert(chain@.map_values(|b: VirtqDescBuffer| b@) =~= seq![
                BufferView {
                    writable: false,
                    addr: phys(self.buffer@, MAX_BLK_SIZE as int),
                    len: (BLOCK_REQUEST_HEADER_LEN + frame.len()) as nat,
                },
            ]);
        }
        let request_virtq = self.virtio.virtq_mut(VIRTIO_REQUEST_QUEUE);
        match request_virtq.enqueue(&chain) {
            Ok(()) => Ok((addr, bytes)),
            Err(e) => Err(e),
        }
    }

    /// The device's interrupt: there is nothing to do.
    pub fn handle_irq(&mut self)
        ensures
            *final(self) == *old(self),
    {
    }
}

} // verus!
