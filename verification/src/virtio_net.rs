//! The virtio-net driver: its receive buffers and its transmit ring.
use vstd::prelude::*;
use crate::address::{KERNEL_BASE_ADDR, PAddr, VAddr, pages_for, pages_for_bytes};
use crate::driver::MacAddress;
use crate::result::{Errno, Error};
use crate::virtio::{BufferView, Virtio, VirtQueue, VirtqDescBuffer, VirtqUsedElem, enqueued, popped};

verus! {

/// The device feature bit: the device has a MAC address.
pub const VIRTIO_NET_F_MAC: u32 = 1 << 5;

/// The index of the receive queue.
pub const VIRTIO_NET_QUEUE_RX: u16 = 0;

/// The index of the transmit queue.
pub const VIRTIO_NET_QUEUE_TX: u16 = 1;

/// The size of each packet buffer.
pub const PACKET_LEN_MAX: usize = 2048;

/// The size of the header that precedes each packet (`struct virtio_net_hdr`).
pub const VIRTIO_NET_HEADER_LEN: usize = 10;

/// Whether `n` packet buffers from `base` on lie in the straight map with
/// physical addresses that fit in a `usize`.
pub open spec fn buffers_fit(base: nat, n: nat) -> bool {
    &&& base >= KERNEL_BASE_ADDR
    &&& base + n * PACKET_LEN_MAX <= u64::MAX
    &&& base + n * PACKET_LEN_MAX - KERNEL_BASE_ADDR <= usize::MAX
}

/// The `i`-th receive buffer from `base` on, as the device sees it.
pub open spec fn rx_buffer_view(base: nat, i: int) -> BufferView {
    BufferView {
        writable: true,
        addr: (base + i * PACKET_LEN_MAX - KERNEL_BASE_ADDR) as nat,
        len: PACKET_LEN_MAX as nat,
    }
}

/// Every chain pending on `q` is one of the first `n` receive buffers.
pub open spec fn holds_rx_buffers(q: VirtQueue, base: nat, n: nat) -> bool {
    forall|h: u16|
        #[trigger] q.pending().contains_key(h) ==> exists|i: int|
            0 <= i < n && q.pending()[h] == seq![rx_buffer_view(base, i)]
}

/// Each of the first `n` receive buffers is pending on `q`.
pub open spec fn holds_each_rx_buffer(q: VirtQueue, base: nat, n: nat) -> bool {
    forall|i: int|
        #![trigger rx_buffer_view(base, i)]
        0 <= i < n ==> exists|h: u16|
            #[trigger] q.pending().contains_key(h) && q.pending()[h] == seq![rx_buffer_view(base, i)]
}

/// How many of `n` receive buffers a receive queue of `num_descs`
/// descriptors takes: the ones that find a free descriptor.
pub open spec fn filled_rx(n: nat, num_descs: nat) -> nat {
    if n <= num_descs {
        n
    } else {
        num_descs
    }
}

/// A virtio-net device.
pub struct VirtioNet {
    mac_addr: MacAddress,
    virtio: Virtio,
    tx_ring_len: usize,
    tx_ring_index: usize,
    tx_buffer: VAddr,
    rx_buffer: VAddr,
}

impl VirtioNet {
    /// The receive queue.
    pub closed spec fn rx_queue(&self) -> VirtQueue {
        self.virtio@[VIRTIO_NET_QUEUE_RX as int]
    }

    /// The transmit queue.
    pub closed spec fn tx_queue(&self) -> VirtQueue {
        self.virtio@[VIRTIO_NET_QUEUE_TX as int]
    }

    /// The number of receive buffers: as many as the transmit queue has
    /// descriptors.
    pub closed spec fn rx_ring_len(&self) -> nat {
        self.tx_queue().spec_num_descs() as nat
    }

    /// The number of transmit slots: as many as the receive queue has
    /// descriptors.
    pub closed spec fn spec_tx_ring_len(&self) -> nat {
        self.tx_ring_len as nat
    }

    /// The number of frames transmitted so far.
    pub closed spec fn spec_tx_ring_index(&self) -> nat {
        self.tx_ring_index as nat
    }

    pub closed spec fn spec_tx_buffer(&self) -> nat {
        self.tx_buffer@
    }

    pub closed spec fn spec_rx_buffer(&self) -> nat {
        self.rx_buffer@
    }

    pub closed spec fn spec_mac_addr(&self) -> Seq<u8> {
        self.mac_addr@
    }

    pub closed spec fn wf(&self) -> bool {
        &&& self.virtio@.len() == 2
        &&& self.rx_queue().wf()
        &&& self.tx_queue().wf()
        &&& self.rx_queue().queue_index() == VIRTIO_NET_QUEUE_RX
        &&& self.tx_queue().queue_index() == VIRTIO_NET_QUEUE_TX
        &&& self.tx_ring_len == self.rx_queue().spec_num_descs()
        &&& buffers_fit(self.tx_buffer@, self.tx_ring_len as nat)
        &&& buffers_fit(self.rx_buffer@, self.rx_ring_len())
        &&& holds_rx_buffers(self.rx_queue(), self.rx_buffer@, self.rx_ring_len())
    }

    /// The pages to set aside for `ring_len` packet buffers.
    pub fn buffer_pages(ring_len: u16) -> (r: usize)
        ensures
            r == pages_for(PACKET_LEN_MAX * ring_len),
    {
        pages_for_bytes(PACKET_LEN_MAX * ring_len as usize)
    }

    /// Sets the driver up on an initialized device: each receive buffer is
    /// handed to the device through the receive queue.
    pub fn new(mac_addr: [u8; 6], virtio: Virtio, tx_buffer: VAddr, rx_buffer: VAddr) -> (r:
        VirtioNet)
        requires
            virtio@.len() == 2,
            forall|k: int|
                0 <= k < 2 ==> {
                    let q = #[trigger] virtio@[k];
                    &&& q.wf()
                    &&& q.queue_index() == k
                    &&& q.num_free() == q.spec_num_descs()
                    &&& q.pending() == Map::<u16, Seq<BufferView>>::empty()
                },
            buffers_fit(tx_buffer@, virtio@[VIRTIO_NET_QUEUE_RX as int].spec_num_descs() as nat),
            buffers_fit(rx_buffer@, virtio@[VIRTIO_NET_QUEUE_TX as int].spec_num_descs() as nat),
        ensures
            r.wf(),
            r.spec_mac_addr() == mac_addr@,
            r.spec_tx_ring_index() == 0,
            r.spec_tx_buffer() == tx_buffer@,
            r.spec_rx_buffer() == rx_buffer@,
            r.tx_queue() == virtio@[VIRTIO_NET_QUEUE_TX as int],
            r.rx_queue().pending().len() == filled_rx(r.rx_ring_len(), virtio@[VIRTIO_NET_QUEUE_RX as int].spec_num_descs() as nat),
            r.rx_queue().num_free() == virtio@[VIRTIO_NET_QUEUE_RX as int].spec_num_descs()
                - filled_rx(r.rx_ring_len(), virtio@[VIRTIO_NET_QUEUE_RX as int].spec_num_descs() as nat),
            holds_each_rx_buffer(r.rx_queue(), rx_buffer@, filled_rx(r.rx_ring_len(), virtio@[VIRTIO_NET_QUEUE_RX as int].spec_num_descs() as nat)),
    {
        let mut virtio = virtio;
        let ghost v0 = virtio@;
        let tx_ring_len = virtio.virtq(VIRTIO_NET_QUEUE_RX).num_descs() as usize;
        let rx_ring_len = virtio.virtq(VIRTIO_NET_QUEUE_TX).num_descs() as usize;
        let mut i: usize = 0;
        while i < rx_ring_len
            invariant
                virtio@.len() == 2,
                virtio@[VIRTIO_NET_QUEUE_TX as int] == v0[VIRTIO_NET_QUEUE_TX as int],
                rx_ring_len == v0[VIRTIO_NET_QUEUE_TX as int].spec_num_descs(),
                buffers_fit(rx_buffer@, rx_ring_len as nat),
                0 <= i <= rx_ring_len,
                ({
                    let q = virtio@[VIRTIO_NET_QUEUE_RX as int];
                    let n = q.spec_num_descs() as nat;
                    &&& q.wf()
                    &&& q.queue_index() == VIRTIO_NET_QUEUE_RX
                    &&& q.spec_num_descs() == v0[VIRTIO_NET_QUEUE_RX as int].spec_num_descs()
                    &&& q.num_free() == n - filled_rx(i as nat, n)
                    &&& q.pending().dom().finite()
                    &&& q.pending().len() == filled_rx(i as nat, n)
                    &&& holds_rx_buffers(q, rx_buffer@, i as nat)
                    &&& holds_each_rx_buffer(q, rx_buffer@, filled_rx(i as nat, n))
                }),
            decreases rx_ring_len - i,
        {
            let addr = rx_buffer.add(i * PACKET_LEN_MAX).as_paddr();
            let buf = VirtqDescBuffer::WritableFromDevice { addr, len: PACKET_LEN_MAX };
            let chain = [buf];
            let ghost q0 = virtio@[VIRTIO_NET_QUEUE_RX as int];
            let rx_virtq = virtio.virtq_mut(VIRTIO_NET_QUEUE_RX);
            let res = rx_virtq.enqueue(&chain);
            // A full receive queue takes no more buffers.
            proof {
                if q0.num_free() == 0 {
                    assert(i >= q0.spec_num_descs());
                    assert forall|hh: u16| #[trigger] q0.pending().contains_key(hh) implies exists|k: int|
                        0 <= k < i + 1 && q0.pending()[hh] == seq![rx_buffer_view(rx_buffer@, k)] by {
                        let k = choose|k: int| 0 <= k < i && q0.pending()[hh] == seq![rx_buffer_view(rx_buffer@, k)];
                    }
                }
            }
            if res.is_err() {
                i += 1;
                continue;
            }
            proof {
                let q1 = virtio@[VIRTIO_NET_QUEUE_RX as int];
                assert(chain@.map_values(|b: VirtqDescBuffer| b@) =~= seq![rx_buffer_view(rx_buffer@, i as int)]);
                let h = q0.next_free();
                assert(q1.pending() == q0.pending().insert(h, seq![rx_buffer_view(rx_buffer@, i as int)]));
                assert(q1.pending().dom() == q0.pending().dom().insert(h));
                assert forall|hh: u16| #[trigger] q1.pending().contains_key(hh) implies exists|k: int|
                    0 <= k < i + 1 && q1.pending()[hh] == seq![rx_buffer_view(rx_buffer@, k)] by {
                    if hh != h {
                        assert(q0.pending().contains_key(hh));
                    }
                }
                assert forall|k: int| #![trigger rx_buffer_view(rx_buffer@, k)] 0 <= k < i + 1 implies exists|hh: u16|
                    #[trigger] q1.pending().contains_key(hh) && q1.pending()[hh] == seq![
                        rx_buffer_view(rx_buffer@, k),
                    ] by {
                    if k < i {
                        let hh = choose|hh: u16| #[trigger] q0.pending().contains_key(hh) && q0.pending()[hh] == seq![
                            rx_buffer_view(rx_buffer@, k),
                        ];
                        assert(q1.pending().contains_key(hh));
                    } else {
                        assert(q1.pending().contains_key(h));
                    }
                }
            }
            i += 1;
        }
        let r = VirtioNet {
            mac_addr: MacAddress::new(mac_addr),
            virtio,
            tx_ring_len,
            tx_ring_index: 0,
            tx_buffer,
            rx_buffer,
        };
        proof {
            assert(i == rx_ring_len);
            assert(r.rx_ring_len() == rx_ring_len);
            assert(r.rx_queue() == virtio@[VIRTIO_NET_QUEUE_RX as int]);
        }
        r
    }

    /// The device's virtqueues: the receive queue, then the transmit queue.
    pub fn virtio(&self) -> (r: &Virtio)
        requires
            self.wf(),
        ensures
            r@.len() == 2,
            r@[VIRTIO_NET_QUEUE_RX as int] == self.rx_queue(),
            r@[VIRTIO_NET_QUEUE_TX as int] == self.tx_queue(),
    {
        &self.virtio
    }

    /// The device's MAC address.
    pub fn mac_addr(&self) -> (r: Result<MacAddress, Error>)
        ensures
            r matches Ok(m) && m@ == self.spec_mac_addr(),
    {
        Ok(self.mac_addr)
    }

    /// The driver's name.
    pub fn name(&self) -> (r: &str)
        ensures
            r@ == "virtio-net"@,
    {
        "virtio-net"
    }

    /// Where the next frame to transmit goes: the header, then the frame.
    /// The slots are used in turn.
    pub fn tx_slot(&self) -> (r: VAddr)
        requires
            self.wf(),
            self.spec_tx_ring_len() > 0,
        ensures
            r@ == self.spec_tx_buffer() + (self.spec_tx_ring_index() % self.spec_tx_ring_len())
                * PACKET_LEN_MAX,
    {
        let i = self.tx_ring_index % self.tx_ring_len;
        proof {
            assert(i * PACKET_LEN_MAX <= self.tx_ring_len * PACKET_LEN_MAX) by (nonlinear_arith)
                requires
                    i < self.tx_ring_len,
            ;
        }
        self.tx_buffer.add(i * PACKET_LEN_MAX)
    }

    /// Hands the frame of `frame_len` bytes, written with its header in
    /// `tx_slot()`, to the device. Fails with `ENOMEM` when the transmit
    /// queue has no free descriptor.
    pub fn transmit(&mut self, frame_len: usize) -> (r: Result<(), Error>)
        requires
            old(self).wf(),
            old(self).spec_tx_ring_len() > 0,
            old(self).spec_tx_ring_index() < usize::MAX,
            frame_len <= PACKET_LEN_MAX - VIRTIO_NET_HEADER_LEN,
        ensures
            final(self).wf(),
            final(self).rx_queue() == old(self).rx_queue(),
            final(self).spec_tx_ring_len() == old(self).spec_tx_ring_len(),
            final(self).spec_tx_buffer() == old(self).spec_tx_buffer(),
            final(self).spec_rx_buffer() == old(self).spec_rx_buffer(),
            final(self).spec_mac_addr() == old(self).spec_mac_addr(),
            old(self).tx_queue().num_free() == 0 ==> r == Err::<(), Error>(
                Error { errno: Errno::ENOMEM },
            ) && final(self).tx_queue() == old(self).tx_queue() && final(self).spec_tx_ring_index()
                == old(self).spec_tx_ring_index(),
            old(self).tx_queue().num_free() > 0 ==> r == Ok::<(), Error>(()) && enqueued(
                old(self).tx_queue(),
                final(self).tx_queue(),
                seq![
                    BufferView {
                        writable: false,
                        addr: (old(self).spec_tx_buffer() + (old(self).spec_tx_ring_index()
                            % old(self).spec_tx_ring_len()) * PACKET_LEN_MAX
                            - KERNEL_BASE_ADDR) as nat,
                        len: (VIRTIO_NET_HEADER_LEN + frame_len) as nat,
                    },
                ],
            ) && final(self).spec_tx_ring_index() == old(self).spec_tx_ring_index() + 1,
    {
        let addr = self.tx_slot();
        let buf = VirtqDescBuffer::ReadOnlyFromDevice {
            addr: addr.as_paddr(),
            len: VIRTIO_NET_HEADER_LEN + frame_len,
        };
        let chain = [buf];
        proof {
            assert(chain@.map_values(|b: VirtqDescBuffer| b@) =~= seq![buf@]);
        }
        let tx_virtq = self.virtio.virtq_mut(VIRTIO_NET_QUEUE_TX);
        let res = tx_virtq.enqueue(&chain);
        match res {
            Ok(()) => {
                self.tx_ring_index += 1;
                Ok(())
            },
            Err(e) => Err(e),
        }
    }

    /// Takes the next receive buffer the device filled, if any: its physical
    /// address and the number of bytes written (header included).
    /// `used_index` and `used_elem` are read from the receive queue's used
    /// ring, as for `VirtQueue::pop_used`.
    pub fn pop_rx(&mut self, used_index: u16, used_elem: VirtqUsedElem) -> (r: Option<(PAddr, usize)>)
        requires
            old(self).wf(),
            old(self).rx_queue().last_used() != used_index ==> old(self).rx_queue().pending().contains_key(
                used_elem.id as u16,
            ),
        ensures
            final(self).wf(),
            final(self).tx_queue() == old(self).tx_queue(),
            final(self).spec_tx_ring_index() == old(self).spec_tx_ring_index(),
            final(self).spec_rx_buffer() == old(self).spec_rx_buffer(),
            final(self).spec_mac_addr() == old(self).spec_mac_addr(),
            old(self).rx_queue().last_used() == used_index ==> r is None && final(self).rx_queue()
                == old(self).rx_queue(),
            old(self).rx_queue().last_used() != used_index ==> (r matches Some((addr, len)) && {
                &&& len == used_elem.len
                &&& exists|i: int|
                    0 <= i < old(self).rx_ring_len() && #[trigger] rx_buffer_view(
                        old(self).spec_rx_buffer(),
                        i,
                    ).addr == addr@
                &&& old(self).rx_queue().pending()[used_elem.id as u16] == seq![
                    BufferView { writable: true, addr: addr@, len: PACKET_LEN_MAX as nat },
                ]
                &&& popped(
                    old(self).rx_queue(),
                    final(self).rx_queue(),
                    used_elem.id as u16,
                    old(self).rx_queue().pending()[used_elem.id as u16],
                )
            }),
    {
        let ghost old_self = *self;
        let rx_virtq = self.virtio.virtq_mut(VIRTIO_NET_QUEUE_RX);
        match rx_virtq.pop_used(used_index, used_elem) {
            None => None,
            Some(chain) => {
                proof {
                    let h = used_elem.id as u16;
                    let i = choose|i: int| 0 <= i < old_self.rx_ring_len() && old_self.rx_queue().pending()[h]
                        == seq![rx_buffer_view(old_self.rx_buffer@, i)];
                    assert(chain.descs@.map_values(|b: VirtqDescBuffer| b@).len() == 1);
                    assert(chain.descs@.map_values(|b: VirtqDescBuffer| b@)[0] == chain.descs@[0]@);
                    assert(chain.descs@[0]@ == rx_buffer_view(old_self.rx_buffer@, i));
                    assert(rx_buffer_view(old_self.spec_rx_buffer(), i).addr == chain.descs@[0]@.addr);
                    assert forall|hh: u16| #[trigger] self.rx_queue().pending().contains_key(hh) implies exists|k: int|
                        0 <= k < self.rx_ring_len() && self.rx_queue().pending()[hh] == seq![rx_buffer_view(self.rx_buffer@, k)] by {
                        assert(old_self.rx_queue().pending().contains_key(hh));
                        assert(self.tx_queue() == old_self.tx_queue());
                        assert(self.rx_queue().pending()[hh] == old_self.rx_queue().pending()[hh]);
                        let k = choose|k: int| 0 <= k < old_self.rx_ring_len()
                            && old_self.rx_queue().pending()[hh] == seq![rx_buffer_view(old_self.rx_buffer@, k)];
                        assert(0 <= k < self.rx_ring_len());
                        assert(self.rx_queue().pending()[hh] == seq![rx_buffer_view(self.rx_buffer@, k)]);
                    }
                }
                match chain.descs[0] {
                    VirtqDescBuffer::WritableFromDevice { addr, len } => Some((addr, chain.total_len)),
                    VirtqDescBuffer::ReadOnlyFromDevice { addr, len } => Some((addr, chain.total_len)),
                }
            },
        }
    }

    /// The Ethernet frame in a receive buffer at `addr` that the device
    /// filled with `total_len` bytes: what follows the header, or `None`
    /// when the buffer is too short to hold the header.
    pub fn received_frame(addr: PAddr, total_len: usize) -> (r: Option<(PAddr, usize)>)
        requires
            addr@ + VIRTIO_NET_HEADER_LEN <= usize::MAX,
        ensures
            total_len < VIRTIO_NET_HEADER_LEN ==> r is None,
            total_len >= VIRTIO_NET_HEADER_LEN ==> (r matches Some((frame, len)) && frame@ == addr@
                + VIRTIO_NET_HEADER_LEN && len == total_len - VIRTIO_NET_HEADER_LEN),
    {
        if total_len < VIRTIO_NET_HEADER_LEN {
            None
        } else {
            Some((addr.add(VIRTIO_NET_HEADER_LEN), total_len - VIRTIO_NET_HEADER_LEN))
        }
    }

    /// Hands the receive buffer at `addr` back to the device once its frame
    /// was taken. Fails with `ENOMEM` when the receive queue has no free
    /// descriptor.
    pub fn requeue_rx(&mut self, addr: PAddr) -> (r: Result<(), Error>)
        requires
            old(self).wf(),
            exists|i: int|
                0 <= i < old(self).rx_ring_len() && #[trigger] rx_buffer_view(
                    old(self).spec_rx_buffer(),
                    i,
                ).addr == addr@,
        ensures
            final(self).wf(),
            final(self).tx_queue() == old(self).tx_queue(),
            final(self).spec_tx_ring_index() == old(self).spec_tx_ring_index(),
            final(self).spec_rx_buffer() == old(self).spec_rx_buffer(),
            final(self).spec_mac_addr() == old(self).spec_mac_addr(),
            old(self).rx_queue().num_free() == 0 ==> r == Err::<(), Error>(
                Error { errno: Errno::ENOMEM },
            ) && final(self).rx_queue() == old(self).rx_queue(),
            old(self).rx_queue().num_free() > 0 ==> r == Ok::<(), Error>(()) && enqueued(
                old(self).rx_queue(),
                final(self).rx_queue(),
                seq![BufferView { writable: true, addr: addr@, len: PACKET_LEN_MAX as nat }],
            ),
    {
        let ghost old_self = *self;
        let buf = VirtqDescBuffer::WritableFromDevice { addr, len: PACKET_LEN_MAX };
        let chain = [buf];
        proof {
            assert(chain@.map_values(|b: VirtqDescBuffer| b@) =~= seq![buf@]);
        }
        let rx_virtq = self.virtio.virtq_mut(VIRTIO_NET_QUEUE_RX);
        let res = rx_virtq.enqueue(&chain);
        proof {
            if res is Ok {
                let i = choose|i: int|
                    0 <= i < old_self.rx_ring_len() && #[trigger] rx_buffer_view(
                        old_self.rx_buffer@,
                        i,
                    ).addr == addr@;
                assert(buf@ == rx_buffer_view(old_self.rx_buffer@, i));
                let h = old_self.rx_queue().next_free();
                assert forall|hh: u16| #[trigger] self.rx_queue().pending().contains_key(hh) implies exists|k: int|
                    0 <= k < self.rx_ring_len() && self.rx_queue().pending()[hh] == seq![rx_buffer_view(self.rx_buffer@, k)] by {
                    assert(self.tx_queue() == old_self.tx_queue());
                    if hh == h {
                        assert(self.rx_queue().pending()[hh] == seq![rx_buffer_view(self.rx_buffer@, i)]);
                    } else {
                        assert(old_self.rx_queue().pending().contains_key(hh));
                        let k = choose|k: int| 0 <= k < old_self.rx_ring_len()
                            && old_self.rx_queue().pending()[hh] == seq![rx_buffer_view(old_self.rx_buffer@, k)];
                        assert(self.rx_queue().pending()[hh] == seq![rx_buffer_view(self.rx_buffer@, k)]);
                    }
                }
            }
        }
        res
    }
}

} // verus!
