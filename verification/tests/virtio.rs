use kerla::address::{PAddr, VAddr, KERNEL_BASE_ADDR};
use kerla::result::Errno;
use kerla::virtio::{
    check_device_features, check_features_ok, status_with, virtq_layout, IsrStatus, Virtio,
    VirtioIo, VirtQueue, VirtqDescBuffer, VirtqUsedElem, ISR_DEVICE_CONFIG_INTR, ISR_QUEUE_INTR, VIRTIO_REG_DEVICE_CONFIG_BASE,
    VIRTIO_REG_DEVICE_FEATS, VIRTIO_REG_DEVICE_STATUS, VIRTIO_REG_DRIVER_FEATS,
    VIRTIO_REG_ISR_STATUS, VIRTIO_REG_NUM_DESCS, VIRTIO_REG_QUEUE_NOTIFY,
    VIRTIO_REG_QUEUE_SELECT, VIRTIO_STATUS_ACK, VIRTIO_STATUS_DRIVER, VIRTIO_STATUS_DRIVER_OK,
    VIRTIO_STATUS_FEAT_OK, VIRTQ_DESC_F_NEXT, VIRTQ_DESC_F_WRITE,
};
use kerla::virtio_net::{VirtioNet, PACKET_LEN_MAX, VIRTIO_NET_HEADER_LEN};

#[test]
fn layout_of_a_queue() {
    let l = virtq_layout(256);
    assert_eq!(l.avail_ring_off, 4096);
    assert_eq!(l.used_ring_off, 8192);
    assert_eq!(l.virtq_size, 8192 + 4096);
    assert_eq!(l.num_pages, 3);
}

#[test]
fn enqueue_then_pop_gives_the_chain_back() {
    let mut q = VirtQueue::new(0, 4);
    assert_eq!(q.num_descs(), 4);
    let chain = [
        VirtqDescBuffer::ReadOnlyFromDevice { addr: PAddr::new(0x1000), len: 16 },
        VirtqDescBuffer::WritableFromDevice { addr: PAddr::new(0x2000), len: 512 },
    ];
    q.enqueue(&chain).unwrap();
    assert_eq!(q.avail_index(), 1);
    assert_eq!(q.avail_ring()[0], 0);
    let d = q.descs();
    assert_eq!(d[0].addr, 0x1000);
    assert_eq!(d[0].len, 16);
    assert_eq!(d[0].flags, VIRTQ_DESC_F_NEXT);
    assert_eq!(d[0].next, 1);
    assert_eq!(d[1].addr, 0x2000);
    assert_eq!(d[1].flags, VIRTQ_DESC_F_WRITE);
    assert!(d[1].is_writable() && !d[1].has_next());
    assert!(d[0].has_next() && !d[0].is_writable());

    // Nothing used yet.
    assert!(q.pop_used(0, VirtqUsedElem { id: 0, len: 0 }).is_none());
    let used = q.pop_used(1, VirtqUsedElem { id: 0, len: 300 }).unwrap();
    assert_eq!(used.total_len, 300);
    assert_eq!(used.descs, chain.to_vec());
    assert_eq!(q.last_used_index(), 1);

    // All four descriptors are free again.
    let four = [VirtqDescBuffer::ReadOnlyFromDevice { addr: PAddr::new(0), len: 1 }; 4];
    q.enqueue(&four).unwrap();
    assert_eq!(
        q.enqueue(&[VirtqDescBuffer::ReadOnlyFromDevice { addr: PAddr::new(0), len: 1 }])
            .unwrap_err()
            .errno(),
        Errno::ENOMEM
    );
}

#[test]
fn too_long_chain_is_refused() {
    let mut q = VirtQueue::new(3, 2);
    let three = [VirtqDescBuffer::WritableFromDevice { addr: PAddr::new(0), len: 1 }; 3];
    assert_eq!(q.enqueue(&three).unwrap_err().errno(), Errno::ENOMEM);
    assert_eq!(q.avail_index(), 0);
    assert_eq!(q.index(), 3);
    assert_eq!(q.notify(), VirtioIo::Write16 { reg: VIRTIO_REG_QUEUE_NOTIFY, value: 3 });
}

#[test]
fn status_and_feature_checks() {
    assert_eq!(status_with(1, 2), 3);
    assert!(check_device_features(0b111, 0b101).is_ok());
    assert_eq!(check_device_features(0b011, 0b101).unwrap_err().errno(), Errno::EINVAL);
    assert!(check_features_ok(VIRTIO_STATUS_FEAT_OK).is_ok());
    assert_eq!(check_features_ok(1).unwrap_err().errno(), Errno::EINVAL);
    assert!(IsrStatus::from_bits(1).unwrap().contains(ISR_QUEUE_INTR));
    assert!(!IsrStatus::from_bits(2).unwrap().contains(ISR_QUEUE_INTR));
    assert!(IsrStatus::from_bits(4).is_none());
}

/// Runs the initialization against a device with the given features, that
/// keeps `FEATURES_OK` when `accepts`, and has queues of `sizes`.
fn run_init(virtio: &mut Virtio, features: u32, device_features: u32, accepts: bool, sizes: &[u16]) -> Vec<VirtioIo> {
    let mut init = virtio.initialize(features, sizes.len() as u16);
    let mut status: u8 = 0xff;
    let mut selected = 0usize;
    let mut input = 0u32;
    let mut log = Vec::new();
    loop {
        let io = init.step(virtio, input);
        log.push(io);
        input = 0;
        match io {
            VirtioIo::Write8 { reg, value } if reg == VIRTIO_REG_DEVICE_STATUS => {
                status = if !accepts { value & !VIRTIO_STATUS_FEAT_OK } else { value };
            },
            VirtioIo::Read8 { reg } if reg == VIRTIO_REG_DEVICE_STATUS => input = status as u32,
            VirtioIo::Read32 { reg } if reg == VIRTIO_REG_DEVICE_FEATS => input = device_features,
            VirtioIo::Write16 { reg, value } if reg == VIRTIO_REG_QUEUE_SELECT => selected = value as usize,
            VirtioIo::Read16 { reg } if reg == VIRTIO_REG_NUM_DESCS => input = sizes[selected] as u32,
            VirtioIo::Done | VirtioIo::Failed { .. } => break,
            _ => {},
        }
    }
    log
}

#[test]
fn initialization_sequence() {
    let mut virtio = Virtio::new();
    let log = run_init(&mut virtio, 0b100000, 0b110000, true, &[8, 4]);
    assert_eq!(log[0], VirtioIo::Write8 { reg: VIRTIO_REG_DEVICE_STATUS, value: 0 });
    assert_eq!(log[1], VirtioIo::Read8 { reg: VIRTIO_REG_DEVICE_STATUS });
    assert_eq!(log[2], VirtioIo::Write8 { reg: VIRTIO_REG_DEVICE_STATUS, value: VIRTIO_STATUS_ACK });
    assert_eq!(
        log[4],
        VirtioIo::Write8 { reg: VIRTIO_REG_DEVICE_STATUS, value: VIRTIO_STATUS_ACK | VIRTIO_STATUS_DRIVER }
    );
    assert_eq!(log[6], VirtioIo::Write32 { reg: VIRTIO_REG_DRIVER_FEATS, value: 0b100000 });
    // FEATURES_OK is bit 3 ("3.1.1 Driver Requirements: Device Initialization").
    assert_eq!(log[8], VirtioIo::Write8 { reg: VIRTIO_REG_DEVICE_STATUS, value: 0x0b });
    assert!(log.contains(&VirtioIo::SetUpQueue { index: 0, num_descs: 8 }));
    assert!(log.contains(&VirtioIo::SetUpQueue { index: 1, num_descs: 4 }));
    let n = log.len();
    assert_eq!(log[n - 1], VirtioIo::Done);
    assert_eq!(
        log[n - 2],
        VirtioIo::Write8 {
            reg: VIRTIO_REG_DEVICE_STATUS,
            value: VIRTIO_STATUS_ACK | VIRTIO_STATUS_DRIVER | VIRTIO_STATUS_FEAT_OK | VIRTIO_STATUS_DRIVER_OK
        }
    );
    assert_eq!(VIRTIO_STATUS_ACK | VIRTIO_STATUS_DRIVER | VIRTIO_STATUS_FEAT_OK | VIRTIO_STATUS_DRIVER_OK, 0x0f);
    assert_eq!(virtio.virtq(0).num_descs(), 8);
    assert_eq!(virtio.virtq(1).num_descs(), 4);
    assert_eq!(virtio.virtq(1).index(), 1);
}

#[test]
fn initialization_fails_without_features() {
    let mut virtio = Virtio::new();
    let log = run_init(&mut virtio, 0b100000, 0b010000, true, &[8]);
    match log.last().unwrap() {
        VirtioIo::Failed { error } => assert_eq!(error.errno(), Errno::EINVAL),
        other => panic!("unexpected {:?}", other),
    }
    let mut virtio = Virtio::new();
    let log = run_init(&mut virtio, 0b100000, 0b100000, false, &[8]);
    match log.last().unwrap() {
        VirtioIo::Failed { error } => assert_eq!(error.errno(), Errno::EINVAL),
        other => panic!("unexpected {:?}", other),
    }
}

#[test]
fn device_config_and_isr_registers() {
    let v = Virtio::new();
    assert_eq!(v.read_device_config8(3), VirtioIo::Read8 { reg: VIRTIO_REG_DEVICE_CONFIG_BASE + 3 });
    assert_eq!(v.read_isr_status(), VirtioIo::Read8 { reg: VIRTIO_REG_ISR_STATUS });
}

const TX_BUF: u64 = KERNEL_BASE_ADDR + 0x10_0000;
const RX_BUF: u64 = KERNEL_BASE_ADDR + 0x20_0000;

fn net() -> VirtioNet {
    let mut virtio = Virtio::new();
    virtio.init_virtqueues(&[4, 2]);
    VirtioNet::new(
        [1, 2, 3, 4, 5, 6],
        virtio,
        VAddr::new(TX_BUF as usize),
        VAddr::new(RX_BUF as usize),
    )
}

#[test]
fn virtio_net_fills_the_receive_queue() {
    let n = net();
    assert_eq!(n.mac_addr().unwrap().as_array(), [1, 2, 3, 4, 5, 6]);
    assert_eq!(n.name(), "virtio-net");
    let rx = n.virtio().virtq(0);
    // As many receive buffers as the transmit queue has descriptors.
    assert_eq!(rx.avail_index(), 2);
    let d = rx.descs();
    let mut addrs: Vec<u64> = vec![d[rx.avail_ring()[0] as usize].addr, d[rx.avail_ring()[1] as usize].addr];
    addrs.sort();
    assert_eq!(addrs, vec![0x20_0000, 0x20_0000 + PACKET_LEN_MAX as u64]);
    assert!(d[0].is_writable());
    assert_eq!(d[0].len as usize, PACKET_LEN_MAX);
}

#[test]
fn virtio_net_transmit_ring() {
    let mut n = net();
    assert_eq!(n.tx_slot().as_u64(), TX_BUF);
    n.transmit(100).unwrap();
    assert_eq!(n.tx_slot().as_u64(), TX_BUF + PACKET_LEN_MAX as u64);
    let tx = n.virtio().virtq(1);
    assert_eq!(tx.descs()[0].addr, 0x10_0000);
    assert_eq!(tx.descs()[0].len as usize, VIRTIO_NET_HEADER_LEN + 100);
    assert!(!tx.descs()[0].is_writable());
    n.transmit(10).unwrap();
    // The transmit queue has two descriptors and the device returned none.
    assert_eq!(n.transmit(10).unwrap_err().errno(), Errno::ENOMEM);
    // Slots are used in turn over the four slots of the ring.
    assert_eq!(n.tx_slot().as_u64(), TX_BUF + 2 * PACKET_LEN_MAX as u64);
}

#[test]
fn virtio_net_receive_and_requeue() {
    let mut n = net();
    assert!(n.pop_rx(0, VirtqUsedElem { id: 0, len: 0 }).is_none());
    let head = n.virtio().virtq(0).avail_ring()[0];
    let addr = n.virtio().virtq(0).descs()[head as usize].addr;
    let (paddr, len) = n.pop_rx(1, VirtqUsedElem { id: head as u32, len: 70 }).unwrap();
    assert_eq!(paddr.value() as u64, addr);
    assert_eq!(len, 70);
    n.requeue_rx(paddr).unwrap();
    assert_eq!(n.virtio().virtq(0).avail_index(), 3);
}

#[test]
fn virtio_net_with_a_short_receive_queue() {
    let mut virtio = Virtio::new();
    virtio.init_virtqueues(&[2, 4]);
    let n = VirtioNet::new([0; 6], virtio, VAddr::new(TX_BUF as usize), VAddr::new(RX_BUF as usize));
    // Four receive buffers, of which the two-descriptor queue takes two.
    let rx = n.virtio().virtq(0);
    assert_eq!(rx.avail_index(), 2);
    assert_eq!(rx.descs()[0].addr, RX_BUF - KERNEL_BASE_ADDR);
    assert_eq!(rx.descs()[1].addr, RX_BUF + PACKET_LEN_MAX as u64 - KERNEL_BASE_ADDR);
}

#[test]
fn received_frame_follows_the_header() {
    let (addr, len) = VirtioNet::received_frame(PAddr::new(0x1000), 64).unwrap();
    assert_eq!(addr.value(), 0x1000 + VIRTIO_NET_HEADER_LEN);
    assert_eq!(len, 64 - VIRTIO_NET_HEADER_LEN);
    assert!(VirtioNet::received_frame(PAddr::new(0x1000), VIRTIO_NET_HEADER_LEN - 1).is_none());
    let (_, empty) = VirtioNet::received_frame(PAddr::new(0x1000), VIRTIO_NET_HEADER_LEN).unwrap();
    assert_eq!(empty, 0);
}

#[test]
fn decoded_interrupt_status() {
    let both = IsrStatus::decode(3);
    assert!(both.contains(ISR_QUEUE_INTR) && both.contains(ISR_DEVICE_CONFIG_INTR));
    let config = IsrStatus::decode(2);
    assert!(!config.contains(ISR_QUEUE_INTR) && config.contains(ISR_DEVICE_CONFIG_INTR));
    assert!(!IsrStatus::decode(0).contains(ISR_QUEUE_INTR));
    assert_eq!(IsrStatus::decode(1), IsrStatus::from_bits(1).unwrap());
}

#[test]
fn used_slot_wraps_around_the_ring() {
    let mut q = VirtQueue::new(0, 4);
    let one = [VirtqDescBuffer::WritableFromDevice { addr: PAddr::new(0x1000), len: 8 }];
    assert_eq!(q.used_slot(), 0);
    for round in 0..6u16 {
        q.enqueue(&one).unwrap();
        let head = q.avail_ring()[(round % 4) as usize];
        assert_eq!(q.used_slot(), (round % 4) as usize);
        let used = q.pop_used(round + 1, VirtqUsedElem { id: head as u32, len: 8 }).unwrap();
        assert_eq!(used.total_len, 8);
    }
    assert_eq!(q.last_used_index(), 6);
    assert_eq!(q.used_slot(), 2);
}
