use kerla::address::{VAddr, KERNEL_BASE_ADDR};
use kerla::result::Errno;
use kerla::virtio::{Virtio, VirtqUsedElem, VIRTQ_DESC_F_NEXT, VIRTQ_DESC_F_WRITE};
use kerla::virtio_block::{
    RequestType, VirtioBlk, VirtioBlock, VirtioBlockRequest, BLOCK_REQUEST_HEADER_LEN, MAX_BLK_SIZE,
};
use kerla::virtio_net::VirtioNet;

const REQ_BUF: u64 = KERNEL_BASE_ADDR + 0x10_0000;
const STATUS_BUF: u64 = KERNEL_BASE_ADDR + 0x20_0000;
const READ_BUF: u64 = KERNEL_BASE_ADDR + 0x30_0000;

fn block(num_descs: u16) -> VirtioBlock {
    let mut virtio = Virtio::new();
    virtio.init_virtqueues(&[num_descs]);
    VirtioBlock::new(
        virtio,
        VAddr::new(REQ_BUF as usize),
        VAddr::new(STATUS_BUF as usize),
        VAddr::new(READ_BUF as usize),
    )
}

#[test]
fn request_header_bytes() {
    let req = VirtioBlockRequest { type_: 1, reserved: 0, sector: 0x0102_0304_0506_0708 };
    assert_eq!(req.to_bytes(), vec![1, 0, 0, 0, 0, 0, 0, 0, 8, 7, 6, 5, 4, 3, 2, 1]);
    assert_eq!(req.to_bytes().len(), BLOCK_REQUEST_HEADER_LEN);
    assert_eq!(RequestType::Read.code(), 0);
    assert_eq!(RequestType::Write.code(), 1);
}

#[test]
fn buffer_page_counts() {
    assert_eq!(VirtioBlock::buffer_pages(8), (1, 2, 2));
    assert_eq!(VirtioBlock::buffer_pages(0), (0, 1, 1));
    assert_eq!(VirtioBlock::buffer_pages(16), (2, 3, 3));
    assert_eq!(VirtioBlk::buffer_pages(9), 2);
    assert_eq!(VirtioNet::buffer_pages(2), 1);
    assert_eq!(VirtioNet::buffer_pages(3), 2);
}

#[test]
fn block_write_queues_header_data_and_status() {
    let mut b = block(4);
    let slot = b.write_to_device(7, &[0u8; 512]).unwrap();
    assert_eq!(slot.addr.value() as u64, REQ_BUF);
    assert_eq!(slot.request, VirtioBlockRequest { type_: 1, reserved: 0, sector: 7 });
    let q = b.virtio().virtq(0);
    let d = q.descs();
    assert_eq!(d[0].addr, REQ_BUF - KERNEL_BASE_ADDR);
    assert_eq!(d[0].len, 16);
    assert_eq!(d[0].flags, VIRTQ_DESC_F_NEXT);
    assert_eq!(d[1].addr, READ_BUF + 2 - KERNEL_BASE_ADDR);
    assert_eq!(d[1].len, 512);
    assert_eq!(d[1].flags, VIRTQ_DESC_F_NEXT);
    assert_eq!(d[2].addr, STATUS_BUF + 1 - KERNEL_BASE_ADDR);
    assert_eq!(d[2].len, 1);
    assert_eq!(d[2].flags, VIRTQ_DESC_F_WRITE);
    assert_eq!(q.avail_index(), 1);
    // The slot counter stays where it is: the next write uses slot 0 again,
    // and one descriptor is not enough for it.
    assert_eq!(b.write_to_device(8, &[1u8; 4]).unwrap_err().errno(), Errno::ENOMEM);
}

#[test]
fn block_without_used_chains() {
    let mut b = block(4);
    assert!(!b.handle_used(0, VirtqUsedElem { id: 0, len: 0 }));
    assert_eq!(b.virtio().virtq(0).last_used_index(), 0);
}

#[test]
fn blk_request_carries_header_and_frame() {
    let mut virtio = Virtio::new();
    virtio.init_virtqueues(&[2]);
    let mut b = VirtioBlk::new(virtio, VAddr::new(REQ_BUF as usize));
    let (addr, bytes) = b.request_to_device(RequestType::Write, 3, &[9, 9]).unwrap();
    assert_eq!(addr.value() as u64, REQ_BUF + MAX_BLK_SIZE as u64);
    assert_eq!(bytes, vec![1, 0, 0, 0, 0, 0, 0, 0, 3, 0, 0, 0, 0, 0, 0, 0, 9, 9]);
    let (_, read) = b.request_to_device(RequestType::Read, 1, &[]).unwrap();
    assert_eq!(read, vec![0, 0, 0, 0, 0, 0, 0, 0, 1, 0, 0, 0, 0, 0, 0, 0]);
    assert_eq!(
        b.request_to_device(RequestType::Read, 2, &[]).unwrap_err().errno(),
        Errno::ENOMEM
    );
    b.handle_irq();
}
