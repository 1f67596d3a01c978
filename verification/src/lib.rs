//! Verified core of the Kerla kernel: address arithmetic, file descriptor
//! tables, virtqueues, path handling and the initramfs (cpio) parser.

pub mod result;
pub mod address;
pub mod opened_file;
pub mod virtio;
pub mod stat;
pub mod components;
pub mod cpio;
pub mod initramfs;
pub mod path;
pub mod driver;
pub mod ext2;
pub mod devfs;
pub mod metrics;
pub mod probe;
pub mod semihosting;
pub mod virtio_net;
pub mod vfs;
pub mod thread;
pub mod interrupt;
pub mod serial;
pub mod tmpfs;
pub mod multiboot;
pub mod page_table;
pub mod virtio_block;
pub mod epoll;
pub mod tty;
pub mod backtrace;
