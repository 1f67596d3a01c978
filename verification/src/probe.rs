//! Which devices the virtio drivers take: the checks made on a PCI device's
//! identifiers and on the registers of a virtio-over-MMIO device.
use vstd::prelude::*;
use crate::result::{Errno, Error};

verus! {

/// The PCI vendor id of virtio devices.
pub const VIRTIO_PCI_VENDOR_ID: u16 = 0x1af4;

/// The value of the first register of a virtio-over-MMIO device ("virt").
pub const VIRTIO_MMIO_MAGIC: u32 = 0x74726976;

/// The virtio-over-MMIO version the drivers support.
pub const VIRTIO_MMIO_VERSION: u32 = 2;

/// The virtio device id of a network card.
pub const VIRTIO_DEVICE_ID_NET: u32 = 1;

/// The virtio device id of a block device.
pub const VIRTIO_DEVICE_ID_BLOCK: u32 = 2;

/// What the registers of a virtio-over-MMIO device say about it.
#[derive(Clone, Copy, Debug, PartialEq, Eq, Structural)]
pub enum MmioProbe {
    /// The magic value is wrong: not a virtio device.
    NotVirtio,
    /// A virtio device of a version that is not supported.
    UnsupportedVersion,
    /// A virtio device of another kind.
    OtherDevice,
    /// The device the driver is looking for.
    Found,
}

/// The outcome of the MMIO checks, made in the drivers' order: magic, then
/// version, then device id.
pub open spec fn spec_mmio_probe(magic: u32, version: u32, device_id: u32, wanted: u32) -> MmioProbe {
    if magic != VIRTIO_MMIO_MAGIC {
        MmioProbe::NotVirtio
    } else if version != VIRTIO_MMIO_VERSION {
        MmioProbe::UnsupportedVersion
    } else if device_id != wanted {
        MmioProbe::OtherDevice
    } else {
        MmioProbe::Found
    }
}

/// Checks the three identifying registers of a virtio-over-MMIO device
/// against the device id `wanted`.
pub fn mmio_probe(magic: u32, version: u32, device_id: u32, wanted: u32) -> (r: MmioProbe)
    ensures
        r == spec_mmio_probe(magic, version, device_id, wanted),
{
    if magic != VIRTIO_MMIO_MAGIC {
        MmioProbe::NotVirtio
    } else if version != VIRTIO_MMIO_VERSION {
        MmioProbe::UnsupportedVersion
    } else if device_id != wanted {
        MmioProbe::OtherDevice
    } else {
        MmioProbe::Found
    }
}

/// Finds virtio-blk devices.
pub struct VirtioBlkProber {}

impl VirtioBlkProber {
    pub fn new() -> (r: VirtioBlkProber) {
        VirtioBlkProber {}
    }

    /// Whether probing goes on with this PCI device: it stops only for a
    /// virtio device whose id is not the block device's.
    pub fn pci_device_matches(&self, vendor_id: u16, device_id: u16) -> (r: bool)
        ensures
            r == !(vendor_id == VIRTIO_PCI_VENDOR_ID && device_id != 0x1042),
    {
        !(vendor_id == VIRTIO_PCI_VENDOR_ID && device_id != 0x1042)
    }

    /// The MMIO checks for a block device.
    pub fn mmio_probe(&self, magic: u32, version: u32, device_id: u32) -> (r: MmioProbe)
        ensures
            r == spec_mmio_probe(magic, version, device_id, VIRTIO_DEVICE_ID_BLOCK),
    {
        mmio_probe(magic, version, device_id, VIRTIO_DEVICE_ID_BLOCK)
    }
}

/// Finds virtio block devices, modern or legacy.
pub struct VirtioBlockProber {}

impl VirtioBlockProber {
    pub fn new() -> (r: VirtioBlockProber) {
        VirtioBlockProber {}
    }

    /// Whether this PCI device is a virtio block device: the virtio vendor
    /// and either the modern (0x1042) or the legacy (0x1001) device id.
    pub fn pci_device_matches(&self, vendor_id: u16, device_id: u16) -> (r: bool)
        ensures
            r == (vendor_id == VIRTIO_PCI_VENDOR_ID && (device_id == 0x1042 || device_id == 0x1001)),
    {
        if vendor_id != VIRTIO_PCI_VENDOR_ID {
            return false;
        }
        device_id == 0x1040 + 2 || device_id == 0x1001
    }

    /// The MMIO checks for a block device.
    pub fn mmio_probe(&self, magic: u32, version: u32, device_id: u32) -> (r: MmioProbe)
        ensures
            r == spec_mmio_probe(magic, version, device_id, VIRTIO_DEVICE_ID_BLOCK),
    {
        mmio_probe(magic, version, device_id, VIRTIO_DEVICE_ID_BLOCK)
    }
}

/// How BAR#0 of a PCI device is mapped.
#[derive(Clone, Copy, Debug, PartialEq, Eq, Structural)]
pub enum Bar {
    /// I/O ports from `port` on.
    IOMapped { port: u16 },
    /// Memory from `paddr` on.
    MemoryMapped { paddr: u64 },
}

/// Finds virtio-net devices.
pub struct VirtioNetBuilder {}

impl VirtioNetBuilder {
    pub fn new() -> (r: VirtioNetBuilder) {
        VirtioNetBuilder {}
    }

    /// The checks made before a PCI device is attached over I/O ports: the
    /// device is refused (`EINVAL`) when neither its vendor id is virtio's
    /// nor its device id is 0x1000, or when BAR#0 is not I/O-mapped; else
    /// the I/O port base is returned.
    pub fn check_pci(&self, vendor_id: u16, device_id: u16, bar0: Bar) -> (r: Result<u16, Error>)
        ensures
            vendor_id != VIRTIO_PCI_VENDOR_ID && device_id != 0x1000 ==> r == Err::<u16, Error>(
                Error { errno: Errno::EINVAL },
            ),
            !(vendor_id != VIRTIO_PCI_VENDOR_ID && device_id != 0x1000) ==> r == (match bar0 {
                Bar::IOMapped { port } => Ok::<u16, Error>(port),
                Bar::MemoryMapped { .. } => Err::<u16, Error>(Error { errno: Errno::EINVAL }),
            }),
    {
        if vendor_id != VIRTIO_PCI_VENDOR_ID && device_id != 0x1000 {
            return Err(Error::new(Errno::EINVAL));
        }
        match bar0 {
            Bar::IOMapped { port } => Ok(port),
            Bar::MemoryMapped { .. } => Err(Error::new(Errno::EINVAL)),
        }
    }

    /// Whether probing goes on with this PCI device: it stops only for a
    /// virtio device whose id is not the network card's (0x1041).
    pub fn pci_device_matches(&self, vendor_id: u16, device_id: u16) -> (r: bool)
        ensures
            r == !(vendor_id == VIRTIO_PCI_VENDOR_ID && device_id != 0x1041),
    {
        !(vendor_id == VIRTIO_PCI_VENDOR_ID && device_id != 0x1040 + 1)
    }

    /// The MMIO checks for a network card.
    pub fn mmio_probe(&self, magic: u32, version: u32, device_id: u32) -> (r: MmioProbe)
        ensures
            r == spec_mmio_probe(magic, version, device_id, VIRTIO_DEVICE_ID_NET),
    {
        mmio_probe(magic, version, device_id, VIRTIO_DEVICE_ID_NET)
    }
}

} // verus!
