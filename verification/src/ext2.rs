//! The ext2 file system, over a block device.
use vstd::prelude::*;
use crate::result::Error;

verus! {

/// A block device: reads and writes at a byte offset (`lba`).
pub trait Disk {
    /// Reads into `buf` from `lba` on; returns how many bytes were read.
    fn read_block(&mut self, lba: usize, buf: &mut [u8]) -> Result<usize, Error>;

    /// Writes `buf` from `lba` on; returns how many bytes were written.
    fn write_block(&mut self, lba: usize, buf: &[u8]) -> Result<usize, Error>;
}

/// An ext2 file system on the disk `D`.
pub struct Ext2Fs<D: Disk> {
    disk: D,
}

impl<D: Disk> Ext2Fs<D> {
    /// The disk under the file system.
    pub closed spec fn spec_disk(&self) -> D {
        self.disk
    }

    pub fn new(disk: D) -> (r: Ext2Fs<D>)
        ensures
            r.spec_disk() == disk,
    {
        Ext2Fs { disk }
    }

    /// The disk under the file system.
    pub fn disk(&self) -> (r: &D)
        ensures
            *r == self.spec_disk(),
    {
        &self.disk
    }

    /// The disk under the file system, to read and write blocks through.
    pub fn disk_mut(&mut self) -> (r: &mut D)
        ensures
            *r == old(self).spec_disk(),
            final(self).spec_disk() == *final(r),
    {
        &mut self.disk
    }
}

} // verus!
