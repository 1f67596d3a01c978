use kerla::ext2::{Disk, Ext2Fs};
use kerla::result::Error;

struct PseudoDisk {
    mem_disk: Vec<u8>,
}

impl PseudoDisk {
    /// memory-based disk block with a size of 1MB
    const DEFAULT_DISK_SIZE: usize = 1024 * 1024;

    pub fn new() -> PseudoDisk {
        PseudoDisk {
            mem_disk: vec![0u8; PseudoDisk::DEFAULT_DISK_SIZE],
        }
    }
}

impl Disk for PseudoDisk {
    fn read_block(&mut self, lba: usize, buf: &mut [u8]) -> Result<usize, Error> {
        let disk_data = &self.mem_disk;

        let mut real_read_len = buf.len();
        if lba + buf.len() > disk_data.len() {
            real_read_len = disk_data.len() - lba;
        }
        buf[..real_read_len].copy_from_slice(&disk_data[lba..lba + real_read_len]);
        Ok(real_read_len)
    }

    fn write_block(&mut self, lba: usize, buf: &[u8]) -> Result<usize, Error> {
        let disk_len = self.mem_disk.len();
        let write_data = Vec::from(buf);

        let mut write_len = buf.len();
        if buf.len() + lba > disk_len {
            write_len = disk_len - lba;
        }
        self.mem_disk.splice(lba..lba + write_len, write_data);
        Ok(write_len)
    }
}

struct Test {
    data: Vec<u8>,
    lba: usize,
    write_len: usize,
    read_len: usize,
    read_result: Vec<u8>,
}

#[test]
fn test() -> Result<(), Error> {
    let tests = vec![
        Test {
            data: vec![1u8, 2, 3, 4, 5],
            lba: 0,
            write_len: 5,
            read_len: 5,
            read_result: vec![1u8, 2, 3, 4, 5],
        },
        Test {
            data: vec![2u8, 12, 32, 32, 32],
            lba: 1024 * 1024 - 3,
            write_len: 3,
            read_len: 3,
            read_result: vec![2u8, 12, 32],
        },
    ];
    let pseudo_disk = PseudoDisk::new();
    let mut ext2 = Ext2Fs::new(pseudo_disk);

    for test in tests {
        let lba = test.lba;
        let data = test.data;

        // check write
        let write_len = ext2.disk_mut().write_block(lba.clone(), data.as_slice())?;
        assert_eq!(write_len, test.write_len);

        // check read
        let mut read_data = vec![0u8; test.read_result.len()];
        let read_len = ext2.disk_mut().read_block(test.lba, &mut read_data)?;
        assert_eq!(read_len, test.read_len);

        // check result
        assert_eq!(read_data, test.read_result)
    }

    Ok(())
}

#[test]
fn ext2_disk_is_the_one_given() {
    let mut ext2 = Ext2Fs::new(PseudoDisk::new());
    ext2.disk_mut().write_block(10, &[7, 8]).unwrap();
    assert_eq!(ext2.disk().mem_disk[10], 7);
    assert_eq!(ext2.disk().mem_disk[11], 8);
    assert_eq!(ext2.disk().mem_disk.len(), 1024 * 1024);
}
