use kerla::cpio::{parse_header, parse_hex_field};
use kerla::initramfs::{InitramFs, InitramFsNodeKind};
use kerla::result::Errno;
use kerla::stat::FileType;

fn entry(img: &mut Vec<u8>, ino: u32, mode: u32, name: &str, data: &[u8]) {
    let namesize = name.len() + 1;
    let header = format!(
        "070701{:08x}{:08x}{:08x}{:08x}{:08x}{:08x}{:08x}{:08x}{:08x}{:08x}{:08x}{:08x}{:08x}",
        ino,
        mode,
        0,
        0,
        1,
        0,
        data.len(),
        0,
        0,
        0,
        0,
        namesize,
        0
    );
    img.extend_from_slice(header.as_bytes());
    img.extend_from_slice(name.as_bytes());
    img.push(0);
    while img.len() % 4 != 0 {
        img.push(0);
    }
    img.extend_from_slice(data);
    while img.len() % 4 != 0 {
        img.push(0);
    }
}

fn image() -> Vec<u8> {
    let mut img = Vec::new();
    entry(&mut img, 10, 0o040755, "bin", b"");
    entry(&mut img, 11, 0o100755, "bin/sh", b"echo");
    entry(&mut img, 12, 0o040700, "./etc", b"");
    entry(&mut img, 13, 0o120777, "lib", b"bin");
    entry(&mut img, 14, 0o020666, "tty", b"");
    entry(&mut img, 0, 0, "TRAILER!!!", b"");
    img
}

#[test]
fn hex_fields() {
    assert_eq!(parse_hex_field(b"0000001f", 0, 8), Some(0x1f));
    assert_eq!(parse_hex_field(b"xx00ABcd", 2, 6), Some(0xabcd));
    assert_eq!(parse_hex_field(b"0000001g", 0, 8), None);
    let img = image();
    let h = parse_header(&img, 0).unwrap();
    assert_eq!(h.ino, 10);
    assert_eq!(h.mode, 0o040755);
    assert_eq!(h.namesize, 4);
    assert!(parse_header(b"070702", 0).is_none());
}

#[test]
fn parse_builds_the_tree() {
    let img = image();
    let fs = InitramFs::parse(&img).unwrap();
    let root = fs.root_dir();
    assert_eq!(root, 0);
    assert_eq!(fs.stat(root).inode_no.as_u64(), 2);
    assert!(fs.stat(root).mode.is_directory());
    let bin = fs.lookup(root, b"bin").unwrap();
    assert_eq!(fs.stat(bin).inode_no.as_u64(), 10);
    let sh = fs.lookup(bin, b"sh").unwrap();
    assert!(fs.stat(sh).mode.is_regular_file());
    assert_eq!(fs.read(sh, &img, 0, 100), b"echo".to_vec());
    assert_eq!(fs.read(sh, &img, 1, 2), b"ch".to_vec());
    assert_eq!(fs.read(sh, &img, 4, 2), Vec::<u8>::new());
    assert_eq!(fs.read(sh, &img, 10, 2), Vec::<u8>::new());
    let etc = fs.lookup(root, b"etc").unwrap();
    assert!(fs.stat(etc).mode.is_directory());
    let lib = fs.lookup(root, b"lib").unwrap();
    assert!(fs.stat(lib).mode.is_symbolic_link());
    match &fs.node(lib).kind {
        InitramFsNodeKind::Symlink { dst } => assert_eq!(dst, "bin"),
        _ => panic!("not a link"),
    }
    // Character devices are left out.
    assert_eq!(fs.lookup(root, b"tty").unwrap_err().errno(), Errno::ENOENT);
    assert_eq!(fs.lookup(bin, b"ls").unwrap_err().errno(), Errno::ENOENT);
}

#[test]
fn readdir_lists_each_entry_once() {
    let img = image();
    let fs = InitramFs::parse(&img).unwrap();
    let mut names = Vec::new();
    let mut i = 0;
    while let Some(e) = fs.readdir(0, i) {
        let t = match e.file_type {
            FileType::Directory => "d",
            FileType::Regular => "f",
            FileType::Link => "l",
        };
        names.push(format!("{}:{}", String::from_utf8(e.name.clone()).unwrap(), t));
        i += 1;
    }
    names.sort();
    assert_eq!(names, vec!["bin:d", "etc:d", "lib:l"]);
    assert_eq!(FileType::Directory.as_u8(), 4);
    assert_eq!(FileType::Regular.as_u8(), 8);
    assert_eq!(FileType::Link.as_u8(), 10);
}

#[test]
fn malformed_images_are_refused() {
    let mut bad_magic = image();
    bad_magic[5] = b'2';
    assert!(InitramFs::parse(&bad_magic).is_none());

    let mut missing_parent = Vec::new();
    entry(&mut missing_parent, 1, 0o100644, "a/b", b"x");
    entry(&mut missing_parent, 0, 0, "TRAILER!!!", b"");
    assert!(InitramFs::parse(&missing_parent).is_none());

    let img = image();
    assert!(InitramFs::parse(&img[..img.len() - 20]).is_none());

    let mut no_trailer = Vec::new();
    entry(&mut no_trailer, 1, 0o100644, "a", b"x");
    assert!(InitramFs::parse(&no_trailer).is_none());

    let mut bad_link = Vec::new();
    entry(&mut bad_link, 1, 0o120777, "l", &[0xff, 0xfe]);
    entry(&mut bad_link, 0, 0, "TRAILER!!!", b"");
    assert!(InitramFs::parse(&bad_link).is_none());
}

#[test]
fn later_records_replace_earlier_ones() {
    let mut img = Vec::new();
    entry(&mut img, 1, 0o100644, "f", b"old");
    entry(&mut img, 2, 0o100644, "f", b"new!");
    entry(&mut img, 0, 0, "TRAILER!!!", b"");
    let fs = InitramFs::new(&img);
    let f = fs.lookup(0, b"f").unwrap();
    assert_eq!(fs.stat(f).inode_no.as_u64(), 2);
    assert_eq!(fs.read(f, &img, 0, 10), b"new!".to_vec());
}

#[test]
fn initramfs_is_read_only() {
    let img = image();
    let fs = InitramFs::parse(&img).unwrap();
    let bin = fs.lookup(0, b"bin").unwrap();
    let sh = fs.lookup(bin, b"sh").unwrap();
    assert_eq!(fs.node(sh).filename, b"sh".to_vec());
    assert_eq!(fs.node(bin).filename, b"bin".to_vec());
    assert!(fs.node(0).filename.is_empty());
    assert_eq!(fs.write(sh, 0, b"x").unwrap_err().errno(), Errno::EROFS);
    assert_eq!(
        fs.create_file(bin, "new", kerla::stat::FileMode::new(0o644)).unwrap_err().errno(),
        Errno::EROFS
    );
    assert_eq!(
        fs.create_dir(bin, "new", kerla::stat::FileMode::new(0o755)).unwrap_err().errno(),
        Errno::EROFS
    );
    assert_eq!(fs.link(bin, "new", sh).unwrap_err().errno(), Errno::ENOSYS);
}
