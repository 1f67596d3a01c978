use kerla::result::Errno;
use kerla::stat::{FileMode, FileType, INodeNo, S_IFREG};
use kerla::tmpfs::{TmpFs, TmpFsINode};

#[test]
fn root_directory() {
    let fs = TmpFs::new();
    let root = fs.root_tmpfs_dir();
    let st = fs.stat(root).unwrap();
    assert_eq!(st.inode_no.as_u64(), 1);
    assert!(st.mode.is_directory());
    assert!(fs.readdir(root, 0).unwrap().is_none());
    assert_eq!(fs.lookup(root, "x").unwrap_err().errno(), Errno::ENOENT);
}

#[test]
fn create_and_lookup() {
    let mut fs = TmpFs::new();
    let root = fs.root_tmpfs_dir();
    let f = fs.create_file(root, "a.txt", FileMode::new(S_IFREG | 0o600)).unwrap();
    assert_eq!(fs.lookup(root, "a.txt").unwrap(), f);
    assert_eq!(
        fs.create_file(root, "a.txt", FileMode::new(S_IFREG)).unwrap_err().errno(),
        Errno::EEXIST
    );
    let d = match fs.create_dir(root, "sub", FileMode::new(0o755)).unwrap() {
        TmpFsINode::Directory(d) => d,
        other => panic!("unexpected {:?}", other),
    };
    // Inode numbers are given in turn from 2 on.
    match f {
        TmpFsINode::File(i) => {
            let st = fs.file_stat(i).unwrap();
            assert_eq!(st.inode_no.as_u64(), 2);
            assert_eq!(st.mode, FileMode::new(S_IFREG | 0o644));
        },
        _ => panic!("not a file"),
    }
    assert_eq!(fs.stat(d).unwrap().inode_no.as_u64(), 3);
    let g = fs.create_file(d, "b", FileMode::new(S_IFREG)).unwrap();
    assert_eq!(fs.lookup(d, "b").unwrap(), g);
    assert_eq!(fs.lookup(root, "b").unwrap_err().errno(), Errno::ENOENT);
    // A name that is taken gives EEXIST and the entry stays.
    assert_eq!(fs.create_dir(root, "sub", FileMode::new(0o755)).unwrap_err().errno(), Errno::EEXIST);
    assert_eq!(fs.lookup(root, "sub").unwrap(), TmpFsINode::Directory(d));
    let d2 = fs.create_dir(root, "sub2", FileMode::new(0o755)).unwrap();
    assert_eq!(fs.lookup(root, "sub2").unwrap(), d2);
}

#[test]
fn add_dir_add_file_and_link() {
    let mut fs = TmpFs::new();
    let root = fs.root_tmpfs_dir();
    let pts = fs.add_dir(root, "pts");
    assert_eq!(fs.lookup(root, "pts").unwrap(), TmpFsINode::Directory(pts));
    let null = fs.add_file(root, "null", INodeNo::new(77));
    assert_eq!(fs.lookup(root, "null").unwrap(), TmpFsINode::Device(null));
    fs.link(pts, "again", TmpFsINode::Device(null)).unwrap();
    assert_eq!(fs.lookup(pts, "again").unwrap(), TmpFsINode::Device(null));

    let mut names = Vec::new();
    let mut i = 0;
    while let Some(e) = fs.readdir(root, i).unwrap() {
        let t = if e.file_type == FileType::Directory { "d" } else { "f" };
        names.push(format!("{}:{}:{}", String::from_utf8(e.name.clone()).unwrap(), t, e.inode_no.as_u64()));
        i += 1;
    }
    names.sort();
    assert_eq!(names, vec!["null:f:77", "pts:d:2"]);
}

#[test]
fn read_gives_back_what_was_written() {
    let mut fs = TmpFs::new();
    let root = fs.root_tmpfs_dir();
    let f = match fs.create_file(root, "f", FileMode::new(S_IFREG)).unwrap() {
        TmpFsINode::File(f) => f,
        _ => panic!(),
    };
    assert_eq!(fs.read(f, 0, 10), Vec::<u8>::new());
    assert_eq!(fs.write(f, 0, b"hello world").unwrap(), 11);
    assert_eq!(fs.read(f, 0, 100), b"hello world".to_vec());
    assert_eq!(fs.read(f, 6, 3), b"wor".to_vec());
    assert_eq!(fs.read(f, 11, 3), Vec::<u8>::new());
    assert_eq!(fs.read(f, 12, 3), Vec::<u8>::new());
    // Writing past the end fills the gap with zeros.
    fs.write(f, 13, b"!").unwrap();
    assert_eq!(fs.read(f, 0, 100), b"hello world\0\0!".to_vec());
    // A write ends the file right after the written bytes.
    fs.write(f, 2, b"XY").unwrap();
    assert_eq!(fs.read(f, 0, 100), b"heXY".to_vec());
    assert_eq!(fs.read(f, 2, 2), b"XY".to_vec());
}
