use kerla::path::Path;
use kerla::result::Errno;
use kerla::stat::{FileMode, S_IFDIR, S_IFLNK, S_IFREG};
use kerla::opened_file::{Fd, OpenFlags, OpenOptions, OpenedFileTable, O_CLOEXEC, O_NONBLOCK};
use kerla::vfs::{prepare_root_fs, CwdOrFd, OpenedFile, DirLink, FsGraph, FsNode, INode, PathComponent, RootFs};

fn dir(inode_no: usize, entries: Vec<(&str, INode)>) -> FsNode {
    FsNode {
        inode_no,
        entries: entries
            .into_iter()
            .map(|(name, inode)| DirLink { name: name.to_string(), inode })
            .collect(),
        link_target: String::new(),
        mode: Some(FileMode::new(S_IFDIR | 0o755)),
    }
}

fn file(inode_no: usize) -> FsNode {
    FsNode { inode_no, entries: Vec::new(), link_target: String::new(), mode: Some(FileMode::new(S_IFREG | 0o644)) }
}

fn symlink(inode_no: usize, target: &str) -> FsNode {
    FsNode {
        inode_no,
        entries: Vec::new(),
        link_target: target.to_string(),
        mode: Some(FileMode::new(S_IFLNK | 0o777)),
    }
}

/// / (node 0): dev/ tmp/ bin/ etc/ link_bin -> /bin, loop -> loop,
/// rel -> bin/sh, file; bin/sh; etc/bad -> ""; a second file system whose
/// root (node 10) holds `null`.
fn graph() -> FsGraph {
    FsGraph {
        nodes: vec![
            dir(
                2,
                vec![
                    ("dev", INode::Directory(1)),
                    ("tmp", INode::Directory(2)),
                    ("bin", INode::Directory(3)),
                    ("etc", INode::Directory(5)),
                    ("link_bin", INode::Symlink(6)),
                    ("loop", INode::Symlink(7)),
                    ("rel", INode::Symlink(8)),
                    ("file", INode::FileLike(9)),
                ],
            ),
            dir(10, vec![]),
            dir(11, vec![]),
            dir(12, vec![("sh", INode::FileLike(4))]),
            file(13),
            dir(14, vec![("bad", INode::Symlink(11))]),
            symlink(16, "/bin"),
            symlink(17, "loop"),
            symlink(18, "bin/sh"),
            file(15),
            dir(1, vec![("null", INode::FileLike(12))]),
            symlink(19, ""),
            file(20),
        ],
    }
}

fn abs(fs: &RootFs, g: &FsGraph, path: &str) -> String {
    fs.lookup_path(g, Path::new(path), true)
        .unwrap()
        .resolve_absolute_path()
        .as_path()
        .as_str()
        .to_string()
}

#[test]
fn plain_lookups() {
    let g = graph();
    let fs = RootFs::new(0);
    assert_eq!(fs.lookup(&g, Path::new("/bin/sh")).unwrap(), INode::FileLike(4));
    assert_eq!(fs.lookup(&g, Path::new("bin/sh")).unwrap(), INode::FileLike(4));
    assert_eq!(fs.lookup(&g, Path::new("/")).unwrap(), INode::Directory(0));
    assert_eq!(fs.lookup(&g, Path::new(".")).unwrap(), INode::Directory(0));
    assert_eq!(fs.lookup(&g, Path::new("/bin/./sh")).unwrap(), INode::FileLike(4));
    assert_eq!(fs.lookup(&g, Path::new("/bin/..")).unwrap(), INode::Directory(0));
    assert_eq!(fs.lookup(&g, Path::new("/..")).unwrap(), INode::Directory(0));
    assert_eq!(fs.lookup(&g, Path::new("/bin/../bin/sh")).unwrap(), INode::FileLike(4));
    assert_eq!(abs(&fs, &g, "/bin/sh"), "/bin/sh");
    assert_eq!(abs(&fs, &g, "/"), "/");
    assert_eq!(abs(&fs, &g, "/bin/../tmp"), "/tmp");
}

#[test]
fn lookup_errors() {
    let g = graph();
    let fs = RootFs::new(0);
    assert_eq!(fs.lookup(&g, Path::new("")).unwrap_err().errno(), Errno::ENOENT);
    assert_eq!(fs.lookup(&g, Path::new("/missing")).unwrap_err().errno(), Errno::ENOENT);
    assert_eq!(fs.lookup(&g, Path::new("/file/x")).unwrap_err().errno(), Errno::ENOTDIR);
    assert_eq!(fs.lookup(&g, Path::new("/file/.")).unwrap_err().errno(), Errno::ENOTDIR);
    assert_eq!(fs.lookup(&g, Path::new("/loop")).unwrap_err().errno(), Errno::ELOOP);
    assert_eq!(fs.lookup(&g, Path::new("/loop/x")).unwrap_err().errno(), Errno::ELOOP);
    assert_eq!(fs.lookup(&g, Path::new("/etc/bad")).unwrap_err().errno(), Errno::ENOENT);
    assert_eq!(fs.lookup(&g, Path::new("/etc/bad/x")).unwrap_err().errno(), Errno::ENOENT);
}

#[test]
fn symbolic_links() {
    let g = graph();
    let fs = RootFs::new(0);
    assert_eq!(fs.lookup(&g, Path::new("/link_bin/sh")).unwrap(), INode::FileLike(4));
    assert_eq!(abs(&fs, &g, "/link_bin/sh"), "/bin/sh");
    assert_eq!(fs.lookup(&g, Path::new("/rel")).unwrap(), INode::FileLike(4));
    assert_eq!(fs.lookup(&g, Path::new("/link_bin")).unwrap(), INode::Directory(3));
    assert_eq!(
        fs.lookup_no_symlink_follow(&g, Path::new("/rel")).unwrap(),
        INode::Symlink(8)
    );
    assert_eq!(
        fs.lookup_no_symlink_follow(&g, Path::new("/link_bin/sh")).unwrap(),
        INode::FileLike(4)
    );
    // A link in the middle is followed even when the last one is not, and
    // so is every link its target ends on: a link to itself runs out of
    // the follow limit.
    assert_eq!(
        fs.lookup_inode(&g, Path::new("/loop/x"), false).unwrap_err().errno(),
        Errno::ELOOP
    );
    assert_eq!(fs.lookup_inode(&g, Path::new("/loop/x"), true).unwrap_err().errno(), Errno::ELOOP);
}

#[test]
fn files_and_directories() {
    let g = graph();
    let fs = RootFs::new(0);
    assert_eq!(fs.lookup_file(&g, Path::new("/bin/sh")).unwrap(), 4);
    assert_eq!(fs.lookup_file(&g, Path::new("/bin")).unwrap_err().errno(), Errno::EISDIR);
    assert_eq!(fs.lookup_dir(&g, Path::new("/bin")).unwrap(), 3);
    assert_eq!(fs.lookup_dir(&g, Path::new("/bin/sh")).unwrap_err().errno(), Errno::EISDIR);
    assert_eq!(fs.lookup_dir(&g, Path::new("/nope")).unwrap_err().errno(), Errno::ENOENT);
}

#[test]
fn mount_points() {
    let g = graph();
    let mut fs = RootFs::new(0);
    assert_eq!(fs.lookup(&g, Path::new("/dev/null")).unwrap_err().errno(), Errno::ENOENT);
    // /dev has the inode number 10; the mounted file system's root is node 10.
    fs.mount(10, 10).unwrap();
    assert_eq!(fs.lookup(&g, Path::new("/dev/null")).unwrap(), INode::FileLike(12));
    assert_eq!(fs.lookup(&g, Path::new("/dev")).unwrap(), INode::Directory(10));
}

#[test]
fn current_directory() {
    let g = graph();
    let mut fs = RootFs::new(0);
    assert_eq!(fs.lookup(&g, Path::new("sh")).unwrap_err().errno(), Errno::ENOENT);
    fs.chdir(&g, Path::new("/bin")).unwrap();
    assert_eq!(fs.lookup(&g, Path::new("sh")).unwrap(), INode::FileLike(4));
    assert_eq!(fs.lookup(&g, Path::new("/bin/sh")).unwrap(), INode::FileLike(4));
    assert_eq!(fs.cwd_path().resolve_absolute_path().as_path().as_str(), "/bin");
    assert_eq!(fs.lookup(&g, Path::new("..")).unwrap(), INode::Directory(0));
    assert_eq!(fs.chdir(&g, Path::new("/none")).unwrap_err().errno(), Errno::ENOENT);
    assert_eq!(fs.cwd_path().resolve_absolute_path().as_path().as_str(), "/bin");
    // The current directory may be a file; names under it then give EBADF.
    fs.chdir(&g, Path::new("/file")).unwrap();
    assert_eq!(fs.lookup(&g, Path::new("x")).unwrap_err().errno(), Errno::EBADF);
    assert_eq!(fs.lookup(&g, Path::new(".")).unwrap(), INode::FileLike(9));
}

#[test]
fn absolute_lookup_ignores_cwd_law() {
    let g = graph();
    let a = RootFs::new(0);
    let mut b = RootFs::new(0);
    b.chdir(&g, Path::new("/etc")).unwrap();
    for p in ["/bin/sh", "/link_bin", "/missing", "/loop", "/"] {
        assert_eq!(
            a.lookup(&g, Path::new(p)).map_err(|e| e.errno()),
            b.lookup(&g, Path::new(p)).map_err(|e| e.errno())
        );
    }
}

#[test]
fn inode_helpers() {
    assert!(INode::FileLike(1).is_file());
    assert!(!INode::FileLike(1).is_dir());
    assert!(INode::Directory(1).is_dir());
    assert_eq!(INode::FileLike(3).as_file().unwrap(), 3);
    assert_eq!(INode::Directory(3).as_file().unwrap_err().errno(), Errno::EBADF);
    assert_eq!(INode::Directory(4).as_dir().unwrap(), 4);
    assert_eq!(INode::Symlink(4).as_dir().unwrap_err().errno(), Errno::EBADF);
    let anon = PathComponent::new_anonymous(INode::FileLike(1));
    assert_eq!(anon.name, "anon");
    assert_eq!(anon.resolve_absolute_path().as_path().as_str(), "/");
    let copy = anon.duplicate();
    assert_eq!(copy.inode, INode::FileLike(1));
}

/// / (node 0): dev/ tmp/ sbin/init; the devfs root (node 5) holds
/// `console`, the tmpfs root is node 7.
fn boot_graph() -> FsGraph {
    FsGraph {
        nodes: vec![
            dir(2, vec![("dev", INode::Directory(1)), ("tmp", INode::Directory(2)), ("sbin", INode::Directory(3))]),
            dir(10, vec![]),
            dir(11, vec![]),
            dir(12, vec![("init", INode::FileLike(4))]),
            file(13),
            dir(1, vec![("console", INode::FileLike(6))]),
            file(3),
            dir(1, vec![]),
        ],
    }
}

#[test]
fn root_fs_at_boot() {
    let g = boot_graph();
    let (fs, console, exe) = prepare_root_fs(&g, 0, 5, 7, "/sbin/init").unwrap();
    assert_eq!(console.inode, INode::FileLike(6));
    assert_eq!(console.resolve_absolute_path().as_path().as_str(), "/dev/console");
    assert_eq!(exe.inode, INode::FileLike(4));
    assert_eq!(fs.lookup(&g, Path::new("/tmp")).unwrap(), INode::Directory(7));
    assert_eq!(
        prepare_root_fs(&g, 0, 5, 7, "/bin/sh").err().unwrap().errno(),
        Errno::ENOENT
    );
    // Without a console in the devfs root.
    assert_eq!(
        prepare_root_fs(&g, 0, 7, 7, "/sbin/init").err().unwrap().errno(),
        Errno::ENOENT
    );
    // `/dev` must be a directory.
    assert_eq!(
        prepare_root_fs(&g, 3, 5, 7, "/sbin/init").err().unwrap().errno(),
        Errno::ENOENT
    );
}

#[test]
fn readlink_and_fsync() {
    let g = graph();
    assert_eq!(INode::Symlink(6).readlink(&g).unwrap().as_path().as_str(), "/bin");
    assert_eq!(INode::FileLike(4).readlink(&g).err().unwrap().errno(), Errno::EINVAL);
    assert_eq!(INode::Directory(0).readlink(&g).err().unwrap().errno(), Errno::EINVAL);
    assert!(INode::Directory(0).fsync().is_ok());
}

#[test]
fn lookups_at_a_descriptor() {
    let g = graph();
    let fs = RootFs::new(0);
    let bin = fs.lookup_path(&g, Path::new("/bin"), true).ok().unwrap();
    let mut files: OpenedFileTable<PathComponent> = OpenedFileTable::new();
    let fd = files.open(bin, OpenOptions::empty()).unwrap();
    let at = |c: &CwdOrFd, p: &str| {
        fs.lookup_path_at(&g, &files, c, Path::new(p), true).map(|pc| pc.inode).map_err(|e| e.errno())
    };
    assert_eq!(at(&CwdOrFd::Fd(fd), "sh"), Ok(INode::FileLike(4)));
    assert_eq!(at(&CwdOrFd::AtCwd, "sh"), Err(Errno::ENOENT));
    assert_eq!(at(&CwdOrFd::AtCwd, "bin/sh"), Ok(INode::FileLike(4)));
    // An absolute path ignores the descriptor, even a bad one.
    assert_eq!(at(&CwdOrFd::Fd(Fd::new(9)), "/bin/sh"), Ok(INode::FileLike(4)));
    assert_eq!(at(&CwdOrFd::Fd(Fd::new(9)), "sh"), Err(Errno::EBADF));
}

#[test]
fn opened_file_position_and_flags() {
    let g = graph();
    let fs = RootFs::new(0);
    let sh = fs.lookup_path(&g, Path::new("/bin/sh"), true).ok().unwrap();
    let mut f = OpenedFile::new(sh, OpenOptions::empty(), 0);
    assert_eq!(f.as_file().unwrap(), 4);
    assert_eq!(f.as_dir().unwrap_err().errno(), Errno::EBADF);
    assert_eq!(f.transferred(Ok(10)).unwrap(), 10);
    assert_eq!(f.pos(), 10);
    assert_eq!(f.transferred(Err(kerla::result::Error::new(Errno::EFAULT))).unwrap_err().errno(), Errno::EFAULT);
    assert_eq!(f.pos(), 10);
    f.set_flags(OpenFlags::from_bits_truncate(O_NONBLOCK)).unwrap();
    assert!(f.options().nonblock);
    assert!(!f.options().close_on_exec);
    f.set_flags(OpenFlags::from_bits_truncate(O_CLOEXEC)).unwrap();
    assert!(!f.options().close_on_exec);
    f.set_cloexec(true);
    assert!(f.options().close_on_exec && f.options().nonblock);
    assert!(f.fsync().is_ok());

    let root = fs.lookup_path(&g, Path::new("/"), true).ok().unwrap();
    let mut d = OpenedFile::new(root, OpenOptions::empty(), usize::MAX);
    assert_eq!(d.as_dir().unwrap(), 0);
    d.next_entry();
    assert_eq!(d.pos(), 0);
    assert_eq!(d.path().resolve_absolute_path().as_path().as_str(), "/");
}

#[test]
fn link_to_a_link_in_the_middle_of_a_path() {
    // / (node 0): a -> b, b -> d, d/x
    let g = FsGraph {
        nodes: vec![
            dir(2, vec![("a", INode::Symlink(1)), ("b", INode::Symlink(2)), ("d", INode::Directory(3))]),
            symlink(3, "b"),
            symlink(4, "d"),
            dir(5, vec![("x", INode::FileLike(4))]),
            file(6),
        ],
    };
    let fs = RootFs::new(0);
    for follow in [false, true] {
        let pc = fs.lookup_path(&g, Path::new("a/x"), follow).ok().unwrap();
        assert_eq!(pc.name, "x");
        assert_eq!(pc.inode, INode::FileLike(4));
    }
    assert_eq!(fs.lookup_inode(&g, Path::new("a"), false).unwrap(), INode::Symlink(1));
    assert_eq!(fs.lookup_inode(&g, Path::new("a"), true).unwrap(), INode::Directory(3));
}

#[test]
fn parent_lookups_at_a_descriptor() {
    let g = graph();
    let fs = RootFs::new(0);
    let bin = fs.lookup_path(&g, Path::new("/bin"), true).ok().unwrap();
    let mut files: OpenedFileTable<PathComponent> = OpenedFileTable::new();
    let fd = files.open(bin, OpenOptions::empty()).unwrap();
    let parent = |c: &CwdOrFd, p: &'static str| {
        fs.lookup_parent_path_at(&g, &files, c, Path::new(p), true)
            .map(|(pc, name)| (pc.inode, name.to_string()))
            .map_err(|e| e.errno())
    };
    assert_eq!(parent(&CwdOrFd::AtCwd, "/bin/sh"), Ok((INode::Directory(3), "sh".to_string())));
    assert_eq!(parent(&CwdOrFd::AtCwd, "/new"), Ok((INode::Directory(0), "new".to_string())));
    assert_eq!(parent(&CwdOrFd::AtCwd, "new"), Ok((INode::Directory(0), "new".to_string())));
    assert_eq!(parent(&CwdOrFd::Fd(fd), "new"), Ok((INode::Directory(3), "new".to_string())));
    assert_eq!(parent(&CwdOrFd::AtCwd, "/link_bin/x"), Ok((INode::Directory(3), "x".to_string())));
    assert_eq!(parent(&CwdOrFd::AtCwd, "/"), Err(Errno::EEXIST));
    assert_eq!(parent(&CwdOrFd::AtCwd, "/missing/x"), Err(Errno::ENOENT));
    assert_eq!(parent(&CwdOrFd::Fd(Fd::new(9)), "x"), Err(Errno::EBADF));
}

#[test]
fn stat_and_chmod_of_inodes() {
    let mut g = graph();
    let st = INode::Directory(3).stat(&g).unwrap();
    assert_eq!(st.inode_no.as_u64(), 12);
    assert_eq!(st.mode, FileMode::new(S_IFDIR | 0o755));
    assert_eq!(INode::FileLike(4).stat(&g).unwrap().mode, FileMode::new(S_IFREG | 0o644));
    assert_eq!(INode::Symlink(6).stat(&g).unwrap().inode_no.as_u64(), 16);

    assert!(INode::Directory(3).chmod(&mut g, FileMode::new(S_IFDIR | 0o700)).is_ok());
    assert_eq!(INode::Directory(3).stat(&g).unwrap().mode, FileMode::new(S_IFDIR | 0o700));
    assert!(INode::Symlink(6).chmod(&mut g, FileMode::new(S_IFLNK | 0o700)).is_ok());
    assert_eq!(INode::Symlink(6).stat(&g).unwrap().mode, FileMode::new(S_IFLNK | 0o700));
    assert_eq!(
        INode::FileLike(4).chmod(&mut g, FileMode::new(S_IFREG | 0o600)).unwrap_err().errno(),
        Errno::EBADF
    );
    assert_eq!(INode::FileLike(4).stat(&g).unwrap().mode, FileMode::new(S_IFREG | 0o644));

    g.nodes[5].mode = None;
    assert_eq!(INode::Directory(5).stat(&g).unwrap_err().errno(), Errno::EBADF);
    assert_eq!(
        INode::Directory(5).chmod(&mut g, FileMode::new(S_IFDIR)).unwrap_err().errno(),
        Errno::EBADF
    );
    // The lookups see the same tree.
    let fs = RootFs::new(0);
    assert_eq!(fs.lookup(&g, Path::new("/bin/sh")).unwrap(), INode::FileLike(4));
}
