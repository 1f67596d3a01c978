use kerla::devfs::{DevFs, DevNode, DevRootDir, NullFile};
use kerla::stat::INodeNo;
use kerla::tmpfs::TmpFsINode;
use kerla::metrics::{format_metrics, push_decimal, KernelMetrics, MetricsFile};
use kerla::result::Errno;
use kerla::stat::{S_IFCHR, S_IFDIR};

#[test]
fn dev_root_dir_lookup() {
    let d = DevRootDir::new();
    assert_eq!(d.lookup("null").unwrap(), DevNode::Null);
    assert_eq!(d.lookup("console").unwrap(), DevNode::Console);
    assert_eq!(d.lookup("tty").unwrap_err().errno(), Errno::ENOENT);
    assert_eq!(d.lookup("").unwrap_err().errno(), Errno::ENOENT);
    let st = d.stat().unwrap();
    assert_eq!(st.inode_no.as_u64(), 1);
    assert!(st.mode.is_directory());
    assert_eq!(st.mode, kerla::stat::FileMode::new(S_IFDIR | 0o755));
}

#[test]
fn null_file_reads_nothing_and_takes_everything() {
    let f = NullFile::new();
    let mut buf = [9u8; 4];
    assert_eq!(f.read(0, &mut buf).unwrap(), 0);
    assert_eq!(buf, [9u8; 4]);
    assert_eq!(f.write(100, b"hello").unwrap(), 5);
}

#[test]
fn decimal_digits() {
    let mut out = Vec::new();
    push_decimal(&mut out, 0);
    assert_eq!(out, b"0");
    let mut out = b"x".to_vec();
    push_decimal(&mut out, 1234567890);
    assert_eq!(out, b"x1234567890");
    let mut out = Vec::new();
    push_decimal(&mut out, u64::MAX);
    assert_eq!(out, u64::MAX.to_string().into_bytes());
}

fn sample() -> KernelMetrics {
    KernelMetrics {
        clock_monotonic_ms: 1500,
        fork_total: 3,
        num_free_pages: 100,
        num_total_pages: 256,
        passive_opens_total: 0,
        tcp_read_bytes_total: 42,
        tcp_written_bytes_total: 7,
    }
}

fn expected_text(m: &KernelMetrics) -> String {
    format!(
        "# HELP: clock_monotonic The monotonic clock in milliseconds.\n# TYPE: clock_monotonic_ms counter\nclock_monotonic_ms {}\n# HELP: process_fork_total The total # of process forks.\n# TYPE: process_fork_total counter\nprocess_fork_total {}\n# HELP: memory_pages_total The total # of pages can be allocated.\n# TYPE: memory_pages_total gauge\nmemory_pages_total {}\n# HELP: memory_pages_free The total # of pages can be allocated.\n# TYPE: memory_pages_free gauge\nmemory_pages_free {}\n# HELP: passive_opens_total The total # of established passive TCP opens.\n# TYPE: passive_opens_total counter\npassive_opens_total {}\n# HELP: tcp_read_bytes_total The total bytes read from TCP socket buffers.\n# TYPE: tcp_read_bytes_total counter\ntcp_read_bytes_total {}\n# HELP: tcp_written_bytes_total The total bytes written into TCP socket buffers.\n# TYPE: tcp_written_bytes_total counter\ntcp_written_bytes_total {}\n",
        m.clock_monotonic_ms,
        m.fork_total,
        m.num_total_pages,
        m.num_free_pages,
        m.passive_opens_total,
        m.tcp_read_bytes_total,
        m.tcp_written_bytes_total,
    )
}

#[test]
fn metrics_text_is_prometheus_format() {
    let m = sample();
    let text = format_metrics(&m);
    assert_eq!(String::from_utf8(text).unwrap(), expected_text(&m));
    assert!(expected_text(&m).contains("memory_pages_total 256\n"));
    assert!(expected_text(&m).contains("memory_pages_free 100\n"));
}

#[test]
fn metrics_file_read() {
    let m = sample();
    let f = MetricsFile::new();
    let full = expected_text(&m).into_bytes();
    assert_eq!(f.read(0, 1 << 20, &m), full);
    assert_eq!(f.read(0, 10, &m), full[..10].to_vec());
    assert_eq!(f.read(0, 0, &m), Vec::<u8>::new());
    assert_eq!(f.read(1, 1 << 20, &m), Vec::<u8>::new());
    assert_eq!(f.write(0, b"abc").unwrap(), 3);
    let st = f.stat().unwrap();
    assert_eq!(st.inode_no.as_u64(), 2);
    assert_eq!(st.mode, kerla::stat::FileMode::new(S_IFCHR | 0o666));
}

#[test]
fn dev_fs_holds_the_devices() {
    let d = DevFs::new(INodeNo::new(5), INodeNo::new(3), INodeNo::new(7));
    let root = d.root_dir();
    assert_eq!(d.fs().lookup(root, "pts").unwrap(), TmpFsINode::Directory(1));
    assert_eq!(d.fs().lookup(root, "null").unwrap(), TmpFsINode::Device(0));
    assert_eq!(d.fs().lookup(root, "tty").unwrap(), TmpFsINode::Device(1));
    assert_eq!(d.fs().lookup(root, "console").unwrap(), TmpFsINode::Device(2));
    assert_eq!(d.fs().lookup(root, "ptmx").unwrap(), TmpFsINode::Device(3));
    assert_eq!(d.fs().lookup(root, "zero").unwrap_err().errno(), Errno::ENOENT);
    assert_eq!(d.fs().lookup(1, "0").unwrap_err().errno(), Errno::ENOENT);
    let mut names = Vec::new();
    let mut i = 0;
    while let Some(e) = d.fs().readdir(root, i).unwrap() {
        names.push(String::from_utf8(e.name.clone()).unwrap());
        i += 1;
    }
    names.sort();
    assert_eq!(names, vec!["console", "null", "ptmx", "pts", "tty"]);
}
