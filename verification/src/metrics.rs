//! The `/proc/metrics` file: kernel counters in the Prometheus text format.
use vstd::prelude::*;
use vstd::string::StringSliceAdditionalSpecFns;
use crate::result::Error;
use crate::stat::{FileMode, INodeNo, Stat, S_IFCHR};

verus! {

/// The decimal digits of `n`, most significant first, in ASCII.
pub open spec fn decimal(n: nat) -> Seq<u8>
    decreases n,
{
    if n < 10 {
        seq![(48 + n) as u8]
    } else {
        decimal(n / 10).push((48 + n % 10) as u8)
    }
}

/// Appends the decimal digits of `n` to `out`.
pub fn push_decimal(out: &mut Vec<u8>, n: u64)
    ensures
        final(out)@ == old(out)@ + decimal(n as nat),
    decreases n,
{
    if n >= 10 {
        push_decimal(out, n / 10);
    }
    let ghost mid = out@;
    out.push((48 + n % 10) as u8);
    proof {
        if n >= 10 {
            assert(old(out)@ + decimal(n as nat) =~= mid.push((48 + n % 10) as u8));
        } else {
            assert(old(out)@ + decimal(n as nat) =~= old(out)@.push((48 + n % 10) as u8));
        }
    }
}

/// Appends the bytes of `s` to `out`.
pub fn push_str(out: &mut Vec<u8>, s: &str)
    ensures
        final(out)@ == old(out)@ + s.spec_bytes(),
{
    let bytes = s.as_bytes();
    let mut i: usize = 0;
    while i < bytes.len()
        invariant
            bytes@ == s.spec_bytes(),
            0 <= i <= bytes.len(),
            out@ == old(out)@ + bytes@.take(i as int),
        decreases bytes.len() - i,
    {
        let ghost before = out@;
        out.push(bytes[i]);
        proof {
            assert(before.push(bytes@[i as int]) =~= old(out)@ + bytes@.take(i + 1));
        }
        i += 1;
    }
    proof {
        assert(bytes@.take(bytes.len() as int) =~= bytes@);
    }
}

/// The counters that `/proc/metrics` reports.
#[derive(Clone, Copy, Debug, PartialEq, Eq, Structural)]
pub struct KernelMetrics {
    pub clock_monotonic_ms: u64,
    pub fork_total: u64,
    pub num_free_pages: u64,
    pub num_total_pages: u64,
    pub passive_opens_total: u64,
    pub tcp_read_bytes_total: u64,
    pub tcp_written_bytes_total: u64,
}

pub const CLOCK_HEAD: &'static str = "# HELP: clock_monotonic The monotonic clock in milliseconds.\n# TYPE: clock_monotonic_ms counter\nclock_monotonic_ms ";

pub const FORK_HEAD: &'static str = "\n# HELP: process_fork_total The total # of process forks.\n# TYPE: process_fork_total counter\nprocess_fork_total ";

pub const PAGES_TOTAL_HEAD: &'static str = "\n# HELP: memory_pages_total The total # of pages can be allocated.\n# TYPE: memory_pages_total gauge\nmemory_pages_total ";

pub const PAGES_FREE_HEAD: &'static str = "\n# HELP: memory_pages_free The total # of pages can be allocated.\n# TYPE: memory_pages_free gauge\nmemory_pages_free ";

pub const PASSIVE_OPENS_HEAD: &'static str = "\n# HELP: passive_opens_total The total # of established passive TCP opens.\n# TYPE: passive_opens_total counter\npassive_opens_total ";

pub const TCP_READ_HEAD: &'static str = "\n# HELP: tcp_read_bytes_total The total bytes read from TCP socket buffers.\n# TYPE: tcp_read_bytes_total counter\ntcp_read_bytes_total ";

pub const TCP_WRITTEN_HEAD: &'static str = "\n# HELP: tcp_written_bytes_total The total bytes written into TCP socket buffers.\n# TYPE: tcp_written_bytes_total counter\ntcp_written_bytes_total ";

pub const LINE_END: &'static str = "\n";

/// The whole text of `/proc/metrics`.
pub open spec fn metrics_text(m: KernelMetrics) -> Seq<u8> {
    CLOCK_HEAD.spec_bytes() + decimal(m.clock_monotonic_ms as nat)
        + FORK_HEAD.spec_bytes() + decimal(m.fork_total as nat)
        + PAGES_TOTAL_HEAD.spec_bytes() + decimal(m.num_total_pages as nat)
        + PAGES_FREE_HEAD.spec_bytes() + decimal(m.num_free_pages as nat)
        + PASSIVE_OPENS_HEAD.spec_bytes() + decimal(m.passive_opens_total as nat)
        + TCP_READ_HEAD.spec_bytes() + decimal(m.tcp_read_bytes_total as nat)
        + TCP_WRITTEN_HEAD.spec_bytes() + decimal(m.tcp_written_bytes_total as nat)
        + LINE_END.spec_bytes()
}

/// The first `n` bytes of `s`, or all of `s` when it is shorter.
pub open spec fn prefix_up_to(s: Seq<u8>, n: nat) -> Seq<u8> {
    if s.len() <= n {
        s
    } else {
        s.take(n as int)
    }
}

/// Builds the text of `/proc/metrics` for `m`.
pub fn format_metrics(m: &KernelMetrics) -> (r: Vec<u8>)
    ensures
        r@ == metrics_text(*m),
{
    let mut out: Vec<u8> = Vec::new();
    push_str(&mut out, CLOCK_HEAD);
    push_decimal(&mut out, m.clock_monotonic_ms);
    push_str(&mut out, FORK_HEAD);
    push_decimal(&mut out, m.fork_total);
    push_str(&mut out, PAGES_TOTAL_HEAD);
    push_decimal(&mut out, m.num_total_pages);
    push_str(&mut out, PAGES_FREE_HEAD);
    push_decimal(&mut out, m.num_free_pages);
    push_str(&mut out, PASSIVE_OPENS_HEAD);
    push_decimal(&mut out, m.passive_opens_total);
    push_str(&mut out, TCP_READ_HEAD);
    push_decimal(&mut out, m.tcp_read_bytes_total);
    push_str(&mut out, TCP_WRITTEN_HEAD);
    push_decimal(&mut out, m.tcp_written_bytes_total);
    push_str(&mut out, LINE_END);
    proof {
        assert(out@ =~= metrics_text(*m));
    }
    out
}

/// The `/proc/metrics` file.
pub struct MetricsFile {}

impl MetricsFile {
    pub fn new() -> (r: MetricsFile) {
        MetricsFile {}
    }

    /// The file's metadata: inode 2, a character device with mode 0666.
    pub fn stat(&self) -> (r: Result<Stat, Error>)
        ensures
            r matches Ok(s) && s.inode_no@ == 2 && s.mode@ == (S_IFCHR | 0o666u32),
    {
        Ok(Stat::new(INodeNo::new(2), FileMode::new(S_IFCHR | 0o666)))
    }

    /// Reads the file into a buffer of `buf_len` bytes: from offset 0 the
    /// text for `metrics`, cut to fit; from any later offset nothing.
    pub fn read(&self, offset: usize, buf_len: usize, metrics: &KernelMetrics) -> (r: Vec<u8>)
        ensures
            offset > 0 ==> r@ == Seq::<u8>::empty(),
            offset == 0 ==> r@ == prefix_up_to(metrics_text(*metrics), buf_len as nat),
    {
        if offset > 0 {
            return Vec::new();
        }
        let mut text = format_metrics(metrics);
        text.truncate(buf_len);
        text
    }

    /// Writing accepts the whole buffer and drops it.
    pub fn write(&self, offset: usize, buf: &[u8]) -> (r: Result<usize, Error>)
        ensures
            r == Ok::<usize, Error>(buf@.len() as usize),
    {
        Ok(buf.len())
    }
}

} // verus!
