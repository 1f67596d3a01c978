//! The "newc" cpio format of the initramfs image.
//! <https://www.kernel.org/doc/html/latest/driver-api/early-userspace/buffer-format.html>
use vstd::prelude::*;

use crate::address::spec_align_up;

verus! {

/// The magic number at the start of each record.
pub const CPIO_MAGIC: usize = 0x070701;

/// The size of a record header.
pub const CPIO_HEADER_LEN: usize = 110;

pub open spec fn is_hex_digit(b: u8) -> bool {
    (0x30 <= b <= 0x39) || (0x61 <= b <= 0x66) || (0x41 <= b <= 0x46)
}

pub open spec fn hex_digit_value(b: u8) -> nat {
    if 0x30 <= b <= 0x39 {
        (b - 0x30) as nat
    } else if 0x61 <= b <= 0x66 {
        (b - 0x61 + 10) as nat
    } else {
        (b - 0x41 + 10) as nat
    }
}

/// The value of the hexadecimal digits `s`, most significant first.
pub open spec fn hex_digits_value(s: Seq<u8>) -> nat
    decreases s.len(),
{
    if s.len() == 0 {
        0
    } else {
        hex_digits_value(s.drop_last()) * 16 + hex_digit_value(s.last())
    }
}

/// The value of a hexadecimal field as `usize::from_str_radix(_, 16)` reads
/// it: an optional `+` sign, then one or more hexadecimal digits.
pub open spec fn hex_field_value(s: Seq<u8>) -> Option<nat> {
    if s.len() > 0 && s[0] == 0x2b {
        digits_value(s.skip(1))
    } else {
        digits_value(s)
    }
}

/// The value of one or more hexadecimal digits.
pub open spec fn digits_value(digits: Seq<u8>) -> Option<nat> {
    if digits.len() > 0 && (forall|i: int| 0 <= i < digits.len() ==> is_hex_digit(#[trigger] digits[i])) {
        Some(hex_digits_value(digits))
    } else {
        None
    }
}

pub open spec fn pow16(n: nat) -> nat
    decreases n,
{
    if n == 0 {
        1
    } else {
        16 * pow16((n - 1) as nat)
    }
}

proof fn lemma_hex_digits_bound(s: Seq<u8>)
    requires
        forall|i: int| 0 <= i < s.len() ==> is_hex_digit(#[trigger] s[i]),
    ensures
        hex_digits_value(s) < pow16(s.len()),
    decreases s.len(),
{
    if s.len() > 0 {
        let t = s.drop_last();
        assert forall|i: int| 0 <= i < t.len() implies is_hex_digit(#[trigger] t[i]) by {
            assert(t[i] == s[i]);
        }
        lemma_hex_digits_bound(t);
        assert(is_hex_digit(s[s.len() - 1]));
        assert(hex_digit_value(s.last()) < 16);
        assert(hex_digits_value(t) * 16 + hex_digit_value(s.last()) < pow16(t.len()) * 16) by (nonlinear_arith)
            requires
                hex_digits_value(t) < pow16(t.len()),
                hex_digit_value(s.last()) < 16,
        ;
    }
}

/// The hexadecimal field of `width` bytes at `start` of `img` (see
/// `hex_field_value`), if the image holds it.
pub open spec fn hex_field(img: Seq<u8>, start: int, width: int) -> Option<nat> {
    if 0 <= start && start + width <= img.len() {
        hex_field_value(img.subrange(start, start + width))
    } else {
        None
    }
}

/// Reads the hexadecimal field of at most 8 bytes at `start`.
pub fn parse_hex_field(img: &[u8], start: usize, width: usize) -> (r: Option<usize>)
    requires
        width <= 8,
    ensures
        r matches Some(v) ==> hex_field(img@, start as int, width as int) == Some(v as nat),
        r is None ==> hex_field(img@, start as int, width as int) is None,
{
    if start > img.len() || width > img.len() - start {
        return None;
    }
    let ghost s = img@.subrange(start as int, start + width);
    let mut k = start;
    if width > 0 && img[start] == 0x2b {
        k = start + 1;
    }
    let ghost digits = img@.subrange(k as int, start + width);
    proof {
        if width > 0 && img@[start as int] == 0x2b {
            assert(s.skip(1) =~= digits);
        } else {
            assert(s =~= digits);
        }
    }
    if k >= start + width {
        return None;
    }
    let end = start + width;
    let mut value: u64 = 0;
    let mut i = k;
    while i < end
        invariant
            start <= k <= i <= end <= img.len(),
            end == start + width,
            width <= 8,
            digits == img@.subrange(k as int, end as int),
            hex_field(img@, start as int, width as int) == digits_value(digits),
            forall|j: int| k <= j < i ==> is_hex_digit(#[trigger] img@[j]),
            value == hex_digits_value(img@.subrange(k as int, i as int)),
            value < pow16((i - k) as nat),
            pow16((i - k) as nat) <= 0x1_0000_0000,
        decreases end - i,
    {
        let b = img[i];
        let d: u64 = if 0x30 <= b && b <= 0x39 {
            (b - 0x30) as u64
        } else if 0x61 <= b && b <= 0x66 {
            (b - 0x61 + 10) as u64
        } else if 0x41 <= b && b <= 0x46 {
            (b - 0x41 + 10) as u64
        } else {
            proof {
                assert(digits[i - k] == b);
            }
            return None;
        };
        proof {
            assert(img@.subrange(k as int, i + 1).drop_last() =~= img@.subrange(k as int, i as int));
            assert(img@.subrange(k as int, i + 1).last() == b);
            assert(pow16((i + 1 - k) as nat) == 16 * pow16((i - k) as nat));
            assert(i + 1 - k <= 8);
            lemma_pow16_bound((i + 1 - k) as nat);
        }
        value = value * 16 + d;
        i += 1;
    }
    proof {
        assert(img@.subrange(k as int, i as int) =~= digits);
        assert forall|j: int| 0 <= j < digits.len() implies is_hex_digit(#[trigger] digits[j]) by {
            assert(digits[j] == img@[k + j]);
        }
    }
    Some(value as usize)
}

proof fn lemma_pow16_bound(n: nat)
    requires
        n <= 8,
    ensures
        pow16(n) <= 0x1_0000_0000,
{
    assert(pow16(0) == 1);
    assert(pow16(1) == 16);
    assert(pow16(2) == 256);
    assert(pow16(3) == 4096);
    assert(pow16(4) == 65536);
    assert(pow16(5) == 0x10_0000);
    assert(pow16(6) == 0x100_0000);
    assert(pow16(7) == 0x1000_0000);
    assert(pow16(8) == 0x1_0000_0000);
}

/// The fields of a record header that the kernel reads.
pub struct CpioHeader {
    pub ino: nat,
    pub mode: nat,
    pub filesize: nat,
    pub namesize: nat,
}

/// The header of the record at `off`: its magic number must match, every
/// field must be hexadecimal, and the name size must be positive.
pub open spec fn header_at(img: Seq<u8>, off: int) -> Option<CpioHeader> {
    if off + CPIO_HEADER_LEN <= img.len()
        && hex_field(img, off, 6) == Some(CPIO_MAGIC as nat)
        && hex_field(img, off + 6, 8) is Some
        && hex_field(img, off + 14, 8) is Some
        && hex_field(img, off + 22, 8) is Some
        && hex_field(img, off + 30, 8) is Some
        && hex_field(img, off + 38, 8) is Some
        && hex_field(img, off + 46, 8) is Some
        && hex_field(img, off + 54, 8) is Some
        && hex_field(img, off + 62, 8) is Some
        && hex_field(img, off + 70, 8) is Some
        && hex_field(img, off + 94, 8) is Some
        && hex_field(img, off + 94, 8).unwrap() > 0 {
        Some(
            CpioHeader {
                ino: hex_field(img, off + 6, 8).unwrap(),
                mode: hex_field(img, off + 14, 8).unwrap(),
                filesize: hex_field(img, off + 54, 8).unwrap(),
                namesize: hex_field(img, off + 94, 8).unwrap(),
            },
        )
    } else {
        None
    }
}

/// A record header as read.
#[derive(Clone, Copy, Debug, PartialEq, Eq, Structural)]
pub struct Header {
    pub ino: usize,
    pub mode: usize,
    pub filesize: usize,
    pub namesize: usize,
}

/// Reads the header of the record at `off` (see `header_at`).
pub fn parse_header(img: &[u8], off: usize) -> (r: Option<Header>)
    ensures
        r matches Some(h) ==> header_at(img@, off as int) == Some(
            CpioHeader {
                ino: h.ino as nat,
                mode: h.mode as nat,
                filesize: h.filesize as nat,
                namesize: h.namesize as nat,
            },
        ),
        r is None ==> header_at(img@, off as int) is None,
{
    if off > img.len() || img.len() - off < CPIO_HEADER_LEN {
        return None;
    }
    let magic = parse_hex_field(img, off, 6);
    match magic {
        Some(m) => {
            if m != CPIO_MAGIC {
                return None;
            }
        },
        None => {
            return None;
        },
    }
    let ino = parse_hex_field(img, off + 6, 8);
    let mode = parse_hex_field(img, off + 14, 8);
    let uid = parse_hex_field(img, off + 22, 8);
    let gid = parse_hex_field(img, off + 30, 8);
    let nlink = parse_hex_field(img, off + 38, 8);
    let mtime = parse_hex_field(img, off + 46, 8);
    let filesize = parse_hex_field(img, off + 54, 8);
    let dev_major = parse_hex_field(img, off + 62, 8);
    let dev_minor = parse_hex_field(img, off + 70, 8);
    let namesize = parse_hex_field(img, off + 94, 8);
    match (ino, mode, uid, gid, nlink, mtime, filesize, dev_major, dev_minor, namesize) {
        (
            Some(ino),
            Some(mode),
            Some(_),
            Some(_),
            Some(_),
            Some(_),
            Some(filesize),
            Some(_),
            Some(_),
            Some(namesize),
        ) => {
            if namesize == 0 {
                return None;
            }
            Some(Header { ino, mode, filesize, namesize })
        },
        _ => None,
    }
}

/// The name `TRAILER!!!` of the record that ends the archive.
pub open spec fn trailer_name() -> Seq<u8> {
    seq![0x54u8, 0x52, 0x41, 0x49, 0x4c, 0x45, 0x52, 0x21, 0x21, 0x21]
}

/// The path of a record: its name without the trailing NUL, with a leading
/// `.` of `./` removed.
pub open spec fn record_path(name: Seq<u8>) -> Seq<u8> {
    if name.len() >= 2 && name[0] == 0x2e && name[1] == 0x2f {
        name.skip(1)
    } else {
        name
    }
}

/// A record of the archive.
pub struct CpioRecord {
    pub path: Seq<u8>,
    pub ino: nat,
    pub mode: nat,
    pub data_start: nat,
    pub data_len: nat,
}

/// What the record at `off` is: `None` if malformed, the trailer, or an entry
/// together with the offset of the next record.
pub enum RecordAt {
    Malformed,
    Trailer,
    Entry { record: CpioRecord, next: nat },
}

pub open spec fn record_at(img: Seq<u8>, off: int) -> RecordAt {
    match header_at(img, off) {
        None => RecordAt::Malformed,
        Some(h) => {
            let name_start = off + CPIO_HEADER_LEN;
            let name_end = name_start + h.namesize - 1;
            if name_end > img.len() {
                RecordAt::Malformed
            } else {
                let path = record_path(img.subrange(name_start, name_end));
                if path == trailer_name() {
                    RecordAt::Trailer
                } else {
                    let data_start = spec_align_up(name_end + 1, 4);
                    let data_end = data_start + h.filesize;
                    let next = spec_align_up(data_end, 4);
                    if path.len() == 0 || name_end + 1 > img.len() || data_start > img.len()
                        || data_end > img.len() || next > img.len() {
                        RecordAt::Malformed
                    } else {
                        RecordAt::Entry {
                            record: CpioRecord {
                                path,
                                ino: h.ino,
                                mode: h.mode,
                                data_start: data_start as nat,
                                data_len: h.filesize,
                            },
                            next: next as nat,
                        }
                    }
                }
            }
        },
    }
}

} // verus!
