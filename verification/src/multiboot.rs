//! The RAM areas that a multiboot or multiboot2 boot loader reports.
use vstd::prelude::*;
use crate::address::PAddr;

verus! {

/// The RAM areas found so far: base address and length of each.
#[verifier::external_type_specification]
#[verifier::external_body]
#[verifier::reject_recursive_types(T)]
pub struct ExArrayVec<T, const CAP: usize>(arrayvec::ArrayVec<T, CAP>);

/// The elements that an `ArrayVec` of RAM areas holds, in order.
pub uninterp spec fn ram_area_list(v: arrayvec::ArrayVec<(usize, usize), 8>) -> Seq<(usize, usize)>;

/// `arrayvec::ArrayVec::new`: an empty vector.
#[verifier::external_body]
fn ram_areas_new() -> (r: arrayvec::ArrayVec<(usize, usize), 8>)
    ensures
        ram_area_list(r) == Seq::<(usize, usize)>::empty(),
{
    arrayvec::ArrayVec::new()
}

/// `arrayvec::ArrayVec::push`: `area` is added at the end. It panics on a
/// full vector, which `requires` leaves out.
#[verifier::external_body]
fn ram_areas_push(v: &mut arrayvec::ArrayVec<(usize, usize), 8>, area: (usize, usize))
    requires
        ram_area_list(*old(v)).len() < 8,
    ensures
        ram_area_list(*final(v)) == ram_area_list(*old(v)).push(area),
{
    v.push(area);
}

/// `arrayvec::ArrayVec::len`: the number of elements, never above the
/// capacity.
#[verifier::external_body]
fn ram_areas_len(v: &arrayvec::ArrayVec<(usize, usize), 8>) -> (r: usize)
    ensures
        r == ram_area_list(*v).len(),
        r <= 8,
{
    v.len()
}

/// `arrayvec::ArrayVec::as_slice`, then the `i`-th element.
#[verifier::external_body]
fn ram_areas_get(v: &arrayvec::ArrayVec<(usize, usize), 8>, i: usize) -> (r: (usize, usize))
    requires
        i < ram_area_list(*v).len(),
    ensures
        r == ram_area_list(*v)[i as int],
{
    v.as_slice()[i]
}

/// An area of RAM the kernel may use.
#[derive(Clone, Copy, Debug, PartialEq, Eq, Structural)]
pub struct RamArea {
    pub base: PAddr,
    pub len: usize,
}

/// What the boot loader reports: the RAM areas, at most eight.
pub struct BootInfo {
    ram_areas: arrayvec::ArrayVec<(usize, usize), 8>,
}

impl BootInfo {
    /// The RAM areas, as (base, length) pairs.
    pub closed spec fn view(&self) -> Seq<(usize, usize)> {
        ram_area_list(self.ram_areas)
    }

    /// The number of RAM areas.
    pub fn num_ram_areas(&self) -> (r: usize)
        ensures
            r == self@.len(),
            r <= 8,
    {
        ram_areas_len(&self.ram_areas)
    }

    /// The `i`-th RAM area.
    pub fn ram_area(&self, i: usize) -> (r: RamArea)
        requires
            i < self@.len(),
        ensures
            r.base@ == self@[i as int].0,
            r.len == self@[i as int].1,
    {
        let (base, len) = ram_areas_get(&self.ram_areas, i);
        RamArea { base: PAddr::new(base), len }
    }
}

/// The little-endian 32-bit value at `off`.
pub open spec fn u32_at(s: Seq<u8>, off: int) -> int {
    s[off] + 0x100 * s[off + 1] + 0x1_0000 * s[off + 2] + 0x100_0000 * s[off + 3]
}

/// The little-endian 64-bit value at `off`.
pub open spec fn u64_at(s: Seq<u8>, off: int) -> int {
    u32_at(s, off) + 0x1_0000_0000 * u32_at(s, off + 4)
}

/// Reads the little-endian 32-bit value at `off`.
fn read_u32(s: &[u8], off: usize) -> (r: u32)
    requires
        off + 4 <= s.len(),
    ensures
        r == u32_at(s@, off as int),
{
    s[off] as u32 + 0x100 * (s[off + 1] as u32) + 0x1_0000 * (s[off + 2] as u32) + 0x100_0000 * (s[off
        + 3] as u32)
}

/// Reads the little-endian 64-bit value at `off`.
fn read_u64(s: &[u8], off: usize) -> (r: u64)
    requires
        off + 8 <= s.len(),
    ensures
        r == u64_at(s@, off as int),
{
    read_u32(s, off) as u64 + 0x1_0000_0000 * (read_u32(s, off + 4) as u64)
}

/// How far `pos` is below `end` (zero past it): what a walk from `pos` to
/// `end` has left.
pub open spec fn distance(pos: int, end: int) -> nat {
    if pos < end {
        (end - pos) as nat
    } else {
        0
    }
}

/// The memory-map entry type of RAM the kernel may use.
pub const MEMORY_MAP_AVAILABLE: u32 = 1;

/// The areas after one memory-map entry: available RAM is added, from the
/// end of the kernel image (`image_end`) on, when anything of it is left.
/// `None` where the kernel would fail: the entry's end overflows, or an
/// area is to be added to eight.
pub open spec fn add_area(
    areas: Option<Seq<(usize, usize)>>,
    entry_type: u32,
    base: usize,
    len: usize,
    image_end: usize,
) -> Option<Seq<(usize, usize)>> {
    match areas {
        None => None,
        Some(a) => if entry_type != MEMORY_MAP_AVAILABLE {
            Some(a)
        } else if base + len > usize::MAX {
            None
        } else {
            let end = base + len;
            let b = if base >= image_end { base } else { image_end };
            if b < end {
                if a.len() >= 8 {
                    None
                } else {
                    Some(a.push((b as usize, (end - b) as usize)))
                }
            } else {
                Some(a)
            }
        },
    }
}

/// Adds the area of one memory-map entry (see `add_area`). `false` where
/// the kernel would fail; the areas are then left as they were.
fn process_memory_map_entry(
    ram_areas: &mut arrayvec::ArrayVec<(usize, usize), 8>,
    entry_type: u32,
    base: usize,
    len: usize,
    image_end: usize,
) -> (r: bool)
    ensures
        r == add_area(Some(ram_area_list(*old(ram_areas))), entry_type, base, len, image_end) is Some,
        r ==> Some(ram_area_list(*final(ram_areas))) == add_area(
            Some(ram_area_list(*old(ram_areas))),
            entry_type,
            base,
            len,
            image_end,
        ),
{
    if entry_type != MEMORY_MAP_AVAILABLE {
        return true;
    }
    if len > usize::MAX - base {
        return false;
    }
    let end = base + len;
    let b = if base >= image_end {
        base
    } else {
        image_end
    };
    if b < end {
        if ram_areas_len(ram_areas) >= 8 {
            return false;
        }
        ram_areas_push(ram_areas, (b, end - b));
    }
    true
}

/// The areas after the entries of a multiboot2 memory-map tag at `tag`, of
/// `tag_size` bytes with entries of `entry_size` bytes, from `entry_off` on.
/// `None` where the kernel would fail: an entry lies past the information
/// given, or the entries do not advance.
pub open spec fn mb2_entries(
    info: Seq<u8>,
    tag: int,
    tag_size: int,
    entry_size: int,
    entry_off: int,
    areas: Option<Seq<(usize, usize)>>,
    image_end: usize,
) -> Option<Seq<(usize, usize)>>
    decreases distance(entry_off, tag_size),
{
    if entry_off >= tag_size {
        areas
    } else if entry_size <= 0 || tag + entry_off + 24 > info.len() {
        None
    } else {
        let e = tag + entry_off;
        mb2_entries(
            info,
            tag,
            tag_size,
            entry_size,
            entry_off + entry_size,
            add_area(
                areas,
                u32_at(info, e + 16) as u32,
                u64_at(info, e) as u64 as usize,
                u64_at(info, e + 8) as u64 as usize,
                image_end,
            ),
            image_end,
        )
    }
}

/// The multiboot2 tag type of the memory map.
pub const MB2_TAG_MEMORY_MAP: u32 = 6;

/// The areas after the tags from `off` on, of information of `total` bytes.
/// Tags start on 8-byte boundaries. `None` where the kernel would fail: a
/// tag lies past the information given, or the tags do not advance.
pub open spec fn mb2_tags(
    info: Seq<u8>,
    total: int,
    off: int,
    areas: Option<Seq<(usize, usize)>>,
    image_end: usize,
) -> Option<Seq<(usize, usize)>>
    decreases distance(off, total),
{
    if off + 8 >= total {
        areas
    } else if off + 16 > info.len() {
        None
    } else {
        let size = u32_at(info, off + 4);
        let areas2 = if u32_at(info, off) == MB2_TAG_MEMORY_MAP {
            mb2_entries(info, off, size, u32_at(info, off + 8), 16, areas, image_end)
        } else {
            areas
        };
        let next = (off + size + 7) / 8 * 8;
        if next <= off {
            None
        } else {
            mb2_tags(info, total, next, areas2, image_end)
        }
    }
}


/// Adds the areas of the entries of the memory-map tag at `off` (see
/// `mb2_entries`). `false` where the kernel would fail.
fn mb2_memory_map(
    info: &[u8],
    off: u64,
    size: u64,
    entry_size: u64,
    ram_areas: &mut arrayvec::ArrayVec<(usize, usize), 8>,
    image_end: usize,
) -> (r: bool)
    requires
        info.len() < u32::MAX,
        off <= u32::MAX,
        size <= u32::MAX,
        entry_size <= u32::MAX,
    ensures
        r == mb2_entries(info@, off as int, size as int, entry_size as int, 16, Some(ram_area_list(*old(ram_areas))), image_end) is Some,
        r ==> Some(ram_area_list(*final(ram_areas))) == mb2_entries(
            info@,
            off as int,
            size as int,
            entry_size as int,
            16,
            Some(ram_area_list(*old(ram_areas))),
            image_end,
        ),
{
    let ghost tag_start = mb2_entries(info@, off as int, size as int, entry_size as int, 16, Some(ram_area_list(*ram_areas)), image_end);
    let mut entry_off: u64 = 16;
    while entry_off < size
        invariant
            info.len() < u32::MAX,
            off <= u32::MAX,
            size <= u32::MAX,
            entry_size <= u32::MAX,
            entry_off <= 2 * (u32::MAX as int),
            tag_start == mb2_entries(info@, off as int, size as int, entry_size as int, 16, Some(ram_area_list(*old(ram_areas))), image_end),
            mb2_entries(
                info@,
                off as int,
                size as int,
                entry_size as int,
                entry_off as int,
                Some(ram_area_list(*ram_areas)),
                image_end,
            ) == tag_start,
        decreases distance(entry_off as int, size as int),
    {
        if entry_size == 0 || off + entry_off + 24 > info.len() as u64 {
            proof {
                assert(mb2_entries(info@, off as int, size as int, entry_size as int, entry_off as int, Some(ram_area_list(*ram_areas)), image_end) is None);
            }
            return false;
        }
        let e = (off + entry_off) as usize;
        let base = read_u64(info, e) as usize;
        let len = read_u64(info, e + 8) as usize;
        let entry_type = read_u32(info, e + 16);
        let ghost lbefore = ram_area_list(*ram_areas);
        if !process_memory_map_entry(ram_areas, entry_type, base, len, image_end) {
            proof {
                lemma_mb2_entries_none(info@, off as int, size as int, entry_size as int, entry_off + entry_size, image_end);
                assert(mb2_entries(info@, off as int, size as int, entry_size as int, entry_off as int, Some(lbefore), image_end) is None);
            }
            return false;
        }
        entry_off += entry_size;
    }
    true
}

/// The RAM areas of multiboot2 boot information `info` (starting with its
/// total size), for a kernel image ending at `image_end`: `None` where the
/// kernel would fail, also when no RAM area is found.
pub open spec fn spec_multiboot2(info: Seq<u8>, image_end: usize) -> Option<Seq<(usize, usize)>> {
    if info.len() < 8 {
        None
    } else {
        match mb2_tags(info, u32_at(info, 0), 8, Some(Seq::empty()), image_end) {
            Some(a) => if a.len() > 0 {
                Some(a)
            } else {
                None
            },
            None => None,
        }
    }
}

/// Parses multiboot2 boot information (see `spec_multiboot2`).
pub fn parse_multiboot2_info(info: &[u8], image_end: usize) -> (r: Option<BootInfo>)
    requires
        info.len() < u32::MAX,
    ensures
        match spec_multiboot2(info@, image_end) {
            Some(a) => r matches Some(b) && b@ == a,
            None => r is None,
        },
{
    if info.len() < 8 {
        return None;
    }
    let total = read_u32(info, 0) as u64;
    let mut off: u64 = 8;
    let mut ram_areas = ram_areas_new();
    let ghost start = mb2_tags(info@, total as int, 8, Some(Seq::<(usize, usize)>::empty()), image_end);
    while off + 8 < total
        invariant
            info.len() < u32::MAX,
            8 <= off <= 2 * (u32::MAX as int) + 8,
            total <= u32::MAX,
            total == u32_at(info@, 0),
            start == mb2_tags(info@, u32_at(info@, 0), 8, Some(Seq::<(usize, usize)>::empty()), image_end),
            mb2_tags(info@, total as int, off as int, Some(ram_area_list(ram_areas)), image_end) == start,
        decreases distance(off as int, total as int),
    {
        if off + 16 > info.len() as u64 {
            proof {
                assert(mb2_tags(info@, total as int, off as int, Some(ram_area_list(ram_areas)), image_end) is None);
            }
            return None;
        }
        let o = off as usize;
        let tag_type = read_u32(info, o);
        let size = read_u32(info, o + 4) as u64;
        if tag_type == MB2_TAG_MEMORY_MAP {
            let entry_size = read_u32(info, o + 8) as u64;
            let ghost l0 = ram_area_list(ram_areas);
            if !mb2_memory_map(info, off, size, entry_size, &mut ram_areas, image_end) {
                proof {
                    lemma_mb2_tags_none(info@, total as int, (off + size + 7) / 8 * 8, image_end);
                    assert(mb2_tags(info@, total as int, off as int, Some(l0), image_end) is None);
                }
                return None;
            }
        }
        let next = (off + size + 7) / 8 * 8;
        if next <= off {
            proof {
                assert(mb2_tags(info@, total as int, off as int, Some(ram_area_list(ram_areas)), image_end) is None);
            }
            return None;
        }
        off = next;
    }
    if ram_areas_len(&ram_areas) == 0 {
        return None;
    }
    Some(BootInfo { ram_areas })
}

/// The areas after the entries of a legacy multiboot memory map of
/// `map_len` bytes, from `off` on. Each entry starts with its size, which
/// does not count the size field itself. `None` where the kernel would
/// fail: an entry lies past the map given, or the offset overflows.
pub open spec fn legacy_entries(
    map: Seq<u8>,
    map_len: int,
    off: int,
    areas: Option<Seq<(usize, usize)>>,
    image_end: usize,
) -> Option<Seq<(usize, usize)>>
    decreases distance(off, map_len),
{
    if off >= map_len {
        areas
    } else if off < 0 || off + 24 > map.len() {
        None
    } else {
        let next = off + u32_at(map, off) + 4;
        if next > u32::MAX {
            None
        } else {
            legacy_entries(
                map,
                map_len,
                next,
                add_area(
                    areas,
                    u32_at(map, off + 20) as u32,
                    u64_at(map, off + 4) as u64 as usize,
                    u64_at(map, off + 12) as u64 as usize,
                    image_end,
                ),
                image_end,
            )
        }
    }
}

/// Once an entry fails, so does the rest of the map.
pub proof fn lemma_legacy_entries_none(map: Seq<u8>, map_len: int, off: int, image_end: usize)
    ensures
        legacy_entries(map, map_len, off, None, image_end) is None,
    decreases distance(off, map_len),
{
    if off < map_len && off >= 0 && off + 24 <= map.len() {
        let next = off + u32_at(map, off) + 4;
        if next <= u32::MAX {
            lemma_legacy_entries_none(map, map_len, next, image_end);
        }
    }
}

/// Parses the memory map of legacy multiboot information: `map` holds the
/// `memory_map_len` bytes of the map. `None` where the kernel would fail
/// (see `legacy_entries`).
pub fn parse_multiboot_legacy_info(memory_map_len: u32, map: &[u8], image_end: usize) -> (r: Option<BootInfo>)
    ensures
        match legacy_entries(map@, memory_map_len as int, 0, Some(Seq::empty()), image_end) {
            Some(a) => r matches Some(b) && b@ == a,
            None => r is None,
        },
{
    let ghost start = legacy_entries(map@, memory_map_len as int, 0, Some(Seq::<(usize, usize)>::empty()), image_end);
    let mut off: u32 = 0;
    let mut ram_areas = ram_areas_new();
    while off < memory_map_len
        invariant
            start == legacy_entries(map@, memory_map_len as int, 0, Some(Seq::<(usize, usize)>::empty()), image_end),
            legacy_entries(map@, memory_map_len as int, off as int, Some(ram_area_list(ram_areas)), image_end) == start,
        decreases distance(off as int, memory_map_len as int),
    {
        if off as usize > map.len() || map.len() - (off as usize) < 24 {
            proof {
                assert(legacy_entries(map@, memory_map_len as int, off as int, Some(ram_area_list(ram_areas)), image_end) is None);
            }
            return None;
        }
        let o = off as usize;
        let entry_size = read_u32(map, o);
        let base = read_u64(map, o + 4) as usize;
        let len = read_u64(map, o + 12) as usize;
        let entry_type = read_u32(map, o + 20);
        let ghost lbefore = ram_area_list(ram_areas);
        let ok = process_memory_map_entry(&mut ram_areas, entry_type, base, len, image_end);
        if entry_size > u32::MAX - 4 || off > u32::MAX - 4 - entry_size {
            proof {
                assert(legacy_entries(map@, memory_map_len as int, off as int, Some(lbefore), image_end) is None);
            }
            return None;
        }
        if !ok {
            proof {
                lemma_legacy_entries_none(map@, memory_map_len as int, off + entry_size + 4, image_end);
                assert(legacy_entries(map@, memory_map_len as int, off as int, Some(lbefore), image_end) is None);
            }
            return None;
        }
        off = off + entry_size + 4;
    }
    Some(BootInfo { ram_areas })
}

/// The two boot protocols.
#[derive(Clone, Copy, Debug, PartialEq, Eq, Structural)]
pub enum MultibootKind {
    /// Multiboot (magic 0x2badb002).
    Legacy,
    /// Multiboot2 (magic 0x36d76289).
    Multiboot2,
}

/// The boot protocol that the magic number the boot loader passed names;
/// `None` for an invalid magic (the kernel panics).
pub fn multiboot_kind(magic: u32) -> (r: Option<MultibootKind>)
    ensures
        magic == 0x36d76289 ==> r == Some(MultibootKind::Multiboot2),
        magic == 0x2badb002 ==> r == Some(MultibootKind::Legacy),
        magic != 0x36d76289 && magic != 0x2badb002 ==> r is None,
{
    if magic == 0x36d76289 {
        Some(MultibootKind::Multiboot2)
    } else if magic == 0x2badb002 {
        Some(MultibootKind::Legacy)
    } else {
        None
    }
}

/// Once an entry fails, so does the rest of the tag.
pub proof fn lemma_mb2_entries_none(
    info: Seq<u8>,
    tag: int,
    tag_size: int,
    entry_size: int,
    entry_off: int,
    image_end: usize,
)
    ensures
        mb2_entries(info, tag, tag_size, entry_size, entry_off, None, image_end) is None,
    decreases distance(entry_off, tag_size),
{
    if entry_off < tag_size && entry_size > 0 && tag + entry_off + 24 <= info.len() {
        lemma_mb2_entries_none(info, tag, tag_size, entry_size, entry_off + entry_size, image_end);
    }
}

/// Once a tag fails, so does the rest of the information.
pub proof fn lemma_mb2_tags_none(info: Seq<u8>, total: int, off: int, image_end: usize)
    ensures
        mb2_tags(info, total, off, None, image_end) is None,
    decreases distance(off, total),
{
    if off + 8 < total && off + 16 <= info.len() {
        let size = u32_at(info, off + 4);
        if u32_at(info, off) == MB2_TAG_MEMORY_MAP {
            lemma_mb2_entries_none(info, off, size, u32_at(info, off + 8), 16, image_end);
        }
        let next = (off + size + 7) / 8 * 8;
        if next > off {
            lemma_mb2_tags_none(info, total, next, image_end);
        }
    }
}

} // verus!
