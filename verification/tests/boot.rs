use kerla::address::{PAddr, UserVAddr};
use kerla::multiboot::{
    multiboot_kind, parse_multiboot2_info, parse_multiboot_legacy_info, MultibootKind,
};
use kerla::page_table::{entry_paddr, nth_level_table_index, PageTable};

fn mb2_info(entries: &[(u64, u64, u32)], extra_tag: bool) -> Vec<u8> {
    let mut info = vec![0u8; 8];
    if extra_tag {
        // A tag of another type (1: command line), 12 bytes, padded to 16.
        info.extend_from_slice(&1u32.to_le_bytes());
        info.extend_from_slice(&12u32.to_le_bytes());
        info.extend_from_slice(b"abc\0");
        info.extend_from_slice(&[0u8; 4]);
    }
    let size = 16 + 24 * entries.len() as u32;
    info.extend_from_slice(&6u32.to_le_bytes());
    info.extend_from_slice(&size.to_le_bytes());
    info.extend_from_slice(&24u32.to_le_bytes());
    info.extend_from_slice(&0u32.to_le_bytes());
    for (base, len, ty) in entries {
        info.extend_from_slice(&base.to_le_bytes());
        info.extend_from_slice(&len.to_le_bytes());
        info.extend_from_slice(&ty.to_le_bytes());
        info.extend_from_slice(&0u32.to_le_bytes());
    }
    while info.len() % 8 != 0 {
        info.push(0);
    }
    // The end tag.
    info.extend_from_slice(&0u32.to_le_bytes());
    info.extend_from_slice(&8u32.to_le_bytes());
    let total = info.len() as u32;
    info[0..4].copy_from_slice(&total.to_le_bytes());
    info
}

fn areas(b: &kerla::multiboot::BootInfo) -> Vec<(usize, usize)> {
    (0..b.num_ram_areas()).map(|i| {
        let a = b.ram_area(i);
        (a.base.value(), a.len)
    }).collect()
}

#[test]
fn multiboot2_memory_map() {
    let info = mb2_info(
        &[(0, 0x9fc00, 1), (0xf0000, 0x10000, 2), (0x100000, 0x7ee0000, 1)],
        true,
    );
    // The kernel image ends at 0x200000: RAM below it is not handed out.
    let b = parse_multiboot2_info(&info, 0x200000).unwrap();
    assert_eq!(areas(&b), vec![(0x200000, 0x7fe0000 - 0x200000)]);
    let b = parse_multiboot2_info(&info, 0x1000).unwrap();
    assert_eq!(areas(&b), vec![(0x1000, 0x9fc00 - 0x1000), (0x100000, 0x7ee0000)]);
}

#[test]
fn multiboot2_failures() {
    // No RAM at all.
    let info = mb2_info(&[(0xf0000, 0x10000, 2)], false);
    assert!(parse_multiboot2_info(&info, 0).is_none());
    // Truncated information.
    let info = mb2_info(&[(0x100000, 0x100000, 1)], false);
    assert!(parse_multiboot2_info(&info[..20], 0).is_none());
    // Nine areas do not fit.
    let many: Vec<(u64, u64, u32)> = (0..9).map(|i| (0x100000 * (i + 1), 0x1000, 1)).collect();
    let info = mb2_info(&many, false);
    assert!(parse_multiboot2_info(&info, 0).is_none());
    let eight: Vec<(u64, u64, u32)> = (0..8).map(|i| (0x100000 * (i + 1), 0x1000, 1)).collect();
    let info = mb2_info(&eight, false);
    assert_eq!(parse_multiboot2_info(&info, 0).unwrap().num_ram_areas(), 8);
}

#[test]
fn multiboot_legacy_memory_map() {
    let mut map = Vec::new();
    for (base, len, ty) in [(0u64, 0x9fc00u64, 1u32), (0x100000, 0x100000, 1), (0x300000, 0x1000, 3)] {
        map.extend_from_slice(&20u32.to_le_bytes());
        map.extend_from_slice(&base.to_le_bytes());
        map.extend_from_slice(&len.to_le_bytes());
        map.extend_from_slice(&ty.to_le_bytes());
    }
    let b = parse_multiboot_legacy_info(map.len() as u32, &map, 0x180000).unwrap();
    assert_eq!(areas(&b), vec![(0x180000, 0x80000)]);
    // A map that claims more than is given.
    assert!(parse_multiboot_legacy_info(map.len() as u32 + 24, &map, 0).is_none());
    assert_eq!(multiboot_kind(0x36d76289), Some(MultibootKind::Multiboot2));
    assert_eq!(multiboot_kind(0x2badb002), Some(MultibootKind::Legacy));
    assert_eq!(multiboot_kind(0), None);
}

fn kernel_pml4() -> Vec<u64> {
    let mut t = vec![0u64; 512];
    t[0] = 0x1003;
    t[256] = 0x5003;
    t
}

fn mapping(pt: &PageTable, v: u64) -> Option<u64> {
    let frames = pt.frames();
    let find = |p: u64| frames.iter().find(|f| f.paddr == p).unwrap();
    let mut table = &frames[0];
    for level in [4u64, 3, 2] {
        let idx = ((v >> ((level - 1) * 9 + 12)) & 0x1ff) as usize;
        let p = table.entries[idx] & 0x7fff_ffff_ffff_f000;
        if p == 0 {
            return None;
        }
        table = find(p);
    }
    let e = table.entries[((v >> 12) & 0x1ff) as usize];
    if e & 1 != 0 { Some(e) } else { None }
}

#[test]
fn page_table_maps_user_pages() {
    let mut pt = PageTable::new(0x10000, &kernel_pml4());
    assert_eq!(pt.pml4(), 0x10000);
    assert_eq!(pt.frames()[0].entries[0], 0);
    assert_eq!(pt.frames()[0].entries[256], 0x5003);
    let mut pool = vec![0x20000u64, 0x21000, 0x22000, 0x23000, 0x24000, 0x25000];
    let v = UserVAddr::new_nonnull(0x40_0000).unwrap();
    pt.map_user_page(v, PAddr::new(0x9000), &mut pool);
    // Three tables were taken from the end of the pool.
    assert_eq!(pool, vec![0x20000, 0x21000, 0x22000]);
    assert_eq!(mapping(&pt, 0x40_0000), Some(0x9007));
    assert_eq!(mapping(&pt, 0x40_1000), None);
    // A neighbour page needs no new table.
    pt.map_user_page(UserVAddr::new_nonnull(0x40_1000).unwrap(), PAddr::new(0xa000), &mut pool);
    assert_eq!(pool.len(), 3);
    assert_eq!(mapping(&pt, 0x40_1000), Some(0xa007));
    assert_eq!(mapping(&pt, 0x40_0000), Some(0x9007));
    // Mapping again replaces the mapping.
    pt.map_user_page(v, PAddr::new(0xb000), &mut pool);
    assert_eq!(mapping(&pt, 0x40_0000), Some(0xb007));
    // A page far away takes tables below the top one.
    pt.map_user_page(UserVAddr::new_nonnull(0x7f00_0000_0000).unwrap(), PAddr::new(0xc000), &mut pool);
    assert!(pool.is_empty());
    assert_eq!(mapping(&pt, 0x7f00_0000_0000), Some(0xc007));
    assert_eq!(mapping(&pt, 0x40_1000), Some(0xa007));
}

#[test]
fn table_indices_and_entries() {
    let v = UserVAddr::new_nonnull(0x7f12_3456_7000).unwrap();
    assert_eq!(nth_level_table_index(v, 1), ((0x7f12_3456_7000u64 >> 12) & 0x1ff) as isize);
    assert_eq!(nth_level_table_index(v, 4), ((0x7f12_3456_7000u64 >> 39) & 0x1ff) as isize);
    assert_eq!(entry_paddr(0x8000_0000_1234_5067).value(), 0x1234_5000);
}
