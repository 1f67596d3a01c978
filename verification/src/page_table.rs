//! Four-level x86-64 page tables for user address spaces.
//!
//! The tables are held here as frames of 512 entries, each with its
//! physical address; writing them to physical memory and loading CR3 is the
//! caller's.
use vstd::prelude::*;
use crate::address::{PAddr, UserVAddr, PAGE_SIZE};

verus! {

pub const PAGE_ATTR_PRESENT: u64 = 1;
pub const PAGE_ATTR_WRITABLE: u64 = 2;
pub const PAGE_ATTR_USER: u64 = 4;

/// The bits of an entry that hold the physical address it points to.
pub const ENTRY_PADDR_MASK: u64 = 0x7fff_ffff_ffff_f000;

/// The number of entries of a table.
pub const ENTRIES_PER_TABLE: usize = 512;

/// The attributes of a user page: present, user, writable.
pub open spec fn user_page_attrs() -> u64 {
    PAGE_ATTR_PRESENT | PAGE_ATTR_USER | PAGE_ATTR_WRITABLE
}

/// The physical address an entry points to.
pub open spec fn spec_entry_paddr(entry: u64) -> u64 {
    entry & ENTRY_PADDR_MASK
}

/// The index into the level-`level` table (4 is the top) for `vaddr`.
pub open spec fn table_index(vaddr: u64, level: u64) -> u64 {
    (vaddr >> (((level - 1) * 9 + 12) as u64)) & 0x1ff
}

/// The physical address an entry points to.
pub fn entry_paddr(entry: u64) -> (r: PAddr)
    requires
        spec_entry_paddr(entry) <= usize::MAX,
    ensures
        r@ == spec_entry_paddr(entry),
{
    PAddr::new((entry & ENTRY_PADDR_MASK) as usize)
}

/// The index into the level-`level` table for `vaddr`.
pub fn nth_level_table_index(vaddr: UserVAddr, level: usize) -> (r: isize)
    requires
        1 <= level <= 4,
    ensures
        r == table_index(vaddr@ as u64, level as u64),
        0 <= r < 512,
{
    let v = vaddr.as_u64();
    let shift: u64 = ((level as u64) - 1) * 9 + 12;
    let r = (v >> shift) & 0x1ff;
    assert(r <= 0x1ff) by (bit_vector)
        requires
            r == (v >> shift) & 0x1ff,
    ;
    r as isize
}

/// A page-table frame: its physical address, its level (4 is the top) and
/// its entries.
pub struct TableFrame {
    pub paddr: u64,
    pub level: u64,
    pub entries: Vec<u64>,
}

/// A frame as plain values.
pub struct FrameView {
    pub paddr: u64,
    pub level: u64,
    pub entries: Seq<u64>,
}

impl TableFrame {
    pub open spec fn view(&self) -> FrameView {
        FrameView { paddr: self.paddr, level: self.level, entries: self.entries@ }
    }
}

/// Whether `p` can hold a table: non-null, page aligned, within the bits
/// an entry holds.
pub open spec fn frame_addr_ok(p: u64) -> bool {
    p != 0 && spec_entry_paddr(p) == p && p % 4096 == 0
}

/// Whether entry `k` of a level-`level` table may point to a table: the
/// top table's upper half belongs to the kernel.
pub open spec fn is_link_slot(level: u64, k: int) -> bool {
    2 <= level <= 4 && 0 <= k < 512 && (level < 4 || k < 256)
}

/// The frame whose physical address is `p`.
pub open spec fn frame_of(fr: Seq<FrameView>, p: u64) -> int {
    choose|j: int| 0 <= j < fr.len() && fr[j].paddr == p
}

/// The frames form a tree of tables under frame 0.
pub open spec fn frames_wf(fr: Seq<FrameView>) -> bool {
    &&& fr.len() >= 1
    &&& fr[0].level == 4
    &&& forall|i: int|
        0 <= i < fr.len() ==> {
            &&& (#[trigger] fr[i]).entries.len() == 512
            &&& 1 <= fr[i].level <= 4
            &&& frame_addr_ok(fr[i].paddr)
        }
    &&& forall|i: int, j: int|
        0 <= i < fr.len() && 0 <= j < fr.len() && i != j ==> (#[trigger] fr[i]).paddr != (
        #[trigger] fr[j]).paddr
    &&& forall|i: int, k: int|
        0 <= i < fr.len() && is_link_slot(fr[i].level, k) && spec_entry_paddr(
            #[trigger] fr[i].entries[k],
        ) != 0 ==> exists|j: int|
            0 <= j < fr.len() && fr[j].paddr == spec_entry_paddr(fr[i].entries[k]) && fr[j].level
                == fr[i].level - 1
    &&& forall|i1: int, k1: int, i2: int, k2: int|
        0 <= i1 < fr.len() && 0 <= i2 < fr.len() && is_link_slot(fr[i1].level, k1) && is_link_slot(
            fr[i2].level,
            k2,
        ) && spec_entry_paddr(#[trigger] fr[i1].entries[k1]) != 0 && spec_entry_paddr(
            fr[i1].entries[k1],
        ) == spec_entry_paddr(#[trigger] fr[i2].entries[k2]) ==> i1 == i2 && k1 == k2
}

/// The leaf table (level 1) that the walk for `v` reaches, if every level
/// on the way points to a table.
pub open spec fn leaf_frame(fr: Seq<FrameView>, v: u64) -> Option<int> {
    let p3 = spec_entry_paddr(fr[0].entries[table_index(v, 4) as int]);
    if p3 == 0 {
        None
    } else {
        let j3 = frame_of(fr, p3);
        let p2 = spec_entry_paddr(fr[j3].entries[table_index(v, 3) as int]);
        if p2 == 0 {
            None
        } else {
            let j2 = frame_of(fr, p2);
            let p1 = spec_entry_paddr(fr[j2].entries[table_index(v, 2) as int]);
            if p1 == 0 {
                None
            } else {
                Some(frame_of(fr, p1))
            }
        }
    }
}

/// The entry that maps the page at `v`, if it is present.
pub open spec fn mapping(fr: Seq<FrameView>, v: u64) -> Option<u64> {
    match leaf_frame(fr, v) {
        Some(j1) => {
            let e = fr[j1].entries[table_index(v, 1) as int];
            if e & PAGE_ATTR_PRESENT != 0 {
                Some(e)
            } else {
                None
            }
        },
        None => None,
    }
}

/// The number of tables that mapping `v` has to add.
pub open spec fn tables_needed(fr: Seq<FrameView>, v: u64) -> nat {
    let p3 = spec_entry_paddr(fr[0].entries[table_index(v, 4) as int]);
    if p3 == 0 {
        3
    } else {
        let j3 = frame_of(fr, p3);
        let p2 = spec_entry_paddr(fr[j3].entries[table_index(v, 3) as int]);
        if p2 == 0 {
            2
        } else {
            let j2 = frame_of(fr, p2);
            let p1 = spec_entry_paddr(fr[j2].entries[table_index(v, 2) as int]);
            if p1 == 0 {
                1
            } else {
                0
            }
        }
    }
}

/// Whether `pool` holds frames fit for new tables: distinct, valid, and
/// not used by the tables `fr`.
pub open spec fn pool_ok(fr: Seq<FrameView>, pool: Seq<u64>) -> bool {
    &&& forall|i: int| 0 <= i < pool.len() ==> frame_addr_ok(#[trigger] pool[i])
    &&& forall|i: int, j: int| 0 <= i < pool.len() && 0 <= j < pool.len() && i != j ==> #[trigger] pool[i] != #[trigger] pool[j]
    &&& forall|i: int, j: int| 0 <= i < pool.len() && 0 <= j < fr.len() ==> #[trigger] pool[i] != (#[trigger] fr[j]).paddr
}

/// A user address space's page tables.
pub struct PageTable {
    frames: Vec<TableFrame>,
}

impl PageTable {
    /// The frames, the top table first.
    pub closed spec fn view(&self) -> Seq<FrameView> {
        self.frames@.map_values(|f: TableFrame| f@)
    }

    /// The physical address of the top table (what CR3 gets).
    pub closed spec fn spec_pml4(&self) -> u64 {
        self.frames@[0].paddr
    }

    /// Page tables whose top table is at `pml4` with the entries
    /// `kernel_pml4` (the kernel's mappings), of which the lower half must
    /// be empty; entry 0 is cleared to catch null-pointer dereferences.
    pub fn new(pml4: u64, kernel_pml4: &[u64]) -> (r: PageTable)
        requires
            frame_addr_ok(pml4),
            kernel_pml4.len() == 512,
            forall|k: int| 1 <= k < 256 ==> spec_entry_paddr(#[trigger] kernel_pml4@[k]) == 0,
        ensures
            frames_wf(r@),
            r@.len() == 1,
            r.spec_pml4() == pml4,
            r@[0].entries == kernel_pml4@.update(0, 0),
    {
        let mut entries: Vec<u64> = Vec::new();
        let mut i: usize = 0;
        while i < 512
            invariant
                kernel_pml4.len() == 512,
                0 <= i <= 512,
                entries@ == kernel_pml4@.take(i as int),
            decreases 512 - i,
        {
            entries.push(kernel_pml4[i]);
            i += 1;
        }
        proof {
            assert(kernel_pml4@.take(512) =~= kernel_pml4@);
        }
        entries.set(0, 0);
        let r = PageTable { frames: vec![TableFrame { paddr: pml4, level: 4, entries }] };
        proof {
            assert(r@.len() == 1);
            assert(r@[0] == r.frames@[0]@);
            assert(spec_entry_paddr(0u64) == 0) by (bit_vector);
            assert forall|i: int, k: int|
                0 <= i < r@.len() && is_link_slot(r@[i].level, k) && spec_entry_paddr(
                    #[trigger] r@[i].entries[k],
                ) != 0 implies exists|j: int|
                    0 <= j < r@.len() && r@[j].paddr == spec_entry_paddr(r@[i].entries[k])
                        && r@[j].level == r@[i].level - 1 by {
                if k == 0 {
                    assert(r@[i].entries[k] == 0);
                }
            }
        }
        r
    }

    /// The top table's physical address.
    pub fn pml4(&self) -> (r: u64)
        requires
            self@.len() >= 1,
        ensures
            r == self.spec_pml4(),
    {
        self.frames[0].paddr
    }

    /// The frames, to be written to physical memory.
    pub fn frames(&self) -> (r: &Vec<TableFrame>)
        ensures
            r@.map_values(|f: TableFrame| f@) == self@,
    {
        &self.frames
    }
}


/// Setting the attribute bits keeps the address an entry points to.
pub proof fn lemma_entry_with_attrs(p: u64)
    requires
        spec_entry_paddr(p) == p,
        p % 4096 == 0,
    ensures
        spec_entry_paddr(p | user_page_attrs()) == p,
        spec_entry_paddr(0u64) == 0,
{
    assert(p & 0xfff == 0) by (bit_vector)
        requires
            p % 4096 == 0,
    ;
    assert((p | 7) & 0x7fff_ffff_ffff_f000 == p) by (bit_vector)
        requires
            p & 0x7fff_ffff_ffff_f000 == p,
            p & 0xfff == 0,
    ;
    assert(0u64 & 0x7fff_ffff_ffff_f000 == 0) by (bit_vector);
    assert(PAGE_ATTR_PRESENT | PAGE_ATTR_USER | PAGE_ATTR_WRITABLE == 7) by (bit_vector);
}

/// The attribute bits of a user page, and the address of a zero entry.
pub proof fn lemma_constants()
    ensures
        user_page_attrs() == 7,
        spec_entry_paddr(0u64) == 0,
{
    assert(PAGE_ATTR_PRESENT | PAGE_ATTR_USER | PAGE_ATTR_WRITABLE == 7) by (bit_vector);
    assert(0u64 & 0x7fff_ffff_ffff_f000 == 0) by (bit_vector);
}

/// A table of zeros.
fn zero_entries() -> (r: Vec<u64>)
    ensures
        r@ == zero_table(),
{
    let mut r: Vec<u64> = Vec::new();
    let mut i: usize = 0;
    while i < 512
        invariant
            0 <= i <= 512,
            r@ == Seq::new(i as nat, |k: int| 0u64),
        decreases 512 - i,
    {
        r.push(0);
        i += 1;
    }
    r
}

/// In a tree of tables, the frame with a given address is found.
pub proof fn lemma_frame_of(fr: Seq<FrameView>, j: int)
    requires
        frames_wf(fr),
        0 <= j < fr.len(),
    ensures
        frame_of(fr, fr[j].paddr) == j,
{
    let k = frame_of(fr, fr[j].paddr);
    assert(0 <= k < fr.len() && fr[k].paddr == fr[j].paddr);
    if k != j {
        assert(fr[k].paddr != fr[j].paddr);
    }
}

/// The frames after entry `k` of frame `i` was set to `value`.
pub open spec fn set_entry(fr: Seq<FrameView>, i: int, k: int, value: u64) -> Seq<FrameView> {
    fr.update(i, FrameView { paddr: fr[i].paddr, level: fr[i].level, entries: fr[i].entries.update(k, value) })
}

/// A table of zeros.
pub open spec fn zero_table() -> Seq<u64> {
    Seq::new(512, |k: int| 0u64)
}

impl PageTable {
    /// The index of the frame at `p`.
    fn find_frame(&self, p: u64) -> (r: usize)
        requires
            frames_wf(self@),
            exists|j: int| 0 <= j < self@.len() && self@[j].paddr == p,
        ensures
            r < self@.len(),
            r == frame_of(self@, p),
            self@[r as int].paddr == p,
    {
        let ghost w = choose|j: int| 0 <= j < self@.len() && self@[j].paddr == p;
        let mut i: usize = 0;
        while i < self.frames.len()
            invariant
                frames_wf(self@),
                0 <= w < self@.len(),
                self@[w].paddr == p,
                self@.len() == self.frames@.len(),
                0 <= i <= w,
            decreases self.frames.len() - i,
        {
            proof {
                assert(self@[i as int] == self.frames@[i as int]@);
            }
            if self.frames[i].paddr == p {
                proof {
                    lemma_frame_of(self@, i as int);
                }
                return i;
            }
            proof {
                if i as int == w {
                    assert(false);
                }
            }
            i += 1;
        }
        proof {
            assert(false);
        }
        0
    }

    /// Goes from the table in frame `cur` one level down along the walk for
    /// `v`: the entry is pointed at a new table from `pool` when it pointed
    /// nowhere, its attributes are set, and the table it points to is
    /// returned.
    fn descend(&mut self, cur: usize, v: u64, pool: &mut Vec<u64>) -> (next: usize)
        requires
            frames_wf(old(self)@),
            cur < old(self)@.len(),
            is_link_slot(old(self)@[cur as int].level, table_index(v, old(self)@[cur as int].level) as int),
            pool_ok(old(self)@, old(pool)@),
            spec_entry_paddr(old(self)@[cur as int].entries[table_index(v, old(self)@[cur as int].level) as int]) == 0
                ==> old(pool)@.len() >= 1,
            old(self)@.len() < usize::MAX,
        ensures
            frames_wf(final(self)@),
            pool_ok(final(self)@, final(pool)@),
            next < final(self)@.len(),
            next != cur,
            final(self)@.len() >= old(self)@.len(),
            final(self)@[next as int].level == old(self)@[cur as int].level - 1,
            final(self)@[cur as int].paddr == old(self)@[cur as int].paddr,
            final(self)@[cur as int].level == old(self)@[cur as int].level,
            spec_entry_paddr(final(self)@[cur as int].entries[table_index(v, old(self)@[cur as int].level) as int])
                == final(self)@[next as int].paddr,
            forall|j: int| 0 <= j < old(self)@.len() && j != cur ==> #[trigger] final(self)@[j] == old(self)@[j],
            ({
                let lvl = old(self)@[cur as int].level;
                let k = table_index(v, lvl) as int;
                let p = spec_entry_paddr(old(self)@[cur as int].entries[k]);
                if p != 0 {
                    &&& final(self)@ == set_entry(old(self)@, cur as int, k, p | user_page_attrs())
                    &&& next == frame_of(old(self)@, p)
                    &&& final(pool)@ == old(pool)@
                } else {
                    let n = old(pool)@.last();
                    &&& final(self)@ == set_entry(old(self)@, cur as int, k, n | user_page_attrs()).push(
                        FrameView { paddr: n, level: (lvl - 1) as u64, entries: zero_table() },
                    )
                    &&& next == old(self)@.len()
                    &&& final(pool)@ == old(pool)@.drop_last()
                }
            }),
    {
        let ghost fr = self@;
        let lvl = self.frames[cur].level;
        proof {
            assert(self@[cur as int] == self.frames@[cur as int]@);
        }
        let k = ((v >> ((lvl - 1) * 9 + 12)) & 0x1ff) as usize;
        let e = self.frames[cur].entries[k];
        let p = e & ENTRY_PADDR_MASK;
        if p != 0 {
            let next = self.find_frame(p);
            proof {
                lemma_entry_with_attrs(p);
            }
            self.frames[cur].entries.set(k, p | (PAGE_ATTR_PRESENT | PAGE_ATTR_USER | PAGE_ATTR_WRITABLE));
            proof {
                assert(self@ =~= set_entry(fr, cur as int, k as int, p | user_page_attrs()));
                assert(frames_wf(self@)) by {
                    self.lemma_set_same_target(fr, cur as int, k as int, p | user_page_attrs());
                }
                assert(self@[next as int].level == fr[cur as int].level - 1);
            }
            next
        } else {
            let n = pool.pop().unwrap();
            proof {
                lemma_entry_with_attrs(n);
            }
            let next = self.frames.len();
            self.frames[cur].entries.set(k, n | (PAGE_ATTR_PRESENT | PAGE_ATTR_USER | PAGE_ATTR_WRITABLE));
            self.frames.push(TableFrame { paddr: n, level: lvl - 1, entries: zero_entries() });
            proof {
                assert(self@ =~= set_entry(fr, cur as int, k as int, n | user_page_attrs()).push(
                    FrameView { paddr: n, level: (lvl - 1) as u64, entries: zero_table() },
                ));
                lemma_add_frame(fr, cur as int, k as int, n, self@);
            }
            next
        }
    }

    /// Rewriting a link with the same target keeps the tree.
    proof fn lemma_set_same_target(&self, fr: Seq<FrameView>, i: int, k: int, value: u64)
        requires
            frames_wf(fr),
            0 <= i < fr.len(),
            0 <= k < 512,
            spec_entry_paddr(value) == spec_entry_paddr(fr[i].entries[k]),
            self@ == set_entry(fr, i, k, value),
        ensures
            frames_wf(self@),
    {
        let nf = self@;
        assert forall|a: int, b: int| 0 <= a < nf.len() && 0 <= b < 512 implies spec_entry_paddr(
            #[trigger] nf[a].entries[b],
        ) == spec_entry_paddr(fr[a].entries[b]) by {
            if a == i && b == k {
            } else {
                assert(nf[a].entries[b] == fr[a].entries[b]);
            }
        }
        assert forall|a: int| 0 <= a < nf.len() implies (#[trigger] nf[a]).paddr == fr[a].paddr && nf[a].level == fr[a].level && nf[a].entries.len() == 512 by {
        }
        assert forall|a: int, b: int|
            0 <= a < nf.len() && is_link_slot(nf[a].level, b) && spec_entry_paddr(
                #[trigger] nf[a].entries[b],
            ) != 0 implies exists|j: int|
                0 <= j < nf.len() && nf[j].paddr == spec_entry_paddr(nf[a].entries[b]) && nf[j].level
                    == nf[a].level - 1 by {
            assert(spec_entry_paddr(nf[a].entries[b]) == spec_entry_paddr(fr[a].entries[b]));
            let j = choose|j: int| 0 <= j < fr.len() && fr[j].paddr == spec_entry_paddr(fr[a].entries[b]) && fr[j].level == fr[a].level - 1;
            assert(nf[j].paddr == fr[j].paddr);
        }
        assert forall|i1: int, k1: int, i2: int, k2: int|
            0 <= i1 < nf.len() && 0 <= i2 < nf.len() && is_link_slot(nf[i1].level, k1) && is_link_slot(
                nf[i2].level,
                k2,
            ) && spec_entry_paddr(#[trigger] nf[i1].entries[k1]) != 0 && spec_entry_paddr(
                nf[i1].entries[k1],
            ) == spec_entry_paddr(#[trigger] nf[i2].entries[k2]) implies i1 == i2 && k1 == k2 by {
            assert(spec_entry_paddr(nf[i1].entries[k1]) == spec_entry_paddr(fr[i1].entries[k1]));
            assert(spec_entry_paddr(nf[i2].entries[k2]) == spec_entry_paddr(fr[i2].entries[k2]));
        }
        assert forall|a: int, b: int| 0 <= a < nf.len() && 0 <= b < nf.len() && a != b implies (#[trigger] nf[a]).paddr != (#[trigger] nf[b]).paddr by {
        }
    }
}

/// Pointing an empty link slot at a new zeroed table keeps the tree.
pub proof fn lemma_add_frame(fr: Seq<FrameView>, i: int, k: int, n: u64, nf: Seq<FrameView>)
    requires
        frames_wf(fr),
        0 <= i < fr.len(),
        is_link_slot(fr[i].level, k),
        spec_entry_paddr(fr[i].entries[k]) == 0,
        frame_addr_ok(n),
        spec_entry_paddr(n | user_page_attrs()) == n,
        spec_entry_paddr(0u64) == 0,
        forall|j: int| 0 <= j < fr.len() ==> n != (#[trigger] fr[j]).paddr,
        nf == set_entry(fr, i, k, n | user_page_attrs()).push(
            FrameView { paddr: n, level: (fr[i].level - 1) as u64, entries: zero_table() },
        ),
    ensures
        frames_wf(nf),
{
    let last = fr.len() as int;
    assert(nf.len() == fr.len() + 1);
    assert forall|a: int| 0 <= a < fr.len() implies (#[trigger] nf[a]).paddr == fr[a].paddr && nf[a].level == fr[a].level && nf[a].entries.len() == 512 by {
    }
    assert forall|a: int, b: int| 0 <= a < fr.len() && 0 <= b < 512 && !(a == i && b == k) implies #[trigger] nf[a].entries[b] == fr[a].entries[b] by {
    }
    assert forall|b: int| 0 <= b < 512 implies spec_entry_paddr(#[trigger] nf[last].entries[b]) == 0 by {
        assert(nf[last].entries[b] == 0u64);
    }
    assert(spec_entry_paddr(nf[i].entries[k]) == n);
    assert forall|a: int| 0 <= a < nf.len() implies {
        &&& (#[trigger] nf[a]).entries.len() == 512
        &&& 1 <= nf[a].level <= 4
        &&& frame_addr_ok(nf[a].paddr)
    } by {
        if a < fr.len() {
            assert(fr[a].entries.len() == 512);
        }
    }
    assert forall|a: int, b: int| 0 <= a < nf.len() && 0 <= b < nf.len() && a != b implies (#[trigger] nf[a]).paddr != (#[trigger] nf[b]).paddr by {
        if a < fr.len() && b < fr.len() {
            assert(fr[a].paddr != fr[b].paddr);
        }
    }
    assert forall|a: int, b: int|
        0 <= a < nf.len() && is_link_slot(nf[a].level, b) && spec_entry_paddr(
            #[trigger] nf[a].entries[b],
        ) != 0 implies exists|j: int|
            0 <= j < nf.len() && nf[j].paddr == spec_entry_paddr(nf[a].entries[b]) && nf[j].level
                == nf[a].level - 1 by {
        if a == i && b == k {
            assert(nf[last].paddr == n);
        } else if a < fr.len() {
            assert(nf[a].entries[b] == fr[a].entries[b]);
            let j = choose|j: int| 0 <= j < fr.len() && fr[j].paddr == spec_entry_paddr(fr[a].entries[b]) && fr[j].level == fr[a].level - 1;
            assert(nf[j].paddr == fr[j].paddr);
        }
    }
    assert forall|i1: int, k1: int, i2: int, k2: int|
        0 <= i1 < nf.len() && 0 <= i2 < nf.len() && is_link_slot(nf[i1].level, k1) && is_link_slot(
            nf[i2].level,
            k2,
        ) && spec_entry_paddr(#[trigger] nf[i1].entries[k1]) != 0 && spec_entry_paddr(
            nf[i1].entries[k1],
        ) == spec_entry_paddr(#[trigger] nf[i2].entries[k2]) implies i1 == i2 && k1 == k2 by {
        if i1 == last || i2 == last {
        } else if i1 == i && k1 == k && !(i2 == i && k2 == k) {
            assert(nf[i2].entries[k2] == fr[i2].entries[k2]);
            let j = choose|j: int| 0 <= j < fr.len() && fr[j].paddr == spec_entry_paddr(fr[i2].entries[k2]) && fr[j].level == fr[i2].level - 1;
            assert(fr[j].paddr == n);
        } else if i2 == i && k2 == k && !(i1 == i && k1 == k) {
            assert(nf[i1].entries[k1] == fr[i1].entries[k1]);
            let j = choose|j: int| 0 <= j < fr.len() && fr[j].paddr == spec_entry_paddr(fr[i1].entries[k1]) && fr[j].level == fr[i1].level - 1;
            assert(fr[j].paddr == n);
        } else if !(i1 == i && k1 == k) && !(i2 == i && k2 == k) {
            assert(nf[i1].entries[k1] == fr[i1].entries[k1]);
            assert(nf[i2].entries[k2] == fr[i2].entries[k2]);
        }
    }
}

/// Setting an entry of a leaf table keeps the tree: leaf entries point to
/// pages, not tables.
pub proof fn lemma_set_leaf(fr: Seq<FrameView>, i: int, k: int, value: u64)
    requires
        frames_wf(fr),
        0 <= i < fr.len(),
        fr[i].level == 1,
        0 <= k < 512,
    ensures
        frames_wf(set_entry(fr, i, k, value)),
{
    let nf = set_entry(fr, i, k, value);
    assert forall|a: int, b: int| 0 <= a < nf.len() && is_link_slot(nf[a].level, b) implies #[trigger] nf[a].entries[b] == fr[a].entries[b] by {
    }
    assert forall|a: int| 0 <= a < nf.len() implies (#[trigger] nf[a]).paddr == fr[a].paddr && nf[a].level == fr[a].level && nf[a].entries.len() == 512 by {
    }
    assert forall|a: int, b: int|
        0 <= a < nf.len() && is_link_slot(nf[a].level, b) && spec_entry_paddr(
            #[trigger] nf[a].entries[b],
        ) != 0 implies exists|j: int|
            0 <= j < nf.len() && nf[j].paddr == spec_entry_paddr(nf[a].entries[b]) && nf[j].level
                == nf[a].level - 1 by {
        let j = choose|j: int| 0 <= j < fr.len() && fr[j].paddr == spec_entry_paddr(fr[a].entries[b]) && fr[j].level == fr[a].level - 1;
        assert(nf[j].paddr == fr[j].paddr);
    }
    assert forall|i1: int, k1: int, i2: int, k2: int|
        0 <= i1 < nf.len() && 0 <= i2 < nf.len() && is_link_slot(nf[i1].level, k1) && is_link_slot(
            nf[i2].level,
            k2,
        ) && spec_entry_paddr(#[trigger] nf[i1].entries[k1]) != 0 && spec_entry_paddr(
            nf[i1].entries[k1],
        ) == spec_entry_paddr(#[trigger] nf[i2].entries[k2]) implies i1 == i2 && k1 == k2 by {
        assert(nf[i1].entries[k1] == fr[i1].entries[k1]);
        assert(nf[i2].entries[k2] == fr[i2].entries[k2]);
    }
    assert forall|a: int, b: int| 0 <= a < nf.len() && 0 <= b < nf.len() && a != b implies (#[trigger] nf[a]).paddr != (#[trigger] nf[b]).paddr by {
        assert(fr[a].paddr != fr[b].paddr);
    }
}

/// The top-level index of a user address below 2^47 is in the user half.
pub proof fn lemma_user_index(v: u64)
    requires
        v < 0x8000_0000_0000,
    ensures
        table_index(v, 4) < 256,
        table_index(v, 3) < 512,
        table_index(v, 2) < 512,
        table_index(v, 1) < 512,
{
    assert((v >> 39u64) & 0x1ff < 256) by (bit_vector)
        requires
            v < 0x8000_0000_0000,
    ;
    assert((v >> 30u64) & 0x1ff < 512) by (bit_vector);
    assert((v >> 21u64) & 0x1ff < 512) by (bit_vector);
    assert((v >> 12u64) & 0x1ff < 512) by (bit_vector);
}

impl PageTable {
    /// Maps the user page at `vaddr` to the physical page `paddr`, present,
    /// user-accessible and writable. Missing tables on the way are taken
    /// from the end of `pool` (the kernel allocates them; it panics when it
    /// cannot, which `requires` leaves out).
    pub fn map_user_page(&mut self, vaddr: UserVAddr, paddr: PAddr, pool: &mut Vec<u64>)
        requires
            frames_wf(old(self)@),
            vaddr@ % 4096 == 0,
            vaddr@ < 0x8000_0000_0000,
            pool_ok(old(self)@, old(pool)@),
            old(pool)@.len() >= tables_needed(old(self)@, vaddr@ as u64),
            old(self)@.len() + 3 < usize::MAX,
        ensures
            frames_wf(final(self)@),
            mapping(final(self)@, vaddr@ as u64) == Some((paddr@ as u64) | user_page_attrs()),
            forall|w: u64|
                w % 4096 == 0 && w < 0x8000_0000_0000 && w != vaddr@ ==> #[trigger] mapping(final(self)@, w)
                    == mapping(old(self)@, w),
            pool_ok(final(self)@, final(pool)@),
            final(pool)@ == old(pool)@.take(old(pool)@.len() - tables_needed(old(self)@, vaddr@ as u64)),
            final(self).spec_pml4() == old(self).spec_pml4(),
    {
        let ghost f0 = self@;
        let v = vaddr.as_u64();
        proof {
            lemma_user_index(v);
            assert(self@[0] == self.frames@[0]@);
        }
        let ghost pl0 = pool@;
        let c3 = self.descend(0, v, pool);
        let ghost f1 = self@;
        let ghost pl1 = pool@;
        proof {
            assert(f1[0].level == 4);
            lemma_frame_of(f1, c3 as int);
        }
        let c2 = self.descend(c3, v, pool);
        let ghost f2 = self@;
        let ghost pl2 = pool@;
        proof {
            lemma_frame_of(f2, c2 as int);
        }
        let c1 = self.descend(c2, v, pool);
        let ghost f3 = self@;
        proof {
            lemma_frame_of(f3, c1 as int);
        }
        let k1 = ((v >> 12u64) & 0x1ff) as usize;
        let value = (paddr.value() as u64) | (PAGE_ATTR_PRESENT | PAGE_ATTR_USER | PAGE_ATTR_WRITABLE);
        self.frames[c1].entries.set(k1, value);
        proof {
            assert(self@ =~= set_entry(f3, c1 as int, k1 as int, value));
            lemma_set_leaf(f3, c1 as int, k1 as int, value);
            let nf = self@;
            let k4 = table_index(v, 4) as int;
            let k3 = table_index(v, 3) as int;
            let k2 = table_index(v, 2) as int;
            assert(k1 as u64 == table_index(v, 1));
            assert(f1[c3 as int].level == 3);
            assert(f2[c2 as int].level == 2);
            assert(f3[c1 as int].level == 1);
            assert(c1 != c2 && c1 != c3 && c2 != c3 && c1 != 0 && c2 != 0 && c3 != 0) by {
                assert(f2[c3 as int].level == 3);
                assert(f3[c3 as int].level == 3);
                assert(f3[c2 as int].level == 2);
                assert(f3[0].level == 4);
            }
            assert(nf[0] == f3[0] && f3[0] == f2[0] && f2[0] == f1[0]);
            assert(nf[c3 as int] == f3[c3 as int] && f3[c3 as int] == f2[c3 as int]);
            assert(nf[c2 as int] == f3[c2 as int]);
            assert(spec_entry_paddr(nf[0].entries[k4]) == nf[c3 as int].paddr);
            assert(spec_entry_paddr(nf[c3 as int].entries[k3]) == nf[c2 as int].paddr);
            assert(spec_entry_paddr(nf[c2 as int].entries[k2]) == nf[c1 as int].paddr);
            lemma_frame_of(nf, c3 as int);
            lemma_frame_of(nf, c2 as int);
            lemma_frame_of(nf, c1 as int);
            assert(nf[c3 as int].paddr != 0 && nf[c2 as int].paddr != 0 && nf[c1 as int].paddr != 0);
            assert(leaf_frame(nf, v) == Some(c1 as int));
            assert(nf[c1 as int].entries[k1 as int] == value);
            let pv = paddr@ as u64;
            assert((pv | 7) & 1 != 0) by (bit_vector);
            assert(user_page_attrs() == 7) by {
                lemma_constants();
            }
            // Every other page keeps its mapping.
            let e4 = spec_entry_paddr(f0[0].entries[k4]);
            lemma_set_step(f0, 0, k4, (if e4 != 0 { e4 } else { pl0.last() }) | user_page_attrs(), pl0.last(), 3);
            assert(step_ok(f0, f1, 0, k4));
            let e3 = spec_entry_paddr(f1[c3 as int].entries[k3]);
            lemma_set_step(f1, c3 as int, k3, (if e3 != 0 { e3 } else { pl1.last() }) | user_page_attrs(), pl1.last(), 2);
            assert(step_ok(f1, f2, c3 as int, k3));
            let e2 = spec_entry_paddr(f2[c2 as int].entries[k2]);
            lemma_set_step(f2, c2 as int, k2, (if e2 != 0 { e2 } else { pl2.last() }) | user_page_attrs(), pl2.last(), 1);
            assert(step_ok(f2, f3, c2 as int, k2));
            lemma_set_step(f3, c1 as int, k1 as int, value, 0, 0);
            assert(step_ok(f3, nf, c1 as int, k1 as int));
            assert(child_ok(f0, 0, k4, c3 as int));
            assert(child_ok(f1, c3 as int, k3, c2 as int));
            assert(child_ok(f2, c2 as int, k2, c1 as int));
            lemma_compose(f0, f1, f2, f3, nf, v, c3 as int, c2 as int, c1 as int);
            assert forall|w: u64|
                w % 4096 == 0 && w < 0x8000_0000_0000 && w != vaddr@ implies #[trigger] mapping(nf, w) == mapping(f0, w) by {
                lemma_mapping_kept(f0, nf, v, c3 as int, c2 as int, c1 as int, w);
            }
            // The pool lost one frame per table added.
            let p3 = spec_entry_paddr(f0[0].entries[k4]);
            if p3 == 0 {
                assert(f1[c3 as int].entries == zero_table());
                assert(spec_entry_paddr(f1[c3 as int].entries[k3]) == 0) by {
                    lemma_constants();
                }
                assert(f2[c2 as int].entries == zero_table());
                assert(spec_entry_paddr(f2[c2 as int].entries[k2]) == 0) by {
                    lemma_constants();
                }
                assert(old(pool)@.drop_last().drop_last().drop_last() =~= old(pool)@.take(old(pool)@.len() - 3));
            } else {
                let j3 = frame_of(f0, p3);
                assert(f1[c3 as int] == f0[j3]);
                let p2 = spec_entry_paddr(f0[j3].entries[k3]);
                if p2 == 0 {
                    assert(f2[c2 as int].entries == zero_table());
                    assert(spec_entry_paddr(f2[c2 as int].entries[k2]) == 0) by {
                        lemma_constants();
                    }
                    assert(old(pool)@.drop_last().drop_last() =~= old(pool)@.take(old(pool)@.len() - 2));
                } else {
                    let j2 = frame_of(f0, p2);
                    assert(c2 as int == frame_of(f1, p2));
                    assert(f1[c2 as int].paddr == p2);
                    lemma_frame_of(f0, j2);
                    assert(j2 < f0.len());
                    assert(f1[j2] == f0[j2] || j2 == 0);
                    assert(f2[c2 as int] == f1[c2 as int]);
                    let p1 = spec_entry_paddr(f0[j2].entries[k2]);
                    if p1 == 0 {
                        assert(old(pool)@.drop_last() =~= old(pool)@.take(old(pool)@.len() - 1));
                    } else {
                        assert(old(pool)@ =~= old(pool)@.take(old(pool)@.len() as int));
                    }
                }
            }
        }
    }
}

/// The leaf table reached from table `j` of level `level` along the walk
/// for `w`.
pub open spec fn walk_from(fr: Seq<FrameView>, j: int, level: int, w: u64) -> Option<int>
    decreases level,
{
    if level <= 1 {
        Some(j)
    } else {
        let p = spec_entry_paddr(fr[j].entries[table_index(w, level as u64) as int]);
        if p == 0 {
            None
        } else {
            walk_from(fr, frame_of(fr, p), level - 1, w)
        }
    }
}

/// The walk from the top table is `leaf_frame`.
pub proof fn lemma_leaf_frame_walk(fr: Seq<FrameView>, w: u64)
    ensures
        leaf_frame(fr, w) == walk_from(fr, 0, 4, w),
{
    reveal_with_fuel(walk_from, 4);
}

/// Two page-aligned user addresses with the same four table indices are
/// the same address.
pub proof fn lemma_indices_determine_page(v: u64, w: u64)
    requires
        v < 0x8000_0000_0000,
        w < 0x8000_0000_0000,
        v % 4096 == 0,
        w % 4096 == 0,
        table_index(v, 4) == table_index(w, 4),
        table_index(v, 3) == table_index(w, 3),
        table_index(v, 2) == table_index(w, 2),
        table_index(v, 1) == table_index(w, 1),
    ensures
        v == w,
{
    assert(v & 0xfff == 0 && w & 0xfff == 0) by (bit_vector)
        requires
            v % 4096 == 0,
            w % 4096 == 0,
    ;
    assert(v == w) by (bit_vector)
        requires
            v < 0x8000_0000_0000,
            w < 0x8000_0000_0000,
            v & 0xfff == 0,
            w & 0xfff == 0,
            (v >> 39u64) & 0x1ff == (w >> 39u64) & 0x1ff,
            (v >> 30u64) & 0x1ff == (w >> 30u64) & 0x1ff,
            (v >> 21u64) & 0x1ff == (w >> 21u64) & 0x1ff,
            (v >> 12u64) & 0x1ff == (w >> 12u64) & 0x1ff,
    ;
}

/// The frame on the walk for `v` at `level`: the top table, then `c3`,
/// `c2`, `c1`.
pub open spec fn path_frame(level: int, c3: int, c2: int, c1: int) -> int {
    if level == 4 {
        0
    } else if level == 3 {
        c3
    } else if level == 2 {
        c2
    } else {
        c1
    }
}

/// What a mapping of `v` did to the frames `f0`, giving `nf`, walking
/// through the frames `c3`, `c2`, `c1`.
pub open spec fn mapped_along(f0: Seq<FrameView>, nf: Seq<FrameView>, v: u64, c3: int, c2: int, c1: int) -> bool {
    &&& frames_wf(f0)
    &&& frames_wf(nf)
    &&& nf.len() >= f0.len()
    &&& forall|j: int| 0 <= j < f0.len() ==> (#[trigger] nf[j]).paddr == f0[j].paddr && nf[j].level == f0[j].level
    &&& 0 <= c3 < nf.len() && 0 <= c2 < nf.len() && 0 <= c1 < nf.len()
    &&& nf[c3].level == 3 && nf[c2].level == 2 && nf[c1].level == 1
    &&& spec_entry_paddr(nf[0].entries[table_index(v, 4) as int]) == nf[c3].paddr
    &&& spec_entry_paddr(nf[c3].entries[table_index(v, 3) as int]) == nf[c2].paddr
    &&& spec_entry_paddr(nf[c2].entries[table_index(v, 2) as int]) == nf[c1].paddr
    &&& forall|j: int, b: int|
        0 <= j < nf.len() && 0 <= b < 512 && !(exists|l: int| 1 <= l <= 4 && j == path_frame(l, c3, c2, c1) && b == table_index(v, l as u64)) ==> #[trigger] nf[j].entries[b]
            == (if j < f0.len() {
            f0[j].entries[b]
        } else {
            0u64
        })
    &&& forall|l: int|
        2 <= l <= 4 ==> {
            let pj = path_frame(l, c3, c2, c1);
            let cj = #[trigger] path_frame(l - 1, c3, c2, c1);
            if pj < f0.len() && spec_entry_paddr(f0[pj].entries[table_index(v, l as u64) as int]) != 0 {
                cj == frame_of(f0, spec_entry_paddr(f0[pj].entries[table_index(v, l as u64) as int]))
            } else {
                cj >= f0.len()
            }
        }
}

/// The present entry that the walk from table `j` of level `level` reaches
/// for `w`.
pub open spec fn leaf_entry(fr: Seq<FrameView>, j: int, level: int, w: u64) -> Option<u64> {
    match walk_from(fr, j, level, w) {
        Some(r) => {
            let e = fr[r].entries[table_index(w, 1) as int];
            if e & PAGE_ATTR_PRESENT != 0 {
                Some(e)
            } else {
                None
            }
        },
        None => None,
    }
}

/// An entry that the mapping did not write is as it was.
pub proof fn lemma_unwritten(f0: Seq<FrameView>, nf: Seq<FrameView>, v: u64, c3: int, c2: int, c1: int, j: int, b: int)
    requires
        mapped_along(f0, nf, v, c3, c2, c1),
        0 <= j < nf.len(),
        0 <= b < 512,
        j != path_frame(nf[j].level as int, c3, c2, c1) || b != table_index(v, nf[j].level) as int,
    ensures
        nf[j].entries[b] == (if j < f0.len() { f0[j].entries[b] } else { 0u64 }),
{
    assert(nf[0].level == 4);
    assert forall|l: int| 1 <= l <= 4 && j == path_frame(l, c3, c2, c1) implies b != table_index(v, l as u64) by {
        assert(nf[path_frame(l, c3, c2, c1)].level == l);
    }
}

/// Below a table that is not on the walk for `v`, nothing changed.
pub proof fn lemma_off_path(
    f0: Seq<FrameView>,
    nf: Seq<FrameView>,
    v: u64,
    c3: int,
    c2: int,
    c1: int,
    j: int,
    level: int,
    w: u64,
)
    requires
        mapped_along(f0, nf, v, c3, c2, c1),
        1 <= level <= 4,
        0 <= j < f0.len(),
        f0[j].level == level,
        j != path_frame(level, c3, c2, c1),
        w < 0x8000_0000_0000,
        v < 0x8000_0000_0000,
    ensures
        walk_from(nf, j, level, w) == walk_from(f0, j, level, w),
        walk_from(f0, j, level, w) matches Some(r) ==> 0 <= r < f0.len() && r != c1 && f0[r].level == 1,
    decreases level,
{
    lemma_user_index(w);
    if level > 1 {
        let k = table_index(w, level as u64) as int;
        lemma_unwritten(f0, nf, v, c3, c2, c1, j, k);
        let p = spec_entry_paddr(f0[j].entries[k]);
        if p != 0 {
            assert(is_link_slot(f0[j].level, k));
            let j2 = frame_of(f0, p);
            assert(0 <= j2 < f0.len() && f0[j2].paddr == p && f0[j2].level == level - 1);
            lemma_frame_of(nf, j2);
            assert(frame_of(nf, p) == j2);
            let pj = path_frame(level, c3, c2, c1);
            let cj = path_frame(level - 1, c3, c2, c1);
            let kv = table_index(v, level as u64) as int;
            if pj < f0.len() && spec_entry_paddr(f0[pj].entries[kv]) != 0 {
                assert(cj == frame_of(f0, spec_entry_paddr(f0[pj].entries[kv])));
                if j2 == cj {
                    lemma_user_index(v);
                    assert(f0[pj].level == level) by {
                        assert(nf[0].level == 4);
                    }
                    assert(is_link_slot(f0[pj].level, kv));
                }
            } else {
                assert(cj >= f0.len());
            }
            lemma_off_path(f0, nf, v, c3, c2, c1, j2, level - 1, w);
        }
    }
}

/// Below a table that the mapping added, the walk for another page finds
/// nothing.
pub proof fn lemma_new_path(
    f0: Seq<FrameView>,
    nf: Seq<FrameView>,
    v: u64,
    c3: int,
    c2: int,
    c1: int,
    level: int,
    w: u64,
)
    requires
        mapped_along(f0, nf, v, c3, c2, c1),
        1 <= level <= 3,
        path_frame(level, c3, c2, c1) >= f0.len(),
        w != v,
        v < 0x8000_0000_0000,
        w < 0x8000_0000_0000,
        v % 4096 == 0,
        w % 4096 == 0,
        level < 4 ==> table_index(w, 4) == table_index(v, 4),
        level < 3 ==> table_index(w, 3) == table_index(v, 3),
        level < 2 ==> table_index(w, 2) == table_index(v, 2),
    ensures
        leaf_entry(nf, path_frame(level, c3, c2, c1), level, w) is None,
    decreases level,
{
    lemma_constants();
    lemma_user_index(w);
    lemma_user_index(v);
    let j = path_frame(level, c3, c2, c1);
    let k = table_index(w, level as u64) as int;
    assert(nf[j].level == level);
    if level == 1 {
        if k == table_index(v, 1) as int {
            lemma_indices_determine_page(v, w);
        }
        lemma_unwritten(f0, nf, v, c3, c2, c1, j, k);
        assert((0u64 & PAGE_ATTR_PRESENT) == 0) by (bit_vector);
    } else {
        if k != table_index(v, level as u64) as int {
            lemma_unwritten(f0, nf, v, c3, c2, c1, j, k);
        } else {
            let cj = path_frame(level - 1, c3, c2, c1);
            assert(cj >= f0.len()) by {
                let pj = path_frame(level, c3, c2, c1);
                assert(path_frame(level - 1 + 1, c3, c2, c1) == pj);
            }
            lemma_frame_of(nf, cj);
            lemma_new_path(f0, nf, v, c3, c2, c1, level - 1, w);
        }
    }
}

/// Along the walk for `v`, the walk for another page `w` that shares the
/// indices above `level` ends as it did.
pub proof fn lemma_on_path(
    f0: Seq<FrameView>,
    nf: Seq<FrameView>,
    v: u64,
    c3: int,
    c2: int,
    c1: int,
    level: int,
    w: u64,
)
    requires
        mapped_along(f0, nf, v, c3, c2, c1),
        1 <= level <= 4,
        path_frame(level, c3, c2, c1) < f0.len(),
        w != v,
        v < 0x8000_0000_0000,
        w < 0x8000_0000_0000,
        v % 4096 == 0,
        w % 4096 == 0,
        level < 4 ==> table_index(w, 4) == table_index(v, 4),
        level < 3 ==> table_index(w, 3) == table_index(v, 3),
        level < 2 ==> table_index(w, 2) == table_index(v, 2),
    ensures
        leaf_entry(nf, path_frame(level, c3, c2, c1), level, w) == leaf_entry(
            f0,
            path_frame(level, c3, c2, c1),
            level,
            w,
        ),
    decreases level,
{
    lemma_constants();
    lemma_user_index(w);
    lemma_user_index(v);
    let j = path_frame(level, c3, c2, c1);
    let k = table_index(w, level as u64) as int;
    let kv = table_index(v, level as u64) as int;
    assert(nf[0].level == 4);
    assert(nf[j].level == level);
    assert(f0[j].level == level);
    if level == 1 {
        if k == kv {
            lemma_indices_determine_page(v, w);
        }
        lemma_unwritten(f0, nf, v, c3, c2, c1, j, k);
    } else if k != kv {
        lemma_unwritten(f0, nf, v, c3, c2, c1, j, k);
        let p = spec_entry_paddr(f0[j].entries[k]);
        if p != 0 {
            assert(is_link_slot(f0[j].level, k));
            let j2 = frame_of(f0, p);
            assert(0 <= j2 < f0.len() && f0[j2].paddr == p && f0[j2].level == level - 1);
            lemma_frame_of(nf, j2);
            let cj = path_frame(level - 1, c3, c2, c1);
            if spec_entry_paddr(f0[j].entries[kv]) != 0 {
                assert(cj == frame_of(f0, spec_entry_paddr(f0[j].entries[kv])));
                if j2 == cj {
                    assert(is_link_slot(f0[j].level, kv));
                }
            } else {
                assert(cj >= f0.len());
            }
            lemma_off_path(f0, nf, v, c3, c2, c1, j2, level - 1, w);
            let r = walk_from(f0, j2, level - 1, w);
            if let Some(r) = r {
                lemma_unwritten(f0, nf, v, c3, c2, c1, r, table_index(w, 1) as int);
            }
        }
    } else {
        let cj = path_frame(level - 1, c3, c2, c1);
        assert(spec_entry_paddr(nf[j].entries[kv]) == nf[cj].paddr);
        lemma_frame_of(nf, cj);
        let p = spec_entry_paddr(f0[j].entries[kv]);
        if p != 0 {
            assert(cj == frame_of(f0, p));
            assert(is_link_slot(f0[j].level, kv));
            lemma_frame_of(f0, cj);
            lemma_on_path(f0, nf, v, c3, c2, c1, level - 1, w);
        } else {
            assert(cj >= f0.len());
            lemma_new_path(f0, nf, v, c3, c2, c1, level - 1, w);
        }
    }
}

/// Mapping one page leaves the mapping of every other page as it was.
pub proof fn lemma_mapping_kept(
    f0: Seq<FrameView>,
    nf: Seq<FrameView>,
    v: u64,
    c3: int,
    c2: int,
    c1: int,
    w: u64,
)
    requires
        mapped_along(f0, nf, v, c3, c2, c1),
        w != v,
        v < 0x8000_0000_0000,
        w < 0x8000_0000_0000,
        v % 4096 == 0,
        w % 4096 == 0,
    ensures
        mapping(nf, w) == mapping(f0, w),
{
    lemma_leaf_frame_walk(f0, w);
    lemma_leaf_frame_walk(nf, w);
    lemma_on_path(f0, nf, v, c3, c2, c1, 4, w);
}

/// `g2` is `g` with at most entry `k` of frame `i` changed and zeroed
/// frames added.
pub open spec fn step_ok(g: Seq<FrameView>, g2: Seq<FrameView>, i: int, k: int) -> bool {
    &&& g2.len() >= g.len()
    &&& forall|j: int| 0 <= j < g.len() ==> (#[trigger] g2[j]).paddr == g[j].paddr && g2[j].level == g[j].level
    &&& forall|j: int, b: int|
        0 <= j < g2.len() && 0 <= b < 512 && !(j == i && b == k) ==> #[trigger] g2[j].entries[b] == (if j < g.len() {
            g[j].entries[b]
        } else {
            0u64
        })
}

/// Setting an entry, and adding a zeroed frame, are such steps.
pub proof fn lemma_set_step(g: Seq<FrameView>, i: int, k: int, x: u64, n: u64, lvl: u64)
    requires
        0 <= i < g.len(),
        0 <= k < 512,
        forall|j: int| 0 <= j < g.len() ==> (#[trigger] g[j]).entries.len() == 512,
    ensures
        step_ok(g, set_entry(g, i, k, x), i, k),
        step_ok(g, set_entry(g, i, k, x).push(FrameView { paddr: n, level: lvl, entries: zero_table() }), i, k),
{
    let g1 = set_entry(g, i, k, x);
    let g2 = g1.push(FrameView { paddr: n, level: lvl, entries: zero_table() });
    assert forall|j: int, b: int|
        0 <= j < g1.len() && 0 <= b < 512 && !(j == i && b == k) implies #[trigger] g1[j].entries[b] == g[j].entries[b] by {
        if j == i {
            assert(g1[j].entries == g[j].entries.update(k, x));
        } else {
            assert(g1[j] == g[j]);
        }
    }
    assert forall|j: int, b: int|
        0 <= j < g2.len() && 0 <= b < 512 && !(j == i && b == k) implies #[trigger] g2[j].entries[b] == (if j < g.len() {
            g[j].entries[b]
        } else {
            0u64
        }) by {
        if j < g.len() {
            assert(g2[j] == g1[j]);
            assert(g1[j].entries[b] == g[j].entries[b]);
        } else {
            assert(g2[j].entries == zero_table());
        }
    }
    assert forall|j: int| 0 <= j < g.len() implies (#[trigger] g2[j]).paddr == g[j].paddr && g2[j].level == g[j].level by {
        assert(g2[j] == g1[j]);
    }
}

/// The child that a descend step went to.
pub open spec fn child_ok(g: Seq<FrameView>, i: int, k: int, c: int) -> bool {
    let p = spec_entry_paddr(g[i].entries[k]);
    if p != 0 {
        c == frame_of(g, p)
    } else {
        c == g.len()
    }
}

/// The frame a link of a tree points to is the same in a larger tree
/// that keeps the frames' addresses.
pub proof fn lemma_frame_of_kept(g: Seq<FrameView>, g2: Seq<FrameView>, p: u64)
    requires
        frames_wf(g),
        frames_wf(g2),
        g2.len() >= g.len(),
        forall|j: int| 0 <= j < g.len() ==> (#[trigger] g2[j]).paddr == g[j].paddr,
        exists|j: int| 0 <= j < g.len() && g[j].paddr == p,
    ensures
        frame_of(g2, p) == frame_of(g, p),
        0 <= frame_of(g, p) < g.len(),
{
    let j = frame_of(g, p);
    lemma_frame_of(g, j);
    assert(g2[j].paddr == p);
    lemma_frame_of(g2, j);
}

/// Four such steps along the walk for `v` make a mapping along it.
pub proof fn lemma_compose(
    f0: Seq<FrameView>,
    f1: Seq<FrameView>,
    f2: Seq<FrameView>,
    f3: Seq<FrameView>,
    nf: Seq<FrameView>,
    v: u64,
    c3: int,
    c2: int,
    c1: int,
)
    requires
        frames_wf(f0),
        frames_wf(f1),
        frames_wf(f2),
        frames_wf(f3),
        frames_wf(nf),
        v < 0x8000_0000_0000,
        step_ok(f0, f1, 0, table_index(v, 4) as int),
        step_ok(f1, f2, c3, table_index(v, 3) as int),
        step_ok(f2, f3, c2, table_index(v, 2) as int),
        step_ok(f3, nf, c1, table_index(v, 1) as int),
        nf.len() == f3.len(),
        child_ok(f0, 0, table_index(v, 4) as int, c3),
        child_ok(f1, c3, table_index(v, 3) as int, c2),
        child_ok(f2, c2, table_index(v, 2) as int, c1),
        0 <= c3 < f1.len(),
        0 <= c2 < f2.len(),
        0 <= c1 < f3.len(),
        f1[c3].level == 3,
        f2[c2].level == 2,
        f3[c1].level == 1,
        spec_entry_paddr(f1[0].entries[table_index(v, 4) as int]) == f1[c3].paddr,
        spec_entry_paddr(f2[c3].entries[table_index(v, 3) as int]) == f2[c2].paddr,
        spec_entry_paddr(f3[c2].entries[table_index(v, 2) as int]) == f3[c1].paddr,
    ensures
        mapped_along(f0, nf, v, c3, c2, c1),
{
    lemma_user_index(v);
    let k4 = table_index(v, 4) as int;
    let k3 = table_index(v, 3) as int;
    let k2 = table_index(v, 2) as int;
    let k1 = table_index(v, 1) as int;
    assert(f0[0].level == 4 && f1[0].level == 4 && f2[0].level == 4 && f3[0].level == 4);
    assert(c3 != 0 && c2 != 0 && c1 != 0 && c3 != c2 && c3 != c1 && c2 != c1) by {
        assert(f2[c3].level == 3);
        assert(f3[c3].level == 3);
        assert(f3[c2].level == 2);
    }
    assert(nf[c3].level == 3 && nf[c2].level == 2 && nf[c1].level == 1);
    // The entries on the path stay as the steps left them.
    assert(nf[0].entries[k4] == f1[0].entries[k4]) by {
        assert(nf[0].entries[k4] == f3[0].entries[k4]);
        assert(f3[0].entries[k4] == f2[0].entries[k4]);
    }
    assert(nf[c3].entries[k3] == f2[c3].entries[k3]) by {
        assert(nf[c3].entries[k3] == f3[c3].entries[k3]);
    }
    assert(nf[c2].entries[k2] == f3[c2].entries[k2]);
    assert(nf[c3].paddr == f1[c3].paddr) by {
        assert(f2[c3].paddr == f1[c3].paddr);
        assert(f3[c3].paddr == f2[c3].paddr);
    }
    assert(nf[c2].paddr == f2[c2].paddr) by {
        assert(f3[c2].paddr == f2[c2].paddr);
    }
    // Entries not on the path are as they were.
    assert forall|j: int, b: int|
        0 <= j < nf.len() && 0 <= b < 512 && !(exists|l: int| 1 <= l <= 4 && j == path_frame(l, c3, c2, c1) && b == table_index(v, l as u64)) implies #[trigger] nf[j].entries[b]
            == (if j < f0.len() {
            f0[j].entries[b]
        } else {
            0u64
        }) by {
        assert(!(j == 0 && b == k4)) by {
            if j == 0 && b == k4 {
                assert(path_frame(4, c3, c2, c1) == 0);
            }
        }
        assert(!(j == c3 && b == k3)) by {
            if j == c3 && b == k3 {
                assert(path_frame(3, c3, c2, c1) == c3);
            }
        }
        assert(!(j == c2 && b == k2)) by {
            if j == c2 && b == k2 {
                assert(path_frame(2, c3, c2, c1) == c2);
            }
        }
        assert(!(j == c1 && b == k1)) by {
            if j == c1 && b == k1 {
                assert(path_frame(1, c3, c2, c1) == c1);
            }
        }
    }
    // Paths went to the same frames as before, or to new ones.
    assert forall|l: int| 2 <= l <= 4 implies {
        let pj = path_frame(l, c3, c2, c1);
        let cj = #[trigger] path_frame(l - 1, c3, c2, c1);
        if pj < f0.len() && spec_entry_paddr(f0[pj].entries[table_index(v, l as u64) as int]) != 0 {
            cj == frame_of(f0, spec_entry_paddr(f0[pj].entries[table_index(v, l as u64) as int]))
        } else {
            cj >= f0.len()
        }
    } by {
        if l == 4 {
            assert(path_frame(4, c3, c2, c1) == 0 && path_frame(3, c3, c2, c1) == c3);
        } else if l == 3 {
            assert(path_frame(3, c3, c2, c1) == c3 && path_frame(2, c3, c2, c1) == c2);
            if c3 < f0.len() {
                assert(f1[c3].entries[k3] == f0[c3].entries[k3]);
                let p = spec_entry_paddr(f0[c3].entries[k3]);
                if p != 0 {
                    assert(is_link_slot(f0[c3].level, k3)) by {
                        assert(f0[c3].level == 3);
                    }
                    lemma_frame_of_kept(f0, f1, p);
                }
            } else {
                assert(f1[c3].entries[k3] == 0u64);
                lemma_constants();
            }
        } else {
            assert(path_frame(2, c3, c2, c1) == c2 && path_frame(1, c3, c2, c1) == c1);
            if c2 < f0.len() {
                assert(f2[c2].entries[k2] == f0[c2].entries[k2]) by {
                    assert(f2[c2].entries[k2] == f1[c2].entries[k2]);
                }
                let p = spec_entry_paddr(f0[c2].entries[k2]);
                if p != 0 {
                    assert(is_link_slot(f0[c2].level, k2)) by {
                        assert(f0[c2].level == 2);
                    }
                    assert(forall|j: int| 0 <= j < f0.len() ==> (#[trigger] f2[j]).paddr == f0[j].paddr) by {
                        assert forall|j: int| 0 <= j < f0.len() implies (#[trigger] f2[j]).paddr == f0[j].paddr by {
                            assert(f1[j].paddr == f0[j].paddr);
                        }
                    }
                    lemma_frame_of_kept(f0, f2, p);
                }
            } else {
                if c2 < f1.len() {
                    assert(f2[c2].entries[k2] == f1[c2].entries[k2]);
                    assert(f1[c2].entries[k2] == 0u64);
                } else {
                    assert(f2[c2].entries[k2] == 0u64);
                }
                lemma_constants();
            }
        }
    }
}
} // verus!
