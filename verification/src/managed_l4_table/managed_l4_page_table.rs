use vstd::prelude::*;

use std::collections::HashMap;

use super::entry_bits::entry_huge;
use super::entry_bits::entry_present;
use super::entry_bits::entry_table_addr;
use super::entry_bits::p1_index;
use super::entry_bits::p2_index;
use super::entry_bits::p3_index;
use super::entry_bits::p4_index;
use super::entry_bits::spec_p1_index;
use super::entry_bits::spec_p2_index;
use super::entry_bits::spec_p3_index;
use super::entry_bits::spec_p4_index;
use super::entry_bits::FLAG_HUGE_PAGE;
use super::entry_bits::TABLE_ADDR_MASK;
use super::entry_bits::TABLE_DEFAULT_FLAGS;
use super::page_table_with_level::PageTableLevel;
use super::page_table_with_level::PageTableWithLevelMut;
use crate::frame::Frame;
use crate::frame::PHYS_ADDR_LIMIT;
use crate::max_page_size::CpuFeatures;
use crate::owned_4kib_frame::Owned4KibFrame;
use crate::page::Page;
use crate::page_size::PageSize;
use crate::paging_config::PagingConfig;
use vstd::pervasive::VecAdditionalExecFns;

verus! {

broadcast use vstd::std_specs::hash::group_hash_axioms;

/// Whether a root table is the single canonical kernel view shared across
/// every address space, or one process's private view.
#[derive(Debug, Clone, Copy, PartialEq, Eq, Structural)]
pub enum L4Type {
    Kernel,
    User,
}

impl L4Type {
    /// The root slots this table instance may read or mutate: the reserved
    /// higher-half indices for a kernel table, the complementary lower-half
    /// indices for a user table.
    pub open spec fn spec_manages_index(self, i: int) -> bool {
        match self {
            L4Type::Kernel => 256 <= i < 512,
            L4Type::User => 0 <= i < 256,
        }
    }

    pub fn manages_index(self, index: usize) -> (r: bool)
        ensures
            r == self.spec_manages_index(index as int),
    {
        match self {
            L4Type::Kernel => 256 <= index && index < 512,
            L4Type::User => index < 256,
        }
    }

    /// The managed slots as a half-open range of root indices.
    pub fn l4_managed_entry_range(self) -> (r: (usize, usize))
        ensures
            r.0 <= r.1 <= 512,
            forall|i: int| r.0 <= i < r.1 <==> self.spec_manages_index(i),
    {
        match self {
            L4Type::Kernel => (256, 512),
            L4Type::User => (0, 256),
        }
    }

    /// A kernel table may never grow new sub-tables under its root slots:
    /// every other address space shares those entries by value-copy, and a
    /// new one would not propagate.
    pub open spec fn spec_can_create_new_l4_entries(self) -> bool {
        self == L4Type::User
    }

    #[verifier::when_used_as_spec(spec_can_create_new_l4_entries)]
    pub fn can_create_new_l4_entries(self) -> (r: bool)
        ensures
            r == self.spec_can_create_new_l4_entries(),
    {
        match self {
            L4Type::Kernel => false,
            L4Type::User => true,
        }
    }
}

/// Every valid root index is managed by a kernel table or by a user table,
/// never by both.
pub proof fn lemma_managed_ranges_partition(i: int)
    requires
        0 <= i < 512,
    ensures
        L4Type::Kernel.spec_manages_index(i) <==> !L4Type::User.spec_manages_index(i),
{
}

/// One live hardware table: 512 entries in the CPU's format, at a known
/// level of the hierarchy.
#[derive(Debug)]
pub struct PageTable {
    pub level: PageTableLevel,
    pub entries: Vec<u64>,
}

impl PageTable {
    pub open spec fn wf(self) -> bool {
        self.entries.len() == 512
    }
}

/// The top-level owned object representing one address space's root table,
/// together with every table reachable from it. The map `tables` models the
/// physical memory holding the live tables, keyed by table base address.
#[derive(Debug)]
pub struct ManagedL4PageTable {
    pub tables: HashMap<u64, PageTable>,
    pub root_addr: u64,
    pub config: PagingConfig,
    pub l4_type: L4Type,
    pub cpu: CpuFeatures,
}

impl ManagedL4PageTable {
    pub open spec fn table_entry(self, a: u64, i: int) -> u64 {
        self.tables@[a].entries[i]
    }

    /// What a single entry may hold: nothing, or a present mapping whose
    /// sub-table link (when it is one) leads to a live table one level down.
    pub open spec fn wf_entry(self, level: PageTableLevel, e: u64) -> bool {
        e == 0 || {
            &&& entry_present(e)
            &&& level != PageTableLevel::L1 && !entry_huge(e) ==> {
                &&& self.tables@.contains_key(entry_table_addr(e))
                &&& self.tables@[entry_table_addr(e)].level == level.spec_sub_level()->0
            }
        }
    }

    pub open spec fn wf_table(self, a: u64) -> bool {
        let t = self.tables@[a];
        &&& t.wf()
        &&& forall|i: int| 0 <= i < 512 ==> self.wf_entry(t.level, #[trigger] t.entries[i])
    }

    /// The hierarchy invariant: the root is a live L4 table, and every live
    /// table is full-sized with well-formed entries.
    pub open spec fn wf(self) -> bool {
        &&& self.config.wf()
        &&& self.tables@.contains_key(self.root_addr)
        &&& self.tables@[self.root_addr].level == PageTableLevel::L4
        &&& forall|a: u64| #[trigger] self.tables@.contains_key(a) ==> self.wf_table(a)
    }

    pub open spec fn l4_entry(self, va: u64) -> u64 {
        self.table_entry(self.root_addr, spec_p4_index(va))
    }

    /// The sub-table an entry leads to: defined only when the entry is used
    /// and is not a huge leaf.
    pub open spec fn spec_step_table(self, e: u64) -> Option<u64> {
        if e != 0 && !entry_huge(e) {
            Some(entry_table_addr(e))
        } else {
            None
        }
    }

    pub open spec fn l3_table(self, va: u64) -> Option<u64> {
        self.spec_step_table(self.l4_entry(va))
    }

    pub open spec fn l3_entry(self, va: u64) -> Option<u64> {
        match self.l3_table(va) {
            Some(a) => Some(self.table_entry(a, spec_p3_index(va))),
            None => None,
        }
    }

    pub open spec fn l2_table(self, va: u64) -> Option<u64> {
        match self.l3_entry(va) {
            Some(e) => self.spec_step_table(e),
            None => None,
        }
    }

    pub open spec fn l2_entry(self, va: u64) -> Option<u64> {
        match self.l2_table(va) {
            Some(a) => Some(self.table_entry(a, spec_p2_index(va))),
            None => None,
        }
    }

    pub open spec fn l1_table(self, va: u64) -> Option<u64> {
        match self.l2_entry(va) {
            Some(e) => self.spec_step_table(e),
            None => None,
        }
    }

    pub open spec fn l1_entry(self, va: u64) -> Option<u64> {
        match self.l1_table(va) {
            Some(a) => Some(self.table_entry(a, spec_p1_index(va))),
            None => None,
        }
    }

    /// The leaf entry the hardware walk for `page` ends at: `None` when some
    /// intermediate step is missing or is itself a huge leaf.
    pub open spec fn leaf_entry(self, page: Page) -> Option<u64> {
        match page.size {
            PageSize::_1GiB => self.l3_entry(page.start_addr),
            PageSize::_2MiB => self.l2_entry(page.start_addr),
            PageSize::_4KiB => self.l1_entry(page.start_addr),
        }
    }

    /// Whether this table's managed root slots cover `page`.
    pub open spec fn spec_manages_page(self, page: Page) -> bool {
        self.l4_type.spec_manages_index(spec_p4_index(page.start_addr))
    }

    pub fn manages_page(&self, page: Page) -> (r: bool)
        ensures
            r == self.spec_manages_page(page),
    {
        self.l4_type.manages_index(p4_index(page.start_addr))
    }

    /// A new, empty address-space view rooted at the caller-owned frame.
    pub fn new(
        root_frame: Owned4KibFrame,
        l4_type: L4Type,
        config: PagingConfig,
        cpu: CpuFeatures,
    ) -> (r: Self)
        requires
            root_frame.wf(),
            config.wf(),
        ensures
            r.wf(),
            r.root_addr == root_frame.frame.start_addr,
            r.l4_type == l4_type,
            r.config == config,
            r.cpu == cpu,
            forall|a: u64| r.tables@.contains_key(a) ==> a == r.root_addr,
            forall|i: int| 0 <= i < 512 ==> r.table_entry(r.root_addr, i) == 0,
    {
        let root_addr = root_frame.into_frame().start_addr;
        let mut tables: HashMap<u64, PageTable> = HashMap::new();
        tables.insert(root_addr, PageTable { level: PageTableLevel::L4, entries: zeroed_entries() });
        let r = ManagedL4PageTable { tables, root_addr, config, l4_type, cpu };
        proof {
            assert forall|a: u64| #[trigger] r.tables@.contains_key(a) implies r.wf_table(a) by {
                assert(a == root_addr);
            }
        }
        r
    }

    /// The handle on this hierarchy's root table.
    pub fn table_mut(&self) -> (r: PageTableWithLevelMut)
        ensures
            r == (PageTableWithLevelMut { table_addr: self.root_addr, level: PageTableLevel::L4 }),
            self.wf() ==> r.wf_in(*self),
    {
        PageTableWithLevelMut { table_addr: self.root_addr, level: PageTableLevel::L4 }
    }

    /// Shared read access to a live table.
    pub fn table_ref(&self, addr: u64) -> (r: &PageTable)
        requires
            self.wf(),
            self.tables@.contains_key(addr),
        ensures
            *r == self.tables@[addr],
            r.wf(),
    {
        proof {
            assert(self.wf_table(addr));
        }
        self.tables.get(&addr).unwrap()
    }

    /// One entry of a live table, as the hardware would read it.
    pub fn read_entry(&self, addr: u64, index: usize) -> (r: u64)
        requires
            self.wf(),
            self.tables@.contains_key(addr),
            index < 512,
        ensures
            r == self.table_entry(addr, index as int),
    {
        let t = self.table_ref(addr);
        t.entries[index]
    }

    /// The leaf entry currently installed for `page`, as [`leaf_entry`]
    /// defines it.
    ///
    /// [`leaf_entry`]: Self::leaf_entry
    pub fn read_leaf_entry(&self, page: Page) -> (r: Option<u64>)
        requires
            self.wf(),
        ensures
            r == self.leaf_entry(page),
    {
        let va = page.start_addr;
        let e4 = self.read_entry(self.root_addr, p4_index(va));
        if e4 == 0 || e4 & FLAG_HUGE_PAGE != 0 {
            return None;
        }
        proof {
            assert(self.wf_table(self.root_addr));
        }
        let l3 = e4 & TABLE_ADDR_MASK;
        let e3 = self.read_entry(l3, p3_index(va));
        if matches!(page.size, PageSize::_1GiB) {
            return Some(e3);
        }
        if e3 == 0 || e3 & FLAG_HUGE_PAGE != 0 {
            return None;
        }
        proof {
            assert(self.wf_table(l3));
        }
        let l2 = e3 & TABLE_ADDR_MASK;
        let e2 = self.read_entry(l2, p2_index(va));
        if matches!(page.size, PageSize::_2MiB) {
            return Some(e2);
        }
        if e2 == 0 || e2 & FLAG_HUGE_PAGE != 0 {
            return None;
        }
        proof {
            assert(self.wf_table(l2));
        }
        let l1 = e2 & TABLE_ADDR_MASK;
        let e1 = self.read_entry(l1, p1_index(va));
        Some(e1)
    }

    /// Overwrites one entry of a live table, leaving everything else as it
    /// was. The callers prove that the write keeps the hierarchy well-formed.
    pub(crate) fn set_entry(&mut self, table_addr: u64, index: usize, value: u64)
        requires
            old(self).tables@.contains_key(table_addr),
            old(self).tables@[table_addr].wf(),
            index < 512,
        ensures
            final(self).tables@.dom() == old(self).tables@.dom(),
            final(self).tables@[table_addr].level == old(self).tables@[table_addr].level,
            final(self).tables@[table_addr].entries@ == old(self).tables@[table_addr].entries@
                .update(index as int, value),
            final(self).tables@[table_addr].wf(),
            forall|a: u64|
                a != table_addr && #[trigger] old(self).tables@.contains_key(a) ==> final(self).tables@.contains_key(a) && final(self).tables@[a] == old(self).tables@[a],
            final(self).root_addr == old(self).root_addr,
            final(self).config == old(self).config,
            final(self).l4_type == old(self).l4_type,
            final(self).cpu == old(self).cpu,
    {
        let mut t = self.tables.remove(&table_addr).unwrap();
        t.entries.set(index, value);
        self.tables.insert(table_addr, t);
        proof {
            assert(self.tables@.dom() =~= old(self).tables@.dom());
        }
    }

    /// Installs `frame` as a fresh, zero-filled sub-table under the given
    /// entry, with the permissive intermediate-table flags; leaf flags are
    /// applied separately and dominate.
    pub(crate) fn install_sub_table(&mut self, table_addr: u64, index: usize, frame: Frame)
        requires
            old(self).wf(),
            old(self).tables@.contains_key(table_addr),
            old(self).tables@[table_addr].level != PageTableLevel::L1,
            index < 512,
            frame.wf(),
            frame.size == PageSize::_4KiB,
            !old(self).tables@.contains_key(frame.start_addr),
        ensures
            final(self).wf(),
            final(self).tables@.dom() == old(self).tables@.dom().insert(frame.start_addr),
            final(self).tables@[table_addr].level == old(self).tables@[table_addr].level,
            final(self).tables@[table_addr].entries@ == old(self).tables@[table_addr].entries@
                .update(index as int, frame.start_addr | TABLE_DEFAULT_FLAGS),
            final(self).tables@[frame.start_addr].level == old(self).tables@[table_addr].level.spec_sub_level()->0,
            final(self).tables@[frame.start_addr].wf(),
            forall|i: int| 0 <= i < 512 ==> final(self).table_entry(frame.start_addr, i) == 0,
            forall|a: u64|
                a != table_addr && a != frame.start_addr && #[trigger] old(self).tables@.contains_key(a) ==> final(self).tables@[a] == old(self).tables@[a],
            final(self).root_addr == old(self).root_addr,
            final(self).config == old(self).config,
            final(self).l4_type == old(self).l4_type,
            final(self).cpu == old(self).cpu,
    {
        proof {
            assert(old(self).wf_table(table_addr));
        }
        let level = self.table_ref(table_addr).level;
        let sub_level = level.sub_level().unwrap();
        let child = PageTable { level: sub_level, entries: zeroed_entries() };
        proof {
            assert(child.wf());
            assert(forall|i: int| 0 <= i < 512 ==> child.entries[i] == 0);
        }
        self.tables.insert(frame.start_addr, child);
        let ghost mid = *self;
        proof {
            assert(mid.tables@.contains_key(frame.start_addr));
            assert(mid.tables@[frame.start_addr].level == sub_level);
            assert(mid.tables@.contains_key(table_addr));
            assert(mid.tables@[table_addr] == old(self).tables@[table_addr]);
        }
        let new_entry = frame.start_addr | TABLE_DEFAULT_FLAGS;
        self.set_entry(table_addr, index, new_entry);
        proof {
            lemma_table_entry_bits(frame.start_addr);
            assert(mid.tables@.contains_key(frame.start_addr) && frame.start_addr != table_addr);
            assert(self.tables@[frame.start_addr] == mid.tables@[frame.start_addr]);
            assert(self.tables@.dom() =~= old(self).tables@.dom().insert(frame.start_addr));
            let s = *self;
            let s0 = *old(self);
            assert forall|a: u64|
                a != table_addr && a != frame.start_addr && #[trigger] s0.tables@.contains_key(
                    a,
                ) implies s.tables@[a] == s0.tables@[a] by {
                assert(mid.tables@.contains_key(a));
                assert(mid.tables@[a] == s0.tables@[a]);
                assert(s.tables@[a] == mid.tables@[a]);
            }
            assert(s.tables@.contains_key(s.root_addr));
            if table_addr != s0.root_addr {
                assert(s.tables@[s.root_addr] == s0.tables@[s0.root_addr]);
            }
            assert forall|a: u64| #[trigger] s.tables@.contains_key(a) implies s.wf_table(a) by {
                if a == frame.start_addr {
                    assert(s.tables@[a] == child);
                    assert(forall|i: int|
                        0 <= i < 512 ==> s.tables@[a].entries[i] == 0 && s.wf_entry(
                            s.tables@[a].level,
                            0,
                        ));
                } else {
                    assert(s0.tables@.contains_key(a));
                    assert(s0.wf_table(a));
                    let lvl = s.tables@[a].level;
                    assert(lvl == s0.tables@[a].level);
                    assert forall|i: int| 0 <= i < 512 implies s.wf_entry(
                        lvl,
                        #[trigger] s.tables@[a].entries[i],
                    ) by {
                        let e = s.tables@[a].entries[i];
                        if a == table_addr && i == index {
                            assert(e == new_entry);
                            assert(entry_table_addr(e) == frame.start_addr);
                            assert(s.tables@[frame.start_addr].level
                                == lvl.spec_sub_level()->0);
                        } else {
                            assert(e == s0.tables@[a].entries[i]);
                            assert(s0.wf_entry(lvl, e));
                            if e != 0 && lvl != PageTableLevel::L1 && !entry_huge(e) {
                                let b = entry_table_addr(e);
                                assert(s0.tables@.contains_key(b));
                                assert(s.tables@.contains_key(b));
                                assert(b != frame.start_addr);
                                if b == table_addr {
                                    assert(s.tables@[b].level == s0.tables@[b].level);
                                } else {
                                    assert(s.tables@[b] == s0.tables@[b]);
                                }
                            }
                        }
                    }
                }
            }
        }
    }

    /// Privileged initialization path: installs a fresh, empty sub-table
    /// under a managed root slot. The embedding kernel uses this while
    /// building the canonical kernel view, before any user table copies the
    /// root entries; ordinary mapping on a kernel table never grows the root.
    pub fn provision_l4_entry(&mut self, index: usize, frame: Owned4KibFrame)
        requires
            old(self).wf(),
            index < 512,
            old(self).l4_type.spec_manages_index(index as int),
            old(self).table_entry(old(self).root_addr, index as int) == 0,
            frame.wf(),
            !old(self).tables@.contains_key(frame.frame.start_addr),
        ensures
            final(self).wf(),
            final(self).root_addr == old(self).root_addr,
            final(self).config == old(self).config,
            final(self).l4_type == old(self).l4_type,
            final(self).cpu == old(self).cpu,
            final(self).table_entry(final(self).root_addr, index as int) == (
            frame.frame.start_addr | TABLE_DEFAULT_FLAGS),
            forall|j: int|
                0 <= j < 512 && j != index ==> final(self).table_entry(
                    final(self).root_addr,
                    j,
                ) == old(self).table_entry(old(self).root_addr, j),
            final(self).tables@.contains_key(frame.frame.start_addr),
            final(self).tables@[frame.frame.start_addr].level == PageTableLevel::L3,
            forall|i: int|
                0 <= i < 512 ==> final(self).table_entry(frame.frame.start_addr, i) == 0,
    {
        let f = frame.into_frame();
        let root = self.root_addr;
        self.install_sub_table(root, index, f);
    }
}

/// A full-sized table with nothing mapped.
fn zeroed_entries() -> (r: Vec<u64>)
    ensures
        r.len() == 512,
        forall|i: int| 0 <= i < 512 ==> r[i] == 0,
{
    let mut entries: Vec<u64> = Vec::new();
    let mut i: usize = 0;
    while i < 512
        invariant
            i <= 512,
            entries.len() == i,
            forall|j: int| 0 <= j < i ==> entries[j] == 0,
        decreases 512 - i,
    {
        entries.push(0);
        i = i + 1;
    }
    entries
}

/// Bit-level facts about an intermediate-table entry built from a 4 KiB
/// aligned physical address and the permissive default flags.
pub proof fn lemma_table_entry_bits(a: u64)
    requires
        a % 0x1000 == 0,
        a < PHYS_ADDR_LIMIT,
    ensures
        entry_present(a | TABLE_DEFAULT_FLAGS),
        !entry_huge(a | TABLE_DEFAULT_FLAGS),
        entry_table_addr(a | TABLE_DEFAULT_FLAGS) == a,
{
    assert((a | 0x7u64) & 0x1u64 != 0) by (bit_vector);
    assert(a % 0x1000 == 0 ==> (a | 0x7u64) & 0x80u64 == 0) by (bit_vector);
    assert((a % 0x1000 == 0 && a < 0x10_0000_0000_0000) ==> ((a | 0x7u64)
        & 0x000f_ffff_ffff_f000u64) == a) by (bit_vector);
}

} // verus!
