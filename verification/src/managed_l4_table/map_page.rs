use vstd::prelude::*;

use super::entry_bits::entry_huge;
use super::entry_bits::lemma_indices_in_range;
use super::entry_bits::entry_table_addr;
use super::entry_bits::p1_index;
use super::entry_bits::p2_index;
use super::entry_bits::p3_index;
use super::entry_bits::p4_index;
use super::entry_bits::spec_leaf_entry_bits;
use super::entry_bits::TABLE_DEFAULT_FLAGS;
use super::managed_l4_page_table::lemma_table_entry_bits;
use super::managed_l4_page_table::L4Type;
use super::managed_l4_page_table::ManagedL4PageTable;
use super::page_table_entry_with_level::GetTableError;
use super::page_table_entry_with_level::PageTableEntryWithLevelMut;
use super::page_table_entry_with_level::SetFrameError;
use super::page_table_entry_with_level::SetTableError;
use super::page_table_with_level::PageTableLevel;
use super::page_table_with_level::PageTableWithLevelMut;
use crate::frame::Frame;
use crate::frame_allocator::FrameAllocator;
use crate::managed_l4_table::configurable_flags::ConfigurableFlags;
use crate::page::Page;
use crate::page_size::PageSize;

verus! {

broadcast use vstd::std_specs::hash::group_hash_axioms;

#[derive(Debug, Clone, Copy, PartialEq, Eq, Structural)]
pub enum MapPageError {
    /// The allocator had no usable fresh frame for an intermediate table.
    FrameAllocationFailed,
    SetTable(SetTableError),
    GetTable(GetTableError),
    SetFrame(SetFrameError),
}

/// Fetches the sub-table under `page_table_entry`, creating a fresh
/// zero-filled one from the allocator when the entry is empty.
fn get_or_create_page_table<A: FrameAllocator>(
    l4: &mut ManagedL4PageTable,
    page_table_entry: PageTableEntryWithLevelMut,
    frame_allocator: &mut A,
) -> (r: Result<PageTableWithLevelMut, MapPageError>)
    requires
        old(l4).wf(),
        page_table_entry.wf_in(*old(l4)),
        page_table_entry.level != PageTableLevel::L1,
        page_table_entry.level == PageTableLevel::L4 && old(l4).l4_type == L4Type::Kernel
            ==> page_table_entry.entry_value(*old(l4)) != 0,
    ensures
        final(l4).wf(),
        final(l4).root_addr == old(l4).root_addr,
        final(l4).config == old(l4).config,
        final(l4).l4_type == old(l4).l4_type,
        final(l4).cpu == old(l4).cpu,
        r matches Ok(t) ==> {
            let e = page_table_entry.entry_value(*final(l4));
            &&& e != 0
            &&& !entry_huge(e)
            &&& entry_table_addr(e) == t.table_addr
            &&& t.level == page_table_entry.level.spec_sub_level()->0
            &&& t.wf_in(*final(l4))
            &&& forall|a: u64|
                #[trigger] old(l4).tables@.contains_key(a) ==> final(l4).tables@.contains_key(a)
            &&& forall|a: u64|
                a != page_table_entry.table_addr && #[trigger] old(l4).tables@.contains_key(a)
                    ==> final(l4).tables@[a] == old(l4).tables@[a]
            &&& forall|j: int|
                0 <= j < 512 && j != page_table_entry.entry_index ==> final(l4).table_entry(
                    page_table_entry.table_addr,
                    j,
                ) == old(l4).table_entry(page_table_entry.table_addr, j)
        },
        ({
            let e = page_table_entry.entry_value(*old(l4));
            e != 0 && !entry_huge(e) ==> r == Result::<PageTableWithLevelMut, MapPageError>::Ok(
                PageTableWithLevelMut {
                    table_addr: entry_table_addr(e),
                    level: page_table_entry.level.spec_sub_level()->0,
                },
            ) && *final(l4) == *old(l4)
        }),
        ({
            let e = page_table_entry.entry_value(*old(l4));
            e != 0 && entry_huge(e) ==> r == Result::<PageTableWithLevelMut, MapPageError>::Err(
                MapPageError::GetTable(GetTableError::MappedToFrame),
            )
        }),
        r is Err ==> *final(l4) == *old(l4),
{
    if page_table_entry.is_empty(l4) {
        let frame = match frame_allocator.allocate_frame() {
            Some(f) => f,
            None => {
                return Err(MapPageError::FrameAllocationFailed);
            },
        };
        if l4.tables.contains_key(&frame.start_addr) {
            return Err(MapPageError::FrameAllocationFailed);
        }
        match page_table_entry.set_page_table(l4, frame) {
            Ok(t) => {
                proof {
                    lemma_table_entry_bits(frame.start_addr);
                    let fa = frame.start_addr;
                    assert((fa | 0x7u64) != 0) by (bit_vector);
                    let s0 = *old(l4);
                    let s = *l4;
                    assert(s.tables@.contains_key(frame.start_addr));
                    assert forall|a: u64| #[trigger] s0.tables@.contains_key(a) implies s
                        .tables@.contains_key(a) by {
                        assert(s.tables@.dom() == s0.tables@.dom().insert(frame.start_addr));
                    }
                    assert forall|a: u64|
                        a != page_table_entry.table_addr && #[trigger] s0.tables@.contains_key(
                            a,
                        ) implies s.tables@[a] == s0.tables@[a] by {
                        assert(a != frame.start_addr);
                    }
                    assert(page_table_entry.entry_value(s) == (frame.start_addr
                        | TABLE_DEFAULT_FLAGS));
                }
                Ok(t)
            },
            Err(e) => Err(MapPageError::SetTable(e)),
        }
    } else {
        match page_table_entry.get_page_table_mut(l4) {
            Ok(t) => Ok(t),
            Err(e) => Err(MapPageError::GetTable(e)),
        }
    }
}

impl ManagedL4PageTable {
    /// Maps `page` to `frame`, descending from the root and creating
    /// intermediate tables on demand from the allocator. The target leaf
    /// entry must still be unmapped: mapping over an existing mapping is
    /// rejected as [`SetFrameError::AlreadyMapped`]. PRESENT and HUGE_PAGE
    /// flags are added as needed. A kernel table never grows a new root
    /// entry, so its root slot for `page` must already be populated.
    pub fn map_page<A: FrameAllocator>(
        &mut self,
        page: Page,
        frame: Frame,
        flags: ConfigurableFlags,
        frame_allocator: &mut A,
    ) -> (r: Result<(), MapPageError>)
        requires
            old(self).wf(),
            page.wf(),
            frame.wf(),
            old(self).spec_manages_page(page),
            old(self).l4_type == L4Type::Kernel ==> old(self).l4_entry(page.start_addr) != 0,
        ensures
            final(self).wf(),
            final(self).root_addr == old(self).root_addr,
            final(self).config == old(self).config,
            final(self).l4_type == old(self).l4_type,
            final(self).cpu == old(self).cpu,
            r is Ok ==> final(self).leaf_entry(page) == Some(
                spec_leaf_entry_bits(frame, old(self).l4_type, old(self).config.pat, flags),
            ) && frame.size == page.size,
            old(self).leaf_entry(page) == Some(0u64) && frame.size == page.size && (page.size
                == PageSize::_1GiB ==> old(self).cpu.supports_1gib_pages) ==> r is Ok,
            ({
                let leaf = old(self).leaf_entry(page);
                leaf is Some && leaf->0 != 0 && frame.size == page.size && (page.size
                    == PageSize::_1GiB ==> old(self).cpu.supports_1gib_pages) ==> r
                    == Result::<(), MapPageError>::Err(
                    MapPageError::SetFrame(SetFrameError::AlreadyMapped),
                )
            }),
            old(self).leaf_entry(page) is Some && frame.size != page.size ==> r == Result::<
                (),
                MapPageError,
            >::Err(MapPageError::SetFrame(SetFrameError::NotAllowed)),
            old(self).leaf_entry(page) is Some && frame.size == page.size && page.size
                == PageSize::_1GiB && !old(self).cpu.supports_1gib_pages ==> r == Result::<
                (),
                MapPageError,
            >::Err(MapPageError::SetFrame(SetFrameError::PageSizeNotSupported)),
    {
        let va = page.start_addr;
        proof {
            lemma_indices_in_range(va);
        }
        let l4_table = self.table_mut();
        let l4_entry = l4_table.entry_mut(self, p4_index(va));
        let l3 = match get_or_create_page_table(self, l4_entry, frame_allocator) {
            Ok(t) => t,
            Err(e) => {
                return Err(e);
            },
        };
        let ghost s1 = *self;
        if matches!(page.size, PageSize::_1GiB) {
            let leaf = l3.entry_mut(self, p3_index(va));
            match leaf.set_frame(self, frame, flags) {
                Ok(()) => {},
                Err(e) => {
                    return Err(MapPageError::SetFrame(e));
                },
            }
            proof {
                lemma_distinct_levels(*self, self.root_addr, l3.table_addr);
            }
            return Ok(());
        }
        let l3_entry = l3.entry_mut(self, p3_index(va));
        let l2 = match get_or_create_page_table(self, l3_entry, frame_allocator) {
            Ok(t) => t,
            Err(e) => {
                proof {
                    lemma_distinct_levels(s1, s1.root_addr, l3.table_addr);
                }
                return Err(e);
            },
        };
        let ghost s2 = *self;
        proof {
            lemma_distinct_levels(s2, s2.root_addr, l3.table_addr);
        }
        if matches!(page.size, PageSize::_2MiB) {
            let leaf = l2.entry_mut(self, p2_index(va));
            match leaf.set_frame(self, frame, flags) {
                Ok(()) => {},
                Err(e) => {
                    return Err(MapPageError::SetFrame(e));
                },
            }
            proof {
                lemma_distinct_levels(*self, self.root_addr, l2.table_addr);
                lemma_distinct_levels(*self, l3.table_addr, l2.table_addr);
            }
            return Ok(());
        }
        let l2_entry = l2.entry_mut(self, p2_index(va));
        let l1 = match get_or_create_page_table(self, l2_entry, frame_allocator) {
            Ok(t) => t,
            Err(e) => {
                proof {
                    lemma_distinct_levels(s2, s2.root_addr, l2.table_addr);
                    lemma_distinct_levels(s2, l3.table_addr, l2.table_addr);
                }
                return Err(e);
            },
        };
        let ghost s3 = *self;
        proof {
            lemma_distinct_levels(s3, s3.root_addr, l2.table_addr);
            lemma_distinct_levels(s3, l3.table_addr, l2.table_addr);
        }
        let leaf = l1.entry_mut(self, p1_index(va));
        match leaf.set_frame(self, frame, flags) {
            Ok(()) => {},
            Err(e) => {
                return Err(MapPageError::SetFrame(e));
            },
        }
        proof {
            lemma_distinct_levels(*self, self.root_addr, l1.table_addr);
            lemma_distinct_levels(*self, l3.table_addr, l1.table_addr);
            lemma_distinct_levels(*self, l2.table_addr, l1.table_addr);
        }
        Ok(())
    }
}

/// Two live tables of different levels are different tables, so a write into
/// one leaves the other untouched.
proof fn lemma_distinct_levels(s: ManagedL4PageTable, a: u64, b: u64)
    requires
        s.tables@.contains_key(a),
        s.tables@.contains_key(b),
        s.tables@[a].level != s.tables@[b].level,
    ensures
        a != b,
{
}

} // verus!
