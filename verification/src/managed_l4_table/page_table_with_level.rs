use vstd::prelude::*;

use super::managed_l4_page_table::ManagedL4PageTable;
use super::page_table_entry_with_level::PageTableEntryWithLevelMut;
use crate::page_size::PageSize;

verus! {

/// The four levels of the hardware hierarchy: L4 is the root the CPU reads,
/// L1 is the level whose entries address 4 KiB frames.
#[derive(Debug, Clone, Copy, PartialEq, Eq, Structural)]
pub enum PageTableLevel {
    L1,
    L2,
    L3,
    L4,
}

impl PageTableLevel {
    /// The level of the tables this level's entries can point to; an L1 entry
    /// only points to a frame.
    pub open spec fn spec_sub_level(self) -> Option<Self> {
        match self {
            PageTableLevel::L1 => None,
            PageTableLevel::L2 => Some(PageTableLevel::L1),
            PageTableLevel::L3 => Some(PageTableLevel::L2),
            PageTableLevel::L4 => Some(PageTableLevel::L3),
        }
    }

    #[verifier::when_used_as_spec(spec_sub_level)]
    pub fn sub_level(self) -> (r: Option<Self>)
        ensures
            r == self.spec_sub_level(),
    {
        match self {
            PageTableLevel::L1 => None,
            PageTableLevel::L2 => Some(PageTableLevel::L1),
            PageTableLevel::L3 => Some(PageTableLevel::L2),
            PageTableLevel::L4 => Some(PageTableLevel::L3),
        }
    }

    /// The frame size an entry at this level addresses directly; an L4 entry
    /// can never address a frame.
    pub open spec fn spec_target_frame_size(self) -> Option<PageSize> {
        match self {
            PageTableLevel::L1 => Some(PageSize::_4KiB),
            PageTableLevel::L2 => Some(PageSize::_2MiB),
            PageTableLevel::L3 => Some(PageSize::_1GiB),
            PageTableLevel::L4 => None,
        }
    }

    #[verifier::when_used_as_spec(spec_target_frame_size)]
    pub fn target_frame_size(self) -> (r: Option<PageSize>)
        ensures
            r == self.spec_target_frame_size(),
    {
        match self {
            PageTableLevel::L1 => Some(PageSize::_4KiB),
            PageTableLevel::L2 => Some(PageSize::_2MiB),
            PageTableLevel::L3 => Some(PageSize::_1GiB),
            PageTableLevel::L4 => None,
        }
    }
}

/// A transient, level-aware handle on one table of a managed hierarchy: the
/// physical address of the table plus the level it sits at. It carries no
/// ownership; every operation takes the owning [`ManagedL4PageTable`].
#[derive(Debug, Clone, Copy, PartialEq, Eq, Structural)]
pub struct PageTableWithLevelMut {
    pub table_addr: u64,
    pub level: PageTableLevel,
}

impl PageTableWithLevelMut {
    /// The handle denotes a live table of `l4` at its recorded level.
    pub open spec fn wf_in(self, l4: ManagedL4PageTable) -> bool {
        &&& l4.tables@.contains_key(self.table_addr)
        &&& l4.tables@[self.table_addr].level == self.level
    }

    /// The handle on this table's entry `index`. Indexing the root table
    /// outside the owning table's managed range would break kernel/user
    /// isolation, so it is excluded by contract.
    pub fn entry_mut(self, l4: &ManagedL4PageTable, index: usize) -> (r:
        PageTableEntryWithLevelMut)
        requires
            self.wf_in(*l4),
            index < 512,
            self.level == PageTableLevel::L4 ==> l4.l4_type.spec_manages_index(index as int),
        ensures
            r == (PageTableEntryWithLevelMut {
                table_addr: self.table_addr,
                entry_index: index,
                level: self.level,
            }),
            r.wf_in(*l4),
    {
        PageTableEntryWithLevelMut { table_addr: self.table_addr, entry_index: index, level: self.level }
    }
}

} // verus!
