use vstd::prelude::*;

use super::configurable_flags::ConfigurableFlags;
use super::entry_bits::entry_frame_addr;
use super::entry_bits::lemma_indices_in_range;
use super::entry_bits::entry_huge;
use super::entry_bits::p1_index;
use super::entry_bits::p2_index;
use super::entry_bits::p3_index;
use super::entry_bits::p4_index;
use super::entry_bits::spec_generate_flags;
use super::entry_bits::spec_level_for;
use super::managed_l4_page_table::ManagedL4PageTable;
use super::page_table_entry_with_level::spec_set_flags_outcome;
use super::page_table_entry_with_level::GetTableError;
use super::page_table_entry_with_level::SetFlagsError;
use super::page_table_with_level::PageTableLevel;
use super::unmap_page::lemma_path_tables_distinct;
use crate::page::Page;
use crate::page_size::PageSize;

verus! {

#[derive(Debug, Clone, Copy, PartialEq, Eq, Structural)]
pub enum UpdateFlagsError {
    GetTable(GetTableError),
    SetFlags(SetFlagsError),
}

/// What changing the flags of `page`'s mapping returns, as a function of the
/// current state alone.
pub open spec fn spec_update_flags_outcome(s: ManagedL4PageTable, page: Page) -> Result<
    (),
    UpdateFlagsError,
> {
    let va = page.start_addr;
    let e4 = s.l4_entry(va);
    if e4 == 0 {
        Err(UpdateFlagsError::GetTable(GetTableError::NotMapped))
    } else if entry_huge(e4) {
        Err(UpdateFlagsError::GetTable(GetTableError::MappedToFrame))
    } else {
        let e3 = s.l3_entry(va)->0;
        if page.size == PageSize::_1GiB {
            set_flags_leaf_step(e3, PageTableLevel::L3)
        } else if e3 == 0 {
            Err(UpdateFlagsError::GetTable(GetTableError::NotMapped))
        } else if entry_huge(e3) {
            Err(UpdateFlagsError::GetTable(GetTableError::MappedToFrame))
        } else {
            let e2 = s.l2_entry(va)->0;
            if page.size == PageSize::_2MiB {
                set_flags_leaf_step(e2, PageTableLevel::L2)
            } else if e2 == 0 {
                Err(UpdateFlagsError::GetTable(GetTableError::NotMapped))
            } else if entry_huge(e2) {
                Err(UpdateFlagsError::GetTable(GetTableError::MappedToFrame))
            } else {
                set_flags_leaf_step(s.l1_entry(va)->0, PageTableLevel::L1)
            }
        }
    }
}

pub open spec fn set_flags_leaf_step(e: u64, level: PageTableLevel) -> Result<
    (),
    UpdateFlagsError,
> {
    match spec_set_flags_outcome(e, level) {
        Ok(()) => Ok(()),
        Err(u) => Err(UpdateFlagsError::SetFlags(u)),
    }
}

impl ManagedL4PageTable {
    /// Recomputes the permission/caching bits of `page`'s existing leaf
    /// mapping; the mapped frame address is untouched. Invalidating the
    /// changed translation in each CPU's cache is the embedding kernel's
    /// step.
    pub fn update_flags(&mut self, page: Page, flags: ConfigurableFlags) -> (r: Result<
        (),
        UpdateFlagsError,
    >)
        requires
            old(self).wf(),
            page.wf(),
            old(self).spec_manages_page(page),
        ensures
            final(self).wf(),
            final(self).root_addr == old(self).root_addr,
            final(self).config == old(self).config,
            final(self).l4_type == old(self).l4_type,
            final(self).cpu == old(self).cpu,
            r == spec_update_flags_outcome(*old(self), page),
            r is Ok ==> final(self).leaf_entry(page) == Some(
                entry_frame_addr(old(self).leaf_entry(page)->0, page.size) | spec_generate_flags(
                    spec_level_for(page.size),
                    old(self).l4_type,
                    old(self).config.pat,
                    flags,
                ),
            ),
            r is Err ==> *final(self) == *old(self),
    {
        let va = page.start_addr;
        proof {
            lemma_indices_in_range(va);
        }
        let l4_table = self.table_mut();
        let l4_entry = l4_table.entry_mut(self, p4_index(va));
        let l3 = match l4_entry.get_page_table_mut(self) {
            Ok(t) => t,
            Err(e) => {
                return Err(UpdateFlagsError::GetTable(e));
            },
        };
        let l3_entry = l3.entry_mut(self, p3_index(va));
        let target = if matches!(page.size, PageSize::_1GiB) {
            l3_entry
        } else {
            let l2 = match l3_entry.get_page_table_mut(self) {
                Ok(t) => t,
                Err(e) => {
                    return Err(UpdateFlagsError::GetTable(e));
                },
            };
            let l2_entry = l2.entry_mut(self, p2_index(va));
            if matches!(page.size, PageSize::_2MiB) {
                l2_entry
            } else {
                let l1 = match l2_entry.get_page_table_mut(self) {
                    Ok(t) => t,
                    Err(e) => {
                        return Err(UpdateFlagsError::GetTable(e));
                    },
                };
                l1.entry_mut(self, p1_index(va))
            }
        };
        let ghost s0 = *self;
        match target.set_flags(self, flags) {
            Ok(()) => {},
            Err(e) => {
                return Err(UpdateFlagsError::SetFlags(e));
            },
        }
        proof {
            lemma_indices_in_range(va);
            lemma_path_tables_distinct(s0, *self, page, target.table_addr, target.level);
        }
        Ok(())
    }
}

} // verus!
