use vstd::prelude::*;

use super::entry_bits::entry_frame_addr;
use super::entry_bits::entry_huge;
use super::entry_bits::entry_present;
use super::entry_bits::lemma_flags_word_bits;
use super::entry_bits::lemma_genflags_disjoint;
use super::entry_bits::lemma_indices_in_range;
use super::entry_bits::lemma_leaf_entry_compose;
use super::entry_bits::lemma_masked_addr_valid;
use super::entry_bits::p1_index;
use super::entry_bits::p2_index;
use super::entry_bits::p3_index;
use super::entry_bits::p4_index;
use super::entry_bits::spec_frame_addr_mask;
use super::entry_bits::spec_generate_flags;
use super::entry_bits::spec_leaf_entry_bits;
use super::entry_bits::spec_level_for;
use super::entry_bits::FLAG_PRESENT;
use super::managed_l4_page_table::ManagedL4PageTable;
use super::page_table_entry_with_level::spec_unmap_frame_outcome;
use super::page_table_entry_with_level::GetTableError;
use super::page_table_entry_with_level::UnmapFrameError;
use super::configurable_flags::ConfigurableFlags;
use super::page_table_with_level::PageTableLevel;
use crate::frame::Frame;
use crate::page::Page;
use crate::page_size::PageSize;

verus! {

#[derive(Debug, Clone, Copy, PartialEq, Eq, Structural)]
pub enum UnmapPageError {
    GetTable(GetTableError),
    UnmapFrame(UnmapFrameError),
}

/// What unmapping `page` returns, as a function of the current state alone:
/// the walk follows the root entry down to the page's level and removes the
/// leaf found there.
pub open spec fn spec_unmap_page_outcome(s: ManagedL4PageTable, page: Page) -> Result<
    Frame,
    UnmapPageError,
> {
    let va = page.start_addr;
    let e4 = s.l4_entry(va);
    if e4 == 0 {
        Err(UnmapPageError::GetTable(GetTableError::NotMapped))
    } else if entry_huge(e4) {
        Err(UnmapPageError::GetTable(GetTableError::MappedToFrame))
    } else {
        let e3 = s.l3_entry(va)->0;
        if page.size == PageSize::_1GiB {
            unmap_leaf_step(e3, PageTableLevel::L3)
        } else if e3 == 0 {
            Err(UnmapPageError::GetTable(GetTableError::NotMapped))
        } else if entry_huge(e3) {
            Err(UnmapPageError::GetTable(GetTableError::MappedToFrame))
        } else {
            let e2 = s.l2_entry(va)->0;
            if page.size == PageSize::_2MiB {
                unmap_leaf_step(e2, PageTableLevel::L2)
            } else if e2 == 0 {
                Err(UnmapPageError::GetTable(GetTableError::NotMapped))
            } else if entry_huge(e2) {
                Err(UnmapPageError::GetTable(GetTableError::MappedToFrame))
            } else {
                unmap_leaf_step(s.l1_entry(va)->0, PageTableLevel::L1)
            }
        }
    }
}

pub open spec fn unmap_leaf_step(e: u64, level: PageTableLevel) -> Result<Frame, UnmapPageError> {
    match spec_unmap_frame_outcome(e, level) {
        Ok(f) => Ok(f),
        Err(u) => Err(UnmapPageError::UnmapFrame(u)),
    }
}

impl ManagedL4PageTable {
    /// Removes the leaf mapping for `page` and returns the frame that was
    /// mapped. Invalidating the removed translation in each CPU's cache is
    /// the embedding kernel's step, taken with the address this returns.
    pub fn unmap_page(&mut self, page: Page) -> (r: Result<Frame, UnmapPageError>)
        requires
            old(self).wf(),
            page.wf(),
            old(self).spec_manages_page(page),
        ensures
            final(self).wf(),
            final(self).root_addr == old(self).root_addr,
            final(self).config == old(self).config,
            final(self).l4_type == old(self).l4_type,
            final(self).cpu == old(self).cpu,
            r == spec_unmap_page_outcome(*old(self), page),
            r matches Ok(f) ==> f.wf() && final(self).leaf_entry(page) == Some(0u64),
            r is Err ==> *final(self) == *old(self),
    {
        let va = page.start_addr;
        proof {
            lemma_indices_in_range(va);
        }
        let l4_table = self.table_mut();
        let l4_entry = l4_table.entry_mut(self, p4_index(va));
        let l3 = match l4_entry.get_page_table_mut(self) {
            Ok(t) => t,
            Err(e) => {
                return Err(UnmapPageError::GetTable(e));
            },
        };
        let l3_entry = l3.entry_mut(self, p3_index(va));
        let target = if matches!(page.size, PageSize::_1GiB) {
            l3_entry
        } else {
            let l2 = match l3_entry.get_page_table_mut(self) {
                Ok(t) => t,
                Err(e) => {
                    return Err(UnmapPageError::GetTable(e));
                },
            };
            let l2_entry = l2.entry_mut(self, p2_index(va));
            if matches!(page.size, PageSize::_2MiB) {
                l2_entry
            } else {
                let l1 = match l2_entry.get_page_table_mut(self) {
                    Ok(t) => t,
                    Err(e) => {
                        return Err(UnmapPageError::GetTable(e));
                    },
                };
                l1.entry_mut(self, p1_index(va))
            }
        };
        let ghost s0 = *self;
        let frame = match target.unmap_frame(self) {
            Ok(f) => f,
            Err(e) => {
                return Err(UnmapPageError::UnmapFrame(e));
            },
        };
        proof {
            lemma_indices_in_range(va);
            lemma_path_tables_distinct(s0, *self, page, target.table_addr, target.level);
        }
        Ok(frame)
    }
}

/// After a write confined to the leaf table of `page`'s walk, the walk still
/// reaches the same leaf slot: every table above the leaf sits at a higher
/// level, so it is a different table and was not touched.
pub(crate) proof fn lemma_path_tables_distinct(
    pre: ManagedL4PageTable,
    post: ManagedL4PageTable,
    page: Page,
    leaf_table: u64,
    leaf_level: PageTableLevel,
)
    requires
        pre.wf(),
        pre.tables@.contains_key(leaf_table),
        pre.tables@[leaf_table].level == leaf_level,
        leaf_level == spec_level_for(page.size),
        post.tables@.dom() == pre.tables@.dom(),
        post.root_addr == pre.root_addr,
        forall|a: u64|
            a != leaf_table && #[trigger] pre.tables@.contains_key(a) ==> post.tables@[a]
                == pre.tables@[a],
        post.tables@[leaf_table].level == pre.tables@[leaf_table].level,
        pre.leaf_entry(page) is Some,
    ensures
        post.l4_entry(page.start_addr) == pre.l4_entry(page.start_addr) || page.size
            == PageSize::_1GiB,
        ({
            match page.size {
                PageSize::_1GiB => post.l3_table(page.start_addr) == pre.l3_table(page.start_addr),
                PageSize::_2MiB => post.l2_table(page.start_addr) == pre.l2_table(page.start_addr),
                PageSize::_4KiB => post.l1_table(page.start_addr) == pre.l1_table(page.start_addr),
            }
        }),
{
    let va = page.start_addr;
    lemma_indices_in_range(va);
    assert(pre.wf_table(pre.root_addr));
    if leaf_table != pre.root_addr {
        assert(post.tables@[post.root_addr] == pre.tables@[pre.root_addr]);
    }
    match page.size {
        PageSize::_1GiB => {
            assert(pre.tables@[pre.root_addr].level == PageTableLevel::L4);
            assert(leaf_table != pre.root_addr);
        },
        PageSize::_2MiB => {
            let t3 = pre.l3_table(va)->0;
            assert(pre.tables@.contains_key(t3) && pre.tables@[t3].level == PageTableLevel::L3) by {
                assert(pre.wf_table(pre.root_addr));
                assert(pre.wf_entry(PageTableLevel::L4, pre.l4_entry(va)));
            }
            assert(leaf_table != pre.root_addr);
            assert(leaf_table != t3);
            assert(post.tables@[t3] == pre.tables@[t3]);
        },
        PageSize::_4KiB => {
            let t3 = pre.l3_table(va)->0;
            assert(pre.tables@.contains_key(t3) && pre.tables@[t3].level == PageTableLevel::L3) by {
                assert(pre.wf_table(pre.root_addr));
                assert(pre.wf_entry(PageTableLevel::L4, pre.l4_entry(va)));
            }
            let t2 = pre.l2_table(va)->0;
            assert(pre.tables@.contains_key(t2) && pre.tables@[t2].level == PageTableLevel::L2) by {
                assert(pre.wf_table(t3));
                assert(pre.wf_entry(PageTableLevel::L3, pre.l3_entry(va)->0));
            }
            assert(leaf_table != pre.root_addr);
            assert(leaf_table != t3);
            assert(leaf_table != t2);
            assert(post.tables@[t3] == pre.tables@[t3]);
            assert(post.tables@[t2] == pre.tables@[t2]);
        },
    }
}

/// Unmapping a page whose leaf entry holds a present mapping of the page's
/// size returns exactly the frame stored there.
pub proof fn lemma_unmap_returns_mapped_frame(s: ManagedL4PageTable, page: Page)
    requires
        s.wf(),
        s.leaf_entry(page) is Some,
        entry_present(s.leaf_entry(page)->0),
        page.size == PageSize::_4KiB || entry_huge(s.leaf_entry(page)->0),
    ensures
        spec_unmap_page_outcome(s, page) == Ok::<Frame, UnmapPageError>(
            Frame {
                start_addr: entry_frame_addr(s.leaf_entry(page)->0, page.size),
                size: page.size,
            },
        ),
{
    let e = s.leaf_entry(page)->0;
    assert(!(e == 0)) by {
        assert(0u64 & FLAG_PRESENT == 0) by (bit_vector);
    }
}

/// Mapping `page` to `frame` and then unmapping it hands back exactly
/// `frame`: unmapping is the inverse of mapping on the page just mapped.
pub proof fn lemma_map_then_unmap(
    s: ManagedL4PageTable,
    page: Page,
    frame: Frame,
    flags: ConfigurableFlags,
)
    requires
        s.wf(),
        frame.wf(),
        frame.size == page.size,
        s.leaf_entry(page) == Some(spec_leaf_entry_bits(frame, s.l4_type, s.config.pat, flags)),
    ensures
        spec_unmap_page_outcome(s, page) == Ok::<Frame, UnmapPageError>(frame),
{
    let level = spec_level_for(page.size);
    let gf = spec_generate_flags(level, s.l4_type, s.config.pat, flags);
    let e = s.leaf_entry(page)->0;
    lemma_generated_flags_bits(level, s, flags);
    lemma_leaf_entry_compose(frame.start_addr, gf);
    lemma_genflags_disjoint(page.size, s.l4_type, s.config.pat, flags);
    assert(entry_frame_addr(e, page.size) == frame.start_addr) by {
        lemma_or_mask(frame.start_addr, gf, spec_frame_addr_mask(page.size), page.size, frame);
    }
    lemma_unmap_returns_mapped_frame(s, page);
}

/// A page whose leaf entry exists but is clear cannot be unmapped: the walk
/// reaches the slot and finds nothing present.
pub proof fn lemma_unmap_unmapped_page(s: ManagedL4PageTable, page: Page)
    requires
        s.wf(),
        s.leaf_entry(page) == Some(0u64),
    ensures
        spec_unmap_page_outcome(s, page) == Err::<Frame, UnmapPageError>(
            UnmapPageError::UnmapFrame(UnmapFrameError::NotPresent),
        ),
{
    assert(0u64 & FLAG_PRESENT == 0) by (bit_vector);
}

/// Rewriting a mapped page's flags and then unmapping it still hands back
/// the originally mapped frame: a flags update leaves the address bits
/// untouched.
pub proof fn lemma_update_then_unmap(
    s: ManagedL4PageTable,
    page: Page,
    e: u64,
    flags: ConfigurableFlags,
)
    requires
        s.wf(),
        s.leaf_entry(page) == Some(
            entry_frame_addr(e, page.size) | spec_generate_flags(
                spec_level_for(page.size),
                s.l4_type,
                s.config.pat,
                flags,
            ),
        ),
    ensures
        spec_unmap_page_outcome(s, page) == Ok::<Frame, UnmapPageError>(
            Frame { start_addr: entry_frame_addr(e, page.size), size: page.size },
        ),
{
    let a = entry_frame_addr(e, page.size);
    let level = spec_level_for(page.size);
    let gf = spec_generate_flags(level, s.l4_type, s.config.pat, flags);
    lemma_masked_addr_valid(e, page.size);
    let f = Frame { start_addr: a, size: page.size };
    lemma_generated_flags_bits(level, s, flags);
    lemma_leaf_entry_compose(a, gf);
    lemma_genflags_disjoint(page.size, s.l4_type, s.config.pat, flags);
    assert(entry_frame_addr(a | gf, page.size) == a) by {
        lemma_or_mask(a, gf, spec_frame_addr_mask(page.size), page.size, f);
    }
    lemma_unmap_returns_mapped_frame(s, page);
}

proof fn lemma_generated_flags_bits(
    level: PageTableLevel,
    s: ManagedL4PageTable,
    flags: ConfigurableFlags,
)
    ensures
        spec_generate_flags(level, s.l4_type, s.config.pat, flags) & FLAG_PRESENT != 0,
        level != PageTableLevel::L1 ==> spec_generate_flags(level, s.l4_type, s.config.pat, flags)
            & super::entry_bits::FLAG_HUGE_PAGE != 0,
{
    let p = crate::managed_pat::spec_pat_slot_bits(
        s.config.pat.spec_slot_of(flags.pat_memory_type),
        level.spec_target_frame_size()->0,
    );
    let h: u64 = if level != PageTableLevel::L1 {
        super::entry_bits::FLAG_HUGE_PAGE
    } else {
        0
    };
    let w: u64 = if flags.writable {
        super::entry_bits::FLAG_WRITABLE
    } else {
        0
    };
    let n: u64 = if !flags.executable {
        super::entry_bits::FLAG_NO_EXECUTE
    } else {
        0
    };
    let sc: u64 = if s.l4_type == super::managed_l4_page_table::L4Type::User {
        super::entry_bits::FLAG_USER_ACCESSIBLE
    } else {
        super::entry_bits::FLAG_GLOBAL
    };
    lemma_flags_word_bits(p, h, w, n, sc);
}

proof fn lemma_or_mask(a: u64, f: u64, m: u64, size: PageSize, frame: Frame)
    requires
        frame.wf(),
        frame.start_addr == a,
        frame.size == size,
        m == spec_frame_addr_mask(size),
        f & m == 0,
    ensures
        (a | f) & m == a,
{
    match size {
        PageSize::_4KiB => {
            assert((a % 0x1000u64 == 0 && a < 0x10_0000_0000_0000u64 && (f
                & 0x000f_ffff_ffff_f000u64) == 0) ==> (((a | f) & 0x000f_ffff_ffff_f000u64)
                == a)) by (bit_vector);
        },
        PageSize::_2MiB => {
            assert((a % 0x20_0000u64 == 0 && a < 0x10_0000_0000_0000u64 && (f
                & 0x000f_ffff_ffe0_0000u64) == 0) ==> (((a | f) & 0x000f_ffff_ffe0_0000u64)
                == a)) by (bit_vector);
        },
        PageSize::_1GiB => {
            assert((a % 0x4000_0000u64 == 0 && a < 0x10_0000_0000_0000u64 && (f
                & 0x000f_ffff_c000_0000u64) == 0) ==> (((a | f) & 0x000f_ffff_c000_0000u64)
                == a)) by (bit_vector);
        },
    }
}

} // verus!
