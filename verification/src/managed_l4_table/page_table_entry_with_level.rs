use vstd::prelude::*;

use super::configurable_flags::ConfigurableFlags;
use super::entry_bits::entry_frame_addr;
use super::entry_bits::entry_huge;
use super::entry_bits::entry_present;
use super::entry_bits::entry_table_addr;
use super::entry_bits::frame_addr_mask;
use super::entry_bits::lemma_flags_word_bits;
use super::entry_bits::lemma_leaf_entry_compose;
use super::entry_bits::lemma_masked_addr_valid;
use super::entry_bits::spec_generate_flags;
use super::entry_bits::spec_leaf_entry_bits;
use super::entry_bits::FLAG_GLOBAL;
use super::entry_bits::FLAG_HUGE_PAGE;
use super::entry_bits::FLAG_NO_EXECUTE;
use super::entry_bits::FLAG_PRESENT;
use super::entry_bits::FLAG_USER_ACCESSIBLE;
use super::entry_bits::FLAG_WRITABLE;
use super::entry_bits::TABLE_ADDR_MASK;
use super::entry_bits::TABLE_DEFAULT_FLAGS;
use super::managed_l4_page_table::L4Type;
use super::managed_l4_page_table::ManagedL4PageTable;
use super::page_table_with_level::PageTableLevel;
use super::page_table_with_level::PageTableWithLevelMut;
use crate::frame::Frame;
use crate::page_size::PageSize;

verus! {

/// A transient handle on one entry slot of a live table: the table's
/// physical address, the slot index and the level. It carries no ownership;
/// every operation takes the owning [`ManagedL4PageTable`].
#[derive(Debug, Clone, Copy, PartialEq, Eq, Structural)]
pub struct PageTableEntryWithLevelMut {
    pub table_addr: u64,
    pub entry_index: usize,
    pub level: PageTableLevel,
}

#[derive(Debug, Clone, Copy, PartialEq, Eq, Structural)]
pub enum SetFrameError {
    /// Either the table is an L4 table (a 512 GiB frame cannot be mapped) or
    /// the frame size does not match the table level.
    NotAllowed,
    /// This CPU cannot map 1 GiB pages.
    PageSizeNotSupported,
    /// The entry already holds a mapping; overwriting it silently would
    /// corrupt the address space.
    AlreadyMapped,
}

#[derive(Debug, Clone, Copy, PartialEq, Eq, Structural)]
pub enum SetTableError {
    /// This is an L1 table and L1 entries don't point to another page table.
    IsL1,
}

#[derive(Debug, Clone, Copy, PartialEq, Eq, Structural)]
pub enum GetTableError {
    /// This is an L1 table and cannot point to another table.
    IsL1,
    /// This entry is not mapped.
    NotMapped,
    /// This entry is mapped, but not mapped to a table.
    MappedToFrame,
}

#[derive(Debug, Clone, Copy, PartialEq, Eq, Structural)]
pub enum UnmapFrameError {
    IsL4,
    NotPresent,
    IsPageTable,
}

#[derive(Debug, Clone, Copy, PartialEq, Eq, Structural)]
pub enum SetFlagsError {
    IsL4,
    NotPresent,
    IsPageTable,
}

/// What installing `frame` at an entry returns, as a function of the entry's
/// old value, its level, and whether the CPU can map 1 GiB pages.
pub open spec fn spec_set_frame_outcome(
    e: u64,
    level: PageTableLevel,
    frame: Frame,
    supports_1gib_pages: bool,
) -> Result<(), SetFrameError> {
    if level.spec_target_frame_size() != Some(frame.size) {
        Err(SetFrameError::NotAllowed)
    } else if frame.size == PageSize::_1GiB && !supports_1gib_pages {
        Err(SetFrameError::PageSizeNotSupported)
    } else if e != 0 {
        Err(SetFrameError::AlreadyMapped)
    } else {
        Ok(())
    }
}

/// What removing a leaf mapping returns: the frame the entry addressed,
/// whose size is inferred from the level.
pub open spec fn spec_unmap_frame_outcome(e: u64, level: PageTableLevel) -> Result<
    Frame,
    UnmapFrameError,
> {
    match level.spec_target_frame_size() {
        None => Err(UnmapFrameError::IsL4),
        Some(size) => if !entry_present(e) {
            Err(UnmapFrameError::NotPresent)
        } else if !entry_huge(e) && size != PageSize::_4KiB {
            Err(UnmapFrameError::IsPageTable)
        } else {
            Ok(Frame { start_addr: entry_frame_addr(e, size), size })
        },
    }
}

/// What rewriting a leaf entry's flags returns.
pub open spec fn spec_set_flags_outcome(e: u64, level: PageTableLevel) -> Result<
    (),
    SetFlagsError,
> {
    match level.spec_target_frame_size() {
        None => Err(SetFlagsError::IsL4),
        Some(size) => if !entry_present(e) {
            Err(SetFlagsError::NotPresent)
        } else if !entry_huge(e) && size != PageSize::_4KiB {
            Err(SetFlagsError::IsPageTable)
        } else {
            Ok(())
        },
    }
}

/// What following an entry to its sub-table returns: the sub-table's
/// physical address.
pub open spec fn spec_get_table_outcome(e: u64, level: PageTableLevel) -> Result<
    u64,
    GetTableError,
> {
    match level.spec_sub_level() {
        None => Err(GetTableError::IsL1),
        Some(_) => if e == 0 {
            Err(GetTableError::NotMapped)
        } else if entry_huge(e) {
            Err(GetTableError::MappedToFrame)
        } else {
            Ok(entry_table_addr(e))
        },
    }
}

/// The two states differ exactly in the entry `loc` now holding `value`;
/// every other entry, every other table, and the rest of the managed table
/// are untouched.
pub open spec fn entry_written(
    pre: ManagedL4PageTable,
    post: ManagedL4PageTable,
    loc: PageTableEntryWithLevelMut,
    value: u64,
) -> bool {
    &&& post.tables@.dom() == pre.tables@.dom()
    &&& post.tables@[loc.table_addr].level == pre.tables@[loc.table_addr].level
    &&& post.tables@[loc.table_addr].entries@ == pre.tables@[loc.table_addr].entries@.update(
        loc.entry_index as int,
        value,
    )
    &&& forall|a: u64|
        a != loc.table_addr && #[trigger] pre.tables@.contains_key(a) ==> post.tables@[a]
            == pre.tables@[a]
    &&& post.root_addr == pre.root_addr
    &&& post.config == pre.config
    &&& post.l4_type == pre.l4_type
    &&& post.cpu == pre.cpu
}

impl PageTableEntryWithLevelMut {
    /// The handle denotes a live entry slot of `l4`, within the managed
    /// range when it sits in the root table.
    pub open spec fn wf_in(self, l4: ManagedL4PageTable) -> bool {
        &&& l4.tables@.contains_key(self.table_addr)
        &&& l4.tables@[self.table_addr].level == self.level
        &&& self.entry_index < 512
        &&& self.level == PageTableLevel::L4 ==> l4.l4_type.spec_manages_index(
            self.entry_index as int,
        )
    }

    /// The raw value this entry currently holds.
    pub open spec fn entry_value(self, l4: ManagedL4PageTable) -> u64 {
        l4.table_entry(self.table_addr, self.entry_index as int)
    }

    /// True exactly when the raw entry has no bits set.
    pub fn is_empty(&self, l4: &ManagedL4PageTable) -> (r: bool)
        requires
            l4.wf(),
            self.wf_in(*l4),
        ensures
            r == (self.entry_value(*l4) == 0),
    {
        l4.read_entry(self.table_addr, self.entry_index) == 0
    }

    /// The frame size a leaf at this entry's level addresses.
    fn page_size(&self) -> (r: Option<PageSize>)
        ensures
            r == self.level.spec_target_frame_size(),
    {
        self.level.target_frame_size()
    }

    /// The hardware flag bits for a leaf installed here, per
    /// [`spec_generate_flags`].
    fn generate_flags(&self, l4: &ManagedL4PageTable, configurable_flags: ConfigurableFlags) -> (r:
        u64)
        requires
            l4.config.wf(),
            self.level != PageTableLevel::L4,
        ensures
            r == spec_generate_flags(self.level, l4.l4_type, l4.config.pat, configurable_flags),
            r & FLAG_PRESENT != 0,
            self.level != PageTableLevel::L1 ==> r & FLAG_HUGE_PAGE != 0,
    {
        let size = self.page_size().unwrap();
        let pat_bits = match l4.config.pat.get_page_table_flags(
            configurable_flags.pat_memory_type,
            size,
        ) {
            Some(bits) => bits,
            None => unreached(),
        };
        let huge: u64 = if !matches!(self.level, PageTableLevel::L1) {
            FLAG_HUGE_PAGE
        } else {
            0
        };
        let writable: u64 = if configurable_flags.writable {
            FLAG_WRITABLE
        } else {
            0
        };
        let no_execute: u64 = if !configurable_flags.executable {
            FLAG_NO_EXECUTE
        } else {
            0
        };
        let scope: u64 = match l4.l4_type {
            L4Type::User => FLAG_USER_ACCESSIBLE,
            L4Type::Kernel => FLAG_GLOBAL,
        };
        let r = FLAG_PRESENT | pat_bits | huge | writable | no_execute | scope;
        proof {
            lemma_flags_word_bits(pat_bits, huge, writable, no_execute, scope);
        }
        r
    }

    /// Installs a leaf mapping for `frame` here: on success the entry holds
    /// the frame's address joined with the generated flag bits.
    pub fn set_frame(&self, l4: &mut ManagedL4PageTable, frame: Frame, flags: ConfigurableFlags) -> (r:
        Result<(), SetFrameError>)
        requires
            old(l4).wf(),
            self.wf_in(*old(l4)),
            frame.wf(),
        ensures
            final(l4).wf(),
            self.wf_in(*final(l4)),
            r == spec_set_frame_outcome(
                self.entry_value(*old(l4)),
                self.level,
                frame,
                old(l4).cpu.supports_1gib_pages,
            ),
            r is Ok ==> entry_written(
                *old(l4),
                *final(l4),
                *self,
                spec_leaf_entry_bits(frame, old(l4).l4_type, old(l4).config.pat, flags),
            ),
            r is Err ==> *final(l4) == *old(l4),
    {
        let level_frame_match = match self.level {
            PageTableLevel::L1 => matches!(frame.size, PageSize::_4KiB),
            PageTableLevel::L2 => matches!(frame.size, PageSize::_2MiB),
            PageTableLevel::L3 => matches!(frame.size, PageSize::_1GiB),
            PageTableLevel::L4 => false,
        };
        if !level_frame_match {
            return Err(SetFrameError::NotAllowed);
        }
        if matches!(frame.size, PageSize::_1GiB) && !l4.cpu.supports_1gib_pages {
            return Err(SetFrameError::PageSizeNotSupported);
        }
        let e = l4.read_entry(self.table_addr, self.entry_index);
        if e != 0 {
            return Err(SetFrameError::AlreadyMapped);
        }
        let flag_bits = self.generate_flags(l4, flags);
        let new_entry = frame.start_addr | flag_bits;
        proof {
            assert(old(l4).wf_table(self.table_addr));
        }
        l4.set_entry(self.table_addr, self.entry_index, new_entry);
        proof {
            lemma_leaf_entry_compose(frame.start_addr, flag_bits);
            lemma_write_keeps_wf(*old(l4), *l4, *self, new_entry);
        }
        Ok(())
    }

    /// Removes the leaf mapping here and returns the frame that was mapped,
    /// its address taken from the entry and its size from the level.
    pub fn unmap_frame(&self, l4: &mut ManagedL4PageTable) -> (r: Result<Frame, UnmapFrameError>)
        requires
            old(l4).wf(),
            self.wf_in(*old(l4)),
        ensures
            final(l4).wf(),
            self.wf_in(*final(l4)),
            r == spec_unmap_frame_outcome(self.entry_value(*old(l4)), self.level),
            r matches Ok(f) ==> f.wf() && entry_written(*old(l4), *final(l4), *self, 0),
            r is Err ==> *final(l4) == *old(l4),
    {
        let size = match self.level.target_frame_size() {
            Some(s) => s,
            None => {
                return Err(UnmapFrameError::IsL4);
            },
        };
        let e = l4.read_entry(self.table_addr, self.entry_index);
        if e & FLAG_PRESENT == 0 {
            return Err(UnmapFrameError::NotPresent);
        }
        if e & FLAG_HUGE_PAGE == 0 && !matches!(size, PageSize::_4KiB) {
            return Err(UnmapFrameError::IsPageTable);
        }
        let start_addr = e & frame_addr_mask(size);
        proof {
            assert(old(l4).wf_table(self.table_addr));
        }
        l4.set_entry(self.table_addr, self.entry_index, 0);
        proof {
            lemma_masked_addr_valid(e, size);
            lemma_write_keeps_wf(*old(l4), *l4, *self, 0);
        }
        Ok(Frame { start_addr, size })
    }

    /// Recomputes and overwrites only the flag bits of an existing leaf
    /// entry, leaving its address bits untouched.
    pub fn set_flags(&self, l4: &mut ManagedL4PageTable, flags: ConfigurableFlags) -> (r: Result<
        (),
        SetFlagsError,
    >)
        requires
            old(l4).wf(),
            self.wf_in(*old(l4)),
        ensures
            final(l4).wf(),
            self.wf_in(*final(l4)),
            r == spec_set_flags_outcome(self.entry_value(*old(l4)), self.level),
            r is Ok ==> entry_written(
                *old(l4),
                *final(l4),
                *self,
                entry_frame_addr(
                    self.entry_value(*old(l4)),
                    self.level.spec_target_frame_size()->0,
                ) | spec_generate_flags(self.level, old(l4).l4_type, old(l4).config.pat, flags),
            ),
            r is Err ==> *final(l4) == *old(l4),
    {
        let size = match self.level.target_frame_size() {
            Some(s) => s,
            None => {
                return Err(SetFlagsError::IsL4);
            },
        };
        let e = l4.read_entry(self.table_addr, self.entry_index);
        if e & FLAG_PRESENT == 0 {
            return Err(SetFlagsError::NotPresent);
        }
        if e & FLAG_HUGE_PAGE == 0 && !matches!(size, PageSize::_4KiB) {
            return Err(SetFlagsError::IsPageTable);
        }
        let flag_bits = self.generate_flags(l4, flags);
        let addr_bits = e & frame_addr_mask(size);
        let new_entry = addr_bits | flag_bits;
        proof {
            assert(old(l4).wf_table(self.table_addr));
        }
        l4.set_entry(self.table_addr, self.entry_index, new_entry);
        proof {
            lemma_leaf_entry_compose(addr_bits, flag_bits);
            lemma_write_keeps_wf(*old(l4), *l4, *self, new_entry);
        }
        Ok(())
    }

    /// Installs `frame` as a fresh sub-table under this entry and hands back
    /// the handle on it. The frame is zero-filled: a blank table maps
    /// nothing. Creating a new root-slot sub-table on a kernel table would
    /// desynchronize every other address space's copy of the root entries,
    /// so it is excluded by contract.
    pub fn set_page_table(self, l4: &mut ManagedL4PageTable, frame: Frame) -> (r: Result<
        PageTableWithLevelMut,
        SetTableError,
    >)
        requires
            old(l4).wf(),
            self.wf_in(*old(l4)),
            frame.wf(),
            frame.size == PageSize::_4KiB,
            !old(l4).tables@.contains_key(frame.start_addr),
            !(self.level == PageTableLevel::L4 && old(l4).l4_type == L4Type::Kernel),
        ensures
            final(l4).wf(),
            final(l4).root_addr == old(l4).root_addr,
            final(l4).config == old(l4).config,
            final(l4).l4_type == old(l4).l4_type,
            final(l4).cpu == old(l4).cpu,
            self.level == PageTableLevel::L1 ==> r == Result::<
                PageTableWithLevelMut,
                SetTableError,
            >::Err(SetTableError::IsL1) && *final(l4) == *old(l4),
            self.level != PageTableLevel::L1 ==> {
                &&& r == Result::<PageTableWithLevelMut, SetTableError>::Ok(
                    PageTableWithLevelMut {
                        table_addr: frame.start_addr,
                        level: self.level.spec_sub_level()->0,
                    },
                )
                &&& final(l4).tables@.dom() == old(l4).tables@.dom().insert(frame.start_addr)
                &&& final(l4).tables@[self.table_addr].level == self.level
                &&& final(l4).tables@[self.table_addr].entries@ == old(l4).tables@[self.table_addr].entries@.update(
                    self.entry_index as int,
                    frame.start_addr | TABLE_DEFAULT_FLAGS,
                )
                &&& final(l4).tables@[frame.start_addr].level == self.level.spec_sub_level()->0
                &&& forall|i: int|
                    0 <= i < 512 ==> final(l4).table_entry(frame.start_addr, i) == 0
                &&& forall|a: u64|
                    a != self.table_addr && a != frame.start_addr && #[trigger] old(l4).tables@.contains_key(a) ==> final(l4).tables@[a] == old(l4).tables@[a]
            },
    {
        let sub_level = match self.level.sub_level() {
            Some(s) => s,
            None => {
                return Err(SetTableError::IsL1);
            },
        };
        l4.install_sub_table(self.table_addr, self.entry_index, frame);
        Ok(PageTableWithLevelMut { table_addr: frame.start_addr, level: sub_level })
    }

    /// The handle on the sub-table this entry points to.
    pub fn get_page_table_mut(self, l4: &ManagedL4PageTable) -> (r: Result<
        PageTableWithLevelMut,
        GetTableError,
    >)
        requires
            l4.wf(),
            self.wf_in(*l4),
        ensures
            r matches Ok(t) ==> {
                &&& spec_get_table_outcome(self.entry_value(*l4), self.level) == Ok::<
                    u64,
                    GetTableError,
                >(t.table_addr)
                &&& t.level == self.level.spec_sub_level()->0
                &&& t.wf_in(*l4)
            },
            r matches Err(ge) ==> spec_get_table_outcome(self.entry_value(*l4), self.level)
                == Err::<u64, GetTableError>(ge),
    {
        let sub_level = match self.level.sub_level() {
            Some(s) => s,
            None => {
                return Err(GetTableError::IsL1);
            },
        };
        let e = l4.read_entry(self.table_addr, self.entry_index);
        if e == 0 {
            return Err(GetTableError::NotMapped);
        }
        if e & FLAG_HUGE_PAGE != 0 {
            return Err(GetTableError::MappedToFrame);
        }
        proof {
            assert(l4.wf_table(self.table_addr));
        }
        Ok(PageTableWithLevelMut { table_addr: e & TABLE_ADDR_MASK, level: sub_level })
    }
}

/// Writing a present leaf (huge above L1) or clearing an entry keeps the
/// hierarchy well-formed: no link is created, and all other entries keep
/// their targets.
pub proof fn lemma_write_keeps_wf(
    pre: ManagedL4PageTable,
    post: ManagedL4PageTable,
    loc: PageTableEntryWithLevelMut,
    value: u64,
)
    requires
        pre.wf(),
        loc.wf_in(pre),
        entry_written(pre, post, loc, value),
        value == 0 || {
            &&& entry_present(value)
            &&& loc.level != PageTableLevel::L1 ==> entry_huge(value)
        },
    ensures
        post.wf(),
        loc.wf_in(post),
{
    assert(post.tables@.dom() == pre.tables@.dom());
    assert(post.tables@.contains_key(post.root_addr));
    if loc.table_addr != post.root_addr {
        assert(post.tables@[post.root_addr] == pre.tables@[pre.root_addr]);
    }
    assert forall|a: u64| #[trigger] post.tables@.contains_key(a) implies post.wf_table(a) by {
        assert(pre.tables@.contains_key(a));
        assert(pre.wf_table(a));
        let lvl = post.tables@[a].level;
        assert(lvl == pre.tables@[a].level);
        assert forall|i: int| 0 <= i < 512 implies post.wf_entry(
            lvl,
            #[trigger] post.tables@[a].entries[i],
        ) by {
            let e = post.tables@[a].entries[i];
            if a == loc.table_addr && i == loc.entry_index as int {
                assert(e == value);
            } else {
                assert(e == pre.tables@[a].entries[i]);
                assert(pre.wf_entry(lvl, e));
                if e != 0 && lvl != PageTableLevel::L1 && !entry_huge(e) {
                    let b = entry_table_addr(e);
                    assert(pre.tables@.contains_key(b));
                    assert(post.tables@.contains_key(b));
                    if b == loc.table_addr {
                        assert(post.tables@[b].level == pre.tables@[b].level);
                    } else {
                        assert(post.tables@[b] == pre.tables@[b]);
                    }
                }
            }
        }
    }
}

} // verus!
