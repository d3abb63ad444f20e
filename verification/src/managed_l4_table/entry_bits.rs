use vstd::prelude::*;

use super::configurable_flags::ConfigurableFlags;
use super::managed_l4_page_table::L4Type;
use super::page_table_with_level::PageTableLevel;
use crate::frame::Frame;
use crate::frame::PHYS_ADDR_LIMIT;
use crate::managed_pat::spec_pat_slot_bits;
use crate::managed_pat::ManagedPat;
use crate::page_size::PageSize;

verus! {

// An entry of a live table is one u64 in the layout fixed by the CPU:
// bits 12..52 hold a physical address, the rest are flags.
pub const FLAG_PRESENT: u64 = 0x1;

pub const FLAG_WRITABLE: u64 = 0x2;

pub const FLAG_USER_ACCESSIBLE: u64 = 0x4;

/// At L2 and L3 this marks an entry that addresses a frame directly rather
/// than a sub-table. At L1 the same bit is the PAT selector.
pub const FLAG_HUGE_PAGE: u64 = 0x80;

/// Keeps a leaf translation cached across address-space switches; meaningful
/// only on leaf entries of kernel mappings.
pub const FLAG_GLOBAL: u64 = 0x100;

pub const FLAG_NO_EXECUTE: u64 = 0x8000_0000_0000_0000;

/// The address bits of an entry that points to a sub-table.
pub const TABLE_ADDR_MASK: u64 = 0x000f_ffff_ffff_f000;

/// Flags an intermediate table is installed with: permissive, because leaf
/// flags dominate and are applied separately.
pub const TABLE_DEFAULT_FLAGS: u64 = 0x7;

pub open spec fn entry_present(e: u64) -> bool {
    e & FLAG_PRESENT != 0
}

pub open spec fn entry_huge(e: u64) -> bool {
    e & FLAG_HUGE_PAGE != 0
}

/// The sub-table address an intermediate entry points to.
pub open spec fn entry_table_addr(e: u64) -> u64 {
    e & TABLE_ADDR_MASK
}

/// The address bits of a leaf entry for a frame of the given size. On huge
/// leaves the low address bits are flag bits (such as the PAT selector) and
/// are not part of the frame address.
pub open spec fn spec_frame_addr_mask(size: PageSize) -> u64 {
    match size {
        PageSize::_4KiB => 0x000f_ffff_ffff_f000,
        PageSize::_2MiB => 0x000f_ffff_ffe0_0000,
        PageSize::_1GiB => 0x000f_ffff_c000_0000,
    }
}

/// The frame address stored in a leaf entry of the given size.
pub open spec fn entry_frame_addr(e: u64, size: PageSize) -> u64 {
    e & spec_frame_addr_mask(size)
}

/// The level whose entries address frames of the given size.
pub open spec fn spec_level_for(size: PageSize) -> PageTableLevel {
    match size {
        PageSize::_4KiB => PageTableLevel::L1,
        PageSize::_2MiB => PageTableLevel::L2,
        PageSize::_1GiB => PageTableLevel::L3,
    }
}

pub open spec fn spec_p4_index(va: u64) -> int {
    ((va >> 39) & 0x1ff) as int
}

pub open spec fn spec_p3_index(va: u64) -> int {
    ((va >> 30) & 0x1ff) as int
}

pub open spec fn spec_p2_index(va: u64) -> int {
    ((va >> 21) & 0x1ff) as int
}

pub open spec fn spec_p1_index(va: u64) -> int {
    ((va >> 12) & 0x1ff) as int
}

pub fn p4_index(va: u64) -> (r: usize)
    ensures
        r == spec_p4_index(va),
        r < 512,
{
    proof {
        assert((va >> 39) & 0x1ff < 512) by (bit_vector);
    }
    ((va >> 39) & 0x1ff) as usize
}

pub fn p3_index(va: u64) -> (r: usize)
    ensures
        r == spec_p3_index(va),
        r < 512,
{
    proof {
        assert((va >> 30) & 0x1ff < 512) by (bit_vector);
    }
    ((va >> 30) & 0x1ff) as usize
}

pub fn p2_index(va: u64) -> (r: usize)
    ensures
        r == spec_p2_index(va),
        r < 512,
{
    proof {
        assert((va >> 21) & 0x1ff < 512) by (bit_vector);
    }
    ((va >> 21) & 0x1ff) as usize
}

pub fn p1_index(va: u64) -> (r: usize)
    ensures
        r == spec_p1_index(va),
        r < 512,
{
    proof {
        assert((va >> 12) & 0x1ff < 512) by (bit_vector);
    }
    ((va >> 12) & 0x1ff) as usize
}

/// The full flag bits written into a leaf entry: PRESENT, the PAT slot bits
/// for the requested memory type at this level's frame size, HUGE_PAGE above
/// L1, WRITABLE exactly when requested, NO_EXECUTE exactly when execution is
/// not requested, and USER_ACCESSIBLE on a user table or GLOBAL on a kernel
/// table.
pub open spec fn spec_generate_flags(
    level: PageTableLevel,
    l4_type: L4Type,
    pat: ManagedPat,
    flags: ConfigurableFlags,
) -> u64 {
    FLAG_PRESENT | spec_pat_slot_bits(
        pat.spec_slot_of(flags.pat_memory_type),
        level.spec_target_frame_size()->0,
    ) | (if level != PageTableLevel::L1 {
        FLAG_HUGE_PAGE
    } else {
        0
    }) | (if flags.writable {
        FLAG_WRITABLE
    } else {
        0
    }) | (if !flags.executable {
        FLAG_NO_EXECUTE
    } else {
        0
    }) | (if l4_type == L4Type::User {
        FLAG_USER_ACCESSIBLE
    } else {
        FLAG_GLOBAL
    })
}

/// The complete leaf entry installed for `frame`: its address bits joined
/// with the generated flag bits.
pub open spec fn spec_leaf_entry_bits(
    frame: Frame,
    l4_type: L4Type,
    pat: ManagedPat,
    flags: ConfigurableFlags,
) -> u64 {
    frame.start_addr | spec_generate_flags(spec_level_for(frame.size), l4_type, pat, flags)
}

pub fn frame_addr_mask(size: PageSize) -> (r: u64)
    ensures
        r == spec_frame_addr_mask(size),
{
    match size {
        PageSize::_4KiB => 0x000f_ffff_ffff_f000,
        PageSize::_2MiB => 0x000f_ffff_ffe0_0000,
        PageSize::_1GiB => 0x000f_ffff_c000_0000,
    }
}

/// A flag word built around PRESENT keeps the PRESENT bit, and keeps the
/// huge-page bit when that component is the huge-page flag.
pub proof fn lemma_flags_word_bits(p: u64, h: u64, w: u64, n: u64, s: u64)
    ensures
        (FLAG_PRESENT | p | h | w | n | s) & FLAG_PRESENT != 0,
        h == FLAG_HUGE_PAGE ==> (FLAG_PRESENT | p | h | w | n | s) & FLAG_HUGE_PAGE != 0,
{
    assert((0x1u64 | p | h | w | n | s) & 0x1u64 != 0) by (bit_vector);
    assert(h == 0x80u64 ==> ((0x1u64 | p | h | w | n | s) & 0x80u64 != 0)) by (bit_vector);
}

/// Joining flag bits onto an address keeps the PRESENT and huge-page bits
/// the flags carry.
pub proof fn lemma_leaf_entry_compose(a: u64, f: u64)
    ensures
        f & FLAG_PRESENT != 0 ==> entry_present(a | f),
        f & FLAG_HUGE_PAGE != 0 ==> entry_huge(a | f),
{
    assert((f & 0x1u64 != 0) ==> ((a | f) & 0x1u64 != 0)) by (bit_vector);
    assert((f & 0x80u64 != 0) ==> ((a | f) & 0x80u64 != 0)) by (bit_vector);
}

/// Every walk index extracted from a virtual address denotes one of a
/// table's 512 slots.
pub proof fn lemma_indices_in_range(va: u64)
    ensures
        0 <= spec_p4_index(va) < 512,
        0 <= spec_p3_index(va) < 512,
        0 <= spec_p2_index(va) < 512,
        0 <= spec_p1_index(va) < 512,
{
    assert((va >> 39) & 0x1ff < 512) by (bit_vector);
    assert((va >> 30) & 0x1ff < 512) by (bit_vector);
    assert((va >> 21) & 0x1ff < 512) by (bit_vector);
    assert((va >> 12) & 0x1ff < 512) by (bit_vector);
}

/// The PAT slot bits for a page size never intersect the address bits of a
/// leaf entry of that size.
pub proof fn lemma_pat_bits_disjoint(slot: int, size: PageSize)
    ensures
        spec_pat_slot_bits(slot, size) & spec_frame_addr_mask(size) == 0,
{
    let wt: u64 = if slot % 2 == 1 {
        0x8
    } else {
        0
    };
    let cd: u64 = if slot % 4 >= 2 {
        0x10
    } else {
        0
    };
    match size {
        PageSize::_4KiB => {
            let pb: u64 = if slot >= 4 {
                0x80
            } else {
                0
            };
            assert(spec_pat_slot_bits(slot, size) == (wt | cd | pb));
            assert(((wt == 0 || wt == 0x8u64) && (cd == 0 || cd == 0x10u64) && (pb == 0 || pb
                == 0x80u64)) ==> ((wt | cd | pb) & 0x000f_ffff_ffff_f000u64) == 0) by (bit_vector);
        },
        PageSize::_2MiB => {
            let pb: u64 = if slot >= 4 {
                0x1000
            } else {
                0
            };
            assert(spec_pat_slot_bits(slot, size) == (wt | cd | pb));
            assert(((wt == 0 || wt == 0x8u64) && (cd == 0 || cd == 0x10u64) && (pb == 0 || pb
                == 0x1000u64)) ==> ((wt | cd | pb) & 0x000f_ffff_ffe0_0000u64) == 0) by (bit_vector);
        },
        PageSize::_1GiB => {
            let pb: u64 = if slot >= 4 {
                0x1000
            } else {
                0
            };
            assert(spec_pat_slot_bits(slot, size) == (wt | cd | pb));
            assert(((wt == 0 || wt == 0x8u64) && (cd == 0 || cd == 0x10u64) && (pb == 0 || pb
                == 0x1000u64)) ==> ((wt | cd | pb) & 0x000f_ffff_c000_0000u64) == 0) by (bit_vector);
        },
    }
}

/// The generated flag bits for a leaf of a given size never intersect the
/// entry's address bits, so the frame address written in can be read back.
pub proof fn lemma_genflags_disjoint(
    size: PageSize,
    l4_type: L4Type,
    pat: ManagedPat,
    flags: ConfigurableFlags,
)
    ensures
        spec_generate_flags(spec_level_for(size), l4_type, pat, flags) & spec_frame_addr_mask(size)
            == 0,
{
    let level = spec_level_for(size);
    let slot = pat.spec_slot_of(flags.pat_memory_type);
    lemma_pat_bits_disjoint(slot, size);
    let p = spec_pat_slot_bits(slot, level.spec_target_frame_size()->0);
    let h: u64 = if level != PageTableLevel::L1 {
        FLAG_HUGE_PAGE
    } else {
        0
    };
    let w: u64 = if flags.writable {
        FLAG_WRITABLE
    } else {
        0
    };
    let n: u64 = if !flags.executable {
        FLAG_NO_EXECUTE
    } else {
        0
    };
    let sc: u64 = if l4_type == L4Type::User {
        FLAG_USER_ACCESSIBLE
    } else {
        FLAG_GLOBAL
    };
    assert(spec_generate_flags(level, l4_type, pat, flags) == (FLAG_PRESENT | p | h | w | n | sc));
    match size {
        PageSize::_4KiB => {
            assert((p & 0x000f_ffff_ffff_f000u64 == 0 && (h == 0 || h == 0x80u64) && (w == 0 || w
                == 0x2u64) && (n == 0 || n == 0x8000_0000_0000_0000u64) && (sc == 0x4u64 || sc
                == 0x100u64)) ==> (((0x1u64 | p | h | w | n | sc) & 0x000f_ffff_ffff_f000u64)
                == 0)) by (bit_vector);
        },
        PageSize::_2MiB => {
            assert((p & 0x000f_ffff_ffe0_0000u64 == 0 && (h == 0 || h == 0x80u64) && (w == 0 || w
                == 0x2u64) && (n == 0 || n == 0x8000_0000_0000_0000u64) && (sc == 0x4u64 || sc
                == 0x100u64)) ==> (((0x1u64 | p | h | w | n | sc) & 0x000f_ffff_ffe0_0000u64)
                == 0)) by (bit_vector);
        },
        PageSize::_1GiB => {
            assert((p & 0x000f_ffff_c000_0000u64 == 0 && (h == 0 || h == 0x80u64) && (w == 0 || w
                == 0x2u64) && (n == 0 || n == 0x8000_0000_0000_0000u64) && (sc == 0x4u64 || sc
                == 0x100u64)) ==> (((0x1u64 | p | h | w | n | sc) & 0x000f_ffff_c000_0000u64)
                == 0)) by (bit_vector);
        },
    }
}

/// The frame address read back from a leaf entry is a valid frame start for
/// the level's size: in range and aligned.
pub proof fn lemma_masked_addr_valid(e: u64, size: PageSize)
    ensures
        entry_frame_addr(e, size) < PHYS_ADDR_LIMIT,
        entry_frame_addr(e, size) % size.spec_byte_len_u64() == 0,
{
    match size {
        PageSize::_4KiB => {
            assert((e & 0x000f_ffff_ffff_f000u64) < 0x10_0000_0000_0000u64 && (e
                & 0x000f_ffff_ffff_f000u64) % 0x1000u64 == 0) by (bit_vector);
        },
        PageSize::_2MiB => {
            assert((e & 0x000f_ffff_ffe0_0000u64) < 0x10_0000_0000_0000u64 && (e
                & 0x000f_ffff_ffe0_0000u64) % 0x20_0000u64 == 0) by (bit_vector);
        },
        PageSize::_1GiB => {
            assert((e & 0x000f_ffff_c000_0000u64) < 0x10_0000_0000_0000u64 && (e
                & 0x000f_ffff_c000_0000u64) % 0x4000_0000u64 == 0) by (bit_vector);
        },
    }
}

} // verus!
