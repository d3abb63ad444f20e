use vstd::prelude::*;

use crate::page_size::PageSize;

verus! {

/// Caching behaviour a caller can request for a mapping. The page attribute
/// table (PAT) maps each of these six types to one of its eight slots.
#[derive(Debug, Clone, Copy, PartialEq, Eq, Structural)]
pub enum PatMemoryType {
    Uncacheable,
    WriteCombining,
    WriteThrough,
    WriteProtected,
    WriteBack,
    Uncached,
}

#[derive(Debug, Clone, Copy, PartialEq, Eq, Structural)]
pub enum NewManagedPatError {
    /// Some memory type appears in no slot, so a request for it could never
    /// be encoded into flag bits.
    MissingMemoryType,
}

/// Bit 3 of an entry selects the PAT slot's bit 0 (write-through).
pub const FLAG_WRITE_THROUGH: u64 = 0x8;

/// Bit 4 of an entry selects the PAT slot's bit 1 (cache disable).
pub const FLAG_NO_CACHE: u64 = 0x10;

/// For a 4 KiB leaf entry, bit 7 selects the PAT slot's bit 2.
pub const FLAG_PAT_4KIB: u64 = 0x80;

/// For a 2 MiB or 1 GiB leaf entry, bit 12 selects the PAT slot's bit 2
/// (bit 7 is the huge-page flag there).
pub const FLAG_PAT_HUGE: u64 = 0x1000;

/// The flag bits that encode PAT slot `slot` into a leaf entry of the given
/// page size: the slot index's three bits become the entry's write-through,
/// cache-disable and PAT bits.
pub open spec fn spec_pat_slot_bits(slot: int, size: PageSize) -> u64 {
    ((if slot % 2 == 1 {
        FLAG_WRITE_THROUGH
    } else {
        0
    }) | (if slot % 4 >= 2 {
        FLAG_NO_CACHE
    } else {
        0
    }) | (if slot >= 4 {
        if size == PageSize::_4KiB {
            FLAG_PAT_4KIB
        } else {
            FLAG_PAT_HUGE
        }
    } else {
        0
    })) as u64
}

/// The first slot in `slots` holding `mt`, scanning from `i`; 8 when none does.
pub open spec fn spec_first_slot_from(slots: Seq<PatMemoryType>, mt: PatMemoryType, i: int) -> int
    decreases 8 - i,
{
    if i < 0 || i >= 8 {
        8
    } else if slots[i] == mt {
        i
    } else {
        spec_first_slot_from(slots, mt, i + 1)
    }
}

/// View of the page attribute table the kernel has programmed: which memory
/// type each of the eight hardware slots holds.
#[derive(Debug, Clone, Copy, PartialEq, Eq)]
pub struct ManagedPat {
    pub slots: [PatMemoryType; 8],
}

impl ManagedPat {
    pub open spec fn spec_has_type(self, mt: PatMemoryType) -> bool {
        exists|i: int| 0 <= i < 8 && self.slots[i] == mt
    }

    /// A usable PAT holds every memory type in some slot, so a request for
    /// any of the six types can always be encoded.
    pub open spec fn wf(self) -> bool {
        &&& self.spec_has_type(PatMemoryType::Uncacheable)
        &&& self.spec_has_type(PatMemoryType::WriteCombining)
        &&& self.spec_has_type(PatMemoryType::WriteThrough)
        &&& self.spec_has_type(PatMemoryType::WriteProtected)
        &&& self.spec_has_type(PatMemoryType::WriteBack)
        &&& self.spec_has_type(PatMemoryType::Uncached)
    }

    /// The slot whose flag bits encode `mt`: the lowest slot holding it.
    pub open spec fn spec_slot_of(self, mt: PatMemoryType) -> int {
        spec_first_slot_from(self.slots@, mt, 0)
    }

    /// The caller attests that the hardware PAT is programmed so that slot
    /// `i` holds `slots[i]`. Fails when some memory type is in no slot.
    pub fn new(slots: [PatMemoryType; 8]) -> (r: Result<Self, NewManagedPatError>)
        ensures
            r matches Ok(p) ==> p == (ManagedPat { slots }) && p.wf(),
            r is Ok <==> (ManagedPat { slots }).wf(),
            r is Err ==> r == Result::<Self, NewManagedPatError>::Err(
                NewManagedPatError::MissingMemoryType,
            ),
    {
        let pat = ManagedPat { slots };
        if pat.contains_type(PatMemoryType::Uncacheable) && pat.contains_type(
            PatMemoryType::WriteCombining,
        ) && pat.contains_type(PatMemoryType::WriteThrough) && pat.contains_type(
            PatMemoryType::WriteProtected,
        ) && pat.contains_type(PatMemoryType::WriteBack) && pat.contains_type(
            PatMemoryType::Uncached,
        ) {
            Ok(pat)
        } else {
            Err(NewManagedPatError::MissingMemoryType)
        }
    }

    pub fn contains_type(&self, mt: PatMemoryType) -> (r: bool)
        ensures
            r == self.spec_has_type(mt),
    {
        let mut i: usize = 0;
        while i < 8
            invariant
                i <= 8,
                forall|j: int| 0 <= j < i ==> self.slots[j] != mt,
            decreases 8 - i,
        {
            if self.slots[i] == mt {
                return true;
            }
            i = i + 1;
        }
        false
    }

    /// The flag bits that request `mt` for a leaf entry of size `size`, or
    /// `None` when no slot holds `mt`. A well-formed PAT always has a slot.
    pub fn get_page_table_flags(&self, mt: PatMemoryType, size: PageSize) -> (r: Option<u64>)
        ensures
            r is Some <==> self.spec_slot_of(mt) < 8,
            r matches Some(bits) ==> bits == spec_pat_slot_bits(self.spec_slot_of(mt), size),
            self.wf() ==> r is Some,
    {
        proof {
            if self.wf() {
                self.lemma_slot_of_in_range(mt);
            }
        }
        let mut i: usize = 0;
        while i < 8
            invariant
                i <= 8,
                self.spec_slot_of(mt) == spec_first_slot_from(self.slots@, mt, i as int),
            decreases 8 - i,
        {
            if self.slots[i] == mt {
                let wt: u64 = if i % 2 == 1 {
                    FLAG_WRITE_THROUGH
                } else {
                    0
                };
                let cd: u64 = if i % 4 >= 2 {
                    FLAG_NO_CACHE
                } else {
                    0
                };
                let pat: u64 = if i >= 4 {
                    if size == PageSize::_4KiB {
                        FLAG_PAT_4KIB
                    } else {
                        FLAG_PAT_HUGE
                    }
                } else {
                    0
                };
                let bits = wt | cd | pat;
                return Some(bits);
            }
            i = i + 1;
        }
        None
    }

    /// In a well-formed PAT every memory type's slot lies in range.
    pub proof fn lemma_slot_of_in_range(self, mt: PatMemoryType)
        requires
            self.wf(),
        ensures
            0 <= self.spec_slot_of(mt) < 8,
            self.slots[self.spec_slot_of(mt)] == mt,
    {
        assert(self.spec_has_type(mt));
        let w = choose|i: int| 0 <= i < 8 && self.slots[i] == mt;
        self.lemma_first_slot_finds(mt, 0, w);
    }

    proof fn lemma_first_slot_finds(self, mt: PatMemoryType, i: int, w: int)
        requires
            0 <= i <= w < 8,
            self.slots[w] == mt,
        ensures
            i <= spec_first_slot_from(self.slots@, mt, i) <= w,
            self.slots[spec_first_slot_from(self.slots@, mt, i)] == mt,
        decreases 8 - i,
    {
        if self.slots@[i] == mt {
        } else {
            self.lemma_first_slot_finds(mt, i + 1, w);
        }
    }
}

} // verus!
