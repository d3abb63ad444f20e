use vstd::prelude::*;

verus! {

/// Granularity of a single mapping: one 4-level paging leaf entry covers
/// 4 KiB (L1), 2 MiB (L2) or 1 GiB (L3) of memory.
#[derive(Debug, Clone, Copy, PartialEq, Eq, PartialOrd, Ord, Hash, Structural)]
pub enum PageSize {
    _4KiB,
    _2MiB,
    _1GiB,
}

impl PageSize {
    /// Number of bytes covered by a page or frame of this size.
    pub open spec fn spec_byte_len_u64(self) -> u64 {
        match self {
            PageSize::_4KiB => 0x1000,
            PageSize::_2MiB => 0x20_0000,
            PageSize::_1GiB => 0x4000_0000,
        }
    }

    #[verifier::when_used_as_spec(spec_byte_len_u64)]
    pub fn byte_len_u64(self) -> (r: u64)
        ensures
            r == self.spec_byte_len_u64(),
    {
        match self {
            PageSize::_4KiB => 0x1000,
            PageSize::_2MiB => 512 * 0x1000,
            PageSize::_1GiB => 512 * 512 * 0x1000,
        }
    }

    pub fn byte_len(self) -> (r: usize)
        ensures
            r == self.spec_byte_len_u64(),
    {
        self.byte_len_u64() as usize
    }
}

} // verus!
