use vstd::prelude::*;

use crate::managed_pat::ManagedPat;
use crate::virtual_offset::VirtualOffset;

verus! {

/// Everything a traversal needs besides the tables themselves: where physical
/// memory is mapped, and how the page attribute table is programmed.
#[derive(Debug, Clone, Copy, PartialEq, Eq)]
pub struct PagingConfig {
    pub offset: VirtualOffset,
    pub pat: ManagedPat,
}

impl PagingConfig {
    pub open spec fn wf(self) -> bool {
        self.pat.wf()
    }

    pub fn new(pat: ManagedPat, offset: VirtualOffset) -> (r: Self)
        ensures
            r == (PagingConfig { offset, pat }),
    {
        Self { pat, offset }
    }
}

} // verus!
