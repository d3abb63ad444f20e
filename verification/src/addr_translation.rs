use vstd::prelude::*;

use crate::page::is_canonical;
use crate::paging_config::PagingConfig;

verus! {

/// Takes a physical address to the virtual address a kernel can dereference
/// to reach that physical memory, via the configured offset.
pub trait TranslateToVirt {
    /// When the translation is defined: the kernel's offset mapping must
    /// yield an address the CPU accepts.
    spec fn to_virt_ok(self, paging: PagingConfig) -> bool;

    spec fn spec_to_virt(self, paging: PagingConfig) -> u64;

    fn to_virt(self, paging: &PagingConfig) -> (r: u64)
        requires
            self.to_virt_ok(*paging),
        ensures
            r == self.spec_to_virt(*paging),
    ;
}

impl TranslateToVirt for u64 {
    open spec fn to_virt_ok(self, paging: PagingConfig) -> bool {
        &&& self + paging.offset.value <= u64::MAX
        &&& is_canonical((self + paging.offset.value) as u64)
    }

    open spec fn spec_to_virt(self, paging: PagingConfig) -> u64 {
        (self + paging.offset.value) as u64
    }

    fn to_virt(self, paging: &PagingConfig) -> (r: u64) {
        self + paging.offset.value()
    }
}

} // verus!
