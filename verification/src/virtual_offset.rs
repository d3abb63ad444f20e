use vstd::prelude::*;

verus! {

/// Process-wide constant recording the virtual address at which all physical
/// memory is mapped in the higher half. Established once and never mutated.
#[derive(Debug, Clone, Copy, PartialEq, Eq, Structural)]
pub struct VirtualOffset {
    pub value: u64,
}

impl VirtualOffset {
    /// The caller attests that all physical memory is mapped contiguously
    /// starting at this virtual offset; nothing here can check that.
    pub fn new(virtual_offset: u64) -> (r: Self)
        ensures
            r.value == virtual_offset,
    {
        Self { value: virtual_offset }
    }

    pub fn value(&self) -> (r: u64)
        ensures
            r == self.value,
    {
        self.value
    }
}

} // verus!
