use vstd::prelude::*;

use crate::page_size::PageSize;

verus! {

/// Physical addresses are at most 52 bits wide under x86-64 4-level paging.
pub const PHYS_ADDR_LIMIT: u64 = 0x10_0000_0000_0000;

/// An aligned region of physical memory: a start address together with the
/// page size that gives the region's length and alignment.
#[derive(Debug, Clone, Copy, PartialEq, Eq, Structural)]
pub struct Frame {
    pub start_addr: u64,
    pub size: PageSize,
}

#[derive(Debug, Clone, Copy, PartialEq, Eq, Structural)]
pub enum NewFrameError {
    NotAligned,
}

impl Frame {
    /// A frame is valid when its start address is aligned to its size and
    /// lies inside the physical address space.
    pub open spec fn wf(self) -> bool {
        &&& self.start_addr < PHYS_ADDR_LIMIT
        &&& self.start_addr % self.size.spec_byte_len_u64() == 0
    }

    /// Succeeds exactly when `start_addr` is a multiple of `size`'s byte length.
    pub fn new(start_addr: u64, size: PageSize) -> (r: Result<Self, NewFrameError>)
        requires
            start_addr < PHYS_ADDR_LIMIT,
        ensures
            r is Ok <==> start_addr % size.spec_byte_len_u64() == 0,
            r matches Ok(f) ==> f == (Frame { start_addr, size }) && f.wf(),
            r is Err ==> r == Result::<Self, NewFrameError>::Err(NewFrameError::NotAligned),
    {
        if start_addr % size.byte_len_u64() == 0 {
            Ok(Self { start_addr, size })
        } else {
            Err(NewFrameError::NotAligned)
        }
    }

    pub fn start_addr(&self) -> (r: u64)
        ensures
            r == self.start_addr,
    {
        self.start_addr
    }

    pub fn size(&self) -> (r: PageSize)
        ensures
            r == self.size,
    {
        self.size
    }

    /// The frame `page_count` frames after this one: its address is
    /// `start_addr + page_count * size_in_bytes`, or `None` exactly when that
    /// sum leaves the physical address space.
    pub fn offset(&self, page_count: u64) -> (r: Option<Self>)
        requires
            self.wf(),
        ensures
            r is Some <==> self.start_addr + page_count * self.size.spec_byte_len_u64()
                < PHYS_ADDR_LIMIT,
            r matches Some(f) ==> {
                &&& f.start_addr == self.start_addr + page_count * self.size.spec_byte_len_u64()
                &&& f.size == self.size
                &&& f.wf()
            },
    {
        let len = self.size.byte_len_u64();
        let bytes_offset = match page_count.checked_mul(len) {
            Some(b) => b,
            None => {
                proof {
                    assert(page_count * len >= PHYS_ADDR_LIMIT) by (nonlinear_arith)
                        requires
                            page_count * len > u64::MAX,
                    ;
                }
                return None;
            },
        };
        let offset_start_addr = match self.start_addr.checked_add(bytes_offset) {
            Some(a) => a,
            None => {
                return None;
            },
        };
        if offset_start_addr < PHYS_ADDR_LIMIT {
            proof {
                vstd::arithmetic::div_mod::lemma_mod_multiples_vanish(
                    page_count as int,
                    self.start_addr as int,
                    len as int,
                );
                assert(len as int * page_count as int == page_count * len);
            }
            Some(Self { start_addr: offset_start_addr, size: self.size })
        } else {
            None
        }
    }
}

} // verus!
