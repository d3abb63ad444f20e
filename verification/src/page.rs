use vstd::prelude::*;

use crate::page_size::PageSize;

verus! {

/// A virtual address is canonical when bits 48..64 are the sign extension of
/// bit 47; the CPU rejects any other virtual address.
pub open spec fn is_canonical(va: u64) -> bool {
    va < 0x8000_0000_0000 || va >= 0xffff_8000_0000_0000
}

/// An aligned region of virtual memory: a start address together with the
/// page size that gives the region's length and alignment.
#[derive(Debug, Clone, Copy, PartialEq, Eq, PartialOrd, Ord, Structural)]
pub struct Page {
    pub start_addr: u64,
    pub size: PageSize,
}

#[derive(Debug, Clone, Copy, PartialEq, Eq, Structural)]
pub enum NewPageError {
    NotAligned,
}

impl Page {
    /// A page is valid when its start address is canonical and aligned to its
    /// size.
    pub open spec fn wf(self) -> bool {
        &&& is_canonical(self.start_addr)
        &&& self.start_addr % self.size.spec_byte_len_u64() == 0
    }

    /// Succeeds exactly when `start_addr` is a multiple of `size`'s byte length.
    pub fn new(start_addr: u64, size: PageSize) -> (r: Result<Self, NewPageError>)
        requires
            is_canonical(start_addr),
        ensures
            r is Ok <==> start_addr % size.spec_byte_len_u64() == 0,
            r matches Ok(p) ==> p == (Page { start_addr, size }) && p.wf(),
            r is Err ==> r == Result::<Self, NewPageError>::Err(NewPageError::NotAligned),
    {
        if start_addr % size.byte_len_u64() == 0 {
            Ok(Self { start_addr, size })
        } else {
            Err(NewPageError::NotAligned)
        }
    }

    pub fn start_addr(&self) -> (r: u64)
        ensures
            r == self.start_addr,
    {
        self.start_addr
    }

    pub fn size(&self) -> (r: PageSize)
        ensures
            r == self.size,
    {
        self.size
    }

    /// The page `page_count` pages after this one: its address is
    /// `start_addr + page_count * size_in_bytes`, or `None` exactly when that
    /// sum leaves the canonical virtual address space.
    pub fn offset(&self, page_count: u64) -> (r: Option<Self>)
        requires
            self.wf(),
        ensures
            r is Some <==> {
                &&& self.start_addr + page_count * self.size.spec_byte_len_u64() <= u64::MAX
                &&& is_canonical(
                    (self.start_addr + page_count * self.size.spec_byte_len_u64()) as u64,
                )
            },
            r matches Some(p) ==> {
                &&& p.start_addr == self.start_addr + page_count * self.size.spec_byte_len_u64()
                &&& p.size == self.size
                &&& p.wf()
            },
    {
        let len = self.size.byte_len_u64();
        let bytes_offset = match page_count.checked_mul(len) {
            Some(b) => b,
            None => {
                return None;
            },
        };
        let offset_start_addr = match self.start_addr.checked_add(bytes_offset) {
            Some(a) => a,
            None => {
                return None;
            },
        };
        if offset_start_addr < 0x8000_0000_0000 || offset_start_addr >= 0xffff_8000_0000_0000 {
            proof {
                vstd::arithmetic::div_mod::lemma_mod_multiples_vanish(
                    page_count as int,
                    self.start_addr as int,
                    len as int,
                );
                assert(len as int * page_count as int == page_count * len);
            }
            Some(Self { start_addr: offset_start_addr, size: self.size })
        } else {
            None
        }
    }
}

} // verus!
