use vstd::prelude::*;

use crate::frame::Frame;
use crate::page_size::PageSize;

verus! {

/// Supplier of free physical frames, implemented by the embedding kernel.
/// Frames handed out must be fresh: unused by and unreachable from anything
/// else. The engine additionally refuses a frame whose address collides with
/// a table it already tracks, so a misbehaving allocator surfaces as a failed
/// allocation rather than as a corrupted hierarchy.
pub trait FrameAllocator {
    /// One free 4 KiB frame, or `None` when physical memory is exhausted.
    fn allocate_frame(&mut self) -> (r: Option<Frame>)
        ensures
            r matches Some(f) ==> f.wf() && f.size == PageSize::_4KiB,
    ;
}

} // verus!
