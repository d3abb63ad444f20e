use vstd::prelude::*;

use crate::frame::Frame;
use crate::page_size::PageSize;

verus! {

/// A wrapper around a 4 KiB [`Frame`] recording that whoever holds this value
/// owns the frame exclusively. The type system cannot check exclusivity; the
/// constructor's caller attests it.
#[derive(Debug)]
pub struct Owned4KibFrame {
    pub frame: Frame,
}

impl Owned4KibFrame {
    pub open spec fn wf(self) -> bool {
        &&& self.frame.wf()
        &&& self.frame.size == PageSize::_4KiB
    }

    /// The caller attests that the frame is valid physical memory and that
    /// nothing else uses or references it.
    pub fn new(frame: Frame) -> (r: Self)
        requires
            frame.wf(),
            frame.size == PageSize::_4KiB,
        ensures
            r.frame == frame,
            r.wf(),
    {
        Self { frame }
    }

    /// Relinquishes ownership, returning the plain frame value.
    pub fn into_frame(self) -> (r: Frame)
        ensures
            r == self.frame,
    {
        self.frame
    }
}

} // verus!
