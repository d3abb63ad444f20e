use vstd::prelude::*;

use crate::page_size::PageSize;

verus! {

/// CPU capabilities the engine consults. Injected into the managed table at
/// construction so callers can run the engine against a simulated capability
/// set as well as against the executing CPU.
#[derive(Debug, Clone, Copy, PartialEq, Eq, Structural)]
pub struct CpuFeatures {
    pub supports_1gib_pages: bool,
}

/// Relies on raw_cpuid: `CpuId::get_extended_processor_and_feature_identifiers`
/// and `ExtendedProcessorFeatureIdentifiers::has_1gib_pages` report whether the
/// executing CPU can map 1 GiB pages. The answer depends on the machine, so
/// nothing is promised of it.
#[verifier::external_body]
fn detect_1gib_page_support() -> bool {
    raw_cpuid::CpuId::new().get_extended_processor_and_feature_identifiers().is_some_and(
        |info| info.has_1gib_pages(),
    )
}

impl CpuFeatures {
    /// The capabilities of the executing CPU.
    pub fn detect() -> Self {
        Self { supports_1gib_pages: detect_1gib_page_support() }
    }

    /// The largest page size these capabilities allow: 1 GiB when supported,
    /// otherwise 2 MiB.
    pub open spec fn spec_max_page_size(self) -> PageSize {
        if self.supports_1gib_pages {
            PageSize::_1GiB
        } else {
            PageSize::_2MiB
        }
    }

    #[verifier::when_used_as_spec(spec_max_page_size)]
    pub fn max_page_size(self) -> (r: PageSize)
        ensures
            r == self.spec_max_page_size(),
    {
        if self.supports_1gib_pages {
            PageSize::_1GiB
        } else {
            PageSize::_2MiB
        }
    }
}

/// Get the largest page size that this CPU supports.
pub fn max_page_size() -> (r: PageSize)
    ensures
        r != PageSize::_4KiB,
{
    CpuFeatures::detect().max_page_size()
}

} // verus!
