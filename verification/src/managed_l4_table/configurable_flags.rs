use vstd::prelude::*;

use crate::managed_pat::PatMemoryType;

verus! {

/// The permission/caching request a caller supplies per mapping.
///
/// All mappings are readable because they require the PRESENT flag. For a
/// page to be writable and user accessible, all parent flags must also have
/// WRITABLE and USER_ACCESSIBLE. For a page to be executable, the flags and
/// all parent flags should **not** have the NO_EXECUTE flag. The GLOBAL flag
/// only exists for the lowest level page table, so the mapper does not need
/// to handle setting it in parent page tables.
#[derive(Debug, Clone, Copy, PartialEq, Eq, Structural)]
pub struct ConfigurableFlags {
    pub writable: bool,
    pub executable: bool,
    pub pat_memory_type: PatMemoryType,
}

} // verus!
