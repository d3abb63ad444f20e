//! Page-table management core for an x86-64 kernel with 4-level paging.
//!
//! Kernel mappings live in the higher half of every address space and are
//! shared across processes; user mappings live in the lower half and belong
//! to one process. The engine walks an L4 hierarchy, creates or reuses
//! intermediate tables, computes hardware flag bits, and installs or removes
//! leaf mappings. Get started by constructing a [`PagingConfig`].
pub use addr_translation::TranslateToVirt;
pub use frame::Frame;
pub use frame::NewFrameError;
pub use frame::PHYS_ADDR_LIMIT;
pub use frame_allocator::FrameAllocator;
pub use managed_l4_table::ConfigurableFlags;
pub use managed_l4_table::GetTableError;
pub use managed_l4_table::L4Type;
pub use managed_l4_table::ManagedL4PageTable;
pub use managed_l4_table::MapPageError;
pub use managed_l4_table::PageTable;
pub use managed_l4_table::PageTableEntryWithLevelMut;
pub use managed_l4_table::PageTableLevel;
pub use managed_l4_table::PageTableWithLevelMut;
pub use managed_l4_table::SetFlagsError;
pub use managed_l4_table::SetFrameError;
pub use managed_l4_table::SetTableError;
pub use managed_l4_table::UnmapFrameError;
pub use managed_l4_table::UnmapPageError;
pub use managed_l4_table::UpdateFlagsError;
pub use managed_pat::ManagedPat;
pub use managed_pat::NewManagedPatError;
pub use managed_pat::PatMemoryType;
pub use max_page_size::max_page_size;
pub use max_page_size::CpuFeatures;
pub use owned_4kib_frame::Owned4KibFrame;
pub use page::is_canonical;
pub use page::NewPageError;
pub use page::Page;
pub use page_size::PageSize;
pub use paging_config::PagingConfig;
pub use virtual_offset::VirtualOffset;

mod addr_translation;
mod frame;
mod frame_allocator;
mod managed_l4_table;
mod managed_pat;
mod max_page_size;
mod owned_4kib_frame;
mod page;
mod page_size;
mod paging_config;
mod virtual_offset;
