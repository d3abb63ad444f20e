pub use configurable_flags::ConfigurableFlags;
pub use entry_bits::entry_frame_addr;
pub use entry_bits::entry_huge;
pub use entry_bits::entry_present;
pub use entry_bits::entry_table_addr;
pub use entry_bits::p1_index;
pub use entry_bits::p2_index;
pub use entry_bits::p3_index;
pub use entry_bits::p4_index;
pub use entry_bits::spec_frame_addr_mask;
pub use entry_bits::spec_generate_flags;
pub use entry_bits::spec_leaf_entry_bits;
pub use entry_bits::spec_level_for;
pub use entry_bits::spec_p1_index;
pub use entry_bits::spec_p2_index;
pub use entry_bits::spec_p3_index;
pub use entry_bits::spec_p4_index;
pub use entry_bits::FLAG_GLOBAL;
pub use entry_bits::FLAG_HUGE_PAGE;
pub use entry_bits::FLAG_NO_EXECUTE;
pub use entry_bits::FLAG_PRESENT;
pub use entry_bits::FLAG_USER_ACCESSIBLE;
pub use entry_bits::FLAG_WRITABLE;
pub use entry_bits::TABLE_ADDR_MASK;
pub use entry_bits::TABLE_DEFAULT_FLAGS;
pub use managed_l4_page_table::L4Type;
pub use managed_l4_page_table::ManagedL4PageTable;
pub use managed_l4_page_table::PageTable;
pub use map_page::MapPageError;
pub use page_table_entry_with_level::GetTableError;
pub use page_table_entry_with_level::PageTableEntryWithLevelMut;
pub use page_table_entry_with_level::SetFlagsError;
pub use page_table_entry_with_level::SetFrameError;
pub use page_table_entry_with_level::SetTableError;
pub use page_table_entry_with_level::UnmapFrameError;
pub use page_table_with_level::PageTableLevel;
pub use page_table_with_level::PageTableWithLevelMut;
pub use unmap_page::UnmapPageError;
pub use update_flags::UpdateFlagsError;

mod configurable_flags;
mod entry_bits;
mod managed_l4_page_table;
mod map_page;
mod page_table_entry_with_level;
mod page_table_with_level;
mod unmap_page;
mod update_flags;
