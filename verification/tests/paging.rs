use paging_core::ConfigurableFlags;
use paging_core::CpuFeatures;
use paging_core::Frame;
use paging_core::FrameAllocator;
use paging_core::L4Type;
use paging_core::ManagedL4PageTable;
use paging_core::ManagedPat;
use paging_core::MapPageError;
use paging_core::NewFrameError;
use paging_core::NewManagedPatError;
use paging_core::NewPageError;
use paging_core::Owned4KibFrame;
use paging_core::Page;
use paging_core::PageSize;
use paging_core::PageTableLevel;
use paging_core::PagingConfig;
use paging_core::PatMemoryType;
use paging_core::SetFrameError;
use paging_core::UnmapFrameError;
use paging_core::UnmapPageError;
use paging_core::UpdateFlagsError;
use paging_core::GetTableError;
use paging_core::TranslateToVirt;
use paging_core::VirtualOffset;

const PRESENT: u64 = 0x1;
const WRITABLE: u64 = 0x2;
const USER_ACCESSIBLE: u64 = 0x4;
const WRITE_THROUGH: u64 = 0x8;
const NO_CACHE: u64 = 0x10;
const HUGE_PAGE: u64 = 0x80;
const GLOBAL: u64 = 0x100;
const NO_EXECUTE: u64 = 0x8000_0000_0000_0000;
const ADDR_MASK_4K: u64 = 0x000f_ffff_ffff_f000;
const ADDR_MASK_2M: u64 = 0x000f_ffff_ffe0_0000;

fn pat() -> ManagedPat {
    ManagedPat::new([
        PatMemoryType::WriteBack,
        PatMemoryType::WriteThrough,
        PatMemoryType::Uncached,
        PatMemoryType::Uncacheable,
        PatMemoryType::WriteCombining,
        PatMemoryType::WriteProtected,
        PatMemoryType::WriteBack,
        PatMemoryType::Uncacheable,
    ])
    .unwrap()
}

fn config() -> PagingConfig {
    PagingConfig::new(pat(), VirtualOffset::new(0xffff_8000_0000_0000))
}

struct BumpAllocator {
    next: u64,
    remaining: u32,
}

impl FrameAllocator for BumpAllocator {
    fn allocate_frame(&mut self) -> Option<Frame> {
        if self.remaining == 0 {
            return None;
        }
        self.remaining -= 1;
        let f = Frame::new(self.next, PageSize::_4KiB).unwrap();
        self.next += 0x1000;
        Some(f)
    }
}

fn allocator() -> BumpAllocator {
    BumpAllocator { next: 0x100_0000, remaining: 64 }
}

fn user_table(supports_1gib: bool) -> ManagedL4PageTable {
    let root = Owned4KibFrame::new(Frame::new(0x1000_0000, PageSize::_4KiB).unwrap());
    ManagedL4PageTable::new(
        root,
        L4Type::User,
        config(),
        CpuFeatures { supports_1gib_pages: supports_1gib },
    )
}

fn kernel_table() -> ManagedL4PageTable {
    let root = Owned4KibFrame::new(Frame::new(0x2000_0000, PageSize::_4KiB).unwrap());
    ManagedL4PageTable::new(
        root,
        L4Type::Kernel,
        config(),
        CpuFeatures { supports_1gib_pages: true },
    )
}

fn wb_flags(writable: bool, executable: bool) -> ConfigurableFlags {
    ConfigurableFlags { writable, executable, pat_memory_type: PatMemoryType::WriteBack }
}

#[test]
fn frame_new_succeeds_iff_aligned() {
    assert!(Frame::new(0x2000, PageSize::_4KiB).is_ok());
    assert!(matches!(
        Frame::new(0x2001, PageSize::_4KiB),
        Err(NewFrameError::NotAligned)
    ));
    assert!(Frame::new(0x20_0000, PageSize::_2MiB).is_ok());
    assert!(matches!(
        Frame::new(0x1000, PageSize::_2MiB),
        Err(NewFrameError::NotAligned)
    ));
    assert!(Frame::new(0x4000_0000, PageSize::_1GiB).is_ok());
}

#[test]
fn page_new_succeeds_iff_aligned() {
    assert!(Page::new(0x1000, PageSize::_4KiB).is_ok());
    assert!(matches!(
        Page::new(0x1234, PageSize::_4KiB),
        Err(NewPageError::NotAligned)
    ));
    assert!(Page::new(0xffff_8000_0000_0000, PageSize::_2MiB).is_ok());
}

#[test]
fn frame_offset_advances_by_whole_frames() {
    let f = Frame::new(0x2000, PageSize::_4KiB).unwrap();
    let g = f.offset(3).unwrap();
    assert_eq!(g.start_addr(), 0x2000 + 3 * 0x1000);
    assert_eq!(g.size(), PageSize::_4KiB);
    let h = Frame::new(0x20_0000, PageSize::_2MiB).unwrap().offset(2).unwrap();
    assert_eq!(h.start_addr(), 0x20_0000 + 2 * 0x20_0000);
}

#[test]
fn frame_offset_overflow_is_none() {
    let last = Frame::new(0x10_0000_0000_0000 - 0x1000, PageSize::_4KiB).unwrap();
    assert!(last.offset(1).is_none());
    assert!(last.offset(u64::MAX).is_none());
    assert_eq!(last.offset(0).unwrap().start_addr(), last.start_addr());
}

#[test]
fn page_offset_overflow_is_none() {
    let p = Page::new(0x7fff_ffff_f000, PageSize::_4KiB).unwrap();
    assert!(p.offset(1).is_none());
    let q = Page::new(0x1000, PageSize::_4KiB).unwrap();
    assert_eq!(q.offset(4).unwrap().start_addr(), 0x5000);
    assert!(q.offset(u64::MAX).is_none());
}

#[test]
fn map_then_unmap_returns_exact_frame() {
    let mut table = user_table(true);
    let mut alloc = allocator();
    let page = Page::new(0x1000, PageSize::_4KiB).unwrap();
    let frame = Frame::new(0x2000, PageSize::_4KiB).unwrap();
    table.map_page(page, frame, wb_flags(true, false), &mut alloc).unwrap();
    let unmapped = table.unmap_page(page).unwrap();
    assert_eq!(unmapped.start_addr(), 0x2000);
    assert_eq!(unmapped.size(), PageSize::_4KiB);
    assert!(matches!(
        table.unmap_page(page),
        Err(UnmapPageError::UnmapFrame(UnmapFrameError::NotPresent))
    ));
}

#[test]
fn second_map_without_unmap_is_rejected() {
    let mut table = user_table(true);
    let mut alloc = allocator();
    let page = Page::new(0x1000, PageSize::_4KiB).unwrap();
    let frame = Frame::new(0x2000, PageSize::_4KiB).unwrap();
    table.map_page(page, frame, wb_flags(true, false), &mut alloc).unwrap();
    let frame2 = Frame::new(0x9000, PageSize::_4KiB).unwrap();
    assert!(matches!(
        table.map_page(page, frame2, wb_flags(true, false), &mut alloc),
        Err(MapPageError::SetFrame(SetFrameError::AlreadyMapped))
    ));
    let unmapped = table.unmap_page(page).unwrap();
    assert_eq!(unmapped.start_addr(), 0x2000);
}

#[test]
fn update_flags_changes_only_flag_bits() {
    let mut table = user_table(true);
    let mut alloc = allocator();
    let page = Page::new(0x1000, PageSize::_4KiB).unwrap();
    let frame = Frame::new(0x2000, PageSize::_4KiB).unwrap();
    table.map_page(page, frame, wb_flags(true, false), &mut alloc).unwrap();
    let before = table.read_leaf_entry(page).unwrap();
    assert_ne!(before & WRITABLE, 0);
    table.update_flags(page, wb_flags(false, false)).unwrap();
    let after = table.read_leaf_entry(page).unwrap();
    assert_eq!(after & WRITABLE, 0);
    assert_eq!(before & ADDR_MASK_4K, after & ADDR_MASK_4K);
    let unmapped = table.unmap_page(page).unwrap();
    assert_eq!(unmapped.start_addr(), 0x2000);
}

#[test]
fn update_flags_on_unmapped_page_fails() {
    let mut table = user_table(true);
    let page = Page::new(0x1000, PageSize::_4KiB).unwrap();
    assert!(matches!(
        table.update_flags(page, wb_flags(true, false)),
        Err(UpdateFlagsError::GetTable(GetTableError::NotMapped))
    ));
}

#[test]
fn gib_mapping_needs_cpu_support() {
    let page = Page::new(0x4000_0000, PageSize::_1GiB).unwrap();
    let frame = Frame::new(0x4000_0000, PageSize::_1GiB).unwrap();

    let mut without = user_table(false);
    let mut alloc = allocator();
    assert!(matches!(
        without.map_page(page, frame, wb_flags(true, false), &mut alloc),
        Err(MapPageError::SetFrame(SetFrameError::PageSizeNotSupported))
    ));

    let mut with = user_table(true);
    let mut alloc = allocator();
    with.map_page(page, frame, wb_flags(true, false), &mut alloc).unwrap();
    let unmapped = with.unmap_page(page).unwrap();
    assert_eq!(unmapped.start_addr(), 0x4000_0000);
    assert_eq!(unmapped.size(), PageSize::_1GiB);
}

#[test]
fn frame_size_must_match_page_size() {
    let mut table = user_table(true);
    let mut alloc = allocator();
    let page = Page::new(0x1000, PageSize::_4KiB).unwrap();
    let frame = Frame::new(0x20_0000, PageSize::_2MiB).unwrap();
    assert!(matches!(
        table.map_page(page, frame, wb_flags(true, false), &mut alloc),
        Err(MapPageError::SetFrame(SetFrameError::NotAllowed))
    ));
}

#[test]
fn allocation_exhaustion_is_reported() {
    let mut table = user_table(true);
    let mut alloc = BumpAllocator { next: 0x100_0000, remaining: 0 };
    let page = Page::new(0x1000, PageSize::_4KiB).unwrap();
    let frame = Frame::new(0x2000, PageSize::_4KiB).unwrap();
    assert!(matches!(
        table.map_page(page, frame, wb_flags(true, false), &mut alloc),
        Err(MapPageError::FrameAllocationFailed)
    ));
}

#[test]
fn managed_ranges_partition_the_root_slots() {
    assert_eq!(L4Type::Kernel.l4_managed_entry_range(), (256, 512));
    assert_eq!(L4Type::User.l4_managed_entry_range(), (0, 256));
    for i in [0usize, 255, 256, 511] {
        assert_eq!(
            L4Type::Kernel.manages_index(i),
            !L4Type::User.manages_index(i)
        );
    }
    assert!(!L4Type::Kernel.can_create_new_l4_entries());
    assert!(L4Type::User.can_create_new_l4_entries());

    let user = user_table(true);
    let kernel = kernel_table();
    let low = Page::new(0x1000, PageSize::_4KiB).unwrap();
    let high = Page::new(0xffff_8000_0000_0000, PageSize::_4KiB).unwrap();
    assert!(user.manages_page(low));
    assert!(!user.manages_page(high));
    assert!(kernel.manages_page(high));
    assert!(!kernel.manages_page(low));
}

#[test]
fn user_4kib_mapping_has_documented_flags() {
    let mut table = user_table(true);
    let mut alloc = allocator();
    let page = Page::new(0x1000, PageSize::_4KiB).unwrap();
    let frame = Frame::new(0x2000, PageSize::_4KiB).unwrap();
    let flags = ConfigurableFlags {
        writable: true,
        executable: false,
        pat_memory_type: PatMemoryType::WriteBack,
    };
    table.map_page(page, frame, flags, &mut alloc).unwrap();
    let e = table.read_leaf_entry(page).unwrap();
    assert_ne!(e & PRESENT, 0);
    assert_ne!(e & WRITABLE, 0);
    assert_ne!(e & USER_ACCESSIBLE, 0);
    assert_ne!(e & NO_EXECUTE, 0);
    // Write-back sits in PAT slot 0: all caching selector bits clear.
    assert_eq!(e & (WRITE_THROUGH | NO_CACHE), 0);
    assert_eq!(e & HUGE_PAGE, 0);
    assert_eq!(e & GLOBAL, 0);
    assert_eq!(e & ADDR_MASK_4K, 0x2000);
}

#[test]
fn kernel_2mib_mapping_has_documented_flags() {
    let mut table = kernel_table();
    let mut alloc = allocator();
    let l3_frame = Owned4KibFrame::new(Frame::new(0x3000_0000, PageSize::_4KiB).unwrap());
    table.provision_l4_entry(256, l3_frame);
    let page = Page::new(0xffff_8000_0020_0000, PageSize::_2MiB).unwrap();
    let frame = Frame::new(0x20_0000, PageSize::_2MiB).unwrap();
    table.map_page(page, frame, wb_flags(true, true), &mut alloc).unwrap();
    let e = table.read_leaf_entry(page).unwrap();
    assert_ne!(e & PRESENT, 0);
    assert_ne!(e & HUGE_PAGE, 0);
    assert_ne!(e & GLOBAL, 0);
    assert_eq!(e & USER_ACCESSIBLE, 0);
    assert_eq!(e & NO_EXECUTE, 0);
    assert_eq!(e & ADDR_MASK_2M, 0x20_0000);
    let unmapped = table.unmap_page(page).unwrap();
    assert_eq!(unmapped.start_addr(), 0x20_0000);
    assert_eq!(unmapped.size(), PageSize::_2MiB);
}

#[test]
fn unmapping_below_a_huge_mapping_reports_a_frame() {
    let mut table = user_table(true);
    let mut alloc = allocator();
    let big = Page::new(0x20_0000, PageSize::_2MiB).unwrap();
    let frame = Frame::new(0x40_0000, PageSize::_2MiB).unwrap();
    table.map_page(big, frame, wb_flags(true, false), &mut alloc).unwrap();
    let small = Page::new(0x20_0000, PageSize::_4KiB).unwrap();
    assert!(matches!(
        table.unmap_page(small),
        Err(UnmapPageError::GetTable(GetTableError::MappedToFrame))
    ));
}

#[test]
fn unmap_without_any_tables_reports_not_mapped() {
    let mut table = user_table(true);
    let page = Page::new(0x1000, PageSize::_4KiB).unwrap();
    assert!(matches!(
        table.unmap_page(page),
        Err(UnmapPageError::GetTable(GetTableError::NotMapped))
    ));
}

#[test]
fn pat_slot_lookup_encodes_slot_index() {
    let pat = pat();
    assert_eq!(
        pat.get_page_table_flags(PatMemoryType::WriteBack, PageSize::_4KiB),
        Some(0)
    );
    assert_eq!(
        pat.get_page_table_flags(PatMemoryType::WriteThrough, PageSize::_4KiB),
        Some(WRITE_THROUGH)
    );
    assert_eq!(
        pat.get_page_table_flags(PatMemoryType::Uncached, PageSize::_4KiB),
        Some(NO_CACHE)
    );
    assert_eq!(
        pat.get_page_table_flags(PatMemoryType::Uncacheable, PageSize::_4KiB),
        Some(WRITE_THROUGH | NO_CACHE)
    );
    assert_eq!(
        pat.get_page_table_flags(PatMemoryType::WriteCombining, PageSize::_4KiB),
        Some(0x80)
    );
    assert_eq!(
        pat.get_page_table_flags(PatMemoryType::WriteCombining, PageSize::_2MiB),
        Some(0x1000)
    );
    assert_eq!(
        pat.get_page_table_flags(PatMemoryType::WriteProtected, PageSize::_1GiB),
        Some(0x1000 | WRITE_THROUGH)
    );
}

#[test]
fn pat_missing_memory_type_is_rejected() {
    assert!(matches!(
        ManagedPat::new([PatMemoryType::WriteBack; 8]),
        Err(NewManagedPatError::MissingMemoryType)
    ));
}

#[test]
fn page_size_byte_lengths() {
    assert_eq!(PageSize::_4KiB.byte_len_u64(), 0x1000);
    assert_eq!(PageSize::_2MiB.byte_len_u64(), 512 * 0x1000);
    assert_eq!(PageSize::_1GiB.byte_len_u64(), 512 * 512 * 0x1000);
    assert_eq!(PageSize::_4KiB.byte_len(), 0x1000usize);
    assert!(PageSize::_4KiB < PageSize::_2MiB && PageSize::_2MiB < PageSize::_1GiB);
}

#[test]
fn max_page_size_is_never_4kib() {
    let size = paging_core::max_page_size();
    assert_ne!(size, PageSize::_4KiB);
    assert_eq!(
        CpuFeatures { supports_1gib_pages: true }.max_page_size(),
        PageSize::_1GiB
    );
    assert_eq!(
        CpuFeatures { supports_1gib_pages: false }.max_page_size(),
        PageSize::_2MiB
    );
}

#[test]
fn levels_map_to_sizes_and_sub_levels() {
    assert_eq!(PageTableLevel::L4.sub_level(), Some(PageTableLevel::L3));
    assert_eq!(PageTableLevel::L3.sub_level(), Some(PageTableLevel::L2));
    assert_eq!(PageTableLevel::L2.sub_level(), Some(PageTableLevel::L1));
    assert_eq!(PageTableLevel::L1.sub_level(), None);
    assert_eq!(PageTableLevel::L1.target_frame_size(), Some(PageSize::_4KiB));
    assert_eq!(PageTableLevel::L2.target_frame_size(), Some(PageSize::_2MiB));
    assert_eq!(PageTableLevel::L3.target_frame_size(), Some(PageSize::_1GiB));
    assert_eq!(PageTableLevel::L4.target_frame_size(), None);
}

#[test]
fn physical_addresses_translate_through_the_offset() {
    let cfg = config();
    assert_eq!(0x2000u64.to_virt(&cfg), 0xffff_8000_0000_2000);
}

#[test]
fn owned_frame_converts_back_to_plain_frame() {
    let frame = Frame::new(0x7000, PageSize::_4KiB).unwrap();
    let owned = Owned4KibFrame::new(frame);
    assert_eq!(owned.into_frame(), frame);
}
