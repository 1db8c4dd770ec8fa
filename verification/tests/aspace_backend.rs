use axkernel::addr::{PhysAddr, VirtAddr};
use axkernel::aspace::{AddrSpace, AxError};
use axkernel::backend::{
    Backend, FixedBackend, MapAlloc, MapAllocAction, MapAllocEvent, UnmapAlloc, UnmapAllocAction,
    UnmapAllocEvent,
};
use axkernel::task::{AddrSpace as ProcessSpace, TaskExt, INIT_PROC_ID};

fn space() -> AddrSpace<Vec<u8>> {
    AddrSpace::new_empty(VirtAddr::from(0x1000), 0x4000, vec![1, 2, 3], PhysAddr::from(0x9000))
}

#[test]
fn address_space_bounds() {
    let s = space();
    assert_eq!(s.base(), VirtAddr::from(0x1000));
    assert_eq!(s.end(), VirtAddr::from(0x5000));
    assert_eq!(s.size(), 0x4000);
    assert_eq!(s.page_table(), &vec![1u8, 2, 3]);
    assert_eq!(s.page_table_root(), PhysAddr::from(0x9000));
}

#[test]
fn address_space_contains() {
    let s = space();
    assert!(s.contains(VirtAddr::from(0x1000)));
    assert!(s.contains(VirtAddr::from(0x4fff)));
    assert!(!s.contains(VirtAddr::from(0x5000)));
    assert!(!s.contains(VirtAddr::from(0xfff)));
    assert!(s.contains_range(VirtAddr::from(0x1000), 0x3fff));
    // A range that reaches the very end is contained; one byte more is not.
    assert!(s.contains_range(VirtAddr::from(0x1000), 0x4000));
    assert!(!s.contains_range(VirtAddr::from(0x1000), 0x4001));
    assert!(!s.contains_range(VirtAddr::from(0x800), 0x100));
}

#[test]
fn address_space_overlaps() {
    let s = space();
    assert!(s.overlaps_with(VirtAddr::from(0x0), 0x1001));
    assert!(!s.overlaps_with(VirtAddr::from(0x0), 0x1000));
    assert!(s.overlaps_with(VirtAddr::from(0x4fff), 0x10));
    assert!(!s.overlaps_with(VirtAddr::from(0x5000), 0x10));
}

#[test]
fn contained_ranges_overlap() {
    let s = space();
    for (start, size) in [(0x1000usize, 0x10usize), (0x2000, 0x2fff), (0x4ffe, 1)] {
        assert!(s.contains_range(VirtAddr::from(start), size));
        assert!(s.overlaps_with(VirtAddr::from(start), size));
    }
}

#[test]
fn address_space_checks() {
    let s = space();
    assert_eq!(s.check_range(VirtAddr::from(0x2000), 0x1000), Ok(()));
    assert_eq!(s.check_range(VirtAddr::from(0x4000), 0x1000), Ok(()));
    assert_eq!(s.check_range(VirtAddr::from(0x4000), 0x1001), Err(AxError::InvalidInput));
    let disjoint: AddrSpace<Vec<u8>> =
        AddrSpace::new_empty(VirtAddr::from(0x8000), 0x1000, vec![], PhysAddr::from(0));
    assert_eq!(s.check_copy_mappings_from(&disjoint), Ok(()));
    let touching: AddrSpace<Vec<u8>> =
        AddrSpace::new_empty(VirtAddr::from(0x4000), 0x1000, vec![], PhysAddr::from(0));
    assert_eq!(s.check_copy_mappings_from(&touching), Err(AxError::InvalidInput));
}

#[test]
fn address_space_page_table_changes_keep_the_range() {
    let mut s = space();
    s.page_table_mut().push(4);
    assert_eq!(s.page_table(), &vec![1u8, 2, 3, 4]);
    assert_eq!(s.size(), 0x4000);
    assert_eq!(s.page_table_root(), PhysAddr::from(0x9000));
}

#[test]
fn fixed_backend_offset() {
    let b = FixedBackend::new(0xffff_8000_0000_0000);
    assert_eq!(
        b.pa_start(VirtAddr::from(0xffff_8000_0020_0000)),
        Some(PhysAddr::from(0x20_0000))
    );
    assert_eq!(b.pa_start(VirtAddr::from(0x1000)), None);
}

#[test]
fn alloc_backend_constructor() {
    assert_eq!(Backend::new_alloc(true), Backend::Alloc { populate: true });
    assert_eq!(Backend::new_alloc(false), Backend::Alloc { populate: false });
}

#[test]
fn map_alloc_walk() {
    let mut m = MapAlloc::new(VirtAddr::from(0x1000), 0x2000);
    assert_eq!(m.step(MapAllocEvent::Begin), MapAllocAction::AllocFrame);
    assert_eq!(
        m.step(MapAllocEvent::FrameAllocated(Some(VirtAddr::from(0x70_0000)))),
        MapAllocAction::MapPage { vaddr: VirtAddr::from(0x1000), paddr: PhysAddr::from(0x70_0000) }
    );
    assert_eq!(m.step(MapAllocEvent::PageMapped(true)), MapAllocAction::AllocFrame);
    assert_eq!(
        m.step(MapAllocEvent::FrameAllocated(Some(VirtAddr::from(0x71_0000)))),
        MapAllocAction::MapPage { vaddr: VirtAddr::from(0x2000), paddr: PhysAddr::from(0x71_0000) }
    );
    assert_eq!(m.step(MapAllocEvent::PageMapped(true)), MapAllocAction::Finish(true));
}

#[test]
fn backend_starts_walks() {
    let b = Backend::new_alloc(false);
    let mut m = b.map_alloc(VirtAddr::from(0x3000), 0x1000);
    assert_eq!(m.step(MapAllocEvent::Begin), MapAllocAction::AllocFrame);
    assert_eq!(
        m.step(MapAllocEvent::FrameAllocated(Some(VirtAddr::from(0x8000)))),
        MapAllocAction::MapPage { vaddr: VirtAddr::from(0x3000), paddr: PhysAddr::from(0x8000) }
    );
    let mut u = b.unmap_alloc(VirtAddr::from(0x3000), 0x1000);
    assert_eq!(u.step(UnmapAllocEvent::Begin), UnmapAllocAction::UnmapPage(VirtAddr::from(0x3000)));
}

#[test]
fn map_alloc_failures() {
    let mut m = MapAlloc::new(VirtAddr::from(0x1000), 0x2000);
    assert_eq!(m.step(MapAllocEvent::Begin), MapAllocAction::AllocFrame);
    assert_eq!(m.step(MapAllocEvent::FrameAllocated(None)), MapAllocAction::Finish(false));
    let mut n = MapAlloc::new(VirtAddr::from(0x1000), 0x1000);
    assert_eq!(n.step(MapAllocEvent::Begin), MapAllocAction::AllocFrame);
    n.step(MapAllocEvent::FrameAllocated(Some(VirtAddr::from(0x5000))));
    assert_eq!(n.step(MapAllocEvent::PageMapped(false)), MapAllocAction::Finish(false));
    let mut empty = MapAlloc::new(VirtAddr::from(0x1000), 0);
    assert_eq!(empty.step(MapAllocEvent::Begin), MapAllocAction::Finish(true));
}

#[test]
fn unmap_alloc_walk() {
    let mut u = UnmapAlloc::new(VirtAddr::from(0x1000), 0x3000);
    assert_eq!(u.step(UnmapAllocEvent::Begin), UnmapAllocAction::UnmapPage(VirtAddr::from(0x1000)));
    assert_eq!(
        u.step(UnmapAllocEvent::PageUnmapped { frame: PhysAddr::from(0x7000), huge: false }),
        UnmapAllocAction::DeallocFrame(VirtAddr::from(0x7000))
    );
    assert_eq!(
        u.step(UnmapAllocEvent::FrameDeallocated),
        UnmapAllocAction::UnmapPage(VirtAddr::from(0x2000))
    );
    // An unmapped page is skipped.
    assert_eq!(
        u.step(UnmapAllocEvent::PageNotMapped),
        UnmapAllocAction::UnmapPage(VirtAddr::from(0x3000))
    );
    assert_eq!(
        u.step(UnmapAllocEvent::PageUnmapped { frame: PhysAddr::from(0x20_0000), huge: true }),
        UnmapAllocAction::Finish(false)
    );
    let mut v = UnmapAlloc::new(VirtAddr::from(0x1000), 0x1000);
    assert_eq!(v.step(UnmapAllocEvent::Begin), UnmapAllocAction::UnmapPage(VirtAddr::from(0x1000)));
    assert_eq!(v.step(UnmapAllocEvent::PageNotMapped), UnmapAllocAction::Finish(true));
}

#[test]
fn process_address_space_root() {
    let a = ProcessSpace(PhysAddr::from(0x1234_5000));
    assert_eq!(a.page_table_root(), PhysAddr::from(0x1234_5000));
}

#[test]
fn task_ext_initial_process() {
    let t = TaskExt::new("ctx", 5u32);
    assert_eq!(t.proc_id, INIT_PROC_ID);
    assert_eq!(t.proc_id, 233);
    assert_eq!(t.uctx, "ctx");
    assert_eq!(t.aspace, 5);
}

#[test]
fn address_space_debug_text() {
    let s = space();
    assert_eq!(
        s.to_debug_string(),
        "AddrSpace { va_range: 4096..20480, page_table_root: PA:0x9000 }"
    );
}

#[test]
fn address_space_debug_text_edges() {
    let zero = AddrSpace::new_empty(VirtAddr::from(0), 0, (), PhysAddr::from(0));
    assert_eq!(
        zero.to_debug_string(),
        "AddrSpace { va_range: 0..0, page_table_root: PA:0x0 }"
    );
    let s = AddrSpace::new_empty(
        VirtAddr::from(0xffff_8000_0000_0000),
        0x10,
        (),
        PhysAddr::from(0xdead_beef),
    );
    assert_eq!(
        s.to_debug_string(),
        format!(
            "AddrSpace {{ va_range: {}..{}, page_table_root: PA:{:#x} }}",
            0xffff_8000_0000_0000usize,
            0xffff_8000_0000_0010usize,
            0xdead_beefusize
        )
    );
    assert_eq!(
        s.to_debug_string(),
        "AddrSpace { va_range: 18446603336221196288..18446603336221196304, page_table_root: PA:0xdeadbeef }"
    );
}
