//! Memory mapping backends: a fixed linear offset, and page-by-page
//! allocation of physical frames.

use vstd::prelude::*;
use crate::addr::{PhysAddr, VirtAddr, aligned, PAGE_SIZE_4K};
use crate::iter::{PageIter, PageIter4K};
use crate::mem::{virt_to_phys, phys_to_virt, phys_virt_offset_spec};

verus! {

/// A backend that maps a virtual range to the physical range at a fixed
/// offset below it.
#[derive(Clone, Copy, Debug)]
pub struct FixedBackend {
    pa_va_offset: usize,
}

impl FixedBackend {
    /// The offset from physical to virtual addresses.
    pub closed spec fn offset(&self) -> usize {
        self.pa_va_offset
    }

    /// Creates a backend with the given physical-to-virtual offset.
    pub fn new(pa_va_offset: usize) -> (r: Self)
        ensures
            r.offset() == pa_va_offset,
    {
        Self { pa_va_offset }
    }

    /// The physical address that the virtual address `start` maps to, or
    /// `None` where `start` lies below the offset.
    pub fn pa_start(&self, start: VirtAddr) -> (r: Option<PhysAddr>)
        ensures
            r is None <==> start@ < self.offset(),
            r matches Some(p) ==> p@ == start@ - self.offset(),
    {
        if start.as_usize() < self.pa_va_offset {
            None
        } else {
            Some(PhysAddr::from(start.as_usize() - self.pa_va_offset))
        }
    }
}

/// A mapping backend.
#[derive(Clone, Copy, Debug, PartialEq, Eq, Structural)]
pub enum Backend {
    /// Physical frames are allocated page by page when the range is mapped.
    Alloc {
        /// Whether all frames are allocated when the range is mapped.
        populate: bool,
    },
}

impl Backend {
    /// Creates a new allocation mapping backend.
    pub fn new_alloc(populate: bool) -> (r: Self)
        ensures
            r == (Backend::Alloc { populate }),
    {
        Backend::Alloc { populate }
    }
}

impl Backend {
    /// Starts mapping `[start, start + size)` page by page to newly
    /// allocated frames; the walk asks for each frame and each mapping.
    pub fn map_alloc(&self, start: VirtAddr, size: usize) -> (r: MapAlloc)
        requires
            start@ + size <= usize::MAX,
            aligned(start@ as int, PAGE_SIZE_4K as int),
            aligned(start@ + size, PAGE_SIZE_4K as int),
        ensures
            r.pages().cur() == start@,
            r.pages().stop() == start@ + size,
            r.page() is None,
    {
        MapAlloc::new(start, size)
    }

    /// Starts unmapping `[start, start + size)` page by page, giving back
    /// the frames; the walk asks for each unmapping and each deallocation.
    pub fn unmap_alloc(&self, start: VirtAddr, size: usize) -> (r: UnmapAlloc)
        requires
            start@ + size <= usize::MAX,
            aligned(start@ as int, PAGE_SIZE_4K as int),
            aligned(start@ + size, PAGE_SIZE_4K as int),
        ensures
            r.pages().cur() == start@,
            r.pages().stop() == start@ + size,
    {
        UnmapAlloc::new(start, size)
    }
}

/// What the allocation backend asks its caller to do next while mapping.
#[derive(Clone, Copy, Debug, PartialEq, Eq, Structural)]
pub enum MapAllocAction {
    /// Allocate one 4K frame and report its virtual address.
    AllocFrame,
    /// Map the page at `vaddr` to the frame at `paddr`, and report whether
    /// that worked.
    MapPage { vaddr: VirtAddr, paddr: PhysAddr },
    /// Stop: the whole range is mapped (`true`) or a step failed (`false`).
    Finish(bool),
}

/// What the caller reports back to the allocation backend while mapping.
#[derive(Clone, Copy, Debug, PartialEq, Eq, Structural)]
pub enum MapAllocEvent {
    /// Mapping starts.
    Begin,
    /// A frame was allocated at this virtual address, or allocation failed.
    FrameAllocated(Option<VirtAddr>),
    /// The page was mapped, or mapping it failed.
    PageMapped(bool),
}

/// The decisions of `map_alloc`: it walks the range page by page, asking for
/// a frame and then for a mapping of the page to that frame, and stops with
/// `false` at the first failure.
pub struct MapAlloc {
    pages: PageIter4K,
    page: Option<VirtAddr>,
}

impl MapAlloc {
    /// The pages still to map, after the current one.
    pub closed spec fn pages(&self) -> PageIter4K {
        self.pages
    }

    /// The page being mapped, once its frame is asked for.
    pub closed spec fn page(&self) -> Option<VirtAddr> {
        self.page
    }

    /// Starts mapping `[start, start + size)`, which must be 4K-aligned.
    pub fn new(start: VirtAddr, size: usize) -> (r: Self)
        requires
            start@ + size <= usize::MAX,
            aligned(start@ as int, PAGE_SIZE_4K as int),
            aligned(start@ + size, PAGE_SIZE_4K as int),
        ensures
            r.pages().cur() == start@,
            r.pages().stop() == start@ + size,
            r.page() is None,
    {
        proof {
            crate::addr::lemma_page_size_4k_is_pow2();
        }
        let pages = PageIter::new(start, start + size);
        MapAlloc { pages: pages.unwrap(), page: None }
    }

    /// Takes the caller's report and says what to do next.
    pub fn step(&mut self, event: MapAllocEvent) -> (r: MapAllocAction)
        requires
            event matches MapAllocEvent::FrameAllocated(Some(v)) ==> v@ >= phys_virt_offset_spec(),
        ensures
            match event {
                MapAllocEvent::Begin | MapAllocEvent::PageMapped(true) => {
                    if old(self).pages().cur() < old(self).pages().stop() {
                        &&& r == MapAllocAction::AllocFrame
                        &&& final(self).page() == Some(VirtAddr(old(self).pages().cur()))
                        &&& final(self).pages().cur() == old(self).pages().cur() + PAGE_SIZE_4K
                        &&& final(self).pages().stop() == old(self).pages().stop()
                    } else {
                        r == MapAllocAction::Finish(true)
                    }
                },
                MapAllocEvent::FrameAllocated(Some(v)) => match old(self).page() {
                    Some(p) => r == (MapAllocAction::MapPage {
                        vaddr: p,
                        paddr: PhysAddr((v@ - phys_virt_offset_spec()) as usize),
                    }) && *final(self) == *old(self),
                    None => r == MapAllocAction::Finish(false),
                },
                _ => r == MapAllocAction::Finish(false),
            },
    {
        match event {
            MapAllocEvent::Begin | MapAllocEvent::PageMapped(true) => {
                match self.pages.next() {
                    Some(addr) => {
                        self.page = Some(addr);
                        MapAllocAction::AllocFrame
                    },
                    None => MapAllocAction::Finish(true),
                }
            },
            MapAllocEvent::FrameAllocated(Some(v)) => match self.page {
                Some(p) => MapAllocAction::MapPage { vaddr: p, paddr: virt_to_phys(v) },
                None => MapAllocAction::Finish(false),
            },
            _ => MapAllocAction::Finish(false),
        }
    }
}

/// What the allocation backend asks its caller to do next while unmapping.
#[derive(Clone, Copy, Debug, PartialEq, Eq, Structural)]
pub enum UnmapAllocAction {
    /// Unmap the page at this address and report what it was mapped to.
    UnmapPage(VirtAddr),
    /// Give back the frame at this virtual address.
    DeallocFrame(VirtAddr),
    /// Stop: the whole range is unmapped (`true`) or a huge page was met
    /// (`false`).
    Finish(bool),
}

/// What the caller reports back to the allocation backend while unmapping.
#[derive(Clone, Copy, Debug, PartialEq, Eq, Structural)]
pub enum UnmapAllocEvent {
    /// Unmapping starts.
    Begin,
    /// The page was mapped to the frame at `frame`, by a huge page or not.
    PageUnmapped { frame: PhysAddr, huge: bool },
    /// The page was not mapped.
    PageNotMapped,
    /// The frame was given back.
    FrameDeallocated,
}

/// The decisions of `unmap_alloc`: it walks the range page by page,
/// unmapping each page and giving back the frame it was mapped to. A page
/// that was not mapped is skipped; a huge page stops the walk with `false`.
pub struct UnmapAlloc {
    pages: PageIter4K,
}

impl UnmapAlloc {
    /// The pages still to unmap.
    pub closed spec fn pages(&self) -> PageIter4K {
        self.pages
    }

    /// Starts unmapping `[start, start + size)`, which must be 4K-aligned.
    pub fn new(start: VirtAddr, size: usize) -> (r: Self)
        requires
            start@ + size <= usize::MAX,
            aligned(start@ as int, PAGE_SIZE_4K as int),
            aligned(start@ + size, PAGE_SIZE_4K as int),
        ensures
            r.pages().cur() == start@,
            r.pages().stop() == start@ + size,
    {
        proof {
            crate::addr::lemma_page_size_4k_is_pow2();
        }
        let pages = PageIter::new(start, start + size);
        UnmapAlloc { pages: pages.unwrap() }
    }

    /// The next page to unmap, or the end of the walk.
    fn advance(&mut self) -> (r: UnmapAllocAction)
        ensures
            final(self).pages().stop() == old(self).pages().stop(),
            if old(self).pages().cur() < old(self).pages().stop() {
                &&& r == UnmapAllocAction::UnmapPage(VirtAddr(old(self).pages().cur()))
                &&& final(self).pages().cur() == old(self).pages().cur() + PAGE_SIZE_4K
            } else {
                r == UnmapAllocAction::Finish(true)
            },
    {
        match self.pages.next() {
            Some(addr) => UnmapAllocAction::UnmapPage(addr),
            None => UnmapAllocAction::Finish(true),
        }
    }

    /// Takes the caller's report and says what to do next.
    pub fn step(&mut self, event: UnmapAllocEvent) -> (r: UnmapAllocAction)
        requires
            event matches UnmapAllocEvent::PageUnmapped { frame, huge: false } ==> frame@
                + phys_virt_offset_spec() <= usize::MAX,
        ensures
            match event {
                UnmapAllocEvent::PageUnmapped { frame, huge } => if huge {
                    r == UnmapAllocAction::Finish(false)
                } else {
                    &&& r == UnmapAllocAction::DeallocFrame(
                        VirtAddr((frame@ + phys_virt_offset_spec()) as usize),
                    )
                    &&& *final(self) == *old(self)
                },
                _ => {
                    &&& final(self).pages().stop() == old(self).pages().stop()
                    &&& if old(self).pages().cur() < old(self).pages().stop() {
                        &&& r == UnmapAllocAction::UnmapPage(VirtAddr(old(self).pages().cur()))
                        &&& final(self).pages().cur() == old(self).pages().cur() + PAGE_SIZE_4K
                    } else {
                        r == UnmapAllocAction::Finish(true)
                    }
                },
            },
    {
        match event {
            UnmapAllocEvent::PageUnmapped { frame, huge } => {
                if huge {
                    UnmapAllocAction::Finish(false)
                } else {
                    UnmapAllocAction::DeallocFrame(phys_to_virt(frame))
                }
            },
            _ => self.advance(),
        }
    }
}

} // verus!
