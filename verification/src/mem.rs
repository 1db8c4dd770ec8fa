//! Physical memory management: the linear mapping between physical and
//! virtual addresses, and the physical memory regions of the kernel.

use vstd::prelude::*;
use crate::addr::{PhysAddr, VirtAddr, align_down_spec, align_up_spec, PAGE_SIZE_4K};
use crate::flags::MemRegionFlags;

verus! {

/// The offset of the linear mapping of physical memory in the kernel's
/// virtual address space, in the platform configuration.
pub open spec fn phys_virt_offset_spec() -> usize {
    0
}

/// The offset of the linear mapping.
///
/// Trusted: reads `axconfig::plat::PHYS_VIRT_OFFSET`, which the
/// configuration in use defines as 0.
#[verifier::external_body]
fn phys_virt_offset() -> (r: usize)
    ensures
        r == phys_virt_offset_spec(),
{
    axconfig::plat::PHYS_VIRT_OFFSET
}

/// The start and the size of physical memory.
///
/// Trusted: reads `axconfig::plat::PHYS_MEMORY_BASE` and
/// `axconfig::plat::PHYS_MEMORY_SIZE`, which the configuration defines as
/// 0 and 0 on x86_64 and as `0x4000_0000` and `0x2_0000_0000` elsewhere.
#[verifier::external_body]
fn phys_memory_layout() -> (r: (usize, usize))
    ensures
        (r.0 == 0 && r.1 == 0) || (r.0 == 0x4000_0000 && r.1 == 0x2_0000_0000),
{
    (axconfig::plat::PHYS_MEMORY_BASE, axconfig::plat::PHYS_MEMORY_SIZE)
}

/// The MMIO regions of the platform, as (base physical address, size).
pub open spec fn mmio_regions_spec() -> Seq<(usize, usize)> {
    seq![
        (0xb000_0000usize, 0x1000_0000usize),
        (0xfe00_0000usize, 0xc0_0000usize),
        (0xfec0_0000usize, 0x1000usize),
        (0xfed0_0000usize, 0x1000usize),
        (0xfee0_0000usize, 0x1000usize),
    ]
}

/// The MMIO regions of the platform.
///
/// Trusted: reads `axconfig::devices::MMIO_REGIONS`, which the
/// configuration defines as the five regions of `mmio_regions_spec`.
#[verifier::external_body]
fn mmio_regions() -> (r: &'static [(usize, usize)])
    ensures
        r@ == mmio_regions_spec(),
{
    axconfig::devices::MMIO_REGIONS
}

/// Converts a virtual address to a physical address.
///
/// It assumes that there is a linear mapping with the offset
/// `PHYS_VIRT_OFFSET`, that maps all the physical memory to the virtual
/// space at the address plus the offset. So we have
/// `paddr = vaddr - PHYS_VIRT_OFFSET`.
pub fn virt_to_phys(vaddr: VirtAddr) -> (r: PhysAddr)
    requires
        vaddr@ >= phys_virt_offset_spec(),
    ensures
        r@ == vaddr@ - phys_virt_offset_spec(),
{
    PhysAddr::from(vaddr.as_usize() - phys_virt_offset())
}

/// Converts a physical address to a virtual address.
///
/// It assumes that there is a linear mapping with the offset
/// `PHYS_VIRT_OFFSET`, that maps all the physical memory to the virtual
/// space at the address plus the offset. So we have
/// `vaddr = paddr + PHYS_VIRT_OFFSET`.
pub fn phys_to_virt(paddr: PhysAddr) -> (r: VirtAddr)
    requires
        paddr@ + phys_virt_offset_spec() <= usize::MAX,
    ensures
        r@ == paddr@ + phys_virt_offset_spec(),
{
    VirtAddr::from(paddr.as_usize() + phys_virt_offset())
}

/// Converting a virtual address to its physical address and back gives
/// the same address, and so does the other way round.
pub proof fn lemma_linear_mapping_round_trip(v: usize, p: usize)
    requires
        v >= phys_virt_offset_spec(),
        p + phys_virt_offset_spec() <= usize::MAX,
    ensures
        (v - phys_virt_offset_spec()) + phys_virt_offset_spec() == v,
        (p + phys_virt_offset_spec()) - phys_virt_offset_spec() == p,
{
}

/// A physical memory region.
#[derive(Clone, Copy, Debug)]
pub struct MemRegion {
    /// The start physical address of the region.
    pub paddr: PhysAddr,
    /// The size in bytes of the region.
    pub size: usize,
    /// The region flags.
    pub flags: MemRegionFlags,
    /// The region name, used for identification.
    pub name: &'static str,
}

/// The region fields are these values.
pub open spec fn region_is(r: MemRegion, paddr: int, size: int, flags: usize, name: Seq<char>) -> bool {
    &&& r.paddr@ == paddr
    &&& r.size == size
    &&& r.flags.bits == flags
    &&& r.name@ == name
}

/// The addresses of the kernel image sections, from the linker script.
#[derive(Clone, Copy, Debug)]
pub struct KernelImage {
    /// Start of `.text`.
    pub stext: usize,
    /// End of `.text`.
    pub etext: usize,
    /// Start of `.rodata`.
    pub srodata: usize,
    /// End of `.rodata`.
    pub erodata: usize,
    /// Start of `.data`, `.tdata`, `.tbss` and `.percpu`.
    pub sdata: usize,
    /// End of the data sections.
    pub edata: usize,
    /// Bottom of the boot stack.
    pub boot_stack: usize,
    /// Top of the boot stack.
    pub boot_stack_top: usize,
    /// Start of `.bss`.
    pub sbss: usize,
    /// End of `.bss`.
    pub ebss: usize,
}

/// Each section ends at or after its start, and lies in the linear mapping.
pub open spec fn kernel_image_ok(k: KernelImage) -> bool {
    &&& k.stext <= k.etext
    &&& k.srodata <= k.erodata
    &&& k.sdata <= k.edata
    &&& k.boot_stack <= k.boot_stack_top
    &&& k.sbss <= k.ebss
    &&& k.stext >= phys_virt_offset_spec()
    &&& k.srodata >= phys_virt_offset_spec()
    &&& k.sdata >= phys_virt_offset_spec()
    &&& k.boot_stack >= phys_virt_offset_spec()
    &&& k.sbss >= phys_virt_offset_spec()
}

/// The region of the section `[start, end)` of the kernel image.
fn image_region(start: usize, end: usize, flags: usize, name: &'static str) -> (r: MemRegion)
    requires
        start <= end,
        start >= phys_virt_offset_spec(),
    ensures
        region_is(r, start - phys_virt_offset_spec(), end - start, flags, name@),
{
    MemRegion {
        paddr: virt_to_phys(VirtAddr::from(start)),
        size: end - start,
        flags: MemRegionFlags::from_bits(flags),
        name,
    }
}

/// Returns the memory regions of the kernel image (code and data sections).
pub fn kernel_image_regions(k: KernelImage) -> (r: Vec<MemRegion>)
    requires
        kernel_image_ok(k),
    ensures
        r@.len() == 5,
        region_is(
            r@[0],
            k.stext - phys_virt_offset_spec(),
            k.etext - k.stext,
            MemRegionFlags::RESERVED | MemRegionFlags::READ | MemRegionFlags::EXECUTE,
            ".text"@,
        ),
        region_is(
            r@[1],
            k.srodata - phys_virt_offset_spec(),
            k.erodata - k.srodata,
            MemRegionFlags::RESERVED | MemRegionFlags::READ,
            ".rodata"@,
        ),
        region_is(
            r@[2],
            k.sdata - phys_virt_offset_spec(),
            k.edata - k.sdata,
            MemRegionFlags::RESERVED | MemRegionFlags::READ | MemRegionFlags::WRITE,
            ".data .tdata .tbss .percpu"@,
        ),
        region_is(
            r@[3],
            k.boot_stack - phys_virt_offset_spec(),
            k.boot_stack_top - k.boot_stack,
            MemRegionFlags::RESERVED | MemRegionFlags::READ | MemRegionFlags::WRITE,
            "boot stack"@,
        ),
        region_is(
            r@[4],
            k.sbss - phys_virt_offset_spec(),
            k.ebss - k.sbss,
            MemRegionFlags::RESERVED | MemRegionFlags::READ | MemRegionFlags::WRITE,
            ".bss"@,
        ),
{
    let mut v: Vec<MemRegion> = Vec::new();
    v.push(
        image_region(
            k.stext,
            k.etext,
            MemRegionFlags::RESERVED | MemRegionFlags::READ | MemRegionFlags::EXECUTE,
            ".text",
        ),
    );
    v.push(
        image_region(
            k.srodata,
            k.erodata,
            MemRegionFlags::RESERVED | MemRegionFlags::READ,
            ".rodata",
        ),
    );
    v.push(
        image_region(
            k.sdata,
            k.edata,
            MemRegionFlags::RESERVED | MemRegionFlags::READ | MemRegionFlags::WRITE,
            ".data .tdata .tbss .percpu",
        ),
    );
    v.push(
        image_region(
            k.boot_stack,
            k.boot_stack_top,
            MemRegionFlags::RESERVED | MemRegionFlags::READ | MemRegionFlags::WRITE,
            "boot stack",
        ),
    );
    v.push(
        image_region(
            k.sbss,
            k.ebss,
            MemRegionFlags::RESERVED | MemRegionFlags::READ | MemRegionFlags::WRITE,
            ".bss",
        ),
    );
    v
}

/// The flags of an MMIO region.
pub open spec fn mmio_flags() -> usize {
    MemRegionFlags::RESERVED | MemRegionFlags::DEVICE | MemRegionFlags::READ
        | MemRegionFlags::WRITE
}

/// Turns (base physical address, size) pairs into reserved, readable and
/// writable device memory regions named `"mmio"`.
pub fn mmio_regions_from(regions: &[(usize, usize)]) -> (r: Vec<MemRegion>)
    ensures
        r@.len() == regions@.len(),
        forall|i: int|
            0 <= i < regions@.len() ==> region_is(
                #[trigger] r@[i],
                regions@[i].0 as int,
                regions@[i].1 as int,
                mmio_flags(),
                "mmio"@,
            ),
{
    let mut v: Vec<MemRegion> = Vec::new();
    let mut i: usize = 0;
    while i < regions.len()
        invariant
            i <= regions@.len(),
            v@.len() == i,
            forall|j: int|
                0 <= j < i ==> region_is(
                    #[trigger] v@[j],
                    regions@[j].0 as int,
                    regions@[j].1 as int,
                    mmio_flags(),
                    "mmio"@,
                ),
        decreases regions@.len() - i,
    {
        let (base, size) = regions[i];
        v.push(
            MemRegion {
                paddr: PhysAddr::from(base),
                size,
                flags: MemRegionFlags::from_bits(
                    MemRegionFlags::RESERVED | MemRegionFlags::DEVICE | MemRegionFlags::READ
                        | MemRegionFlags::WRITE,
                ),
                name: "mmio",
            },
        );
        i = i + 1;
    }
    v
}

/// Returns the default MMIO memory regions, from the platform configuration.
pub fn default_mmio_regions() -> (r: Vec<MemRegion>)
    ensures
        r@.len() == mmio_regions_spec().len(),
        forall|i: int|
            0 <= i < mmio_regions_spec().len() ==> region_is(
                #[trigger] r@[i],
                mmio_regions_spec()[i].0 as int,
                mmio_regions_spec()[i].1 as int,
                mmio_flags(),
                "mmio"@,
            ),
{
    mmio_regions_from(mmio_regions())
}

/// The flags of free memory.
pub open spec fn free_flags() -> usize {
    MemRegionFlags::FREE | MemRegionFlags::READ | MemRegionFlags::WRITE
}

/// The page-aligned free memory between the end of the kernel image and
/// the end of physical memory fits: the aligned start does not pass the
/// aligned end.
pub open spec fn free_region_fits(ekernel: usize, phys_memory_end: usize) -> bool {
    &&& ekernel >= phys_virt_offset_spec()
    &&& (ekernel - phys_virt_offset_spec()) + PAGE_SIZE_4K - 1 <= usize::MAX
    &&& align_up_spec(ekernel - phys_virt_offset_spec(), PAGE_SIZE_4K as int) <= align_down_spec(
        phys_memory_end as int,
        PAGE_SIZE_4K as int,
    )
}

/// The free memory region from the end of the kernel image (virtual address
/// `ekernel`) to the end of physical memory, both rounded inwards to 4K
/// pages.
pub fn free_memory_region(ekernel: usize, phys_memory_end: usize) -> (r: MemRegion)
    requires
        free_region_fits(ekernel, phys_memory_end),
    ensures
        region_is(
            r,
            align_up_spec(ekernel - phys_virt_offset_spec(), PAGE_SIZE_4K as int),
            align_down_spec(phys_memory_end as int, PAGE_SIZE_4K as int) - align_up_spec(
                ekernel - phys_virt_offset_spec(),
                PAGE_SIZE_4K as int,
            ),
            free_flags(),
            "free memory"@,
        ),
{
    let start = virt_to_phys(VirtAddr::from(ekernel)).align_up_4k();
    let end = PhysAddr::from(phys_memory_end).align_down_4k();
    MemRegion {
        paddr: start,
        size: end.as_usize() - start.as_usize(),
        flags: MemRegionFlags::from_bits(
            MemRegionFlags::FREE | MemRegionFlags::READ | MemRegionFlags::WRITE,
        ),
        name: "free memory",
    }
}

/// A value that the end of physical memory takes in some configuration:
/// the start of physical memory plus its size.
pub open spec fn phys_memory_end_candidate(m: usize) -> bool {
    m == 0 || m == 0x2_4000_0000
}

/// The free region from the end of the kernel image to `phys_memory_end`,
/// as `free_memory_region` gives it, or `None` where it does not fit: the
/// kernel image ends below the linear mapping, too close to the top of the
/// address space, or past the end of physical memory.
pub fn free_regions_to(ekernel: usize, phys_memory_end: usize) -> (r: Option<Vec<MemRegion>>)
    ensures
        r is None <==> !free_region_fits(ekernel, phys_memory_end),
        r matches Some(v) ==> v@.len() == 1 && region_is(
            v@[0],
            align_up_spec(ekernel - phys_virt_offset_spec(), PAGE_SIZE_4K as int),
            align_down_spec(phys_memory_end as int, PAGE_SIZE_4K as int) - align_up_spec(
                ekernel - phys_virt_offset_spec(),
                PAGE_SIZE_4K as int,
            ),
            free_flags(),
            "free memory"@,
        ),
{
    let off = phys_virt_offset();
    if ekernel < off || ekernel - off > usize::MAX - (PAGE_SIZE_4K - 1) {
        return None;
    }
    let start = virt_to_phys(VirtAddr::from(ekernel)).align_up_4k();
    let stop = PhysAddr::from(phys_memory_end).align_down_4k();
    if start.as_usize() > stop.as_usize() {
        return None;
    }
    let mut v: Vec<MemRegion> = Vec::new();
    v.push(free_memory_region(ekernel, phys_memory_end));
    Some(v)
}

/// Returns the default free memory regions (kernel image end to physical
/// memory end, from the platform configuration), or `None` where the kernel
/// image ends past the end of physical memory.
pub fn default_free_regions(ekernel: usize) -> (r: Option<Vec<MemRegion>>)
    ensures
        (forall|m: usize| #[trigger] phys_memory_end_candidate(m) ==> free_region_fits(ekernel, m))
            ==> r is Some,
        r is None ==> exists|m: usize|
            #[trigger] phys_memory_end_candidate(m) && !free_region_fits(ekernel, m),
        r matches Some(v) ==> v@.len() == 1 && exists|m: usize|
            #[trigger] phys_memory_end_candidate(m) && free_region_fits(ekernel, m) && region_is(
                v@[0],
                align_up_spec(ekernel - phys_virt_offset_spec(), PAGE_SIZE_4K as int),
                align_down_spec(m as int, PAGE_SIZE_4K as int) - align_up_spec(
                    ekernel - phys_virt_offset_spec(),
                    PAGE_SIZE_4K as int,
                ),
                free_flags(),
                "free memory"@,
            ),
{
    let (base, size) = phys_memory_layout();
    let end = base + size;
    assert(phys_memory_end_candidate(end));
    free_regions_to(ekernel, end)
}

} // verus!
