use axkernel::addr::{PhysAddr, VirtAddr};
use axkernel::flags::{MappingFlags, MemRegionFlags};
use axkernel::mem::{
    default_free_regions, default_mmio_regions, free_memory_region, free_regions_to,
    kernel_image_regions, mmio_regions_from, phys_to_virt, virt_to_phys, KernelImage,
};
use axkernel::trap::{
    get_page_fault_flags, page_fault_code_valid, page_fault_end, runtime_handles_page_fault,
    trap_action, vec_to_str, PageFaultEnd, TrapAction,
};

#[test]
fn page_fault_flags_read_write() {
    assert_eq!(get_page_fault_flags(0).bits(), MappingFlags::READ);
    assert_eq!(get_page_fault_flags(2).bits(), MappingFlags::WRITE);
}

#[test]
fn page_fault_flags_user_and_protection() {
    assert_eq!(get_page_fault_flags(4).bits(), MappingFlags::READ | MappingFlags::USER);
    assert_eq!(
        get_page_fault_flags(7).bits(),
        MappingFlags::WRITE | MappingFlags::USER | MappingFlags::EXECUTE
    );
    assert_eq!(get_page_fault_flags(1).bits(), MappingFlags::READ | MappingFlags::EXECUTE);
    // Bits that the error code type does not define are ignored.
    assert_eq!(get_page_fault_flags(0x100 | 2).bits(), MappingFlags::WRITE);
}

#[test]
fn page_fault_code_validity() {
    assert!(page_fault_code_valid(0));
    assert!(page_fault_code_valid(7));
    assert!(page_fault_code_valid(0x100));
    assert!(!page_fault_code_valid(8));
    assert!(!page_fault_code_valid(0x10));
    assert!(!page_fault_code_valid(1 << 15));
    assert!(!page_fault_code_valid(1 << 31));
}

#[test]
fn exception_names() {
    assert_eq!(vec_to_str(14), "#PF");
    assert_eq!(vec_to_str(13), "#GP");
    assert_eq!(vec_to_str(0), "#DE");
    assert_eq!(vec_to_str(9), "");
    assert_eq!(vec_to_str(2), "NMI");
    assert_eq!(vec_to_str(20), "#VE");
    assert_eq!(vec_to_str(31), "");
    assert_eq!(vec_to_str(32), "Unknown");
    assert_eq!(vec_to_str(0x80), "Unknown");
}

#[test]
fn trap_dispatch() {
    assert_eq!(trap_action(14, false), TrapAction::PageFault);
    assert_eq!(trap_action(3, false), TrapAction::Breakpoint);
    assert_eq!(trap_action(13, false), TrapAction::GeneralProtectionFault);
    assert_eq!(trap_action(0x20, false), TrapAction::Irq(0x20));
    assert_eq!(trap_action(0xff, false), TrapAction::Irq(0xff));
    assert_eq!(trap_action(0, false), TrapAction::Unhandled);
    assert_eq!(trap_action(0x1f, false), TrapAction::Unhandled);
    // Only the low byte of the vector selects the handler.
    assert_eq!(trap_action(0x10e, false), TrapAction::PageFault);
    assert_eq!(trap_action(0x121, false), TrapAction::Irq(0x121));
    assert_eq!(trap_action(0x80, false), TrapAction::Irq(0x80));
    assert_eq!(trap_action(0x80, true), TrapAction::Syscall);
    assert_eq!(trap_action(0x180, true), TrapAction::Syscall);
    assert_eq!(trap_action(0x81, true), TrapAction::Irq(0x81));
    assert_eq!(trap_action(14, true), TrapAction::PageFault);
}

#[test]
fn linear_mapping_round_trip() {
    let v = VirtAddr::from(0x8020_0000);
    let p = virt_to_phys(v);
    assert_eq!(p, PhysAddr::from(0x8020_0000));
    assert_eq!(phys_to_virt(p), v);
}

#[test]
fn kernel_image_layout() {
    let k = KernelImage {
        stext: 0x1000,
        etext: 0x3000,
        srodata: 0x3000,
        erodata: 0x4000,
        sdata: 0x4000,
        edata: 0x6000,
        boot_stack: 0x6000,
        boot_stack_top: 0x16000,
        sbss: 0x16000,
        ebss: 0x18000,
    };
    let r = kernel_image_regions(k);
    assert_eq!(r.len(), 5);
    assert_eq!(r[0].name, ".text");
    assert_eq!(r[0].paddr, PhysAddr::from(0x1000));
    assert_eq!(r[0].size, 0x2000);
    assert_eq!(
        r[0].flags.bits,
        MemRegionFlags::RESERVED | MemRegionFlags::READ | MemRegionFlags::EXECUTE
    );
    assert_eq!(r[1].name, ".rodata");
    assert_eq!(r[1].flags.bits, MemRegionFlags::RESERVED | MemRegionFlags::READ);
    assert_eq!(r[2].name, ".data .tdata .tbss .percpu");
    assert_eq!(r[2].size, 0x2000);
    assert_eq!(r[3].name, "boot stack");
    assert_eq!(r[3].size, 0x10000);
    assert_eq!(r[4].name, ".bss");
    assert!(r[4].flags.contains(MemRegionFlags::WRITE));
    assert!(!r[4].flags.contains(MemRegionFlags::EXECUTE));
}

#[test]
fn mmio_regions_of_the_platform() {
    let r = default_mmio_regions();
    assert_eq!(r.len(), 5);
    assert_eq!(r[0].paddr, PhysAddr::from(0xb000_0000));
    assert_eq!(r[0].size, 0x1000_0000);
    assert_eq!(r[4].paddr, PhysAddr::from(0xfee0_0000));
    assert_eq!(r[4].name, "mmio");
    assert_eq!(
        r[2].flags.bits,
        MemRegionFlags::RESERVED | MemRegionFlags::DEVICE | MemRegionFlags::READ | MemRegionFlags::WRITE
    );
    let own = mmio_regions_from(&[(0x1000, 0x20)]);
    assert_eq!(own.len(), 1);
    assert_eq!(own[0].paddr, PhysAddr::from(0x1000));
    assert_eq!(own[0].size, 0x20);
}

#[test]
fn free_memory_after_kernel() {
    let r = free_memory_region(0x20_1234, 0x800_0fff);
    assert_eq!(r.paddr, PhysAddr::from(0x20_2000));
    assert_eq!(r.size, 0x800_0000 - 0x20_2000);
    assert_eq!(r.name, "free memory");
    assert_eq!(
        r.flags.bits,
        MemRegionFlags::FREE | MemRegionFlags::READ | MemRegionFlags::WRITE
    );
    let empty_end = free_memory_region(0x1000, 0x1000);
    assert_eq!(empty_end.size, 0);
}

#[test]
fn default_free_regions_of_the_configuration() {
    let end = axconfig::plat::PHYS_MEMORY_BASE + axconfig::plat::PHYS_MEMORY_SIZE;
    match default_free_regions(0) {
        Some(v) => {
            assert_eq!(v.len(), 1);
            assert_eq!(v[0].paddr, PhysAddr::from(0));
            assert_eq!(v[0].size, end & !0xfff);
        }
        None => panic!("a kernel ending at 0 always fits"),
    }
    if end == 0 {
        assert!(default_free_regions(0x1000).is_none());
    }
}

#[test]
fn page_fault_ends_by_the_handler_answer() {
    assert_eq!(page_fault_end(true), PageFaultEnd::Resume);
    assert_eq!(page_fault_end(false), PageFaultEnd::Stop);
    // The runtime handles faults from user mode; a kernel fault stops it.
    assert!(runtime_handles_page_fault(true));
    assert!(!runtime_handles_page_fault(false));
    assert_eq!(page_fault_end(runtime_handles_page_fault(false)), PageFaultEnd::Stop);
}

#[test]
fn free_regions_to_a_given_end() {
    let off = axconfig::plat::PHYS_VIRT_OFFSET;
    let v = free_regions_to(off + 0x20_1234, 0x800_0fff).unwrap();
    assert_eq!(v.len(), 1);
    assert_eq!(v[0].paddr, PhysAddr::from(0x20_2000));
    assert_eq!(v[0].size, 0x800_0000 - 0x20_2000);
    assert_eq!(v[0].name, "free memory");
    // The kernel image ends past the end of physical memory.
    assert!(free_regions_to(off + 0x2000, 0x1000).is_none());
    // It ends too close to the top of the address space to round up.
    assert!(free_regions_to(usize::MAX, usize::MAX).is_none());
    // An image ending on the last page boundary leaves an empty region.
    assert_eq!(free_regions_to(off + 0x1000, 0x1fff).unwrap()[0].size, 0);
}
