use axkernel::addr::{
    align_down, align_offset, align_up, is_aligned, is_power_of_two, PhysAddr, VirtAddr,
    PAGE_SIZE_4K,
};
use axkernel::iter::{PageIter, PageIter4K};
use axkernel::range::{AddrRange, PhysAddrRange, VirtAddrRange};

#[test]
fn readme_example() {
    let phys_addr = PhysAddr::from(0x12345678);
    let virt_addr = VirtAddr::from(0x87654321);

    assert_eq!(phys_addr.align_down(0x1000usize), PhysAddr::from(0x12345000));
    assert_eq!(phys_addr.align_offset_4k(), 0x678);
    assert_eq!(virt_addr.align_up_4k(), VirtAddr::from(0x87655000));
    assert!(!virt_addr.is_aligned_4k());
    assert!(VirtAddr::from(0xabcedf0).is_aligned(16usize));

    let va_range = VirtAddrRange::from(0x87654000..0x87655000);
    assert_eq!(va_range.start, VirtAddr::from(0x87654000));
    assert_eq!(va_range.size(), 0x1000);
    assert!(va_range.contains(virt_addr));
    assert!(va_range.contains_range((virt_addr..virt_addr + 0x100).into()));
    assert!(!va_range.contains_range((virt_addr..virt_addr + 0x1000).into()));
}

#[test]
fn power_of_two_detection() {
    assert!(!is_power_of_two(0));
    assert!(is_power_of_two(1));
    assert!(is_power_of_two(2));
    assert!(!is_power_of_two(3));
    assert!(is_power_of_two(4096));
    assert!(!is_power_of_two(4095));
    assert!(!is_power_of_two(6));
    assert!(is_power_of_two(1usize << 63));
    assert!(!is_power_of_two(usize::MAX));
}

#[test]
fn alignment_helpers() {
    assert_eq!(align_down(0x1234, 0x100), 0x1200);
    assert_eq!(align_down(0x1200, 0x100), 0x1200);
    assert_eq!(align_up(0x1201, 0x100), 0x1300);
    assert_eq!(align_up(0x1200, 0x100), 0x1200);
    assert_eq!(align_up(0, 0x1000), 0);
    assert_eq!(align_offset(0x1234, 0x100), 0x34);
    assert!(is_aligned(0x3000, PAGE_SIZE_4K));
    assert!(!is_aligned(0x3001, PAGE_SIZE_4K));
    assert_eq!(PhysAddr::from(0x1fff).align_up(0x1000), PhysAddr::from(0x2000));
    assert_eq!(VirtAddr::from(0x1fff).align_down_4k(), VirtAddr::from(0x1000));
    assert_eq!(VirtAddr::from(0x1fff).align_offset(0x800), 0x7ff);
    assert_eq!(PhysAddr::from(0x1fff).align_down_4k().as_usize(), 0x1000);
    assert!(PhysAddr::from(0x5000).is_aligned_4k());
    assert_eq!(PhysAddr::from(0x5001).align_up_4k(), PhysAddr::from(0x6000));
    assert_eq!(PhysAddr::from(0x5001).align_offset(0x10), 1);
    assert!(PhysAddr::from(0x5010).is_aligned(0x10));
}

#[test]
fn address_arithmetic_and_conversion() {
    let v = VirtAddr::from(0x1000) + 0x234;
    assert_eq!(v.as_usize(), 0x1234);
    assert_eq!((v - 0x34).as_usize(), 0x1200);
    let p = PhysAddr::from(0x10) + 6;
    assert_eq!(usize::from(p), 0x16);
    assert_eq!((p - 6).as_usize(), 0x10);
    let w: VirtAddr = 0x42usize.into();
    assert_eq!(usize::from(w), 0x42);
}

#[test]
fn range_basics() {
    let r = VirtAddrRange::new(VirtAddr::from(0x1000), VirtAddr::from(0x3000));
    assert!(!r.is_empty());
    assert_eq!(r.size(), 0x2000);
    assert!(r.contains(VirtAddr::from(0x1000)));
    assert!(r.contains(VirtAddr::from(0x2fff)));
    assert!(!r.contains(VirtAddr::from(0x3000)));
    assert!(!r.contains(VirtAddr::from(0xfff)));
    let s = VirtAddrRange::from_start_size(VirtAddr::from(0x1000), 0x2000);
    assert_eq!(s, r);
    let e = PhysAddrRange::new(PhysAddr::from(5), PhysAddr::from(5));
    assert!(e.is_empty());
    assert_eq!(e.size(), 0);
    let inverted = PhysAddrRange::new(PhysAddr::from(9), PhysAddr::from(5));
    assert!(inverted.is_empty());
}

#[test]
fn range_containment() {
    let outer = VirtAddrRange::from(0x1000..0x5000);
    let inner = VirtAddrRange::from(0x2000..0x3000);
    assert!(outer.contains_range(inner));
    assert!(inner.contained_in(outer));
    assert!(!outer.contained_in(inner));
    assert!(outer.contains_range(outer));
    let across = VirtAddrRange::from(0x4000..0x6000);
    assert!(!outer.contains_range(across));
    assert_eq!(inner.contained_in(outer), outer.contains_range(inner));
}

#[test]
fn range_overlap() {
    let a = VirtAddrRange::from(0x1000..0x3000);
    let b = VirtAddrRange::from(0x2000..0x4000);
    let c = VirtAddrRange::from(0x3000..0x4000);
    assert!(a.overlaps(b));
    assert!(b.overlaps(a));
    assert!(!a.overlaps(c));
    assert!(!c.overlaps(a));
    // A range holding no address can still be reported as overlapping by the bounds.
    let zero = VirtAddrRange::from(0x2000..0x2000);
    assert!(zero.overlaps(a));
    assert!(a.overlaps(zero));
}

#[test]
fn generic_range_over_usize_wrapper() {
    let r: AddrRange<PhysAddr> = AddrRange::from_start_size(PhysAddr::from(0x100), 0x80);
    assert_eq!(r.end, PhysAddr::from(0x180));
    assert!(r.contains(PhysAddr::from(0x17f)));
}

#[test]
fn page_iter_rejects_bad_input() {
    assert!(PageIter4K::new(VirtAddr::from(0x1001), VirtAddr::from(0x3000)).is_none());
    assert!(PageIter4K::new(VirtAddr::from(0x1000), VirtAddr::from(0x3001)).is_none());
    assert!(PageIter::<3>::new(VirtAddr::from(0), VirtAddr::from(3)).is_none());
    assert!(PageIter::<0>::new(VirtAddr::from(0), VirtAddr::from(0)).is_none());
    assert!(PageIter4K::new(VirtAddr::from(0x1000), VirtAddr::from(0x3000)).is_some());
}

#[test]
fn page_iter_yields_each_page() {
    let mut it = PageIter4K::new(VirtAddr::from(0x1000), VirtAddr::from(0x4000)).unwrap();
    assert_eq!(it.next(), Some(VirtAddr::from(0x1000)));
    assert_eq!(it.next(), Some(VirtAddr::from(0x2000)));
    assert_eq!(it.next(), Some(VirtAddr::from(0x3000)));
    assert_eq!(it.next(), None);
    assert_eq!(it.next(), None);
}

#[test]
fn page_iter_whole_iteration() {
    // Successive pages from the start, one page apart, then `None` for good.
    let mut it = PageIter::<0x1000>::new(VirtAddr::from(0x7000), VirtAddr::from(0xb000)).unwrap();
    let mut seen = Vec::new();
    while let Some(p) = it.next() {
        seen.push(p.as_usize());
    }
    assert_eq!(seen, vec![0x7000, 0x8000, 0x9000, 0xa000]);
    assert_eq!(it.next(), None);
    assert_eq!(it.next(), None);
    // The last page of the address space ends exactly at the top.
    let top = usize::MAX - 0xfff;
    let mut last = PageIter4K::new(VirtAddr::from(top - 0x1000), VirtAddr::from(top)).unwrap();
    assert_eq!(last.next(), Some(VirtAddr::from(top - 0x1000)));
    assert_eq!(last.next(), None);
}

#[test]
fn page_iter_counts_pages() {
    let mut it = PageIter::<0x200>::new(VirtAddr::from(0x400), VirtAddr::from(0x2000)).unwrap();
    let mut n = 0;
    while let Some(p) = it.next() {
        assert!(p.is_aligned(0x200));
        n += 1;
    }
    assert_eq!(n, (0x2000 - 0x400) / 0x200);
    let mut empty = PageIter4K::new(VirtAddr::from(0x4000), VirtAddr::from(0x1000)).unwrap();
    assert_eq!(empty.next(), None);
}


#[test]
fn range_debug_text() {
    let r = VirtAddrRange::from(0x1000..0x2000);
    assert_eq!(r.to_debug_string(), "0x1000..0x2000");
    assert_eq!(AddrRange::<usize>::from(0usize..0xabcdef).to_debug_string(), "0x0..0xabcdef");
    let p = PhysAddrRange::from(0x10..0xffff_ffff_ffff_ffffusize);
    assert_eq!(p.to_debug_string(), "0x10..0xffffffffffffffff");
}
