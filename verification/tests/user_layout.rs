use axkernel::uspace::{user_layout, USER_ENTRY_PAGE, USER_STACK_SIZE, USER_STACK_TOP};

#[test]
fn user_layout_places_entry_and_stacks() {
    let off = axconfig::plat::PHYS_VIRT_OFFSET;
    let l = user_layout(off + 0x8020_1234, off + 0x9000_0000, 0x8030_0ff7);
    assert_eq!(l.entry_vaddr_align.as_usize(), 0x1000);
    assert_eq!(l.entry_paddr_align.as_usize(), 0x8020_1000);
    assert_eq!(l.entry_vaddr.as_usize(), 0x1234);
    assert_eq!(l.ustack_top.as_usize(), 0x7fff_0000);
    assert_eq!(l.ustack_vaddr.as_usize(), 0x7ffe_f000);
    assert_eq!(l.ustack_paddr.as_usize(), 0x9000_0000);
    assert_eq!(l.kstack_top.as_usize(), 0x8030_0ff0);
    assert_eq!(USER_ENTRY_PAGE + 0x234, user_layout(off + 0x234, off, 16).entry_vaddr.as_usize());
    assert_eq!(USER_STACK_TOP - USER_STACK_SIZE, 0x7ffe_f000);
}
