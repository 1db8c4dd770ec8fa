//! Where the first user application is placed in its address space: its
//! entry page, its stack, and the kernel stack it returns to.

use vstd::prelude::*;
use vstd::arithmetic::power2::is_pow2;
use crate::addr::{align_down_spec, PhysAddr, VirtAddr, PAGE_SIZE_4K};
use crate::mem::{phys_virt_offset_spec, virt_to_phys};

verus! {

/// The size of the user stack.
pub const USER_STACK_SIZE: usize = 4096;

/// The user virtual address at which the page holding the entry is mapped.
pub const USER_ENTRY_PAGE: usize = 0x1000;

/// The top of the user stack.
pub const USER_STACK_TOP: usize = 0x7fff_0000;

/// The places of the user application in memory.
pub struct UserLayout {
    /// The user page that holds the entry.
    pub entry_vaddr_align: VirtAddr,
    /// The physical frame that holds the entry.
    pub entry_paddr_align: PhysAddr,
    /// The entry, as the user sees it.
    pub entry_vaddr: VirtAddr,
    /// The lowest address of the user stack.
    pub ustack_vaddr: VirtAddr,
    /// The physical frame of the user stack.
    pub ustack_paddr: PhysAddr,
    /// The top of the user stack.
    pub ustack_top: VirtAddr,
    /// The kernel stack top to return to, aligned down to 16 bytes.
    pub kstack_top: VirtAddr,
}

/// Places the application whose code starts at the kernel virtual address
/// `entry`, with its stack in the kernel memory at `ustack` and the kernel
/// stack pointer `kstack`: the page of the entry is mapped at
/// `USER_ENTRY_PAGE`, keeping the entry's offset in its page, and the stack
/// ends at `USER_STACK_TOP`.
pub fn user_layout(entry: usize, ustack: usize, kstack: usize) -> (r: UserLayout)
    requires
        align_down_spec(entry as int, PAGE_SIZE_4K as int) >= phys_virt_offset_spec(),
        ustack >= phys_virt_offset_spec(),
    ensures
        r.entry_vaddr_align@ == USER_ENTRY_PAGE,
        r.entry_paddr_align@ == align_down_spec(entry as int, PAGE_SIZE_4K as int)
            - phys_virt_offset_spec(),
        r.entry_vaddr@ == USER_ENTRY_PAGE + entry % PAGE_SIZE_4K,
        r.ustack_vaddr@ == USER_STACK_TOP - USER_STACK_SIZE,
        r.ustack_paddr@ == ustack - phys_virt_offset_spec(),
        r.ustack_top@ == USER_STACK_TOP,
        r.kstack_top@ == align_down_spec(kstack as int, 16),
{
    let e = VirtAddr::from(entry);
    let entry_paddr_align = virt_to_phys(e.align_down_4k());
    let entry_vaddr_align = VirtAddr::from(USER_ENTRY_PAGE);
    let entry_vaddr = VirtAddr::from(USER_ENTRY_PAGE + e.align_offset_4k());
    let ustack_paddr = virt_to_phys(VirtAddr::from(ustack));
    let ustack_top = VirtAddr::from(USER_STACK_TOP);
    let ustack_vaddr = VirtAddr::from(USER_STACK_TOP - USER_STACK_SIZE);
    proof {
        reveal_with_fuel(is_pow2, 6);
    }
    let kstack_top = VirtAddr::from(kstack).align_down(16);
    UserLayout {
        entry_vaddr_align,
        entry_paddr_align,
        entry_vaddr,
        ustack_vaddr,
        ustack_paddr,
        ustack_top,
        kstack_top,
    }
}

} // verus!
