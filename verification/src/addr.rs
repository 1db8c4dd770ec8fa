//! Physical and virtual memory addresses and alignment helpers.

use vstd::prelude::*;
use vstd::arithmetic::power2::is_pow2;

verus! {

/// The size of a 4K page (4096 bytes).
pub const PAGE_SIZE_4K: usize = 0x1000;

/// `addr` is a multiple of `align`.
pub open spec fn aligned(addr: int, align: int) -> bool {
    addr % align == 0
}

/// The greatest multiple of `align` that is not above `addr`.
pub open spec fn align_down_spec(addr: int, align: int) -> int {
    addr - addr % align
}

/// The smallest multiple of `align` that is not below `addr`.
pub open spec fn align_up_spec(addr: int, align: int) -> int {
    if addr % align == 0 {
        addr
    } else {
        addr - addr % align + align
    }
}

/// 4096 is a power of two.
pub proof fn lemma_page_size_4k_is_pow2()
    ensures
        is_pow2(PAGE_SIZE_4K as int),
{
    reveal_with_fuel(is_pow2, 14);
}

/// A power of two is positive.
pub proof fn lemma_pow2_positive(n: int)
    requires
        is_pow2(n),
    ensures
        n > 0,
{
    reveal(is_pow2);
}

/// Returns `true` if and only if `n` is a power of two.
pub fn is_power_of_two(n: usize) -> (r: bool)
    ensures
        r == is_pow2(n as int),
{
    reveal(is_pow2);
    if n == 0 {
        return false;
    }
    let mut m: usize = n;
    while m > 1
        invariant
            1 <= m <= n,
            is_pow2(m as int) == is_pow2(n as int),
        decreases m,
    {
        reveal(is_pow2);
        if m % 2 != 0 {
            assert(!is_pow2(m as int));
            return false;
        }
        assert(is_pow2(m as int) == is_pow2((m / 2) as int));
        m = m / 2;
    }
    assert(is_pow2(1));
    true
}

/// Aligns `addr` downwards to `align`.
///
/// Returns the greatest `x` with alignment `align` so that `x <= addr`.
/// The alignment must be a power of two.
pub fn align_down(addr: usize, align: usize) -> (r: usize)
    requires
        is_pow2(align as int),
    ensures
        r == align_down_spec(addr as int, align as int),
        aligned(r as int, align as int),
        r <= addr,
        addr - r < align,
{
    proof {
        lemma_pow2_positive(align as int);
        vstd::arithmetic::div_mod::lemma_fundamental_div_mod(addr as int, align as int);
        vstd::arithmetic::div_mod::lemma_mod_multiples_basic((addr / align) as int, align as int);
        assert(addr - addr % align == (addr / align) * align) by (nonlinear_arith)
            requires
                addr == align * (addr / align) + addr % align,
        ;
    }
    addr - addr % align
}

/// Aligns `addr` upwards to `align`.
///
/// Returns the smallest `x` with alignment `align` so that `x >= addr`.
/// The alignment must be a power of two, and `addr + align - 1` must not
/// overflow.
pub fn align_up(addr: usize, align: usize) -> (r: usize)
    requires
        is_pow2(align as int),
        addr + align - 1 <= usize::MAX,
    ensures
        r == align_up_spec(addr as int, align as int),
        aligned(r as int, align as int),
        r >= addr,
        r - addr < align,
{
    proof {
        lemma_pow2_positive(align as int);
    }
    let off = addr % align;
    if off == 0 {
        addr
    } else {
        proof {
            vstd::arithmetic::div_mod::lemma_fundamental_div_mod(addr as int, align as int);
            vstd::arithmetic::div_mod::lemma_mod_multiples_basic((addr / align + 1) as int, align as int);
            assert(addr - off + align == (addr / align + 1) * align) by (nonlinear_arith)
                requires
                    addr == align * (addr / align) + off,
            ;
        }
        addr - off + align
    }
}

/// Returns the offset of `addr` within the alignment `align`.
///
/// Equivalent to `addr % align`; the alignment must be a power of two.
pub fn align_offset(addr: usize, align: usize) -> (r: usize)
    requires
        is_pow2(align as int),
    ensures
        r == addr % align,
        r < align,
{
    proof {
        lemma_pow2_positive(align as int);
    }
    addr % align
}

/// Checks whether `addr` has the demanded alignment.
///
/// Equivalent to `addr % align == 0`; the alignment must be a power of two.
pub fn is_aligned(addr: usize, align: usize) -> (r: bool)
    requires
        is_pow2(align as int),
    ensures
        r == aligned(addr as int, align as int),
{
    align_offset(addr, align) == 0
}


/// A physical memory address. It's a wrapper type around an `usize`.
#[derive(Clone, Copy, Debug, Default, PartialEq, Eq, Structural)]
pub struct PhysAddr(pub usize);

/// A virtual memory address. It's a wrapper type around an `usize`.
#[derive(Clone, Copy, Debug, Default, PartialEq, Eq, Structural)]
pub struct VirtAddr(pub usize);

impl View for PhysAddr {
    type V = usize;

    open spec fn view(&self) -> usize {
        self.0
    }
}

impl View for VirtAddr {
    type V = usize;

    open spec fn view(&self) -> usize {
        self.0
    }
}

impl PhysAddr {
    /// Converts an `usize` to a physical address.
    pub fn from(addr: usize) -> (r: Self)
        ensures
            r@ == addr,
    {
        Self(addr)
    }

    /// Converts the address to an `usize`.
    pub fn as_usize(self) -> (r: usize)
        ensures
            r == self@,
    {
        self.0
    }

    /// Aligns the address downwards to the given alignment.
    pub fn align_down(self, align: usize) -> (r: Self)
        requires
            is_pow2(align as int),
        ensures
            r@ == align_down_spec(self@ as int, align as int),
    {
        Self(align_down(self.0, align))
    }

    /// Aligns the address upwards to the given alignment.
    pub fn align_up(self, align: usize) -> (r: Self)
        requires
            is_pow2(align as int),
            self@ + align - 1 <= usize::MAX,
        ensures
            r@ == align_up_spec(self@ as int, align as int),
    {
        Self(align_up(self.0, align))
    }

    /// Returns the offset of the address within the given alignment.
    pub fn align_offset(self, align: usize) -> (r: usize)
        requires
            is_pow2(align as int),
        ensures
            r == self@ % align,
    {
        align_offset(self.0, align)
    }

    /// Checks whether the address has the demanded alignment.
    pub fn is_aligned(self, align: usize) -> (r: bool)
        requires
            is_pow2(align as int),
        ensures
            r == aligned(self@ as int, align as int),
    {
        is_aligned(self.0, align)
    }

    /// Aligns the address downwards to 4096 (bytes).
    pub fn align_down_4k(self) -> (r: Self)
        ensures
            r@ == align_down_spec(self@ as int, PAGE_SIZE_4K as int),
    {
        proof {
            lemma_page_size_4k_is_pow2();
        }
        self.align_down(PAGE_SIZE_4K)
    }

    /// Aligns the address upwards to 4096 (bytes).
    pub fn align_up_4k(self) -> (r: Self)
        requires
            self@ + PAGE_SIZE_4K - 1 <= usize::MAX,
        ensures
            r@ == align_up_spec(self@ as int, PAGE_SIZE_4K as int),
    {
        proof {
            lemma_page_size_4k_is_pow2();
        }
        self.align_up(PAGE_SIZE_4K)
    }

    /// Returns the offset of the address within a 4K-sized page.
    pub fn align_offset_4k(self) -> (r: usize)
        ensures
            r == self@ % PAGE_SIZE_4K,
    {
        proof {
            lemma_page_size_4k_is_pow2();
        }
        self.align_offset(PAGE_SIZE_4K)
    }

    /// Checks whether the address is 4K-aligned.
    pub fn is_aligned_4k(self) -> (r: bool)
        ensures
            r == aligned(self@ as int, PAGE_SIZE_4K as int),
    {
        proof {
            lemma_page_size_4k_is_pow2();
        }
        self.is_aligned(PAGE_SIZE_4K)
    }
}

impl VirtAddr {
    /// Converts an `usize` to a virtual address.
    pub fn from(addr: usize) -> (r: Self)
        ensures
            r@ == addr,
    {
        Self(addr)
    }

    /// Converts the address to an `usize`.
    pub fn as_usize(self) -> (r: usize)
        ensures
            r == self@,
    {
        self.0
    }

    /// Aligns the address downwards to the given alignment.
    pub fn align_down(self, align: usize) -> (r: Self)
        requires
            is_pow2(align as int),
        ensures
            r@ == align_down_spec(self@ as int, align as int),
    {
        Self(align_down(self.0, align))
    }

    /// Aligns the address upwards to the given alignment.
    pub fn align_up(self, align: usize) -> (r: Self)
        requires
            is_pow2(align as int),
            self@ + align - 1 <= usize::MAX,
        ensures
            r@ == align_up_spec(self@ as int, align as int),
    {
        Self(align_up(self.0, align))
    }

    /// Returns the offset of the address within the given alignment.
    pub fn align_offset(self, align: usize) -> (r: usize)
        requires
            is_pow2(align as int),
        ensures
            r == self@ % align,
    {
        align_offset(self.0, align)
    }

    /// Checks whether the address has the demanded alignment.
    pub fn is_aligned(self, align: usize) -> (r: bool)
        requires
            is_pow2(align as int),
        ensures
            r == aligned(self@ as int, align as int),
    {
        is_aligned(self.0, align)
    }

    /// Aligns the address downwards to 4096 (bytes).
    pub fn align_down_4k(self) -> (r: Self)
        ensures
            r@ == align_down_spec(self@ as int, PAGE_SIZE_4K as int),
    {
        proof {
            lemma_page_size_4k_is_pow2();
        }
        self.align_down(PAGE_SIZE_4K)
    }

    /// Aligns the address upwards to 4096 (bytes).
    pub fn align_up_4k(self) -> (r: Self)
        requires
            self@ + PAGE_SIZE_4K - 1 <= usize::MAX,
        ensures
            r@ == align_up_spec(self@ as int, PAGE_SIZE_4K as int),
    {
        proof {
            lemma_page_size_4k_is_pow2();
        }
        self.align_up(PAGE_SIZE_4K)
    }

    /// Returns the offset of the address within a 4K-sized page.
    pub fn align_offset_4k(self) -> (r: usize)
        ensures
            r == self@ % PAGE_SIZE_4K,
    {
        proof {
            lemma_page_size_4k_is_pow2();
        }
        self.align_offset(PAGE_SIZE_4K)
    }

    /// Checks whether the address is 4K-aligned.
    pub fn is_aligned_4k(self) -> (r: bool)
        ensures
            r == aligned(self@ as int, PAGE_SIZE_4K as int),
    {
        proof {
            lemma_page_size_4k_is_pow2();
        }
        self.is_aligned(PAGE_SIZE_4K)
    }
}

impl From<usize> for PhysAddr {
    fn from(addr: usize) -> (r: Self) {
        Self(addr)
    }
}

impl vstd::std_specs::convert::FromSpecImpl<usize> for PhysAddr {
    open spec fn obeys_from_spec() -> bool {
        true
    }

    open spec fn from_spec(v: usize) -> Self {
        PhysAddr(v)
    }
}

impl From<usize> for VirtAddr {
    fn from(addr: usize) -> (r: Self) {
        Self(addr)
    }
}

impl vstd::std_specs::convert::FromSpecImpl<usize> for VirtAddr {
    open spec fn obeys_from_spec() -> bool {
        true
    }

    open spec fn from_spec(v: usize) -> Self {
        VirtAddr(v)
    }
}

impl From<PhysAddr> for usize {
    fn from(addr: PhysAddr) -> (r: usize) {
        addr.0
    }
}

impl vstd::std_specs::convert::FromSpecImpl<PhysAddr> for usize {
    open spec fn obeys_from_spec() -> bool {
        true
    }

    open spec fn from_spec(v: PhysAddr) -> usize {
        v.0
    }
}

impl From<VirtAddr> for usize {
    fn from(addr: VirtAddr) -> (r: usize) {
        addr.0
    }
}

impl vstd::std_specs::convert::FromSpecImpl<VirtAddr> for usize {
    open spec fn obeys_from_spec() -> bool {
        true
    }

    open spec fn from_spec(v: VirtAddr) -> usize {
        v.0
    }
}

impl core::ops::Add<usize> for VirtAddr {
    type Output = Self;

    fn add(self, rhs: usize) -> (r: Self) {
        Self(self.0 + rhs)
    }
}

impl vstd::std_specs::ops::AddSpecImpl<usize> for VirtAddr {
    open spec fn obeys_add_spec() -> bool {
        true
    }

    open spec fn add_req(self, rhs: usize) -> bool {
        self.0 + rhs <= usize::MAX
    }

    open spec fn add_spec(self, rhs: usize) -> Self {
        VirtAddr((self.0 + rhs) as usize)
    }
}

impl core::ops::Sub<usize> for VirtAddr {
    type Output = Self;

    fn sub(self, rhs: usize) -> (r: Self) {
        Self(self.0 - rhs)
    }
}

impl vstd::std_specs::ops::SubSpecImpl<usize> for VirtAddr {
    open spec fn obeys_sub_spec() -> bool {
        true
    }

    open spec fn sub_req(self, rhs: usize) -> bool {
        self.0 >= rhs
    }

    open spec fn sub_spec(self, rhs: usize) -> Self {
        VirtAddr((self.0 - rhs) as usize)
    }
}

impl core::ops::Add<usize> for PhysAddr {
    type Output = Self;

    fn add(self, rhs: usize) -> (r: Self) {
        Self(self.0 + rhs)
    }
}

impl vstd::std_specs::ops::AddSpecImpl<usize> for PhysAddr {
    open spec fn obeys_add_spec() -> bool {
        true
    }

    open spec fn add_req(self, rhs: usize) -> bool {
        self.0 + rhs <= usize::MAX
    }

    open spec fn add_spec(self, rhs: usize) -> Self {
        PhysAddr((self.0 + rhs) as usize)
    }
}

impl core::ops::Sub<usize> for PhysAddr {
    type Output = Self;

    fn sub(self, rhs: usize) -> (r: Self) {
        Self(self.0 - rhs)
    }
}

impl vstd::std_specs::ops::SubSpecImpl<usize> for PhysAddr {
    open spec fn obeys_sub_spec() -> bool {
        true
    }

    open spec fn sub_req(self, rhs: usize) -> bool {
        self.0 >= rhs
    }

    open spec fn sub_spec(self, rhs: usize) -> Self {
        PhysAddr((self.0 - rhs) as usize)
    }
}

} // verus!
