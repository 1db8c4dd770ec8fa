//! Virtual memory address spaces.

use vstd::prelude::*;
use vstd::string::*;
use crate::addr::{PhysAddr, VirtAddr};
use crate::text::{decimal_digits, hex_text, push_decimal, push_hex};

verus! {

/// Error codes of address-space operations.
#[derive(Clone, Copy, Debug, PartialEq, Eq, Structural)]
pub enum AxError {
    /// Invalid parameter or argument, such as an address out of range.
    InvalidInput,
}

/// The virtual memory address space: a range of virtual addresses and the
/// page table that maps them.
///
/// The page table is held as a value of type `PT`, with the physical
/// address of its root recorded when the address space is made.
pub struct AddrSpace<PT> {
    bounds: Bounds,
    pt: PT,
    pt_root: PhysAddr,
}

/// The virtual address range of an address space.
struct Bounds {
    base: VirtAddr,
    end: VirtAddr,
}

impl Bounds {
    /// The range starts at or before its end.
    #[verifier::type_invariant]
    closed spec fn inv(self) -> bool {
        self.base@ <= self.end@
    }
}

impl<PT> AddrSpace<PT> {
    /// The start of the range, as a `usize`.
    pub closed spec fn lo(&self) -> usize {
        self.bounds.base@
    }

    /// The end of the range, as a `usize`.
    pub closed spec fn hi(&self) -> usize {
        self.bounds.end@
    }

    /// The page table.
    pub closed spec fn table(&self) -> PT {
        self.pt
    }

    /// The physical address of the page table root.
    pub closed spec fn root(&self) -> PhysAddr {
        self.pt_root
    }

    /// The address `x` lies in the space.
    pub open spec fn holds_addr(&self, x: int) -> bool {
        self.lo() <= x < self.hi()
    }

    /// `[start, start + size)` lies inside the space.
    pub open spec fn spec_contains_range(&self, start: usize, size: usize) -> bool {
        self.lo() <= start && start + size <= self.hi()
    }

    /// `[start, start + size)` shares an address with the space.
    pub open spec fn spec_overlaps_with(&self, start: usize, size: usize) -> bool {
        !(start + size <= self.lo() || start >= self.hi())
    }

    /// Creates a new empty address space of `size` bytes from `base`, with
    /// the page table `pt` whose root lies at `pt_root`.
    pub fn new_empty(base: VirtAddr, size: usize, pt: PT, pt_root: PhysAddr) -> (r: Self)
        requires
            base@ + size <= usize::MAX,
        ensures
            r.lo() == base@,
            r.hi() == base@ + size,
            r.table() == pt,
            r.root() == pt_root,
    {
        AddrSpace { bounds: Bounds { base, end: base + size }, pt, pt_root }
    }

    /// Returns the address space base.
    pub fn base(&self) -> (r: VirtAddr)
        ensures
            r@ == self.lo(),
    {
        self.bounds.base
    }

    /// Returns the address space end.
    pub fn end(&self) -> (r: VirtAddr)
        ensures
            r@ == self.hi(),
    {
        self.bounds.end
    }

    /// Returns the address space size.
    pub fn size(&self) -> (r: usize)
        ensures
            r == self.hi() - self.lo(),
    {
        proof {
            use_type_invariant(&self.bounds);
        }
        self.bounds.end.as_usize() - self.bounds.base.as_usize()
    }

    /// Returns the reference to the inner page table.
    pub fn page_table(&self) -> (r: &PT)
        ensures
            *r == self.table(),
    {
        &self.pt
    }

    /// Returns the mutable reference to the inner page table, through which
    /// mappings are added and removed; the range and the recorded root stay.
    pub fn page_table_mut(&mut self) -> (r: &mut PT)
        ensures
            *r == old(self).table(),
            final(self).table() == *final(r),
            final(self).lo() == old(self).lo(),
            final(self).hi() == old(self).hi(),
            final(self).root() == old(self).root(),
    {
        &mut self.pt
    }

    /// Returns the root physical address of the inner page table.
    pub fn page_table_root(&self) -> (r: PhysAddr)
        ensures
            r == self.root(),
    {
        self.pt_root
    }

    /// Checks if the address space contains the given virtual address.
    pub fn contains(&self, addr: VirtAddr) -> (r: bool)
        ensures
            r == (self.lo() <= addr@ && addr@ < self.hi()),
    {
        self.bounds.base.as_usize() <= addr.as_usize() && addr.as_usize() < self.bounds.end.as_usize()
    }

    /// Checks if the address space contains the given virtual address range.
    pub fn contains_range(&self, start: VirtAddr, size: usize) -> (r: bool)
        requires
            start@ + size <= usize::MAX,
        ensures
            r == self.spec_contains_range(start@, size),
    {
        self.bounds.base.as_usize() <= start.as_usize() && start.as_usize() + size <= self.bounds.end.as_usize()
    }

    /// Checks if the address space overlaps with the given virtual address range.
    pub fn overlaps_with(&self, start: VirtAddr, size: usize) -> (r: bool)
        requires
            start@ + size <= usize::MAX,
        ensures
            r == self.spec_overlaps_with(start@, size),
    {
        let end = start.as_usize() + size;
        !(end <= self.bounds.base.as_usize() || start.as_usize() >= self.bounds.end.as_usize())
    }

    /// Decides whether the mappings of `other` may be copied into this space:
    /// refused when the two ranges overlap.
    pub fn check_copy_mappings_from(&self, other: &AddrSpace<PT>) -> (r: Result<(), AxError>)
        ensures
            r is Err <==> self.spec_overlaps_with(other.lo(), (other.hi() - other.lo()) as usize),
            r matches Err(e) ==> e == AxError::InvalidInput,
    {
        proof {
            use_type_invariant(&other.bounds);
        }
        if self.overlaps_with(other.base(), other.size()) {
            return Err(AxError::InvalidInput);
        }
        Ok(())
    }

    /// Decides whether `[start, start + size)` may be mapped or unmapped in
    /// this space: refused when the range is not contained in it.
    pub fn check_range(&self, start: VirtAddr, size: usize) -> (r: Result<(), AxError>)
        requires
            start@ + size <= usize::MAX,
        ensures
            r is Err <==> !self.spec_contains_range(start@, size),
            r matches Err(e) ==> e == AxError::InvalidInput,
    {
        if !self.contains_range(start, size) {
            return Err(AxError::InvalidInput);
        }
        Ok(())
    }
}

impl<PT> AddrSpace<PT> {
    /// The debug text of the address space: its range in decimal and its
    /// page table root in hexadecimal.
    pub open spec fn debug_text(&self) -> Seq<char> {
        "AddrSpace { va_range: "@ + decimal_digits(self.lo() as nat) + ".."@
            + decimal_digits(self.hi() as nat) + ", page_table_root: PA:"@
            + hex_text(self.root()@ as nat) + " }"@
    }

    /// The debug text of the address space: its range and its page table
    /// root.
    pub fn to_debug_string(&self) -> (r: String)
        ensures
            r@ == self.debug_text(),
    {
        let mut s = String::from_str("AddrSpace { va_range: ");
        push_decimal(&mut s, self.bounds.base.as_usize());
        s.append("..");
        push_decimal(&mut s, self.bounds.end.as_usize());
        s.append(", page_table_root: PA:");
        push_hex(&mut s, self.pt_root.as_usize());
        s.append(" }");
        s
    }
}

/// A range lies in an address space exactly when every address of it does.
pub proof fn lemma_contains_range_iff_addresses<PT>(s: AddrSpace<PT>, start: usize, size: usize)
    requires
        size > 0,
    ensures
        s.spec_contains_range(start, size) <==> forall|x: int|
            start <= x < start + size ==> #[trigger] s.holds_addr(x),
{
    if !s.spec_contains_range(start, size) {
        if start < s.lo() {
            assert(!s.holds_addr(start as int));
        } else {
            assert(!s.holds_addr(start + size - 1));
        }
    }
}

/// A range overlaps an address space exactly when it starts before the end
/// of the space and ends after its start.
pub proof fn lemma_overlaps_by_bounds<PT>(s: AddrSpace<PT>, start: usize, size: usize)
    ensures
        s.spec_overlaps_with(start, size) <==> start < s.hi() && s.lo() < start + size,
{
}

/// A non-empty range overlaps a non-empty address space exactly when some
/// address of the range lies in the space.
pub proof fn lemma_overlaps_iff_shared_address<PT>(s: AddrSpace<PT>, start: usize, size: usize)
    requires
        size > 0,
        s.lo() < s.hi(),
    ensures
        s.spec_overlaps_with(start, size) <==> exists|x: int|
            start <= x < start + size && #[trigger] s.holds_addr(x),
{
    if s.spec_overlaps_with(start, size) {
        let x: int = if start >= s.lo() { start as int } else { s.lo() as int };
        assert(start <= x < start + size && s.holds_addr(x));
    }
}

/// A range that an address space contains overlaps it, unless it is empty.
pub proof fn lemma_contained_range_overlaps<PT>(s: AddrSpace<PT>, start: usize, size: usize)
    requires
        s.spec_contains_range(start, size),
        size > 0,
    ensures
        s.spec_overlaps_with(start, size),
{
}

} // verus!
