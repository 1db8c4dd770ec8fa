//! Generic address ranges.

use vstd::prelude::*;
use vstd::std_specs::convert::{FromSpec, IntoSpec};
use vstd::string::*;
use crate::addr::{PhysAddr, VirtAddr};
use crate::text::{hex_text, push_hex};

verus! {

/// The `usize` value of an address, as `Into<usize>` gives it.
pub open spec fn addr_usize<A: Into<usize>>(a: A) -> usize {
    a.into_spec()
}

/// The conversions of the address type follow their specifications, and
/// converting a `usize` to an address and back gives the same `usize`.
pub open spec fn addr_conv_lawful<A: From<usize> + Into<usize> + Copy>() -> bool {
    &&& <A as IntoSpec<usize>>::obeys_into_spec()
    &&& <A as FromSpec<usize>>::obeys_from_spec()
    &&& forall|v: usize| #[trigger] addr_usize(A::from_spec(v)) == v
}

/// Virtual and physical addresses convert to and from `usize` faithfully.
pub proof fn lemma_addr_conv_lawful()
    ensures
        addr_conv_lawful::<VirtAddr>(),
        addr_conv_lawful::<PhysAddr>(),
{
}

/// A generic range of addresses.
///
/// The range is inclusive on the start and exclusive on the end.
/// It is empty if `start >= end`.
#[derive(Clone, Copy, Debug, Default, PartialEq, Eq)]
pub struct AddrRange<A> where A: From<usize> + Into<usize> + Copy {
    /// The lower bound of the range (inclusive).
    pub start: A,
    /// The upper bound of the range (exclusive).
    pub end: A,
}

/// A range of virtual addresses.
pub type VirtAddrRange = AddrRange<VirtAddr>;

/// A range of physical addresses.
pub type PhysAddrRange = AddrRange<PhysAddr>;

impl<A> AddrRange<A> where A: From<usize> + Into<usize> + Copy {
    /// The start as a `usize`.
    pub open spec fn lo(self) -> usize {
        addr_usize(self.start)
    }

    /// The end as a `usize`.
    pub open spec fn hi(self) -> usize {
        addr_usize(self.end)
    }

    /// The range holds no address.
    pub open spec fn spec_is_empty(self) -> bool {
        self.lo() >= self.hi()
    }

    /// The range holds the address with value `x`.
    pub open spec fn holds(self, x: int) -> bool {
        self.lo() <= x < self.hi()
    }

    /// Every address in `other` lies in this range, by the bounds.
    pub open spec fn spec_contains_range(self, other: Self) -> bool {
        self.lo() <= other.lo() && other.hi() <= self.hi()
    }

    /// The two ranges share an address.
    pub open spec fn spec_overlaps(self, other: Self) -> bool {
        self.lo() < other.hi() && other.lo() < self.hi()
    }

    /// Creates a new address range.
    pub fn new(start: A, end: A) -> (r: Self)
        ensures
            r.start == start,
            r.end == end,
    {
        Self { start, end }
    }

    /// Creates a new address range from the start address and the size.
    pub fn from_start_size(start: A, size: usize) -> (r: Self)
        requires
            addr_conv_lawful::<A>(),
            addr_usize(start) + size <= usize::MAX,
        ensures
            r.start == start,
            r.hi() == addr_usize(start) + size,
    {
        let s: usize = start.into();
        Self { start, end: A::from(s + size) }
    }

    /// Returns `true` if the range is empty (`start >= end`).
    pub fn is_empty(self) -> (r: bool)
        ensures
            addr_conv_lawful::<A>() ==> r == self.spec_is_empty(),
    {
        let s: usize = self.start.into();
        let e: usize = self.end.into();
        s >= e
    }

    /// Returns the size of the range.
    pub fn size(self) -> (r: usize)
        requires
            addr_conv_lawful::<A>(),
            self.lo() <= self.hi(),
        ensures
            r == self.hi() - self.lo(),
    {
        let e: usize = self.end.into();
        let s: usize = self.start.into();
        e - s
    }

    /// Checks if the range contains the given address.
    pub fn contains(self, addr: A) -> (r: bool)
        ensures
            addr_conv_lawful::<A>() ==> r == self.holds(addr_usize(addr) as int),
    {
        let s: usize = self.start.into();
        let a: usize = addr.into();
        let e: usize = self.end.into();
        s <= a && a < e
    }

    /// Checks if the range contains the given address range.
    pub fn contains_range(self, other: Self) -> (r: bool)
        ensures
            addr_conv_lawful::<A>() ==> r == self.spec_contains_range(other),
    {
        let s: usize = self.start.into();
        let os: usize = other.start.into();
        let oe: usize = other.end.into();
        let e: usize = self.end.into();
        s <= os && oe <= e
    }

    /// Checks if the range is contained in the given address range.
    pub fn contained_in(self, other: Self) -> (r: bool)
        ensures
            addr_conv_lawful::<A>() ==> r == other.spec_contains_range(self),
    {
        other.contains_range(self)
    }

    /// Checks if the range overlaps with the given address range.
    pub fn overlaps(self, other: Self) -> (r: bool)
        ensures
            addr_conv_lawful::<A>() ==> r == self.spec_overlaps(other),
    {
        let s: usize = self.start.into();
        let oe: usize = other.end.into();
        let os: usize = other.start.into();
        let e: usize = self.end.into();
        s < oe && os < e
    }
}

impl<A> AddrRange<A> where A: From<usize> + Into<usize> + Copy {
    /// The debug text of the range: its bounds in hexadecimal, joined by `..`.
    pub open spec fn debug_text(self) -> Seq<char> {
        hex_text(self.lo() as nat) + ".."@ + hex_text(self.hi() as nat)
    }

    /// The debug text of the range: its bounds in hexadecimal, joined by `..`.
    pub fn to_debug_string(self) -> (r: String)
        ensures
            addr_conv_lawful::<A>() ==> r@ == self.debug_text(),
    {
        let s: usize = self.start.into();
        let e: usize = self.end.into();
        let mut t = String::new();
        push_hex(&mut t, s);
        t.append("..");
        push_hex(&mut t, e);
        t
    }
}

impl<A, B> From<core::ops::Range<B>> for AddrRange<A> where
    A: From<usize> + Into<usize> + Copy,
    B: Into<A>,
 {
    fn from(range: core::ops::Range<B>) -> (r: Self) {
        Self::new(range.start.into(), range.end.into())
    }
}

impl<A, B> vstd::std_specs::convert::FromSpecImpl<core::ops::Range<B>> for AddrRange<A> where
    A: From<usize> + Into<usize> + Copy,
    B: Into<A>,
 {
    open spec fn obeys_from_spec() -> bool {
        <B as IntoSpec<A>>::obeys_into_spec()
    }

    open spec fn from_spec(v: core::ops::Range<B>) -> Self {
        AddrRange { start: v.start.into_spec(), end: v.end.into_spec() }
    }
}

/// Overlapping is symmetric.
pub proof fn lemma_overlaps_symmetric<A>(a: AddrRange<A>, b: AddrRange<A>)
    where A: From<usize> + Into<usize> + Copy
    ensures
        a.spec_overlaps(b) == b.spec_overlaps(a),
{
}

/// Two non-empty ranges overlap exactly when some address lies in both.
pub proof fn lemma_overlaps_iff_shared_address<A>(a: AddrRange<A>, b: AddrRange<A>)
    where A: From<usize> + Into<usize> + Copy
    requires
        !a.spec_is_empty(),
        !b.spec_is_empty(),
    ensures
        a.spec_overlaps(b) <==> exists|x: int| a.holds(x) && b.holds(x),
{
    if a.spec_overlaps(b) {
        let x = if a.lo() >= b.lo() { a.lo() as int } else { b.lo() as int };
        assert(a.holds(x) && b.holds(x));
    }
}

/// A range is empty exactly when it holds no address.
pub proof fn lemma_empty_iff_holds_nothing<A>(a: AddrRange<A>)
    where A: From<usize> + Into<usize> + Copy
    ensures
        a.spec_is_empty() <==> forall|x: int| !a.holds(x),
{
    if !a.spec_is_empty() {
        assert(a.holds(a.lo() as int));
    }
}

/// If `a` contains range `b`, every address held by `b` is held by `a`.
pub proof fn lemma_contains_range_holds<A>(a: AddrRange<A>, b: AddrRange<A>, x: int)
    where A: From<usize> + Into<usize> + Copy
    requires
        a.spec_contains_range(b),
        b.holds(x),
    ensures
        a.holds(x),
{
}

/// Containment of ranges is reflexive and transitive.
pub proof fn lemma_contains_range_preorder<A>(a: AddrRange<A>, b: AddrRange<A>, c: AddrRange<A>)
    where A: From<usize> + Into<usize> + Copy
    ensures
        a.spec_contains_range(a),
        a.spec_contains_range(b) && b.spec_contains_range(c) ==> a.spec_contains_range(c),
{
}

/// A range overlaps every non-empty range that it contains.
pub proof fn lemma_contains_nonempty_overlaps<A>(a: AddrRange<A>, b: AddrRange<A>)
    where A: From<usize> + Into<usize> + Copy
    requires
        a.spec_contains_range(b),
        !b.spec_is_empty(),
    ensures
        a.spec_overlaps(b),
{
}

} // verus!
