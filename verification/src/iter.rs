//! Page-by-page iteration over a virtual address range.

use vstd::prelude::*;
use vstd::arithmetic::power2::is_pow2;
use crate::addr::{VirtAddr, aligned, is_power_of_two, lemma_pow2_positive, PAGE_SIZE_4K};

verus! {

/// A page-by-page iterator.
///
/// The page size is specified by the generic parameter `PAGE_SIZE`, which must
/// be a power of 2.
pub struct PageIter<const PAGE_SIZE: usize> {
    start: VirtAddr,
    end: VirtAddr,
}

/// A page iterator for 4K pages.
pub type PageIter4K = PageIter<PAGE_SIZE_4K>;

impl<const PAGE_SIZE: usize> PageIter<PAGE_SIZE> {
    /// The page size is a power of two and both bounds are page-aligned.
    #[verifier::type_invariant]
    closed spec fn inv(self) -> bool {
        &&& is_pow2(PAGE_SIZE as int)
        &&& aligned(self.start@ as int, PAGE_SIZE as int)
        &&& aligned(self.end@ as int, PAGE_SIZE as int)
    }

    /// The address that the next call of `next` yields, if any.
    pub closed spec fn cur(&self) -> usize {
        self.start@
    }

    /// The end of the iterated range (exclusive).
    pub closed spec fn stop(&self) -> usize {
        self.end@
    }

    /// The page size is a power of two and both bounds are page-aligned.
    pub open spec fn well_formed(&self) -> bool {
        &&& is_pow2(PAGE_SIZE as int)
        &&& aligned(self.cur() as int, PAGE_SIZE as int)
        &&& aligned(self.stop() as int, PAGE_SIZE as int)
    }

    /// The page addresses still to come, in the order `next` yields them:
    /// the current address and each following page start below the end.
    pub open spec fn remaining(&self) -> Seq<int> {
        Seq::new(self.pages_left(), |j: int| self.cur() + j * (PAGE_SIZE as int))
    }

    /// How many pages are still to come.
    pub open spec fn pages_left(&self) -> nat {
        if self.cur() < self.stop() {
            ((self.stop() - self.cur()) / (PAGE_SIZE as int)) as nat
        } else {
            0
        }
    }

    /// Creates a new [`PageIter`].
    ///
    /// Returns `None` if `PAGE_SIZE` is not a power of 2, or `start` or `end`
    /// is not page-aligned.
    pub fn new(start: VirtAddr, end: VirtAddr) -> (r: Option<Self>)
        ensures
            r is Some <==> is_pow2(PAGE_SIZE as int) && aligned(start@ as int, PAGE_SIZE as int)
                && aligned(end@ as int, PAGE_SIZE as int),
            r matches Some(it) ==> it.cur() == start@ && it.stop() == end@ && it.well_formed(),
    {
        if !is_power_of_two(PAGE_SIZE) || !start.is_aligned(PAGE_SIZE) || !end.is_aligned(
            PAGE_SIZE,
        ) {
            None
        } else {
            Some(Self { start, end })
        }
    }

    /// Yields the next page address, or `None` once the end is reached.
    ///
    /// Each call that yields a page takes it from the front of
    /// `remaining()`; once that is empty, every call yields `None` and
    /// leaves the iterator as it was.
    pub fn next(&mut self) -> (r: Option<VirtAddr>)
        ensures
            old(self).well_formed(),
            final(self).well_formed(),
            final(self).stop() == old(self).stop(),
            old(self).remaining().len() > 0 ==> r == Some(VirtAddr(old(self).cur()))
                && old(self).remaining()[0] == old(self).cur()
                && final(self).remaining() == old(self).remaining().drop_first(),
            old(self).remaining().len() == 0 ==> r is None && *final(self) == *old(self),
            old(self).cur() < old(self).stop() ==> {
                &&& r == Some(VirtAddr(old(self).cur()))
                &&& final(self).cur() == old(self).cur() + PAGE_SIZE
                &&& aligned(old(self).cur() as int, PAGE_SIZE as int)
                &&& final(self).pages_left() + 1 == old(self).pages_left()
            },
            old(self).cur() >= old(self).stop() ==> r is None && final(self).cur() == old(self).cur()
                && final(self).pages_left() == 0,
    {
        proof {
            use_type_invariant(&*self);
            lemma_pow2_positive(PAGE_SIZE as int);
        }
        if self.start.as_usize() < self.end.as_usize() {
            let ret = self.start;
            let ghost before = *self;
            proof {
                lemma_next_page_fits(self.start@ as int, self.end@ as int, PAGE_SIZE as int);
            }
            self.start = VirtAddr::from(self.start.as_usize() + PAGE_SIZE);
            proof {
                let p = PAGE_SIZE as int;
                assert forall|j: int| 0 <= j < self.remaining().len() implies self.remaining()[j]
                    == before.remaining().drop_first()[j] by {
                    assert((j + 1) * p == j * p + p) by (nonlinear_arith);
                }
                assert(self.remaining() =~= before.remaining().drop_first());
            }
            Some(ret)
        } else {
            None
        }
    }
}

/// The pages that a well-formed iterator still yields are page-aligned,
/// below its end and one page apart; the last of them ends exactly at the
/// end.
pub proof fn lemma_remaining_pages<const PAGE_SIZE: usize>(it: PageIter<PAGE_SIZE>)
    requires
        it.well_formed(),
    ensures
        forall|j: int|
            0 <= j < it.remaining().len() ==> aligned(#[trigger] it.remaining()[j], PAGE_SIZE as int)
                && it.remaining()[j] < it.stop(),
        forall|j: int|
            0 <= j < it.remaining().len() - 1 ==> #[trigger] it.remaining()[j + 1] == it.remaining()[j]
                + PAGE_SIZE,
        it.remaining().len() > 0 ==> it.remaining().last() + PAGE_SIZE == it.stop(),
        it.cur() >= it.stop() ==> it.remaining().len() == 0,
{
    let p = PAGE_SIZE as int;
    let c = it.cur() as int;
    let e = it.stop() as int;
    lemma_pow2_positive(p);
    if c < e {
        let k = (e - c) / p;
        vstd::arithmetic::div_mod::lemma_fundamental_div_mod(c, p);
        vstd::arithmetic::div_mod::lemma_fundamental_div_mod(e, p);
        let qc = c / p;
        let qe = e / p;
        assert(qc < qe && e - c == (qe - qc) * p) by (nonlinear_arith)
            requires
                c == p * qc,
                e == p * qe,
                c < e,
                p > 0,
        ;
        vstd::arithmetic::div_mod::lemma_div_by_multiple(qe - qc, p);
        assert(k == qe - qc);
        assert forall|j: int| 0 <= j < it.remaining().len() implies aligned(
            #[trigger] it.remaining()[j],
            p,
        ) && it.remaining()[j] < e by {
            assert(c + j * p == (qc + j) * p) by (nonlinear_arith)
                requires
                    c == p * qc,
            ;
            vstd::arithmetic::div_mod::lemma_mod_multiples_basic(qc + j, p);
            assert(j * p < k * p) by (nonlinear_arith)
                requires
                    0 <= j < k,
                    p > 0,
            ;
        }
        assert forall|j: int| 0 <= j < it.remaining().len() - 1 implies #[trigger] it.remaining()[j + 1]
            == it.remaining()[j] + p by {
            assert((j + 1) * p == j * p + p) by (nonlinear_arith);
        }
        assert(c + (k - 1) * p + p == e) by (nonlinear_arith)
            requires
                e - c == k * p,
        ;
    }
}

/// Between two distinct multiples of `p`, the lower one plus `p` does not
/// pass the upper one, and one page fewer remains.
proof fn lemma_next_page_fits(s: int, e: int, p: int)
    requires
        p > 0,
        s < e,
        s % p == 0,
        e % p == 0,
    ensures
        s + p <= e,
        (s + p) % p == 0,
        (e - (s + p)) / p + 1 == (e - s) / p,
{
    vstd::arithmetic::div_mod::lemma_fundamental_div_mod(s, p);
    vstd::arithmetic::div_mod::lemma_fundamental_div_mod(e, p);
    let qs = s / p;
    let qe = e / p;
    assert(qs < qe) by (nonlinear_arith)
        requires
            s == p * qs,
            e == p * qe,
            s < e,
            p > 0,
    ;
    assert(s + p <= e) by (nonlinear_arith)
        requires
            s == p * qs,
            e == p * qe,
            qs + 1 <= qe,
            p > 0,
    ;
    vstd::arithmetic::div_mod::lemma_mod_add_multiples_vanish(s, p);
    assert(e - s == (qe - qs) * p) by (nonlinear_arith)
        requires
            s == p * qs,
            e == p * qe,
    ;
    assert(e - (s + p) == (qe - qs - 1) * p) by (nonlinear_arith)
        requires
            s == p * qs,
            e == p * qe,
    ;
    vstd::arithmetic::div_mod::lemma_div_by_multiple(qe - qs, p);
    vstd::arithmetic::div_mod::lemma_div_by_multiple(qe - qs - 1, p);
}

} // verus!
