//! Comparison of shortest-job-first tasks: by expected run time, then by id.

use vstd::prelude::*;
use core::cmp::Ordering;
use vstd::std_specs::cmp::PartialOrdSpec;
use crate::sjf::{SJFTask, key_lt};

verus! {

/// The order of two task keys, lexicographic on (expected run time, id).
pub open spec fn key_order(a: (isize, isize), b: (isize, isize)) -> Ordering {
    if key_lt(a, b) {
        Ordering::Less
    } else if key_lt(b, a) {
        Ordering::Greater
    } else {
        Ordering::Equal
    }
}

impl<T, const A: usize, const LOGB: usize> SJFTask<T, A, LOGB> {
    /// Compares two tasks by expected run time, breaking ties by id.
    pub fn cmp(&self, other: &Self) -> (r: Ordering)
        ensures
            r == key_order(self.key(), other.key()),
    {
        let a = self.get_expect_runtime();
        let b = other.get_expect_runtime();
        let a_id = self.get_id();
        let b_id = other.get_id();
        if a < b {
            Ordering::Less
        } else if a > b {
            Ordering::Greater
        } else if a_id < b_id {
            Ordering::Less
        } else if a_id > b_id {
            Ordering::Greater
        } else {
            Ordering::Equal
        }
    }
}

impl<T, const A: usize, const LOGB: usize> PartialEq for SJFTask<T, A, LOGB> {
    /// Two tasks are equal when their expected run times are equal.
    fn eq(&self, other: &Self) -> (r: bool) {
        self.get_expect_runtime() == other.get_expect_runtime()
    }
}

impl<T, const A: usize, const LOGB: usize> vstd::std_specs::cmp::PartialEqSpecImpl for SJFTask<T, A, LOGB> {
    open spec fn obeys_eq_spec() -> bool {
        true
    }

    open spec fn eq_spec(&self, other: &Self) -> bool {
        self.expect() == other.expect()
    }
}

impl<T, const A: usize, const LOGB: usize> Eq for SJFTask<T, A, LOGB> {

}

impl<T, const A: usize, const LOGB: usize> PartialOrd for SJFTask<T, A, LOGB> {
    fn partial_cmp(&self, other: &Self) -> (r: Option<Ordering>) {
        let a = self.get_expect_runtime();
        let b = other.get_expect_runtime();
        let a_id = self.get_id();
        let b_id = other.get_id();
        if a < b {
            Some(Ordering::Less)
        } else if a > b {
            Some(Ordering::Greater)
        } else if a_id < b_id {
            Some(Ordering::Less)
        } else if a_id > b_id {
            Some(Ordering::Greater)
        } else {
            Some(Ordering::Equal)
        }
    }
}

impl<T, const A: usize, const LOGB: usize> vstd::std_specs::cmp::PartialOrdSpecImpl for SJFTask<T, A, LOGB> {
    open spec fn obeys_partial_cmp_spec() -> bool {
        true
    }

    open spec fn partial_cmp_spec(&self, other: &Self) -> Option<Ordering> {
        Some(key_order(self.key(), other.key()))
    }
}

/// Tasks are ordered by expected run time first: a task expected to run
/// shorter comes first whatever the ids, and only tasks expected to run
/// equally long are ordered by id. `cmp` and `partial_cmp` agree.
pub proof fn lemma_order_by_runtime_then_id<T, const A: usize, const LOGB: usize>(
    a: SJFTask<T, A, LOGB>,
    b: SJFTask<T, A, LOGB>,
)
    ensures
        a.expect() < b.expect() ==> key_order(a.key(), b.key()) == Ordering::Less,
        a.expect() > b.expect() ==> key_order(a.key(), b.key()) == Ordering::Greater,
        a.expect() == b.expect() && a.id() < b.id() ==> key_order(a.key(), b.key())
            == Ordering::Less,
        a.expect() == b.expect() && a.id() > b.id() ==> key_order(a.key(), b.key())
            == Ordering::Greater,
        a.expect() == b.expect() && a.id() == b.id() ==> key_order(a.key(), b.key())
            == Ordering::Equal,
        a.partial_cmp_spec(&b) == Some(key_order(a.key(), b.key())),
{
}

impl<T, const A: usize, const LOGB: usize> core::ops::Deref for SJFTask<T, A, LOGB> {
    type Target = T;

    /// Returns a reference to the wrapped task.
    fn deref(&self) -> (r: &T)
        ensures
            *r == self.inner_spec(),
    {
        self.inner()
    }
}

} // verus!
