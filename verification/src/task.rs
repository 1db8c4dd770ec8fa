//! Task extended data: per-task data of the monolithic kernel, and the
//! traits through which a task reaches its extended data.

use vstd::prelude::*;
use crate::addr::PhysAddr;

verus! {

/// A trait to convert a task's extended-data pointer to a reference of the
/// concrete type.
pub trait TaskExtRef<T: Sized> {
    /// Get a reference to the task extended data.
    fn task_ext(&self) -> &T;
}

/// A trait to convert a task's extended-data pointer to a mutable reference
/// of the concrete type.
pub trait TaskExtMut<T: Sized> {
    /// Get a mutable reference to the task extended data.
    fn task_ext_mut(&mut self) -> &mut T;
}

/// The address space of a process, known by the root of its page table.
#[derive(Clone, Copy, Debug, PartialEq, Eq, Structural)]
pub struct AddrSpace(pub PhysAddr);

impl AddrSpace {
    /// Returns the physical address of the page table root.
    pub fn page_table_root(&self) -> (r: PhysAddr)
        ensures
            r == self.0,
    {
        self.0
    }
}

/// The process ID that every task of the monolithic kernel starts with.
pub const INIT_PROC_ID: usize = 233;

/// Task extended data for the monolithic kernel: the process ID, the user
/// space context `C` and the shared handle `S` of the address space.
pub struct TaskExt<C, S> {
    /// The process ID.
    pub proc_id: usize,
    /// The user space context.
    pub uctx: C,
    /// The virtual memory address space.
    pub aspace: S,
}

impl<C, S> TaskExt<C, S> {
    /// Creates the extended data of a task with the given user context and
    /// address space, under the initial process ID.
    pub fn new(uctx: C, aspace: S) -> (r: Self)
        ensures
            r.proc_id == INIT_PROC_ID,
            r.uctx == uctx,
            r.aspace == aspace,
    {
        Self { proc_id: INIT_PROC_ID, uctx, aspace }
    }
}

} // verus!
