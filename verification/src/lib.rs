//! Verified core of a small modular kernel: memory addresses and ranges,
//! page iteration, a shortest-job-first scheduler, address spaces, trap
//! decoding and ELF segment loading.

pub mod addr;
pub mod sjf;
pub mod sjf_order;
pub mod range;
pub mod iter;
pub mod flags;
pub mod trap;
pub mod mem;
pub mod aspace;
pub mod backend;
pub mod task;
pub mod elf;
pub mod text;
pub mod uspace;
