//! Executable loading and address-space bookkeeping for a monolithic kernel:
//! a validating ELF64 parser, the set of mapped areas of one address space,
//! and the `mmap` system call that places new areas in it.
use vstd::prelude::*;

pub mod address;
pub mod alignment;
pub mod elf;
pub mod error;
pub mod mmap;
pub mod vm;

verus! {

} // verus!
