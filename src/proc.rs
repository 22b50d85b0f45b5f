//! What the library knows of a target process: its class, its loaded
//! libraries and their symbols, and the parsers of its per-process files.

use vstd::prelude::*;

verus! {

/// A virtual address in the target process.
pub type VirtAddr = u64;

/// A user id.
pub type Uid = u32;

/// A group id.
pub type Gid = u32;

/// A process or thread id.
pub type ProcId = u32;

/// The class of a process: whether it runs in 32-bit or in 64-bit mode.
#[derive(Clone, Copy, PartialEq, Eq, Debug)]
pub enum ProcClass {
    ThirtyTwo,
    SixtyFour,
}

/// A symbol of a library loaded in the target process.
#[derive(Clone, Copy, PartialEq, Eq, Debug)]
pub struct ProcSym {
    /// The virtual address of the symbol.
    pub addr: VirtAddr,
}

impl ProcSym {
    /// Creates a symbol located at `addr`.
    pub fn new(addr: VirtAddr) -> (r: Self)
        ensures
            r.addr == addr,
    {
        ProcSym { addr }
    }
}

/// A shared library loaded in the target process.
#[derive(Clone, Debug)]
pub struct ProcLib {
    /// The virtual address of the first byte of the mapping.
    pub base_addr: VirtAddr,
    /// The bytes of the path of the file backing the mapping.
    pub path: Vec<u8>,
}

impl ProcLib {
    /// Creates a library loaded at `base_addr` from the file at `path`.
    pub fn new(base_addr: VirtAddr, path: Vec<u8>) -> (r: Self)
        ensures
            r.base_addr == base_addr,
            r.path@ == path@,
    {
        ProcLib { base_addr, path }
    }
}

} // verus!
