//! Allocations as plain machine words: a process handle paired with the base
//! address of a region in that process.

use vstd::prelude::*;
use vstd::std_specs::convert::FromSpecImpl;

verus! {

/// The machine-word sum `a + o`, wrapping past the top of the address space.
pub open spec fn word_add(a: usize, o: usize) -> usize {
    if a + o <= usize::MAX {
        (a + o) as usize
    } else {
        (a + o - usize::MAX - 1) as usize
    }
}

/// The address `o` bytes past `a`, wrapping past the top of the address space.
pub fn addr_add(a: usize, o: usize) -> (r: usize)
    ensures
        r == word_add(a, o),
{
    if o <= usize::MAX - a {
        a + o
    } else {
        o - (usize::MAX - a) - 1
    }
}

/// An access at `offset` past a base and one at the absolute address
/// `base + offset` reach the same byte, wherever that sum does not wrap.
pub proof fn lemma_offset_matches_absolute(base: usize, offset: usize)
    requires
        base + offset <= usize::MAX,
    ensures
        word_add(base, offset) == base + offset,
{
}

/// Whether a transfer that the system reported as `transferred` bytes moved
/// all of the `requested` bytes.
pub fn transfer_complete(requested: usize, transferred: usize) -> (r: bool)
    ensures
        r == (transferred >= requested),
{
    transferred >= requested
}

/// A raw machine word (a handle or an address) that may be moved between threads.
#[derive(Clone, Copy, PartialEq, Eq, Structural, Debug)]
pub struct CVoidPtr(pub usize);

/// A handle and a base address that may be moved to another thread and turned
/// back into an [`Allocation`] there.
#[derive(Clone, Copy, PartialEq, Eq, Structural, Debug)]
pub struct SendAlloc {
    pub h_process: CVoidPtr,
    pub p_base: CVoidPtr,
}

impl SendAlloc {
    pub fn new(h_process: CVoidPtr, p_base: CVoidPtr) -> (r: Self)
        ensures
            r.h_process == h_process,
            r.p_base == p_base,
    {
        SendAlloc { h_process, p_base }
    }

    /// The base address of the region.
    pub fn p_base(&self) -> (r: CVoidPtr)
        ensures
            r == self.p_base,
    {
        self.p_base
    }
}

/// A region of memory in a process: the process handle and the region's base
/// address. Releasing the region is an explicit act of the caller.
#[derive(PartialEq, Eq, Structural, Debug)]
pub struct Allocation {
    pub h_process: usize,
    pub base: usize,
}

impl Allocation {
    /// Wraps a region whose base the caller already knows.
    pub fn existing(h_process: usize, base: usize) -> (r: Self)
        ensures
            r.h_process == h_process,
            r.base == base,
    {
        Allocation { h_process, base }
    }

    /// Takes the result of a system allocation in process `h_process`: a null
    /// base means that the allocation failed.
    pub fn claim(h_process: usize, returned_base: usize) -> (r: Option<Self>)
        ensures
            r is None <==> returned_base == 0,
            r matches Some(a) ==> a.h_process == h_process && a.base == returned_base,
    {
        if returned_base == 0 {
            None
        } else {
            Some(Allocation { h_process, base: returned_base })
        }
    }

    /// The base address of the region.
    pub fn inner(&self) -> (r: usize)
        ensures
            r == self.base,
    {
        self.base
    }

    /// The handle of the process that holds the region.
    pub fn handle(&self) -> (r: usize)
        ensures
            r == self.h_process,
    {
        self.h_process
    }

    /// The absolute address `offset` bytes past the base.
    pub fn offset_addr(&self, offset: usize) -> (r: usize)
        ensures
            r == word_add(self.base, offset),
    {
        addr_add(self.base, offset)
    }

    /// The form of this allocation that may be moved to another thread.
    pub fn to_send(&self) -> (r: SendAlloc)
        ensures
            r.h_process.0 == self.h_process,
            r.p_base.0 == self.base,
    {
        SendAlloc { h_process: CVoidPtr(self.h_process), p_base: CVoidPtr(self.base) }
    }
}

impl From<SendAlloc> for Allocation {
    fn from(value: SendAlloc) -> (r: Self) {
        Allocation { h_process: value.h_process.0, base: value.p_base().0 }
    }
}

impl FromSpecImpl<SendAlloc> for Allocation {
    open spec fn obeys_from_spec() -> bool {
        true
    }

    open spec fn from_spec(v: SendAlloc) -> Allocation {
        Allocation { h_process: v.h_process.0, base: v.p_base.0 }
    }
}

} // verus!
