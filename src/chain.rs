//! Walking a multi-level pointer: the decisions of each step, apart from the
//! reads of machine words that the caller performs.
//!
//! A walk from `start` over offsets `o[0..n]` reads a word `t` at `start`, and
//! then for each offset in turn moves to `t + o[k]` and reads the word there.
//! It ends at the address of the last read, not at the word found there.

use vstd::prelude::*;
use crate::allocation::{addr_add, word_add, Allocation};

verus! {

/// The address of read `k` of a walk from `start` over `offsets`, where
/// `words[j]` is the word that read `j` found.
pub open spec fn chain_addr(start: usize, offsets: Seq<usize>, words: Seq<usize>, k: int) -> usize {
    if k == 0 {
        start
    } else {
        word_add(words[k - 1], offsets[k - 1])
    }
}

/// What the caller of a walk does next.
#[derive(PartialEq, Eq, Structural, Debug)]
pub enum ChainAction {
    /// Read one machine word at this address and hand it to the walk.
    ReadWord(usize),
    /// The walk is over: this is the address of the final read.
    Done(usize),
    /// A read failed with this system error code; the walk stops.
    Failed(u32),
}

/// The state of a pointer walk.
pub struct ChainWalk {
    pub offsets: Vec<usize>,
    /// The address of the next read, or the result once every read is done.
    pub addr: usize,
    /// How many words have been read so far.
    pub reads: usize,
    pub start: Ghost<usize>,
    pub words: Ghost<Seq<usize>>,
}

impl ChainWalk {
    pub open spec fn wf(&self) -> bool {
        &&& self.offsets@.len() < usize::MAX
        &&& self.reads == self.words@.len()
        &&& self.reads <= self.offsets@.len() + 1
        &&& self.addr == chain_addr(
            self.start@,
            self.offsets@,
            self.words@,
            if self.reads <= self.offsets@.len() { self.reads as int } else { self.offsets@.len() as int },
        )
    }

    /// Whether every read of the walk has been done.
    pub open spec fn finished(&self) -> bool {
        self.reads > self.offsets@.len()
    }

    /// Starts a walk at `start`; its first action is a read at `start`, even
    /// where there are no offsets.
    pub fn new(start: usize, offsets: Vec<usize>) -> (r: Self)
        requires
            offsets@.len() < usize::MAX,
        ensures
            r.wf(),
            r.start@ == start,
            r.offsets@ == offsets@,
            r.reads == 0,
            r.addr == start,
    {
        ChainWalk { offsets, addr: start, reads: 0, start: Ghost(start), words: Ghost(Seq::empty()) }
    }

    /// Starts a walk at `start` bytes past the base of `alloc`.
    pub fn with_base(alloc: &Allocation, start: usize, offsets: Vec<usize>) -> (r: Self)
        requires
            offsets@.len() < usize::MAX,
        ensures
            r.wf(),
            r.start@ == word_add(start, alloc.base),
            r.offsets@ == offsets@,
            r.reads == 0,
            r.addr == word_add(start, alloc.base),
    {
        ChainWalk::new(addr_add(start, alloc.base), offsets)
    }

    /// The first action of a walk that has not read anything yet.
    pub fn first(&self) -> (r: ChainAction)
        requires
            self.wf(),
            !self.finished(),
        ensures
            r == ChainAction::ReadWord(self.addr),
    {
        ChainAction::ReadWord(self.addr)
    }

    /// Takes the outcome of the read at `self.addr` and gives the next action.
    pub fn advance(&mut self, read: Result<usize, u32>) -> (r: ChainAction)
        requires
            old(self).wf(),
            !old(self).finished(),
        ensures
            final(self).wf(),
            final(self).start@ == old(self).start@,
            final(self).offsets@ == old(self).offsets@,
            read matches Err(e) ==> r == ChainAction::Failed(e) && *final(self) == *old(self),
            read matches Ok(w) ==> {
                &&& final(self).words@ == old(self).words@.push(w)
                &&& final(self).reads == old(self).reads + 1
                &&& r == if final(self).finished() {
                    ChainAction::Done(final(self).addr)
                } else {
                    ChainAction::ReadWord(final(self).addr)
                }
                &&& final(self).addr == chain_addr(
                    final(self).start@,
                    final(self).offsets@,
                    final(self).words@,
                    if final(self).finished() { old(self).reads as int } else { final(self).reads as int },
                )
            },
    {
        match read {
            Err(e) => ChainAction::Failed(e),
            Ok(w) => {
                let k = self.reads;
                self.words = Ghost(self.words@.push(w));
                self.reads = k + 1;
                if k < self.offsets.len() {
                    self.addr = addr_add(w, self.offsets[k]);
                    ChainAction::ReadWord(self.addr)
                } else {
                    ChainAction::Done(self.addr)
                }
            },
        }
    }
}

} // verus!
