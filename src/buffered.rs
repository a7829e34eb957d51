//! Writing a payload in chunks: the decisions of each step, apart from the
//! system writes that the caller performs.
//!
//! Each write hands the system at most `chunk` bytes. The system may report
//! fewer bytes written than it was given; the next chunk then starts where the
//! reported count ends. With a chunk size of zero no chunk carries a byte, so
//! the write of a non-empty payload never ends.

use vstd::prelude::*;

verus! {

/// Memory `mem` after the bytes `bytes` are stored from address `at` on.
pub open spec fn write_bytes(mem: Map<int, u8>, at: int, bytes: Seq<u8>) -> Map<int, u8> {
    Map::new(
        |i: int| mem.contains_key(i) || (at <= i < at + bytes.len()),
        |i: int| if at <= i < at + bytes.len() { bytes[i - at] } else { mem[i] },
    )
}

/// The sum of the counts in `s`.
pub open spec fn total_of(s: Seq<nat>) -> nat
    decreases s.len(),
{
    if s.len() == 0 { 0 } else { s[0] + total_of(s.drop_first()) }
}

/// Memory `mem` after consecutive pieces of `data` are written, the first one
/// starting `done` bytes into `data`, the `k`-th one `counts[k]` bytes long.
pub open spec fn write_pieces(mem: Map<int, u8>, at: int, data: Seq<u8>, done: nat, counts: Seq<nat>) -> Map<int, u8>
    decreases counts.len(),
{
    if counts.len() == 0 {
        mem
    } else {
        let n = counts[0];
        write_pieces(
            write_bytes(mem, at + done, data.subrange(done as int, (done + n) as int)),
            at,
            data,
            done + n,
            counts.drop_first(),
        )
    }
}

/// Writing a prefix of a payload and then the bytes that follow it, at the end
/// of the prefix, is writing the longer prefix.
pub proof fn lemma_extend_prefix(mem: Map<int, u8>, at: int, data: Seq<u8>, done: nat, n: nat)
    requires
        done + n <= data.len(),
    ensures
        write_bytes(
            write_bytes(mem, at, data.take(done as int)),
            at + done,
            data.subrange(done as int, (done + n) as int),
        ) == write_bytes(mem, at, data.take((done + n) as int)),
{
    assert(write_bytes(
        write_bytes(mem, at, data.take(done as int)),
        at + done,
        data.subrange(done as int, (done + n) as int),
    ) =~= write_bytes(mem, at, data.take((done + n) as int)));
}

proof fn lemma_pieces_from(mem: Map<int, u8>, at: int, data: Seq<u8>, done: nat, counts: Seq<nat>)
    requires
        done + total_of(counts) <= data.len(),
    ensures
        write_pieces(write_bytes(mem, at, data.take(done as int)), at, data, done, counts)
            == write_bytes(mem, at, data.take((done + total_of(counts)) as int)),
    decreases counts.len(),
{
    if counts.len() > 0 {
        let n = counts[0];
        lemma_extend_prefix(mem, at, data, done, n);
        lemma_pieces_from(mem, at, data, done + n, counts.drop_first());
    }
}

/// However a payload is cut into consecutive pieces, writing the pieces one
/// after the other from its start to its end leaves memory as one write of the
/// whole payload does.
pub proof fn lemma_pieces_make_one_write(mem: Map<int, u8>, at: int, data: Seq<u8>, counts: Seq<nat>)
    requires
        total_of(counts) == data.len(),
    ensures
        write_pieces(mem, at, data, 0, counts) == write_bytes(mem, at, data),
{
    assert(write_bytes(mem, at, data.take(0)) =~= mem);
    lemma_pieces_from(mem, at, data, 0, counts);
    assert(data.take(data.len() as int) =~= data);
}

/// What the caller of a chunked write does next.
#[derive(PartialEq, Eq, Debug)]
pub enum WriteAction {
    /// Write `bytes` at `offset` bytes past the base and report how many were written.
    WriteChunk { offset: usize, bytes: Vec<u8> },
    /// The whole payload has been written.
    Done,
}

/// The state of a chunked write of `data` at `offset` bytes past a base.
pub struct BufferedWrite {
    pub offset: usize,
    pub data: Vec<u8>,
    pub chunk: usize,
    /// How many bytes of `data` the system has reported written so far.
    pub total: usize,
}

impl BufferedWrite {
    pub open spec fn wf(&self) -> bool {
        &&& self.total <= self.data@.len()
        &&& self.offset + self.data@.len() <= usize::MAX
    }

    /// The length of the next chunk.
    pub open spec fn piece_len(&self) -> nat {
        let left = (self.data@.len() - self.total) as nat;
        if left < self.chunk { left } else { self.chunk as nat }
    }

    /// Starts a chunked write of `data`, `offset` bytes past the base, in chunks
    /// of at most `chunk` bytes.
    pub fn new(offset: usize, data: Vec<u8>, chunk: usize) -> (r: Self)
        requires
            offset + data@.len() <= usize::MAX,
        ensures
            r.wf(),
            r.offset == offset,
            r.data@ == data@,
            r.chunk == chunk,
            r.total == 0,
    {
        BufferedWrite { offset, data, chunk, total: 0 }
    }

    /// The next action: the next chunk, or the end once every byte is written.
    pub fn next_action(&self) -> (r: WriteAction)
        requires
            self.wf(),
        ensures
            self.total == self.data@.len() ==> r == WriteAction::Done,
            self.total < self.data@.len() ==> (r matches WriteAction::WriteChunk { offset, bytes }
                && offset == self.offset + self.total
                && bytes@ == self.data@.subrange(self.total as int, self.total + self.piece_len())),
    {
        if self.total == self.data.len() {
            WriteAction::Done
        } else {
            let left = self.data.len() - self.total;
            let n = if left < self.chunk { left } else { self.chunk };
            let mut bytes: Vec<u8> = Vec::new();
            let mut i: usize = 0;
            while i < n
                invariant
                    self.wf(),
                    n <= self.data@.len() - self.total,
                    i <= n,
                    bytes@ == self.data@.subrange(self.total as int, self.total + i),
                decreases n - i,
            {
                bytes.push(self.data[self.total + i]);
                i = i + 1;
                assert(bytes@ =~= self.data@.subrange(self.total as int, self.total + i));
            }
            WriteAction::WriteChunk { offset: self.offset + self.total, bytes }
        }
    }

    /// Takes the count of bytes that the system reported written for the last chunk.
    pub fn record(&mut self, written: usize)
        requires
            old(self).wf(),
            old(self).total < old(self).data@.len(),
            written <= old(self).piece_len(),
        ensures
            final(self).wf(),
            final(self).total == old(self).total + written,
            final(self).offset == old(self).offset,
            final(self).data@ == old(self).data@,
            final(self).chunk == old(self).chunk,
    {
        self.total = self.total + written;
    }
}

} // verus!
