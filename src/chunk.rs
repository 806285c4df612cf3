use vstd::prelude::*;
use vstd::slice::slice_to_vec;

use crate::hash::{blake3_of, hash_bytes};

verus! {

/// Largest block that the chunker emits: 1 MiB.
pub const CHUNK_SIZE: usize = 1048576;

/// A digest paired with the bytes it names.
pub struct Chunk {
    /// BLAKE3 digest of the bytes.
    pub hash: [u8; 32],
    /// The bytes as stored.
    pub data: Vec<u8>,
}

impl Chunk {
    /// The digest field is the digest of the data field.
    pub open spec fn is_bound(&self) -> bool {
        self.hash@ == blake3_of(self.data@)
    }

    /// A chunk whose digest is computed from its bytes, so that the binding holds.
    pub fn from_data(data: Vec<u8>) -> (r: Chunk)
        ensures
            r.data@ == data@,
            r.is_bound(),
    {
        let hash = hash_bytes(data.as_slice());
        Chunk { hash, data }
    }

    /// Recomputes the digest of the data and compares it with the stored one.
    pub fn verify(&self) -> (r: bool)
        ensures
            r == self.is_bound(),
    {
        let h = hash_bytes(self.data.as_slice());
        let mut i: usize = 0;
        while i < 32
            invariant
                0 <= i <= 32,
                h@ == blake3_of(self.data@),
                forall|j: int| 0 <= j < i ==> h@[j] == self.hash@[j],
            decreases 32 - i,
        {
            if h[i] != self.hash[i] {
                return false;
            }
            i = i + 1;
        }
        assert(h@ =~= self.hash@);
        true
    }
}

/// Number of blocks that `len` bytes split into, `size` bytes per block.
pub open spec fn block_count(len: nat, size: nat) -> nat
    recommends
        size > 0,
{
    if len == 0 {
        0
    } else {
        ((len - 1) as nat / size + 1) as nat
    }
}

/// Block `i` of `data`: bytes from `i * size` up to the next multiple of `size`,
/// or to the end of `data`.
pub open spec fn block_at(data: Seq<u8>, size: nat, i: int) -> Seq<u8> {
    let start = i * size;
    let end = if start + size <= data.len() { start + size } else { data.len() as int };
    data.subrange(start, end)
}

/// The blocks of `data` hold, in order, `data` cut every `size` bytes.
pub open spec fn are_blocks_of(blocks: Seq<Seq<u8>>, data: Seq<u8>, size: nat) -> bool {
    &&& blocks.len() == block_count(data.len(), size)
    &&& forall|i: int| 0 <= i < blocks.len() ==> #[trigger] blocks[i] == block_at(data, size, i)
}

/// The contents of each vector, in order.
pub open spec fn views(v: Seq<Vec<u8>>) -> Seq<Seq<u8>> {
    Seq::new(v.len(), |i: int| v[i]@)
}

/// Splits `data` into blocks of `size` bytes; the last block holds the rest
/// and is shorter when `size` does not divide the length. Empty input gives
/// no block at all.
pub fn split_blocks(data: &[u8], size: usize) -> (r: Vec<Vec<u8>>)
    requires
        size > 0,
    ensures
        are_blocks_of(views(r@), data@, size as nat),
        views(r@).flatten() == data@,
        forall|i: int| 0 <= i < r.len() ==> 0 < #[trigger] r[i]@.len() <= size,
{
    let mut out: Vec<Vec<u8>> = Vec::new();
    let mut pos: usize = 0;
    assert(0 * (size as int) == 0);
    while pos < data.len()
        invariant
            size > 0,
            pos <= data@.len(),
            pos == (out.len() as int) * (size as int) || pos == data@.len(),
            out.len() == block_count(pos as nat, size as nat),
            forall|i: int| 0 <= i < out.len() ==> #[trigger] out@[i]@ == block_at(data@, size as nat, i),
            forall|i: int| 0 <= i < out.len() ==> 0 < #[trigger] out@[i]@.len() <= size,
            views(out@).flatten() == data@.subrange(0, pos as int),
        decreases data.len() - pos,
    {
        let end: usize = if data.len() - pos <= size { data.len() } else { pos + size };
        let block = slice_to_vec(&data[pos..end]);
        proof {
            let k = out.len() as int;
            assert(pos == k * size);
            assert((k + 1) * size == k * size + size) by (nonlinear_arith);
            assert(block@ == block_at(data@, size as nat, k));
            views(out@).lemma_flatten_push(block@);
            assert(data@.subrange(0, end as int) =~= data@.subrange(0, pos as int) + block@);
            assert(block_count(end as nat, size as nat) == k + 1) by (nonlinear_arith)
                requires
                    pos == k * size,
                    end > pos,
                    end <= pos + size,
                    size > 0,
                    k >= 0,
            {
                assert((end - 1) as nat / size as nat == k) by (nonlinear_arith)
                    requires pos == k * size, end > pos, end <= pos + size, size > 0, k >= 0;
            }
        }
        let ghost before = views(out@);
        out.push(block);
        proof {
            assert(views(out@) =~= before.push(block@));
        }
        pos = end;
    }
    assert(data@.subrange(0, data@.len() as int) =~= data@);
    out
}

/// Splits `data` into 1 MiB blocks and returns the digest of each, in order.
pub fn chunk_and_hash(data: &[u8]) -> (r: Vec<[u8; 32]>)
    ensures
        r.len() == block_count(data@.len(), CHUNK_SIZE as nat),
        forall|i: int|
            0 <= i < r.len() ==> #[trigger] r[i]@ == blake3_of(
                block_at(data@, CHUNK_SIZE as nat, i),
            ),
{
    let blocks = split_blocks(data, CHUNK_SIZE);
    let mut hashes: Vec<[u8; 32]> = Vec::new();
    let mut i: usize = 0;
    while i < blocks.len()
        invariant
            i <= blocks.len(),
            hashes.len() == i,
            are_blocks_of(views(blocks@), data@, CHUNK_SIZE as nat),
            forall|j: int|
                0 <= j < i ==> #[trigger] hashes[j]@ == blake3_of(
                    block_at(data@, CHUNK_SIZE as nat, j),
                ),
        decreases blocks.len() - i,
    {
        let h = hash_bytes(blocks[i].as_slice());
        assert(views(blocks@)[i as int] == blocks@[i as int]@);
        hashes.push(h);
        i = i + 1;
    }
    hashes
}

/// Block counts at the edges: no bytes give no block, exactly one block's
/// worth gives one full block, and one byte more gives a second block of
/// one byte.
pub proof fn lemma_block_edges(data: Seq<u8>, size: nat)
    requires
        size > 0,
    ensures
        block_count(0, size) == 0,
        data.len() == size ==> block_count(data.len(), size) == 1 && block_at(data, size, 0)
            == data,
        data.len() == size + 1 ==> block_count(data.len(), size) == 2 && block_at(
            data,
            size,
            1,
        ).len() == 1,
{
    assert(((size - 1) as nat) / size == 0) by (nonlinear_arith)
        requires
            size > 0,
    ;
    assert(size / size == 1) by (nonlinear_arith)
        requires
            size > 0,
    ;
    if data.len() == size {
        assert(block_at(data, size, 0) =~= data);
    }
    if data.len() == size + 1 {
        assert(1 * size == size);
    }
}

/// Cuts a stream of bytes, fed in pieces of any size, into blocks of a
/// fixed size; the bytes of an unfinished block wait for the next piece.
pub struct Chunker {
    size: usize,
    pending: Vec<u8>,
}

impl Chunker {
    /// Size of the blocks cut.
    pub closed spec fn block_size(&self) -> nat {
        self.size as nat
    }

    /// Bytes fed but not yet handed out in a block.
    pub closed spec fn pending(&self) -> Seq<u8> {
        self.pending@
    }

    pub open spec fn wf(&self) -> bool {
        &&& 0 < self.block_size()
        &&& self.pending().len() < self.block_size()
    }

    /// A chunker that cuts blocks of `size` bytes.
    pub fn new(size: usize) -> (r: Chunker)
        requires
            size > 0,
        ensures
            r.wf(),
            r.block_size() == size,
            r.pending() == Seq::<u8>::empty(),
    {
        Chunker { size, pending: Vec::new() }
    }

    /// Feeds `bytes` and returns the blocks that they complete, in order.
    /// Each block is full; what remains waits for the next piece.
    pub fn feed(&mut self, bytes: &[u8]) -> (r: Vec<Vec<u8>>)
        requires
            old(self).wf(),
        ensures
            final(self).wf(),
            final(self).block_size() == old(self).block_size(),
            views(r@).flatten() + final(self).pending() == old(self).pending() + bytes@,
            forall|i: int| 0 <= i < r.len() ==> #[trigger] r[i]@.len() == old(self).block_size(),
    {
        let ghost start = self.pending@;
        let mut out: Vec<Vec<u8>> = Vec::new();
        let mut i: usize = 0;
        assert(views(out@).flatten() + self.pending@ =~= start + bytes@.subrange(0, 0));
        while i < bytes.len()
            invariant
                self.wf(),
                self.size == old(self).size,
                i <= bytes@.len(),
                views(out@).flatten() + self.pending@ == start + bytes@.subrange(0, i as int),
                forall|j: int| 0 <= j < out.len() ==> #[trigger] out@[j]@.len() == self.size,
            decreases bytes.len() - i,
        {
            let ghost before = views(out@).flatten();
            self.pending.push(bytes[i]);
            assert(start + bytes@.subrange(0, i + 1) =~= (start + bytes@.subrange(0, i as int)).push(
                bytes@[i as int],
            ));
            assert(before + self.pending@ =~= start + bytes@.subrange(0, i + 1));
            if self.pending.len() == self.size {
                let block = slice_to_vec(self.pending.as_slice());
                self.pending = Vec::new();
                let ghost prev = views(out@);
                out.push(block);
                proof {
                    assert(views(out@) =~= prev.push(block@));
                    prev.lemma_flatten_push(block@);
                    assert(views(out@).flatten() + self.pending@ =~= before + block@);
                }
            }
            i = i + 1;
        }
        assert(bytes@.subrange(0, bytes@.len() as int) =~= bytes@);
        out
    }

    /// Ends the stream: the last, shorter block, if any bytes wait.
    pub fn finish(self) -> (r: Option<Vec<u8>>)
        requires
            self.wf(),
        ensures
            r is None <==> self.pending().len() == 0,
            r matches Some(b) ==> b@ == self.pending() && 0 < b@.len() < self.block_size(),
    {
        if self.pending.len() == 0 {
            None
        } else {
            Some(self.pending)
        }
    }
}

} // verus!
