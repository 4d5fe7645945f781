//! Chunked binary transfer: a chunked command is issued repeatedly with
//! an increasing byte offset; each response's payload is appended until
//! the server reports a zero-length chunk, and a response with no
//! payload at all means the resource does not exist. A defensive cap
//! bounds the total so a misbehaving server cannot grow the transfer
//! without end.

use vstd::prelude::*;
use crate::error::MpdError;

verus! {

/// The defensive bound on the total size of one transfer.
pub const TRANSFER_CAP: usize = 268435456;

/// What the transfer loop must do after one chunk response.
pub enum TransferStep {
    /// The chunk was appended: request the next chunk from this byte
    /// offset.
    Again { offset: usize },
    /// The server reported a zero-length chunk: the transfer is
    /// complete.
    Done,
    /// The response carried no payload at all: the resource does not
    /// exist.
    Missing,
    /// The total would exceed the defensive cap: abort the transfer.
    Aborted,
}

/// Accumulates the payload of one chunked transfer.
pub struct BinaryTransfer {
    data: Vec<u8>,
}

impl View for BinaryTransfer {
    type V = Seq<u8>;

    closed spec fn view(&self) -> Seq<u8> {
        self.data@
    }
}

impl BinaryTransfer {
    /// An empty transfer, about to request its first chunk at offset
    /// zero.
    pub fn new() -> (r: Self)
        ensures
            r@ == Seq::<u8>::empty(),
    {
        let r = BinaryTransfer { data: Vec::new() };
        proof {
            assert(r.data@ =~= Seq::<u8>::empty());
        }
        r
    }

    /// The byte offset to request the next chunk from: everything
    /// received so far.
    pub fn offset(&self) -> (r: usize)
        ensures
            r == self@.len(),
    {
        self.data.len()
    }

    /// Consumes one chunk response's payload (or its absence).
    pub fn feed(&mut self, chunk: Option<Vec<u8>>) -> (step: TransferStep)
        ensures
            chunk is None ==> (step matches TransferStep::Missing && final(self)@ == old(self)@),
            chunk matches Some(c) ==> (if c@.len() == 0 {
                step matches TransferStep::Done && final(self)@ == old(self)@
            } else if old(self)@.len() + c@.len() <= TRANSFER_CAP as int {
                step matches TransferStep::Again { offset }
                    && final(self)@ == old(self)@ + c@
                    && offset as int == old(self)@.len() + c@.len()
            } else {
                step matches TransferStep::Aborted && final(self)@ == old(self)@
            }),
    {
        match chunk {
            None => TransferStep::Missing,
            Some(mut c) => {
                if c.len() == 0 {
                    TransferStep::Done
                } else if c.len() <= TRANSFER_CAP && self.data.len() <= TRANSFER_CAP - c.len() {
                    self.data.append(&mut c);
                    TransferStep::Again { offset: self.data.len() }
                } else {
                    TransferStep::Aborted
                }
            },
        }
    }

    /// Appends a whole series of chunk payloads, in order. This is the
    /// reassembly of a transfer in which every response up to this
    /// point carried a nonempty chunk.
    pub fn feed_all(&mut self, chunks: Vec<Vec<u8>>) -> (complete: bool)
        requires
            forall|i: int| 0 <= i < chunks@.len() ==> (#[trigger] chunks@[i])@.len() > 0,
            old(self)@.len() + chunks_len(vecs_view(chunks@)) <= TRANSFER_CAP as int,
        ensures
            complete,
            final(self)@ == old(self)@ + concat_chunks(vecs_view(chunks@)),
    {
        let ghost all = vecs_view(chunks@);
        proof {
            assert(all.take(0) =~= Seq::<Seq<u8>>::empty());
            assert(old(self)@ + concat_chunks(all.take(0)) =~= old(self)@);
        }
        let mut i: usize = 0;
        while i < chunks.len()
            invariant
                i <= chunks.len(),
                all == vecs_view(chunks@),
                forall|t: int| 0 <= t < all.len() ==> (#[trigger] all[t]).len() > 0,
                old(self)@.len() + chunks_len(all) <= TRANSFER_CAP as int,
                self@ == old(self)@ + concat_chunks(all.take(i as int)),
            decreases chunks.len() - i,
        {
            let chunk = copy_bytes(&chunks[i]);
            proof {
                assert(all[i as int] == chunks@[i as int]@);
                lemma_chunks_len_prefix(all, i + 1);
                assert(all.take(i + 1).drop_last() =~= all.take(i as int));
                assert(all.take(i + 1).last() == all[i as int]);
                lemma_chunks_len_nonneg(all.take(i as int));
                assert(chunks_len(all.take(i + 1)) == chunks_len(all.take(i as int)) + all[
                    i as int
                ].len());
                lemma_concat_len(all.take(i as int));
            }
            let step = self.feed(Some(chunk));
            proof {
                assert(concat_chunks(all.take(i + 1)) =~= concat_chunks(all.take(i as int)) + all[
                    i as int
                ]);
                assert(self@ =~= old(self)@ + concat_chunks(all.take(i + 1)));
            }
            match step {
                TransferStep::Again { offset: _ } => {},
                _ => {
                    proof {
                        assert(false);
                    }
                },
            }
            i = i + 1;
        }
        proof {
            assert(all.take(chunks.len() as int) =~= all);
        }
        true
    }

    /// The reassembled payload.
    pub fn finish(self) -> (r: Vec<u8>)
        ensures
            r@ == self@,
    {
        self.data
    }

    /// The final outcome of a transfer that ended with the given step:
    /// a completed transfer yields its payload, a response without any
    /// payload means the resource does not exist, and a transfer that
    /// outgrew the defensive cap is a protocol-level failure of the
    /// server.
    pub fn conclude(self, step: TransferStep) -> (r: Result<Vec<u8>, MpdError>)
        requires
            !(step matches TransferStep::Again { offset }),
        ensures
            step matches TransferStep::Done ==> (r matches Ok(b) && b@ == self@),
            step matches TransferStep::Missing ==> (r matches Err(e)
                && e matches MpdError::NotFound),
            step matches TransferStep::Aborted ==> (r matches Err(e)
                && e matches MpdError::Protocol),
    {
        match step {
            TransferStep::Done => Ok(self.data),
            TransferStep::Missing => Err(MpdError::NotFound),
            _ => Err(MpdError::Protocol),
        }
    }
}

/// An element-for-element copy of a byte vector.
fn copy_bytes(src: &Vec<u8>) -> (r: Vec<u8>)
    ensures
        r@ == src@,
{
    let mut r: Vec<u8> = Vec::new();
    proof {
        assert(r@ =~= src@.take(0));
    }
    let mut i: usize = 0;
    while i < src.len()
        invariant
            i <= src@.len(),
            r@ == src@.take(i as int),
        decreases src@.len() - i,
    {
        r.push(src[i]);
        proof {
            assert(src@.take(i + 1).drop_last() =~= src@.take(i as int));
            assert(src@.take(i + 1).last() == src@[i as int]);
            assert(r@ =~= src@.take(i + 1));
        }
        i = i + 1;
    }
    proof {
        assert(src@.take(src@.len() as int) =~= src@);
    }
    r
}

/// The views of a list of byte vectors.
pub open spec fn vecs_view(chunks: Seq<Vec<u8>>) -> Seq<Seq<u8>> {
    chunks.map_values(|c: Vec<u8>| c@)
}

/// The concatenation of the chunks, in order.
pub open spec fn concat_chunks(chunks: Seq<Seq<u8>>) -> Seq<u8>
    decreases chunks.len(),
{
    if chunks.len() == 0 {
        Seq::empty()
    } else {
        concat_chunks(chunks.drop_last()) + chunks.last()
    }
}

/// The total length of the chunks.
pub open spec fn chunks_len(chunks: Seq<Seq<u8>>) -> int
    decreases chunks.len(),
{
    if chunks.len() == 0 {
        0
    } else {
        chunks_len(chunks.drop_last()) + chunks.last().len()
    }
}

proof fn lemma_chunks_len_nonneg(chunks: Seq<Seq<u8>>)
    ensures
        chunks_len(chunks) >= 0,
    decreases chunks.len(),
{
    if chunks.len() > 0 {
        lemma_chunks_len_nonneg(chunks.drop_last());
    }
}

/// A prefix of the chunks never holds more bytes than all of them.
proof fn lemma_chunks_len_prefix(chunks: Seq<Seq<u8>>, i: int)
    requires
        0 <= i <= chunks.len(),
    ensures
        chunks_len(chunks.take(i)) <= chunks_len(chunks),
    decreases chunks.len() - i,
{
    if i < chunks.len() {
        assert(chunks.take(i + 1).drop_last() =~= chunks.take(i));
        assert(chunks.take(i + 1).last() == chunks[i]);
        lemma_chunks_len_prefix(chunks, i + 1);
    } else {
        assert(chunks.take(i) =~= chunks);
    }
}

/// The concatenation is exactly as long as the chunks together.
pub proof fn lemma_concat_len(chunks: Seq<Seq<u8>>)
    ensures
        concat_chunks(chunks).len() == chunks_len(chunks),
    decreases chunks.len(),
{
    if chunks.len() > 0 {
        lemma_concat_len(chunks.drop_last());
    }
}

} // verus!
