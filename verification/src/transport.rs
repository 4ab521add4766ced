//! The underlying duplex byte channel, and a scripted in-memory channel.
//!
//! The frame adapter is agnostic to what carries the bytes; it only relies
//! on the two operations below.  A real channel delivers bytes that no
//! contract can predict, so `read` promises only how the buffer grows, never
//! which bytes arrive; `write` promises only that the accepted prefix of the
//! given bytes went out, never how many were accepted.

use vstd::prelude::*;

use crate::buffer::ByteBuf;
use crate::error::TransportError;

verus! {

/// A duplex byte channel.  `written` is the model of its send side: every
/// byte it has accepted so far, in order.
pub trait Transport: Sized {
    /// All bytes the channel has accepted for sending, in order.
    spec fn written(&self) -> Seq<u8>;

    /// Wait for data and append what is available into the buffer's spare
    /// room, committing the filled length.  A completed read may be empty;
    /// reading sends nothing.
    fn read(&mut self, buf: &mut ByteBuf) -> (r: Result<usize, TransportError>)
        requires
            old(buf).wf(),
        ensures
            final(buf).wf(),
            final(self).written() == old(self).written(),
            r matches Ok(n) ==> n <= old(buf).spare() && final(buf)@.len() == old(buf)@.len() + n
                && final(buf)@.take(old(buf)@.len() as int) == old(buf)@ && final(buf).spec_cap()
                == old(buf).spec_cap(),
            r is Err ==> final(buf)@ == old(buf)@ && final(buf).spec_cap() == old(buf).spec_cap(),
    ;

    /// Attempt to write the given bytes in one call.  The channel may accept
    /// fewer bytes than given; exactly the accepted prefix is sent.
    fn write(&mut self, data: &Vec<u8>) -> (r: Result<usize, TransportError>)
        ensures
            r matches Ok(n) ==> n <= data@.len() && final(self).written() == old(self).written()
                + data@.take(n as int),
            r is Err ==> final(self).written() == old(self).written(),
    ;
}

/// A scripted in-memory channel: reads are served from a fixed list of
/// chunks, writes accumulate into a byte vector, and each write call accepts
/// at most `accept_limit` bytes.  One read chunk beyond the script, and the
/// channel reports itself closed.
pub struct ChunkTransport {
    chunks: Vec<Vec<u8>>,
    next_chunk: usize,
    sent: Vec<u8>,
    accept_limit: usize,
    reads_made: usize,
    writes_made: usize,
}

impl ChunkTransport {
    /// The read chunks not yet delivered.
    pub closed spec fn remaining_chunks(&self) -> Seq<Seq<u8>> {
        let all = self.chunks@.map_values(|c: Vec<u8>| c@);
        if self.next_chunk <= all.len() {
            all.skip(self.next_chunk as int)
        } else {
            Seq::empty()
        }
    }

    /// How many read calls completed so far.
    pub closed spec fn spec_reads_made(&self) -> usize {
        self.reads_made
    }

    /// How many write calls completed so far.
    pub closed spec fn spec_writes_made(&self) -> usize {
        self.writes_made
    }

    pub closed spec fn spec_accept_limit(&self) -> usize {
        self.accept_limit
    }

    /// A channel whose reads will deliver `chunks` in order and whose write
    /// calls each accept at most `accept_limit` bytes.
    pub fn new(chunks: Vec<Vec<u8>>, accept_limit: usize) -> (r: ChunkTransport)
        ensures
            r.written() == Seq::<u8>::empty(),
            r.remaining_chunks() == chunks@.map_values(|c: Vec<u8>| c@),
            r.spec_reads_made() == 0,
            r.spec_writes_made() == 0,
            r.spec_accept_limit() == accept_limit,
    {
        let r = ChunkTransport {
            chunks,
            next_chunk: 0,
            sent: Vec::new(),
            accept_limit,
            reads_made: 0,
            writes_made: 0,
        };
        proof {
            assert(r.remaining_chunks() =~= r.chunks@.map_values(|c: Vec<u8>| c@));
        }
        r
    }

    /// The bytes accepted so far, for inspection.
    pub fn sent_bytes(&self) -> (r: &Vec<u8>)
        ensures
            r@ == self.written(),
    {
        &self.sent
    }

    pub fn reads(&self) -> (r: usize)
        ensures
            r == self.spec_reads_made(),
    {
        self.reads_made
    }

    pub fn writes(&self) -> (r: usize)
        ensures
            r == self.spec_writes_made(),
    {
        self.writes_made
    }
}

impl Transport for ChunkTransport {
    closed spec fn written(&self) -> Seq<u8> {
        self.sent@
    }

    fn read(&mut self, buf: &mut ByteBuf) -> (r: Result<usize, TransportError>)
        ensures
            r is Ok ==> old(self).remaining_chunks().len() > 0 && final(self).remaining_chunks()
                == old(self).remaining_chunks().skip(1),
            r matches Ok(n) ==> ({
                let chunk = old(self).remaining_chunks()[0];
                &&& n as int == if chunk.len() <= old(buf).spare() {
                    chunk.len() as int
                } else {
                    old(buf).spare()
                }
                &&& final(buf)@ == old(buf)@ + chunk.take(n as int)
            }),
            r is Ok && old(self).spec_reads_made() < usize::MAX ==> final(self).spec_reads_made()
                == old(self).spec_reads_made() + 1,
            r is Err ==> old(self).remaining_chunks().len() == 0 && *final(self) == *old(self),
    {
        if self.next_chunk >= self.chunks.len() {
            return Err(TransportError::Closed);
        }
        let chunk = &self.chunks[self.next_chunk];
        let spare = self.cap_spare(buf);
        let n = if chunk.len() <= spare {
            chunk.len()
        } else {
            spare
        };
        buf.append_within(chunk, n);
        self.next_chunk = self.next_chunk + 1;
        if self.reads_made < usize::MAX {
            self.reads_made = self.reads_made + 1;
        }
        proof {
            assert(self.remaining_chunks() =~= old(self).remaining_chunks().skip(1));
            assert(buf@.take(old(buf)@.len() as int) =~= old(buf)@);
        }
        Ok(n)
    }

    fn write(&mut self, data: &Vec<u8>) -> (r: Result<usize, TransportError>)
        ensures
            r is Ok && old(self).spec_writes_made() < usize::MAX ==> final(self).spec_writes_made()
                == old(self).spec_writes_made() + 1,
            r matches Ok(n) ==> n as int == if data@.len() <= old(self).spec_accept_limit() {
                data@.len() as int
            } else {
                old(self).spec_accept_limit() as int
            },
    {
        let n = if data.len() <= self.accept_limit {
            data.len()
        } else {
            self.accept_limit
        };
        let mut i: usize = 0;
        while i < n
            invariant
                i <= n,
                n <= data@.len(),
                self.sent@ == old(self).sent@ + data@.take(i as int),
                self.chunks == old(self).chunks,
                self.next_chunk == old(self).next_chunk,
                self.accept_limit == old(self).accept_limit,
                self.reads_made == old(self).reads_made,
                self.writes_made == old(self).writes_made,
            decreases n - i,
        {
            proof {
                assert(data@.take(i + 1) == data@.take(i as int).push(data@[i as int]));
            }
            self.sent.push(data[i]);
            i = i + 1;
        }
        if self.writes_made < usize::MAX {
            self.writes_made = self.writes_made + 1;
        }
        Ok(n)
    }
}

impl ChunkTransport {
    /// Spare room of the buffer as a value (helper for `read`).
    fn cap_spare(&self, buf: &ByteBuf) -> (r: usize)
        requires
            buf.wf(),
        ensures
            r == buf.spare(),
    {
        buf.cap() - buf.len()
    }
}

} // verus!
