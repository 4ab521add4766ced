//! The frame adapter: a unified frame-in / frame-out interface over an
//! underlying duplex byte channel, using a caller-supplied [`Translate`]
//! capability to encode and decode frames.
//!
//! The adapter owns one transport handle, one codec, an input buffer of
//! unconsumed bytes, an output buffer of unsent bytes, and two state flags.
//! `readable` is true iff the input buffer may still yield a frame without
//! further reads; `flushed` is true iff the output buffer is known to be
//! fully drained.  Decoding of already-buffered bytes always precedes a new
//! read; encoding of a submitted frame always precedes the flush that claims
//! completion.
//!
//! The entry points ([`SerialFramed::next_frame`], [`SerialFramed::flush`]
//! and friends) drive the transport themselves, one read or write attempt
//! per call, and surface the suspension points of the underlying channel to
//! the caller, who repeats the call when the channel is ready again.  The
//! step functions ([`SerialFramed::poll_decode`], [`SerialFramed::feed`],
//! [`SerialFramed::complete_write`]) expose the same decisions one event at
//! a time, for callers that wait on channel readiness with some other
//! mechanism and perform the reads and writes themselves.

use vstd::prelude::*;

use crate::buffer::ByteBuf;
use crate::codec::Translate;
use crate::error::FramedError;
use crate::transport::Transport;

verus! {

/// Initial room reserved for the input buffer; reads are expected to be
/// bursty and large.
pub const INITIAL_RD_CAPACITY: usize = 64 * 1024;

/// Initial room reserved for the output buffer.
pub const INITIAL_WR_CAPACITY: usize = 8 * 1024;

/// What one decode step decided.
pub enum DecodeStep<I, E> {
    /// A frame produced from already-buffered bytes.
    Frame(I),
    /// No frame can be produced without more bytes; the next action must be
    /// a transport read.
    NeedRead,
    /// The codec rejected the buffered bytes.
    Failed(E),
}

/// A unified frame-in / frame-out interface over an underlying byte channel,
/// generic over the transport `T` and the translation capability `C`.
#[must_use]
pub struct SerialFramed<T, C> {
    port: T,
    codec: C,
    rd: ByteBuf,
    wr: ByteBuf,
    flushed: bool,
    readable: bool,
}

impl<T, C> SerialFramed<T, C> {
    /// The transport handle.
    pub closed spec fn spec_port(&self) -> T {
        self.port
    }

    /// The translation capability.
    pub closed spec fn spec_codec(&self) -> C {
        self.codec
    }

    /// The input buffer of not-yet-decoded bytes.
    pub closed spec fn rd_buf(&self) -> ByteBuf {
        self.rd
    }

    /// The output buffer of not-yet-written bytes.
    pub closed spec fn wr_buf(&self) -> ByteBuf {
        self.wr
    }

    /// True iff the output buffer is known to be fully drained.
    pub closed spec fn spec_flushed(&self) -> bool {
        self.flushed
    }

    /// True iff the input buffer may still yield a frame without a read.
    pub closed spec fn spec_readable(&self) -> bool {
        self.readable
    }

    /// The adapter's state invariant: both buffers are well formed, a
    /// flushed adapter has an empty output buffer, and a non-readable
    /// adapter has an empty input buffer.
    pub open spec fn inv(&self) -> bool {
        &&& self.rd_buf().wf()
        &&& self.wr_buf().wf()
        &&& (self.spec_flushed() ==> self.wr_buf()@.len() == 0)
        &&& (!self.spec_readable() ==> self.rd_buf()@.len() == 0)
    }

    /// Create a new adapter backed by the given transport and codec.
    pub fn new(port: T, codec: C) -> (r: SerialFramed<T, C>)
        ensures
            r.inv(),
            r.spec_port() == port,
            r.spec_codec() == codec,
            r.rd_buf()@ == Seq::<u8>::empty(),
            r.wr_buf()@ == Seq::<u8>::empty(),
            r.rd_buf().spec_cap() == INITIAL_RD_CAPACITY,
            r.wr_buf().spec_cap() == INITIAL_WR_CAPACITY,
            r.spec_flushed(),
            !r.spec_readable(),
    {
        SerialFramed {
            port,
            codec,
            rd: ByteBuf::with_capacity(INITIAL_RD_CAPACITY),
            wr: ByteBuf::with_capacity(INITIAL_WR_CAPACITY),
            flushed: true,
            readable: false,
        }
    }

    /// A reference to the underlying transport.
    pub fn get_ref(&self) -> (r: &T)
        ensures
            *r == self.spec_port(),
    {
        &self.port
    }

    /// A mutable reference to the underlying transport.  Tampering with the
    /// byte stream itself may corrupt the stream of frames.
    pub fn get_mut(&mut self) -> (r: &mut T)
        ensures
            *r == old(self).spec_port(),
            final(self).spec_port() == *final(r),
            final(self).spec_codec() == old(self).spec_codec(),
            final(self).rd_buf() == old(self).rd_buf(),
            final(self).wr_buf() == old(self).wr_buf(),
            final(self).spec_flushed() == old(self).spec_flushed(),
            final(self).spec_readable() == old(self).spec_readable(),
    {
        &mut self.port
    }

    /// Consume the adapter, returning the underlying transport.
    pub fn into_inner(self) -> (r: T)
        ensures
            r == self.spec_port(),
    {
        self.port
    }

    /// A reference to the codec.
    pub fn codec(&self) -> (r: &C)
        ensures
            *r == self.spec_codec(),
    {
        &self.codec
    }

    /// A mutable reference to the codec.  Tampering with it may corrupt the
    /// stream of frames.
    pub fn codec_mut(&mut self) -> (r: &mut C)
        ensures
            *r == old(self).spec_codec(),
            final(self).spec_codec() == *final(r),
            final(self).spec_port() == old(self).spec_port(),
            final(self).rd_buf() == old(self).rd_buf(),
            final(self).wr_buf() == old(self).wr_buf(),
            final(self).spec_flushed() == old(self).spec_flushed(),
            final(self).spec_readable() == old(self).spec_readable(),
    {
        &mut self.codec
    }

    /// A reference to the input buffer.
    pub fn read_buffer(&self) -> (r: &ByteBuf)
        ensures
            *r == self.rd_buf(),
    {
        &self.rd
    }

    /// A mutable reference to the input buffer.  Leaving it in a state that
    /// breaks [`SerialFramed::inv`] makes the adapter unusable.
    pub fn read_buffer_mut(&mut self) -> (r: &mut ByteBuf)
        ensures
            *r == old(self).rd_buf(),
            final(self).rd_buf() == *final(r),
            final(self).spec_port() == old(self).spec_port(),
            final(self).spec_codec() == old(self).spec_codec(),
            final(self).wr_buf() == old(self).wr_buf(),
            final(self).spec_flushed() == old(self).spec_flushed(),
            final(self).spec_readable() == old(self).spec_readable(),
    {
        &mut self.rd
    }

    /// True iff the output buffer is known to be fully drained.
    pub fn is_flushed(&self) -> (r: bool)
        ensures
            r == self.spec_flushed(),
    {
        self.flushed
    }

    /// The output buffer, for a caller that performs the write itself and
    /// then reports the outcome through [`SerialFramed::complete_write`].
    pub fn write_buffer(&self) -> (r: &ByteBuf)
        ensures
            *r == self.wr_buf(),
    {
        &self.wr
    }

    /// Append externally read bytes to the input buffer and mark the adapter
    /// readable, for a caller that performs the reads itself.
    pub fn feed(&mut self, bytes: &Vec<u8>)
        requires
            old(self).inv(),
        ensures
            final(self).inv(),
            final(self).rd_buf()@ == old(self).rd_buf()@ + bytes@,
            final(self).spec_readable(),
            final(self).spec_port() == old(self).spec_port(),
            final(self).spec_codec() == old(self).spec_codec(),
            final(self).wr_buf() == old(self).wr_buf(),
            final(self).spec_flushed() == old(self).spec_flushed(),
    {
        self.rd.append(bytes);
        self.readable = true;
    }
}

impl<T, C: Translate> SerialFramed<T, C> {
    /// One decode step: attempt to produce a frame from already-buffered
    /// bytes, without any transport activity.  When the codec reports "no
    /// frame yet" the input buffer is cleared and the adapter stops being
    /// readable: the next action must be a read.
    pub fn poll_decode(&mut self) -> (r: DecodeStep<C::In, C::Err>)
        requires
            old(self).inv(),
        ensures
            final(self).inv(),
            final(self).spec_port() == old(self).spec_port(),
            final(self).wr_buf() == old(self).wr_buf(),
            final(self).spec_flushed() == old(self).spec_flushed(),
            !old(self).spec_readable() ==> r is NeedRead && *final(self) == *old(self),
            old(self).spec_readable() ==> ({
                let s0 = old(self).spec_codec()@;
                let b0 = old(self).rd_buf()@;
                &&& (r is Failed <==> !C::dec_ok(s0, b0))
                &&& (r is Frame <==> C::dec_ok(s0, b0) && C::dec_yields(s0, b0))
                &&& (r matches DecodeStep::Frame(f) ==> f@ == C::dec_frame(s0, b0) && final(self).spec_codec()@ == C::dec_next(s0, b0) && final(self).rd_buf()@.len() == 0 && final(self).spec_readable())
                &&& (r is NeedRead ==> !C::dec_yields(s0, b0) && final(self).spec_codec()@
                    == C::dec_next(s0, b0) && final(self).rd_buf()@.len() == 0 && !final(self).spec_readable())
                &&& (r is Failed ==> final(self).spec_readable())
            }),
    {
        if !self.readable {
            return DecodeStep::NeedRead;
        }
        match self.codec.decode_eof(&mut self.rd) {
            Ok(Some(frame)) => DecodeStep::Frame(frame),
            Ok(None) => {
                self.readable = false;
                self.rd.clear();
                DecodeStep::NeedRead
            },
            Err(e) => DecodeStep::Failed(e),
        }
    }

    /// Serialize `item` into the output buffer and mark the adapter dirty.
    /// On a codec failure the output buffer keeps whatever the codec already
    /// appended (no rollback); the adapter counts as drained afterwards only
    /// if the buffer is in fact still empty.
    pub fn start_send(&mut self, item: C::Out) -> (r: Result<(), C::Err>)
        requires
            old(self).inv(),
        ensures
            final(self).inv(),
            final(self).spec_port() == old(self).spec_port(),
            final(self).rd_buf() == old(self).rd_buf(),
            final(self).spec_readable() == old(self).spec_readable(),
            (r is Ok) == C::enc_ok(old(self).spec_codec()@, item@),
            r is Ok ==> final(self).wr_buf()@ == old(self).wr_buf()@ + C::enc(
                old(self).spec_codec()@,
                item@,
            ) && final(self).spec_codec()@ == C::enc_next(old(self).spec_codec()@, item@) && !final(self).spec_flushed(),
            r is Err ==> old(self).wr_buf()@.is_prefix_of(final(self).wr_buf()@) && final(self).spec_flushed() == (old(self).spec_flushed() && final(self).wr_buf()@.len() == 0),
    {
        match self.codec.encode(item, &mut self.wr) {
            Ok(()) => {
                self.flushed = false;
                Ok(())
            },
            Err(e) => {
                if self.wr.len() > 0 {
                    self.flushed = false;
                }
                Err(e)
            },
        }
    }

    /// Record the outcome of one write attempt of the entire output buffer:
    /// the buffer is cleared unconditionally, and a short write reports the
    /// incomplete-write error — the unwritten tail is discarded, not
    /// retried.
    pub fn complete_write(&mut self, n: usize) -> (r: Result<(), FramedError<C::Err>>)
        requires
            old(self).inv(),
        ensures
            final(self).inv(),
            final(self).spec_port() == old(self).spec_port(),
            final(self).spec_codec() == old(self).spec_codec(),
            final(self).rd_buf() == old(self).rd_buf(),
            final(self).spec_readable() == old(self).spec_readable(),
            final(self).wr_buf()@.len() == 0,
            final(self).wr_buf().spec_cap() == old(self).wr_buf().spec_cap(),
            final(self).spec_flushed(),
            ({
                match r {
                    Ok(()) => n >= old(self).wr_buf()@.len(),
                    Err(FramedError::Incomplete { written, expected }) => written == n && expected
                        == old(self).wr_buf()@.len() && n < expected,
                    Err(_) => false,
                }
            }),
    {
        let expected = self.wr.len();
        self.wr.clear();
        self.flushed = true;
        if n >= expected {
            Ok(())
        } else {
            Err(FramedError::Incomplete { written: n, expected })
        }
    }
}

impl<T: Transport, C: Translate> SerialFramed<T, C> {
    /// One step towards the next frame.  `Ok(Some(frame))` is a decoded
    /// frame; `Ok(None)` is the suspended / no-data indication: progress was
    /// made (a decode attempt settled, or one read completed) but a frame
    /// needs another call.  Calls repeat until a frame or an error.
    ///
    /// Decoding of already-buffered bytes always precedes a new read: while
    /// the adapter is readable the transport is not touched at all, and a
    /// frame, when the buffered bytes yield one, is exactly the one the
    /// codec decodes from them.  A read that completes empty is not treated
    /// as end of stream; the next call simply reads again.  Nothing is ever
    /// sent.
    pub fn next_frame(&mut self) -> (r: Result<Option<C::In>, FramedError<C::Err>>)
        requires
            old(self).inv(),
        ensures
            final(self).inv(),
            final(self).wr_buf() == old(self).wr_buf(),
            final(self).spec_flushed() == old(self).spec_flushed(),
            final(self).spec_port().written() == old(self).spec_port().written(),
            old(self).spec_readable() ==> ({
                let s0 = old(self).spec_codec()@;
                let b0 = old(self).rd_buf()@;
                &&& final(self).spec_port() == old(self).spec_port()
                &&& (r matches Ok(Some(f)) ==> f@ == C::dec_frame(s0, b0))
                &&& ((r matches Ok(o) && o is Some) <==> C::dec_ok(s0, b0) && C::dec_yields(
                    s0,
                    b0,
                ))
                &&& (r is Ok ==> final(self).spec_codec()@ == C::dec_next(s0, b0) && final(self).rd_buf()@.len() == 0)
                &&& (r matches Ok(o) && o is None ==> !final(self).spec_readable())
                &&& (r matches Err(e) ==> e is Codec && !C::dec_ok(s0, b0))
            }),
            !old(self).spec_readable() ==> ({
                &&& final(self).spec_codec() == old(self).spec_codec()
                &&& (r matches Ok(o) ==> o is None && final(self).spec_readable())
                &&& (r matches Err(e) ==> e is Transport && final(self).rd_buf()@ == old(self).rd_buf()@ && !final(self).spec_readable())
            }),
            r matches Ok(Some(_)) ==> final(self).spec_readable(),
    {
        self.rd.reserve(INITIAL_RD_CAPACITY);
        if self.readable {
            match self.poll_decode() {
                DecodeStep::Frame(frame) => Ok(Some(frame)),
                DecodeStep::NeedRead => Ok(None),
                DecodeStep::Failed(e) => Err(FramedError::Codec(e)),
            }
        } else {
            match self.port.read(&mut self.rd) {
                Ok(_n) => {
                    self.readable = true;
                    Ok(None)
                },
                Err(e) => Err(FramedError::Transport(e)),
            }
        }
    }

    /// Drain the output buffer with exactly one write attempt of its entire
    /// contents.  A no-op success when already flushed: the transport is not
    /// touched at all.  After the attempt the buffer is empty either way; a
    /// short write reports the incomplete-write error and the unwritten tail
    /// is discarded, while a transport failure leaves the buffer intact and
    /// the adapter dirty.
    pub fn flush(&mut self) -> (r: Result<(), FramedError<C::Err>>)
        requires
            old(self).inv(),
        ensures
            final(self).inv(),
            final(self).spec_codec() == old(self).spec_codec(),
            final(self).rd_buf() == old(self).rd_buf(),
            final(self).spec_readable() == old(self).spec_readable(),
            old(self).spec_flushed() ==> r is Ok && *final(self) == *old(self),
            !old(self).spec_flushed() ==> ({
                match r {
                    Ok(()) => final(self).spec_flushed() && final(self).wr_buf()@.len() == 0
                        && final(self).spec_port().written() == old(self).spec_port().written()
                        + old(self).wr_buf()@,
                    Err(FramedError::Incomplete { written, expected }) => expected == old(self).wr_buf()@.len() && written < expected && final(self).spec_flushed() && final(self).wr_buf()@.len() == 0 && final(self).spec_port().written() == old(self).spec_port().written() + old(self).wr_buf()@.take(written as int),
                    Err(FramedError::Transport(_)) => final(self).wr_buf() == old(self).wr_buf()
                        && !final(self).spec_flushed() && final(self).spec_port().written() == old(self).spec_port().written(),
                    Err(FramedError::Codec(_)) => false,
                }
            }),
    {
        if self.flushed {
            return Ok(());
        }
        let n = match self.port.write(self.wr.as_vec()) {
            Ok(n) => n,
            Err(e) => {
                return Err(FramedError::Transport(e));
            },
        };
        proof {
            if n >= self.wr_buf()@.len() {
                assert(self.wr_buf()@.take(n as int) == self.wr_buf()@);
            }
        }
        self.complete_write(n)
    }

    /// Report readiness to submit another frame, flushing first when dirty.
    /// When already flushed this is ready immediately and the transport is
    /// not invoked at all.
    pub fn ready(&mut self) -> (r: Result<(), FramedError<C::Err>>)
        requires
            old(self).inv(),
        ensures
            final(self).inv(),
            final(self).spec_codec() == old(self).spec_codec(),
            final(self).rd_buf() == old(self).rd_buf(),
            final(self).spec_readable() == old(self).spec_readable(),
            old(self).spec_flushed() ==> r is Ok && *final(self) == *old(self),
            r is Ok ==> final(self).spec_flushed() && final(self).wr_buf()@.len() == 0,
            !old(self).spec_flushed() && r is Ok ==> final(self).spec_port().written() == old(self).spec_port().written() + old(self).wr_buf()@,
            !old(self).spec_flushed() ==> ({
                match r {
                    Ok(()) => true,
                    Err(FramedError::Incomplete { written, expected }) => expected == old(self).wr_buf()@.len() && written < expected && final(self).spec_flushed() && final(self).wr_buf()@.len() == 0 && final(self).spec_port().written() == old(self).spec_port().written() + old(self).wr_buf()@.take(written as int),
                    Err(FramedError::Transport(_)) => final(self).wr_buf() == old(self).wr_buf()
                        && !final(self).spec_flushed() && final(self).spec_port().written() == old(self).spec_port().written(),
                    Err(FramedError::Codec(_)) => false,
                }
            }),
    {
        self.flush()
    }

    /// Close the write side: equivalent to a flush.  The transport itself is
    /// not shut down; its lifetime belongs to the owner.
    pub fn close(&mut self) -> (r: Result<(), FramedError<C::Err>>)
        requires
            old(self).inv(),
        ensures
            final(self).inv(),
            final(self).spec_codec() == old(self).spec_codec(),
            final(self).rd_buf() == old(self).rd_buf(),
            final(self).spec_readable() == old(self).spec_readable(),
            old(self).spec_flushed() ==> r is Ok && *final(self) == *old(self),
            r is Ok ==> final(self).spec_flushed() && final(self).wr_buf()@.len() == 0,
            !old(self).spec_flushed() && r is Ok ==> final(self).spec_port().written() == old(self).spec_port().written() + old(self).wr_buf()@,
            !old(self).spec_flushed() ==> ({
                match r {
                    Ok(()) => true,
                    Err(FramedError::Incomplete { written, expected }) => expected == old(self).wr_buf()@.len() && written < expected && final(self).spec_flushed() && final(self).wr_buf()@.len() == 0 && final(self).spec_port().written() == old(self).spec_port().written() + old(self).wr_buf()@.take(written as int),
                    Err(FramedError::Transport(_)) => final(self).wr_buf() == old(self).wr_buf()
                        && !final(self).spec_flushed() && final(self).spec_port().written() == old(self).spec_port().written(),
                    Err(FramedError::Codec(_)) => false,
                }
            }),
    {
        self.flush()
    }
}

/// Write ordering and completeness: starting from a drained output buffer
/// whose transport has accepted `w0` so far, submitting frame `a` and then
/// frame `b` (as `start_send` accumulates them) and then flushing the whole
/// buffer (as `flush` reports on a full write) hands the transport exactly
/// the encoding of `a` followed by the encoding of `b`, in that order, after
/// `w0`.
pub proof fn lemma_write_ordering<C: Translate>(
    s0: C::V,
    a: <C::Out as View>::V,
    b: <C::Out as View>::V,
    w0: Seq<u8>,
)
    requires
        C::enc_ok(s0, a),
        C::enc_ok(C::enc_next(s0, a), b),
    ensures
        ({
            let wr1 = Seq::<u8>::empty() + C::enc(s0, a);
            let wr2 = wr1 + C::enc(C::enc_next(s0, a), b);
            w0 + wr2 == w0 + C::enc(s0, a) + C::enc(C::enc_next(s0, a), b)
        }),
{
    let wr1 = Seq::<u8>::empty() + C::enc(s0, a);
    let wr2 = wr1 + C::enc(C::enc_next(s0, a), b);
    assert(w0 + wr2 =~= w0 + C::enc(s0, a) + C::enc(C::enc_next(s0, a), b));
}

} // verus!
