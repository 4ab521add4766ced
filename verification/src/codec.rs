//! The translation capability: the caller-supplied logic that maps between
//! raw bytes and structured frames.
//!
//! A codec may be stateful, so its behaviour is specified over its view: for
//! an implementation, `Self::V` is the mathematical model of the codec state,
//! and the `dec_*` / `enc_*` spec functions say what one decode or encode
//! call does to that state, to the buffer, and what it returns.
//!
//! A decode call always consumes the whole buffer into the codec's own state
//! before deciding whether a frame can be produced.  The frame adapter
//! discards whatever a decode attempt leaves in the input buffer whenever the
//! attempt reports "no frame yet", so a codec that left meaningful bytes
//! behind on a negative answer would lose data at arbitrary read boundaries;
//! total consumption is therefore part of the contract, and it is what makes
//! the decoded frame sequence independent of how reads were chunked.

use vstd::prelude::*;

use crate::buffer::ByteBuf;

verus! {

/// Caller-supplied translation between bytes and frames.  `In` is the frame
/// type produced by decoding, `Out` the frame type accepted for encoding;
/// the two may be distinct.
pub trait Translate: View + Sized {
    type In: View;

    type Out: View;

    type Err;

    /// Does a decode call in state `s` over buffered bytes `input` succeed
    /// (with or without a frame)?
    spec fn dec_ok(s: Self::V, input: Seq<u8>) -> bool;

    /// Does a successful decode call in state `s` over `input` produce a frame?
    spec fn dec_yields(s: Self::V, input: Seq<u8>) -> bool;

    /// The frame such a call produces, when it produces one.
    spec fn dec_frame(s: Self::V, input: Seq<u8>) -> <Self::In as View>::V;

    /// The codec state after a successful decode call.
    spec fn dec_next(s: Self::V, input: Seq<u8>) -> Self::V;

    /// Does encoding `item` in state `s` succeed?
    spec fn enc_ok(s: Self::V, item: <Self::Out as View>::V) -> bool;

    /// The bytes that encoding `item` in state `s` appends.
    spec fn enc(s: Self::V, item: <Self::Out as View>::V) -> Seq<u8>;

    /// The codec state after encoding `item`.
    spec fn enc_next(s: Self::V, item: <Self::Out as View>::V) -> Self::V;

    /// Attempt to produce one frame from the buffered bytes, consuming them.
    /// The call may treat the buffer as possibly the final available bytes.
    /// On success the buffer is always fully drained into the codec state
    /// (see the module documentation for why).
    fn decode_eof(&mut self, buf: &mut ByteBuf) -> (r: Result<Option<Self::In>, Self::Err>)
        requires
            old(buf).wf(),
        ensures
            final(buf).wf(),
            (r is Ok) == Self::dec_ok(old(self)@, old(buf)@),
            r is Ok ==> final(buf)@ == Seq::<u8>::empty() && final(buf).spec_cap() == old(buf).spec_cap() && final(self)@ == Self::dec_next(old(self)@, old(buf)@),
            (r matches Ok(o) ==> (o is Some) == Self::dec_yields(old(self)@, old(buf)@)),
            (r matches Ok(Some(f)) ==> f@ == Self::dec_frame(old(self)@, old(buf)@)),
    ;

    /// Append the serialized form of `item` to the buffer.  On failure the
    /// buffer keeps what was already appended before the failure: there is
    /// no rollback.
    fn encode(&mut self, item: Self::Out, buf: &mut ByteBuf) -> (r: Result<(), Self::Err>)
        requires
            old(buf).wf(),
        ensures
            final(buf).wf(),
            (r is Ok) == Self::enc_ok(old(self)@, item@),
            r is Ok ==> final(buf)@ == old(buf)@ + Self::enc(old(self)@, item@) && final(self)@
                == Self::enc_next(old(self)@, item@),
            r is Err ==> old(buf)@.is_prefix_of(final(buf)@),
    ;
}

} // verus!
