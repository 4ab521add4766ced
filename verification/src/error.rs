//! Error taxonomy of the framing layer.
//!
//! Codec errors (a frame that cannot be decoded or encoded) are raised by the
//! translation capability and propagated unchanged.  Transport errors come
//! from the underlying channel.  The incomplete-write error is synthesized by
//! the flush logic when the transport accepted fewer bytes than requested;
//! it always accompanies discarding of the unwritten remainder.

use vstd::prelude::*;

verus! {

/// Failure of the underlying byte channel.
#[derive(Clone, Copy, Debug, PartialEq, Eq, Structural)]
pub enum TransportError {
    /// The channel has ended and can deliver or accept no more bytes.
    Closed,
    /// The device failed (for example, it was removed).
    Device,
}

/// Everything a frame-adapter operation can fail with.
#[derive(Debug)]
pub enum FramedError<E> {
    /// The translation capability rejected the bytes or the frame.
    Codec(E),
    /// The underlying channel failed.
    Transport(TransportError),
    /// A flush handed `expected` bytes to the transport but only `written`
    /// of them were accepted; the remainder was discarded, not retried.
    Incomplete { written: usize, expected: usize },
}

} // verus!
