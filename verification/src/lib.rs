//! Framing layer for a raw duplex byte channel.
//!
//! The crate turns an open-ended stream of bytes into a stream of discrete
//! frames, and frame submissions into reliably ordered byte writes.  It owns
//! the buffering, partial-data accumulation and partial-write detection, so
//! that callers only ever see whole frames in and whole frames out.  The
//! byte-level wire format is supplied by the caller through the [`Translate`]
//! trait; the underlying channel is reached through the [`Transport`] trait.
//!
//! [`Translate`]: codec::Translate
//! [`Transport`]: transport::Transport

pub mod buffer;
pub mod codec;
pub mod error;
pub mod framed;
pub mod line;
pub mod transport;

pub use buffer::ByteBuf;
pub use codec::Translate;
pub use error::{FramedError, TransportError};
pub use framed::{DecodeStep, SerialFramed};
pub use line::{LineCodec, LineError};
pub use transport::{ChunkTransport, Transport};
