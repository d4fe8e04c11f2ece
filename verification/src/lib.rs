//! Compression services built on an opaque native codec engine.
//!
//! Two services are offered: one-shot block compression of an in-memory
//! byte sequence ([`block::Compressor`]), and incremental streaming
//! compression that forwards compressed bytes to a downstream sink as the
//! caller writes ([`stream::Encoder`]).

pub mod block;
pub mod engine;
pub mod error;
pub mod sink;
pub mod stream;
