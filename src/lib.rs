//! Writing pre-computed, variable-length values into reserved,
//! exactly-sized destination regions without intermediate copies.
//!
//! * [`writer`]: a bounded, append-only writer over a region whose bytes are
//!   not yet meaningful; it never lets an unwritten byte be read.
//! * [`reserved`]: the reserve / fill / commit protocol of a reserved-buffer
//!   write, and the strategies that produce the value a write commits.
//! * [`codec`]: the compressed integer-set codec, on top of `roaring`.
pub mod codec;
pub mod reserved;
pub mod writer;

pub use codec::RoaringBitmapCodec;
