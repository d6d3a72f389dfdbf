//! A compact, immutable UTF-8 string value: short strings are kept inline,
//! longer ones in a heap buffer, and a cached four-byte prefix makes most
//! comparisons end before the rest of the payload is read.
use vstd::prelude::*;

pub mod bytes;
pub mod german;
pub mod laws;
pub mod writer;
mod std_calls;

pub use german::{GermanStr, InitError};
pub use writer::Writer;
pub use bytes::{str_prefix, str_suffix};

verus! {

/// The largest number of bytes a string can hold without a heap allocation.
pub const MAX_INLINE_BYTES: usize = 12;

/// The largest number of bytes a string can hold: its length is kept in a `u32`.
pub const MAX_LEN: usize = 4294967295;

} // verus!
