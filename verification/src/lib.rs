//! A minimal binary wire format: values are written to and read from a byte
//! stream in a fixed layout, big-endian throughout, with eight-byte length
//! prefixes and one-byte tags. Both ends agree on the types beforehand;
//! nothing on the wire names them.
//!
//! - `wire` says what the format is: for each type, the bytes of a value and
//!   the reading of bytes as a value.
//! - `serialize` and `deserialize` carry the format out on streams, and
//!   `transportable` names the types that go both ways.
//! - `stream` says what is asked of a stream, and `buffer` is a stream in
//!   memory.
//! - `round_trip`, `truncation` and `laws` prove what the format owes: what
//!   was written is read back, a stream that ends within a value is closed,
//!   and the edge cases are what they should be.
//! - `bigendian` holds the meaning of big-endian numbers and the calls that
//!   compute them.

use vstd::prelude::*;

pub mod bigendian;
pub mod buffer;
pub mod deserialize;
pub mod laws;
pub mod round_trip;
pub mod serialize;
pub mod stream;
pub mod transportable;
pub mod truncation;
pub mod wire;

pub use buffer::Buffer;
pub use deserialize::{fill_buf, read_failure, Deserialize};
pub use round_trip::RoundTrip;
pub use serialize::{write_buf, write_failure, Serialize};
pub use stream::{ByteSink, ByteSource, Fault};
pub use transportable::Transportable;
pub use truncation::Truncation;
pub use wire::Wire;

verus! {

/// How an encode or a decode call fails. An error is also a value of the wire
/// format, so that it can travel as the failure arm of a result.
#[derive(Debug, Clone, Copy, PartialEq, Eq, Structural)]
pub enum SlimError {
    SerializationError,
    DeserializationError,
    StreamError,
    StreamClosed,
}

} // verus!
