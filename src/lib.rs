//! A non-negative span of time with nanosecond precision, its conversions
//! to and from coarser units, and a decoder that builds one from named unit
//! fields.
pub mod units;
pub mod duration;
pub mod decode;

pub use duration::AbsoluteDuration;
pub use decode::{decode_entries, DecodeError, DurationFields, Field};
