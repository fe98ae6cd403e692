//! On-disk entry codec for a log-structured key-value store: data entries
//! (header, key, value, checksum) and hint entries (location metadata plus
//! key), with read/write contracts against a seekable byte stream.

pub mod bytes;
pub mod crc;
pub mod data;
pub mod err;
pub mod hint;
pub mod io;
pub mod stream;

pub use err::FormatError;
