//! Buffered reading of the compressed or uncompressed side of a stream.

pub mod buffered;

pub use buffered::{BufReader, BUFFER_SIZE};
