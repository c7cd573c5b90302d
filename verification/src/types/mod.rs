//! Value types that appear in a configuration.

pub mod byte_size;

pub use byte_size::ByteSize;
