pub mod bit_reader;
pub mod bit_writer;
pub mod bits;
pub mod error;
pub mod integer;
pub mod serde;
