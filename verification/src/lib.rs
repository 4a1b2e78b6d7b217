//! Reading and writing the TFRecord container format.
//!
//! A TFRecord stream is a sequence of framed records. Each frame holds the
//! record length as a little-endian `u64`, a masked CRC-32C of those eight
//! bytes, the record bytes, and a masked CRC-32C of the record bytes.
//! The functions here frame, check and unframe records, index record
//! positions, and build the protocol-buffer values that TensorFlow stores.

pub mod codegen;
pub mod conversions;
pub mod dataset;
pub mod error;
pub mod event_writer;
pub mod utils;
pub mod io;
pub mod indexer;
pub mod ops;
pub mod protobuf_ext;
pub mod protos;
pub mod reader;
pub mod record;
pub mod writer;
