//! A lower bound on the number of bytes needed to encode a structured value.
//!
//! Only leaf payload is counted: fixed-width primitives by their width,
//! strings by their UTF-8 byte length and byte blobs by their length.
//! Structure (options, sequences, tuples, maps, structs, variants) is free.
use vstd::prelude::*;

pub mod laws;
pub mod primitive;
pub mod serializer;
pub mod value;

pub use primitive::Primitive;
pub use serializer::Serializer;
pub use value::{estimate, Entry, Field, Value};
