//! Parsing of UUIDs from their textual forms, with detailed diagnostics for
//! rejected input, and the textual forms themselves.
pub mod ascii;
pub mod hex;
pub mod uuid;
pub mod error;
pub mod parser;
pub mod text;
pub mod fmt;
pub mod roundtrip;

pub use crate::error::{Error, ErrorKind};
pub use crate::uuid::Uuid;
