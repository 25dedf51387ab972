//! Conversion of identifier text between snake_case and camelCase.
//!
//! The conversions are plain functions from strings to strings; their
//! behaviour is stated over sequences of characters and proved, with the
//! Unicode case mappings themselves taken from the standard library.

pub mod case;
pub mod ext;
pub mod laws;
