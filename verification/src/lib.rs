//! A driver for file-based conformance test vectors.
//!
//! Test vectors live in a line-oriented text format: named sections in
//! `[brackets]`, blank-line-separated cases, and `Key = Value` attributes
//! whose values are hex strings, quoted strings, decimal integers, or digest
//! algorithm names. Every attribute of a case must be read exactly once by
//! the routine under test; the driver isolates each case's failure and
//! reports an aggregate verdict at the end. Deterministic substitutes for a
//! random-number source round out the toolkit.

pub mod case;
pub mod driver;
pub mod errors;
pub mod hex;
pub mod parser;
pub mod rand;
pub mod text;
