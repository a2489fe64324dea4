//! IEEE 754 binary64 and binary32 values handled as bit patterns: field
//! decomposition, classification, exact widening, and the domain and branch
//! decisions of the arc cosine.
//!
//! Floating-point arithmetic stays with the caller: the functions here decide
//! what is to be computed, and prove those decisions against the encoding.

pub mod acos;
pub mod bits;
