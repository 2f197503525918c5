//! Verified building blocks for two line-oriented text tools: one that
//! concatenates input and optionally numbers its lines, and one that counts
//! lines, words, bytes and characters.

pub mod catr;
pub mod decimal;
pub mod error;
pub mod source;
pub mod text;
pub mod wcr;
