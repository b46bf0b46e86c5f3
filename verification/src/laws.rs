//! What the library promises, stated of calls.
//!
//! Each law takes what went into calls and what came back from them, and says how the two relate:
//! sample by sample, byte by byte, field by field.

pub mod aac;
pub mod format;
pub mod opus;
