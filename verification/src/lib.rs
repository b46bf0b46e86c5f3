//! Audio decoders for Symphonia: AAC on top of the FDK AAC library, and Opus.

pub mod aac;
pub mod adts;
pub mod buffer;
pub mod error;
pub mod fdk;
pub mod meta;
pub mod opus;
pub mod params;
pub mod planes;
pub mod reader;
pub mod laws;
