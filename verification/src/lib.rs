//! Decoder for a little-endian binary animation file: meshes with
//! per-material triangle lists, and a skeleton given as a flat joint table.
//!
//! Every decoder is a function from a byte slice and a position to a decoded
//! value and the position that follows it. Floating-point fields are carried
//! as their IEEE-754 bit patterns.

pub mod error;
pub mod primitive;
pub mod array;
pub mod fixed;
pub mod faces;
pub mod mesh;
pub mod skeleton;
pub mod file;
pub mod truncation;
