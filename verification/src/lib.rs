//! Decoding of explicit-dynamics animation frames and their re-encoding as
//! legacy unstructured-grid datasets.
//!
//! Real numbers never appear as such in this crate: a single-precision value
//! is carried as its 32-bit pattern (`u32`), exactly as it sits in the input
//! stream and in the binary output.

pub mod endian;
pub mod error;
pub mod sizes;
pub mod reader;
pub mod frame;
pub mod decode;
pub mod classify;
pub mod text;
pub mod parts;
pub mod dataset;
pub mod assemble;
pub mod output;
pub mod render;
pub mod convert;
pub mod vtk_read;
pub mod round_trip;
