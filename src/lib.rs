//! Hides a byte message in the least-significant bits of an RGBA raster and
//! reads it back.
//!
//! A message is framed with one zero byte, split most-significant-bit first
//! into single bits, and each bit replaces the low bit of one channel sample,
//! in raster order. Reading groups every eight sample low bits back into a
//! byte and stops at the first zero byte.

pub mod bits;
pub mod codec;
pub mod raster;
pub mod writer;
pub mod reader;
pub mod naming;
pub mod laws;
