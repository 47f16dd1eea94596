//! Decoder for TGX images, a run-length-encoded format with packed 16-bit
//! colours, and an encoder that writes the decoded frame as an uncompressed
//! 24-bit bitmap.
//!
//! Every function is pure: input bytes go in, a frame or output bytes come
//! out. Reading and writing files is left to the caller.

pub mod bmp;
pub mod decode;
pub mod error;
pub mod image;
pub mod opcode;
pub mod pixel;
