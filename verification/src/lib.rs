//! Verified core of the BrowserPort relay and output helper: H.264 bitstream
//! framing, binary chunk headers, pixel conversion and the decisions that
//! drive decoding and output.

pub mod nal;
pub mod h264;
pub mod nal_laws;
pub mod pixel;
pub mod text;
pub mod backend;
pub mod decoder;
pub mod chunk;
pub mod relay;
pub mod session;
pub mod stream;
pub mod outputs;
pub mod helper;
pub mod wide;
pub mod bmp;
pub mod software;
