//! Typed sampling requests, their samplers and the wire encodings of the results.

pub mod b64;
pub mod color;
pub mod request;
pub mod response;
pub mod sampler;
pub mod text;
