//! Selection of renditions and accumulation of encoded packets into segments.

pub mod codec;
pub mod ffmpeg;
pub mod pipeline;
pub mod profile;
pub mod segment;
