//! Packaging of encoded segments into fragmented MP4 and HLS playlists.

pub mod box_laws;
pub mod hls;
pub mod init_laws;
pub mod lines;
pub mod manifest;
pub mod packager_laws;
pub mod runner;
pub mod segment_index;
