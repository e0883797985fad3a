//! Live and uploaded media coming in.

pub mod chunk_laws;
pub mod command_laws;
pub mod demux_laws;
pub mod demuxer;
pub mod http_upload;
pub mod rtmp;
pub mod session;
pub mod validator;
