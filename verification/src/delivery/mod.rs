//! What requests over HTTP are answered.

pub mod handlers;
pub mod middleware;
pub mod readiness;
pub mod response;
pub mod router;
pub mod serve;
