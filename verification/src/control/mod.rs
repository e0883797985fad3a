//! The life cycle of streams.

pub mod drain;
pub mod events;
pub mod pipeline;
pub mod state;
