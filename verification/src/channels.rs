//! Channels and the mixer that combines them.

pub mod mixer;
pub mod simple_channel;
