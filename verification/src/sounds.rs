//! Sounds and the blocks they are built from.

pub mod basic_block;
pub mod simple_sound;
