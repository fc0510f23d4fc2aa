//! Gapless scheduling of synthesized audio on an output device with its own
//! clock, with the buffer recycling and batching around it, and the cube
//! geometry the demo draws.

pub mod buffer;
pub mod input;
pub mod mesh;
pub mod producer;
pub mod schedule;
