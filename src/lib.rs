//! Control core of a terminal portfolio: a cyclic screen selector, a key
//! decoder, a tick-paced intro animation and bounded sample histories that
//! feed a live telemetry view. Rendering and terminal I/O live outside.
pub mod animation;
pub mod input;
mod sample;
pub mod screen;
pub mod series;
pub mod state;
pub mod stats;
