#![verifier::loop_isolation(false)]
//! A fixed-size character-grid display engine over a raw RGBA pixel surface,
//! together with the pure parts of a shell I/O bridge: line assembly for the
//! child's stdin and chunk decoding for its stdout and stderr.

pub mod bridge;
pub mod cell;
pub mod geometry;
pub mod glyphs;
pub mod laws;
pub mod terminal;
