//! Recordings of streams.
pub mod filesystem;
pub mod recorder;
