//! The verified core of a media server that takes in RTSP camera streams and
//! hands them on as RTP, live or from a recording.
//!
//! The crate holds the parts that compute and decide: NAL unit framing, RTP
//! packets, timestamp continuity, recordings, the session protocol and the
//! stream registry. Sockets, pipelines, files and clocks stay outside; what
//! they yield comes in as plain values.
pub mod api;
pub mod app;
pub mod arithmetic;
pub mod common;
pub mod domain;
pub mod publishers;
pub mod registry;
pub mod sources;
pub mod text;
pub mod utils;
