//! Where streams come from.
pub mod dvr;
pub mod rtsp;
