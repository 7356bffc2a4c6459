//! How a stream reaches its clients.
pub mod sdp_text;
pub mod holepunch;
pub mod wsc_rtp;
pub mod webrtc;
