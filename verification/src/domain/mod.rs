//! Streams and sessions.
pub mod dvr;
pub mod session_id;

use crate::api::models::{UnixTimestamp, VideoSourceInput};
use vstd::prelude::*;

verus! {

/// The 128 bits of a session's UUID.
pub type ClientSessionId = u128;

/// The name that a stream was created under.
pub type VideoSourceId = String;

/// Whether a stream has been received yet.
#[derive(Debug, Clone, Copy, PartialEq, Eq, Structural)]
pub enum StreamState {
    Stopped,
    Running,
}

impl StreamState {
    /// The name of the state.
    pub open spec fn named(self) -> Seq<char> {
        match self {
            StreamState::Stopped => "Stopped"@,
            StreamState::Running => "Running"@,
        }
    }

    /// The name of the state.
    pub fn name(&self) -> (r: &'static str)
        ensures
            r@ == self.named(),
    {
        match self {
            StreamState::Stopped => "Stopped",
            StreamState::Running => "Running",
        }
    }
}

/// What a stream was created with.
#[derive(Debug, Clone)]
pub struct StreamConfig {
    pub source_id: VideoSourceId,
    pub rtsp_inputs: Vec<VideoSourceInput>,
    pub username: Option<String>,
    pub password: Option<String>,
    pub should_record: bool,
    pub restart_interval_secs: Option<u64>,
}

/// What is known of a stream.
#[derive(Debug, Clone)]
pub struct StreamInfo {
    pub source_id: VideoSourceId,
    pub rtsp_inputs: Vec<VideoSourceInput>,
    pub state: StreamState,
    pub should_record: bool,
    pub restart_interval_secs: Option<u64>,
    pub recording_start_time: Option<UnixTimestamp>,
}

} // verus!
