//! The messages of the REST interface and of the WSC-RTP protocol.
use crate::domain::ClientSessionId;
use vstd::prelude::*;

verus! {

/// Milliseconds since the Unix epoch.
pub type UnixTimestamp = u64;

/// One camera address of a stream.
#[derive(Debug, Clone, PartialEq, Eq)]
pub struct VideoSourceInput {
    pub label: String,
    /// The address, as a serialized URL.
    pub url: String,
    /// Priority of the input source. Lower values have higher priority.
    pub priority: u32,
}

impl VideoSourceInput {
    /// A copy of the input.
    pub fn copied(&self) -> (r: Self)
        ensures
            r == *self,
    {
        VideoSourceInput {
            label: self.label.clone(),
            url: self.url.clone(),
            priority: self.priority,
        }
    }
}

/// A copy of a list of inputs.
pub fn copy_inputs(inputs: &[VideoSourceInput]) -> (r: Vec<VideoSourceInput>)
    ensures
        r@ == inputs@,
{
    let mut copy: Vec<VideoSourceInput> = Vec::new();
    let mut i: usize = 0;
    while i < inputs.len()
        invariant
            i <= inputs@.len(),
            copy@ == inputs@.take(i as int),
        decreases inputs@.len() - i,
    {
        copy.push(inputs[i].copied());
        i += 1;
        assert(copy@ =~= inputs@.take(i as int));
    }
    assert(inputs@.take(i as int) =~= inputs@);
    copy
}

#[derive(Debug, Clone)]
pub struct CreateStreamRequest {
    pub source_id: String,
    pub rtsp_inputs: Vec<VideoSourceInput>,
    pub username: Option<String>,
    pub password: Option<String>,
    pub should_record: bool,
    pub restart_interval_secs: Option<u64>,
}

#[derive(Debug, Clone)]
pub struct CreateStreamResponse {
    pub source_id: String,
    pub rtsp_inputs: Vec<VideoSourceInput>,
    pub should_record: bool,
    pub restart_interval_secs: Option<u64>,
}

#[derive(Debug, Clone)]
pub struct StreamResponse {
    pub source_id: String,
    pub rtsp_inputs: Vec<VideoSourceInput>,
    pub state: String,
    pub should_record: bool,
    pub restart_interval_secs: Option<u64>,
    pub recording_start_time: Option<UnixTimestamp>,
}

#[derive(Debug, Clone)]
pub struct ListStreamsResponse {
    pub streams: Vec<StreamResponse>,
}

#[derive(Debug, Clone)]
pub struct CreateWebRtcSessionRequest {
    pub offer: String,
}

#[derive(Debug, Clone)]
pub struct CreateDvrWebRtcSessionRequest {
    pub offer: String,
    pub timestamp: u64,
}

#[derive(Debug, Clone)]
pub struct CreateWebRtcSessionResponse {
    pub session_id: ClientSessionId,
    pub answer: String,
}

#[derive(Debug, Clone)]
pub struct HealthResponse {
    pub status: String,
    pub version: String,
}

#[derive(Debug, Clone)]
pub struct ErrorResponse {
    pub error: String,
    pub message: String,
}

#[derive(Debug, Clone, Copy, PartialEq, Eq, Structural)]
pub struct SeekRequest {
    pub timestamp: u64,
}

/// A speed is given by the bits of a 64-bit floating-point number.
#[derive(Debug, Clone, Copy, PartialEq, Eq, Structural)]
pub struct SpeedRequest {
    pub speed: u64,
}

/// How a session plays. A speed is given by the bits of a 64-bit
/// floating-point number.
#[derive(Debug, Clone, Copy, PartialEq, Eq, Structural)]
pub struct SessionModeResponse {
    pub is_live: bool,
    /// Where in its recording the session is, in milliseconds.
    pub current_time_ms: Option<u64>,
    pub speed: u64,
}

#[derive(Debug, Clone)]
pub struct WebRtcSessionResponse {
    pub session_id: ClientSessionId,
    pub source_id: String,
    pub is_live: bool,
}

#[derive(Debug, Clone)]
pub struct ListWebRtcSessionsResponse {
    pub sessions: Vec<WebRtcSessionResponse>,
}

/// Query parameters for WSC-RTP WebSocket endpoint.
#[derive(Debug, Clone, Copy, PartialEq, Eq, Structural)]
pub struct WscRtpQuery {
    /// Skip UDP negotiation and use WebSocket for RTP delivery from the start.
    pub force_websocket_transport: bool,
}

/// Header for UDP hole-punch packets sent by the client.
pub const HOLEPUNCH_HEADER: &'static str = "ws-rtp";

/// Header for dummy packets sent by the server to confirm UDP connectivity.
pub const DUMMY_HEADER: &'static str = "ws-rtp-dummy";

/// Header for ack packets sent by the client to confirm UDP receipt.
pub const ACK_HEADER: &'static str = "ws-rtp-ack";

/// Number of dummy UDP packets to send while waiting for client ack.
pub const DUMMY_PACKET_COUNT: u32 = 5;

/// Interval between dummy packets in milliseconds.
pub const DUMMY_PACKET_INTERVAL_MS: u64 = 100;

/// Port range start for UDP holepunch listeners.
pub const PORT_RANGE_START: u16 = 30000;

/// Port range end for UDP holepunch listeners.
pub const PORT_RANGE_END: u16 = 40000;

#[derive(Debug, Clone, Copy, PartialEq, Eq, Structural)]
pub enum WscRtpClientMessage {
    Ping,
}

#[derive(Debug, Clone, Copy, PartialEq, Eq, Structural)]
pub enum SessionMode {
    Live,
    Dvr { timestamp: u64 },
}

/// What clients are told of a stream.
#[derive(Debug, Clone, Copy, PartialEq, Eq, Structural)]
pub enum StreamActivity {
    /// The camera's video flows.
    Active,
    /// The camera is away; a placeholder is shown.
    Inactive,
    /// The camera was reached; its video is not known yet.
    Connecting,
    /// The camera cannot be reached, and there is nothing to show.
    Error,
}

#[derive(Debug, Clone)]
pub enum WscRtpServerMessage {
    Init {
        session_id: String,
        /// The port allocated for this session's UDP hole punch listener
        /// (30000-40000 range), or 0 without one.
        holepunch_port: u16,
        /// The elected stream source for this session.
        active_source: Option<VideoSourceInput>,
    },
    Sdp { sdp: String },
    SessionMode(SessionMode),
    StreamState { state: StreamActivity },
    Error { message: String },
    /// UDP transport failed and RTP packets will now be delivered as binary
    /// WebSocket frames.
    FallingBackRtpToWs,
    Pong,
}

} // verus!
