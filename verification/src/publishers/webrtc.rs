//! WebRTC sessions.
use crate::common::rtp::RtpPacket;
use crate::common::VideoCodec;
use crate::domain::session_id::{is_version_4, new_session_id, session_id_chars, session_id_text};
use crate::domain::{ClientSessionId, VideoSourceId};
use crate::publishers::sdp_text::encoding_name;
use crate::registry::SessionRegistry;
use crate::text::text;
use vstd::prelude::*;
use webrtc::peer_connection::sdp::session_description::RTCSessionDescription;

verus! {

/// The clock of the video track, in ticks per second.
pub const TRACK_CLOCK_RATE: u32 = 90000;

/// Why `RTCSessionDescription::offer` refuses a text; nothing where it reads
/// the text as an offer.
pub uninterp spec fn offer_refusal(sdp: Seq<char>) -> Option<Seq<char>>;

/// `RTCSessionDescription::offer` reads a session description. Whether it can,
/// and why not, depends on the text alone.
#[verifier::external_body]
fn read_offer(sdp: &str) -> (r: Result<(), String>)
    ensures
        match r {
            Ok(()) => offer_refusal(sdp@) is None,
            Err(reason) => offer_refusal(sdp@) == Some(reason@),
        },
{
    match RTCSessionDescription::offer(sdp.to_owned()) {
        Ok(_) => Ok(()),
        Err(err) => Err(err.to_string()),
    }
}

/// The states of a connection.
#[derive(Debug, Clone, Copy, PartialEq, Eq, Structural)]
pub enum ConnectionState {
    Unspecified,
    New,
    Connecting,
    Connected,
    Disconnected,
    Failed,
    Closed,
}

impl ConnectionState {
    /// A session whose connection gets into this state is over.
    pub fn ends_session(&self) -> (r: bool)
        ensures
            r == (*self is Closed || *self is Failed || *self is Disconnected),
    {
        match self {
            ConnectionState::Closed => true,
            ConnectionState::Failed => true,
            ConnectionState::Disconnected => true,
            _ => false,
        }
    }
}

/// The track that carries a session's video.
#[derive(Debug)]
pub struct TrackSettings {
    pub mime_type: String,
    pub clock_rate: u32,
    pub track_id: String,
    pub stream_id: String,
}

/// One WebRTC session.
#[derive(Debug)]
pub struct WebRtcSession {
    pub session_id: ClientSessionId,
    pub source_id: VideoSourceId,
}

impl WebRtcSession {
    pub fn new(source_id: VideoSourceId, session_id: ClientSessionId) -> (r: Self)
        ensures
            r == (WebRtcSession { session_id, source_id }),
    {
        WebRtcSession { session_id, source_id }
    }

    pub fn session_id(&self) -> (r: ClientSessionId)
        ensures
            r == self.session_id,
    {
        self.session_id
    }

    pub fn source_id(&self) -> (r: &VideoSourceId)
        ensures
            *r == self.source_id,
    {
        &self.source_id
    }

    /// The track that carries the session's video.
    pub fn track(&self, codec: &VideoCodec) -> (r: TrackSettings)
        ensures
            r.mime_type@ == "video/"@ + encoding_name(*codec),
            r.clock_rate == TRACK_CLOCK_RATE,
            r.track_id@ == "live_stream"@,
            r.stream_id@ == session_id_chars(self.session_id),
    {
        let mime_type = text(codec.mime_type());
        proof {
            reveal_strlit("video/H264");
            reveal_strlit("video/H265");
            reveal_strlit("video/");
            reveal_strlit("H264");
            reveal_strlit("H265");
            assert("video/H264"@ =~= "video/"@ + "H264"@);
            assert("video/H265"@ =~= "video/"@ + "H265"@);
        }
        TrackSettings {
            mime_type,
            clock_rate: TRACK_CLOCK_RATE,
            track_id: text("live_stream"),
            stream_id: session_id_text(self.session_id),
        }
    }

    /// The bytes that go to the track for a packet.
    pub fn on_new_packet(&self, frame: &RtpPacket) -> (r: Vec<u8>)
        ensures
            r@ == frame.encoded(),
    {
        frame.to_bytes()
    }
}

/// The WebRTC sessions that are open.
#[derive(Debug)]
pub struct WebrtcManager {
    sessions: SessionRegistry<WebRtcSession>,
}

impl WebrtcManager {
    /// The sessions by their ids.
    pub closed spec fn open_sessions(self) -> Map<ClientSessionId, WebRtcSession> {
        self.sessions@
    }

    pub closed spec fn valid(self) -> bool {
        self.sessions.valid()
    }

    pub fn new() -> (r: Self)
        ensures
            r.valid(),
            r.open_sessions() == Map::<ClientSessionId, WebRtcSession>::empty(),
    {
        WebrtcManager { sessions: SessionRegistry::new() }
    }

    /// Checks that a client's offer can be read; the error says why not.
    pub fn check_offer(offer: &str) -> (r: Result<(), String>)
        ensures
            match r {
                Ok(()) => offer_refusal(offer@) is None,
                Err(reason) => offer_refusal(offer@) == Some(reason@),
            },
    {
        read_offer(offer)
    }

    /// A session of a stream, with a random id, for an offer that was read; the
    /// reason why it was not, for one that could not be.
    pub fn session_for(source_id: VideoSourceId, read: Result<(), String>) -> (r: Result<
        WebRtcSession,
        String,
    >)
        ensures
            match (read, r) {
                (Ok(()), Ok(session)) => session.source_id == source_id && is_version_4(
                    session.session_id,
                ),
                (Err(reason), Err(said)) => said == reason,
                _ => false,
            },
    {
        match read {
            Ok(()) => Ok(WebRtcSession::new(source_id, new_session_id())),
            Err(reason) => Err(reason),
        }
    }

    /// A session of a stream for a client's offer, with a random id. It is
    /// opened once its connection stands.
    pub fn create_new_session(source_id: VideoSourceId, offer: &str) -> (r: Result<
        WebRtcSession,
        String,
    >)
        ensures
            match r {
                Ok(session) => {
                    &&& offer_refusal(offer@) is None
                    &&& session.source_id == source_id
                    &&& is_version_4(session.session_id)
                },
                Err(reason) => offer_refusal(offer@) == Some(reason@),
            },
    {
        WebrtcManager::session_for(source_id, read_offer(offer))
    }

    /// Opens a session.
    pub fn open_session(&mut self, session: WebRtcSession)
        requires
            old(self).valid(),
        ensures
            final(self).valid(),
            final(self).open_sessions() == old(self).open_sessions().insert(
                session.session_id,
                session,
            ),
    {
        let _ = self.sessions.insert(session.session_id, session);
    }

    /// Takes a session out; its connection is to be closed.
    pub fn delete_session(&mut self, session_id: &ClientSessionId) -> (r: Option<WebRtcSession>)
        requires
            old(self).valid(),
        ensures
            final(self).valid(),
            r == old(self).open_sessions().get(*session_id),
            final(self).open_sessions() == old(self).open_sessions().remove(*session_id),
    {
        self.sessions.remove(session_id)
    }
}

} // verus!
