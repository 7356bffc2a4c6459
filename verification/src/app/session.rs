//! The sessions of the server, and what can go wrong.
use crate::api::models::SessionModeResponse;
use crate::common::stitcher::StitchingConsumer;
use crate::domain::{ClientSessionId, VideoSourceId};
use crate::sources::dvr::{DvrPlayer, NORMAL_SPEED};
use crate::sources::rtsp::address::RtspUrlError;
use vstd::prelude::*;
use vstd::string::*;

verus! {

/// What a session shows.
#[derive(Debug)]
pub enum ClientSessionState {
    Live,
    Dvr(DvrPlayer),
}

/// A client that watches a stream.
#[derive(Debug)]
pub struct ClientSession {
    pub id: ClientSessionId,
    pub source_id: VideoSourceId,
    /// The stream that the session was opened on.
    pub live_serial: u64,
    pub stitching_consumer: StitchingConsumer,
    pub state: ClientSessionState,
}

impl ClientSession {
    /// A session that shows its stream live and has seen no packet yet.
    pub fn new_live(id: ClientSessionId, source_id: VideoSourceId, live_serial: u64) -> (r: Self)
        ensures
            r == (ClientSession {
                id,
                source_id,
                live_serial,
                stitching_consumer: r.stitching_consumer,
                state: ClientSessionState::Live,
            }),
            r.stitching_consumer.id == id,
            r.stitching_consumer.stitcher.is_fresh(),
    {
        ClientSession {
            id,
            source_id,
            live_serial,
            stitching_consumer: StitchingConsumer::new(id),
            state: ClientSessionState::Live,
        }
    }

    /// Checks if the session shows its stream live.
    pub fn is_live(&self) -> (r: bool)
        ensures
            r == self.state is Live,
    {
        match self.state {
            ClientSessionState::Live => true,
            ClientSessionState::Dvr(_) => false,
        }
    }

    /// How the session plays, with its pipeline at `position`: its stream at
    /// the speed that it has, or a recording at the speed that was set.
    pub open spec fn mode(self, position: Option<u64>) -> SessionModeResponse {
        match self.state {
            ClientSessionState::Live => SessionModeResponse {
                is_live: true,
                current_time_ms: None,
                speed: NORMAL_SPEED,
            },
            ClientSessionState::Dvr(player) => SessionModeResponse {
                is_live: false,
                current_time_ms: position,
                speed: player.speed,
            },
        }
    }

    /// How the session plays.
    pub fn session_mode(&self, position: Option<u64>) -> (r: SessionModeResponse)
        ensures
            r == self.mode(position),
    {
        match &self.state {
            ClientSessionState::Live => SessionModeResponse {
                is_live: true,
                current_time_ms: None,
                speed: NORMAL_SPEED,
            },
            ClientSessionState::Dvr(player) => SessionModeResponse {
                is_live: false,
                current_time_ms: position,
                speed: player.speed(),
            },
        }
    }

    /// The stream that the session shows.
    pub fn source_id(&self) -> (r: &VideoSourceId)
        ensures
            *r == self.source_id,
    {
        &self.source_id
    }
}

/// Why a stream cannot be created.
#[derive(Debug)]
pub enum CreateStreamError {
    AlreadyExists { source_id: VideoSourceId },
    /// Another stream has the same address.
    UrlTaken { url: String, source_id: VideoSourceId },
    InvalidUrl(RtspUrlError),
}

impl CreateStreamError {
    /// The error in words.
    pub open spec fn said(self) -> Seq<char> {
        match self {
            CreateStreamError::AlreadyExists { source_id } => "Stream "@ + source_id@
                + " already exists"@,
            CreateStreamError::UrlTaken { url, source_id } => "RTSP URL "@ + url@
                + " already exists with source id "@ + source_id@,
            CreateStreamError::InvalidUrl(error) => error.said(),
        }
    }

    /// The error in words.
    pub fn message(&self) -> (r: String)
        ensures
            r@ == self.said(),
    {
        let mut out = String::new();
        match self {
            CreateStreamError::AlreadyExists { source_id } => {
                out.append("Stream ");
                out.append(source_id.as_str());
                out.append(" already exists");
            },
            CreateStreamError::UrlTaken { url, source_id } => {
                out.append("RTSP URL ");
                out.append(url.as_str());
                out.append(" already exists with source id ");
                out.append(source_id.as_str());
            },
            CreateStreamError::InvalidUrl(error) => {
                let message = error.message();
                out.append(message.as_str());
            },
        }
        assert(out@ =~= self.said());
        out
    }
}

/// Why something cannot be done with a session.
#[derive(Debug, Clone, Copy, PartialEq, Eq, Structural)]
pub enum SessionError {
    StreamNotFound,
    /// The stream's parameter sets are not known yet.
    StreamNotReady,
    SessionNotFound,
    /// There is no such session to delete.
    UnknownSession,
    SourceNotFound,
    /// The stream's codec is not known yet.
    NoCodec,
    NoRecording,
    /// Speed can be set while a recording is played only.
    NotDvr,
}

impl SessionError {
    /// The error in words, of a session of the given stream.
    pub open spec fn said(self, source_id: Seq<char>) -> Seq<char> {
        match self {
            SessionError::StreamNotFound => "Stream not found"@,
            SessionError::StreamNotReady =>
                "Codec parameters not found - stream may not be ready"@,
            SessionError::SessionNotFound => "Session not found"@,
            SessionError::UnknownSession => "session not found"@,
            SessionError::SourceNotFound => "Source not found"@,
            SessionError::NoCodec => "source is not ready, no codec...\n try again later"@,
            SessionError::NoRecording => "No recording found for source ID "@ + source_id,
            SessionError::NotDvr => "Speed control only available in DVR mode"@,
        }
    }

    /// The error in words, of a session of the given stream.
    pub fn message(&self, source_id: &str) -> (r: String)
        ensures
            r@ == self.said(source_id@),
    {
        let mut out = String::new();
        match self {
            SessionError::StreamNotFound => out.append("Stream not found"),
            SessionError::StreamNotReady => out.append(
                "Codec parameters not found - stream may not be ready",
            ),
            SessionError::SessionNotFound => out.append("Session not found"),
            SessionError::UnknownSession => out.append("session not found"),
            SessionError::SourceNotFound => out.append("Source not found"),
            SessionError::NoCodec => out.append(
                "source is not ready, no codec...\n try again later",
            ),
            SessionError::NoRecording => {
                out.append("No recording found for source ID ");
                out.append(source_id);
            },
            SessionError::NotDvr => out.append("Speed control only available in DVR mode"),
        }
        assert(out@ =~= self.said(source_id@));
        out
    }
}

/// What a seek asks for.
#[derive(Debug, Clone, Copy, PartialEq, Eq, Structural)]
pub enum SeekAction {
    /// The recording that is being played is sought in, to so many
    /// milliseconds.
    Seek { offset_ms: u64 },
    /// A recording is to be played.
    Play,
}

/// How a session plays: live it has no position and the speed one, and in a
/// recording the position of its pipeline and the speed that was set.
pub proof fn lemma_modes(session: ClientSession, position: Option<u64>)
    ensures
        session.state is Live ==> session.mode(position) == (SessionModeResponse {
            is_live: true,
            current_time_ms: None,
            speed: 0x3FF0_0000_0000_0000,
        }),
        session.state matches ClientSessionState::Dvr(player) ==> session.mode(position)
            == (SessionModeResponse {
            is_live: false,
            current_time_ms: position,
            speed: player.speed,
        }),
{
}

} // verus!
