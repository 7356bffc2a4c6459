//! What the REST interface answers.
use crate::api::models::{
    copy_inputs, CreateDvrWebRtcSessionRequest, CreateStreamRequest, CreateStreamResponse,
    CreateWebRtcSessionRequest, CreateWebRtcSessionResponse, ErrorResponse, HealthResponse,
    ListStreamsResponse, ListWebRtcSessionsResponse, SeekRequest, SessionModeResponse,
    SpeedRequest, StreamResponse, WebRtcSessionResponse,
};
use crate::app::session::{CreateStreamError, SeekAction, SessionError};
use crate::app::source::SourceWrapper;
use crate::app::GlobalState;
use crate::common::VideoCodec;
use crate::domain::dvr::filesystem::{first_with, none_with, RecordingMetadata};
use crate::domain::session_id::is_version_4;
use crate::domain::{ClientSessionId, StreamConfig, StreamInfo, VideoSourceId};
use crate::publishers::webrtc::{offer_refusal, WebRtcSession, WebrtcManager};
use crate::publishers::wsc_rtp::WscRtpPublisher;
use crate::sources::dvr::DvrPlayer;
use crate::sources::rtsp::address::RtspUrlError;
use crate::sources::rtsp::{inputs_refused, valid_inputs, RtspClient};
use crate::text::text;
use vstd::prelude::*;
use vstd::string::*;

verus! {

/// What is wrong with a request.
#[derive(Debug, Clone)]
pub enum ApiError {
    NotFound(String),
    BadRequest(String),
    Internal(String),
}

/// `StatusCode::to_string` writes the number of a status and its name.
#[verifier::external_body]
fn status_text(code: u16) -> (r: String)
    requires
        code == 400 || code == 404 || code == 500,
    ensures
        code == 400 ==> r@ == "400 Bad Request"@,
        code == 404 ==> r@ == "404 Not Found"@,
        code == 500 ==> r@ == "500 Internal Server Error"@,
{
    axum::http::StatusCode::from_u16(code).map(|status| status.to_string()).unwrap_or_default()
}

impl ApiError {
    /// The HTTP status of the error.
    pub open spec fn code(self) -> u16 {
        match self {
            ApiError::NotFound(_) => 404,
            ApiError::BadRequest(_) => 400,
            ApiError::Internal(_) => 500,
        }
    }

    /// What the error says.
    pub open spec fn says(self) -> Seq<char> {
        match self {
            ApiError::NotFound(message) => message@,
            ApiError::BadRequest(message) => message@,
            ApiError::Internal(message) => message@,
        }
    }

    /// The status and the body of the answer.
    pub fn into_response(self) -> (r: (u16, ErrorResponse))
        ensures
            r.0 == self.code(),
            r.1.error@ == (match self {
                ApiError::NotFound(_) => "404 Not Found"@,
                ApiError::BadRequest(_) => "400 Bad Request"@,
                ApiError::Internal(_) => "500 Internal Server Error"@,
            }),
            r.1.message@ == self.says(),
    {
        match self {
            ApiError::NotFound(message) => (404, ErrorResponse { error: status_text(404), message }),
            ApiError::BadRequest(message) => (
                400,
                ErrorResponse { error: status_text(400), message },
            ),
            ApiError::Internal(message) => (500, ErrorResponse { error: status_text(500), message }),
        }
    }
}

/// The server is up.
pub fn health(version: &str) -> (r: HealthResponse)
    ensures
        r.status@ == "healthy"@,
        r.version@ == version@,
{
    HealthResponse { status: text("healthy"), version: text(version) }
}

/// `Stream <name> not found`.
pub open spec fn not_found_text(source_id: Seq<char>) -> Seq<char> {
    "Stream "@ + source_id + " not found"@
}

/// The error for a stream that is not there.
pub fn stream_not_found(source_id: &str) -> (r: ApiError)
    ensures
        r matches ApiError::NotFound(message) && message@ == not_found_text(source_id@),
{
    let mut message = text("Stream ");
    message.append(source_id);
    message.append(" not found");
    ApiError::NotFound(message)
}

/// What is not there is not found; anything else that is wrong with a session
/// is wrong with the request.
pub open spec fn missing(error: SessionError) -> bool {
    error is StreamNotFound || error is SessionNotFound || error is UnknownSession
        || error is SourceNotFound
}

/// The answer to a request that a session cannot fulfil.
pub fn session_error(error: SessionError, source_id: &str) -> (r: ApiError)
    ensures
        missing(error) ==> r is NotFound,
        !missing(error) ==> r is BadRequest,
        r.says() == error.said(source_id@),
{
    let message = error.message(source_id);
    match error {
        SessionError::StreamNotFound => ApiError::NotFound(message),
        SessionError::SessionNotFound => ApiError::NotFound(message),
        SessionError::UnknownSession => ApiError::NotFound(message),
        SessionError::SourceNotFound => ApiError::NotFound(message),
        _ => ApiError::BadRequest(message),
    }
}

/// What is known of a stream, as clients get it.
pub open spec fn shown_as(info: StreamInfo, response: StreamResponse) -> bool {
    &&& response.source_id == info.source_id
    &&& response.rtsp_inputs == info.rtsp_inputs
    &&& response.state@ == info.state.named()
    &&& response.should_record == info.should_record
    &&& response.restart_interval_secs == info.restart_interval_secs
    &&& response.recording_start_time == info.recording_start_time
}

/// What is known of a stream, as clients get it.
pub fn stream_response(info: StreamInfo) -> (r: StreamResponse)
    ensures
        shown_as(info, r),
{
    StreamResponse {
        source_id: info.source_id,
        rtsp_inputs: info.rtsp_inputs,
        state: text(info.state.name()),
        should_record: info.should_record,
        restart_interval_secs: info.restart_interval_secs,
        recording_start_time: info.recording_start_time,
    }
}

/// A stream of the server, as clients get it.
pub open spec fn shows_stream(stream: SourceWrapper, response: StreamResponse) -> bool {
    &&& response.source_id@ == stream.source.config.source_id@
    &&& response.rtsp_inputs@ == stream.source.config.rtsp_inputs@
    &&& response.state@ == stream.source.state.named()
    &&& response.should_record == stream.source.config.should_record
    &&& response.restart_interval_secs == stream.source.config.restart_interval_secs
    &&& response.recording_start_time == stream.recording_start()
}

/// The stream that a request asks for.
pub open spec fn requested(req: CreateStreamRequest) -> StreamConfig {
    StreamConfig {
        source_id: req.source_id,
        rtsp_inputs: req.rtsp_inputs,
        username: req.username,
        password: req.password,
        should_record: req.should_record,
        restart_interval_secs: req.restart_interval_secs,
    }
}

/// What is said of inputs that are refused: why a text is no URL, or what is
/// wrong with the URL.
pub open spec fn refusal_text(error: RtspUrlError) -> Seq<char> {
    "Invalid RTSP URL: "@ + match error {
        RtspUrlError::Invalid { reason, .. } => reason@,
        _ => error.said(),
    }
}

/// The answer to a request whose inputs are refused.
pub fn inputs_error(error: &RtspUrlError) -> (r: ApiError)
    ensures
        r matches ApiError::BadRequest(message) && message@ == refusal_text(*error),
{
    let mut message = text("Invalid RTSP URL: ");
    match error {
        RtspUrlError::Invalid { reason, .. } => message.append(reason.as_str()),
        _ => {
            let fault = error.message();
            message.append(fault.as_str());
        },
    }
    ApiError::BadRequest(message)
}

/// Creates a stream.
pub fn create_stream(state: &mut GlobalState, req: CreateStreamRequest) -> (r: Result<
    CreateStreamResponse,
    ApiError,
>)
    requires
        old(state).valid(),
        old(state).serial() < u64::MAX,
    ensures
        final(state).valid(),
        final(state).sessions() == old(state).sessions(),
        final(state).publishers() == old(state).publishers(),
        final(state).webrtc_sessions() == old(state).webrtc_sessions(),
        match r {
            Ok(response) => {
                let stream = final(state).streams()[req.source_id@];
                &&& response.source_id == req.source_id
                &&& response.rtsp_inputs@ == req.rtsp_inputs@
                &&& response.should_record == req.should_record
                &&& response.restart_interval_secs == req.restart_interval_secs
                &&& !old(state).streams().contains_key(req.source_id@)
                &&& final(state).streams() == old(state).streams().insert(req.source_id@, stream)
                &&& old(state).addresses_free(req.rtsp_inputs@)
                &&& req.rtsp_inputs@.len() > 0
                &&& valid_inputs(req.rtsp_inputs@)
                &&& stream.fresh(requested(req), old(state).serial())
                &&& final(state).serial() == old(state).serial() + 1
            },
            Err(error) => {
                &&& error is BadRequest
                &&& old(state).unchanged(*final(state))
                &&& {
                    ||| exists|e: RtspUrlError| #[trigger]
                        inputs_refused(req.rtsp_inputs@, e) && error.says() == refusal_text(e)
                    ||| valid_inputs(req.rtsp_inputs@) && exists|e: CreateStreamError| #[trigger]
                        old(state).refuses(requested(req), e) && error.says() == e.said()
                }
            },
        },
{
    if let Err(error) = RtspClient::validate_inputs(req.rtsp_inputs.as_slice()) {
        assert(inputs_refused(req.rtsp_inputs@, error));
        return Err(inputs_error(&error));
    }
    let response = CreateStreamResponse {
        source_id: req.source_id.clone(),
        rtsp_inputs: copy_inputs(req.rtsp_inputs.as_slice()),
        should_record: req.should_record,
        restart_interval_secs: req.restart_interval_secs,
    };
    let config = StreamConfig {
        source_id: req.source_id,
        rtsp_inputs: req.rtsp_inputs,
        username: req.username,
        password: req.password,
        should_record: req.should_record,
        restart_interval_secs: req.restart_interval_secs,
    };
    match state.create_rtsp_stream(config) {
        Ok(_) => Ok(response),
        Err(error) => {
            assert(old(state).refuses(requested(req), error));
            Err(ApiError::BadRequest(error.message()))
        },
    }
}

/// All streams.
pub fn list_streams(state: &GlobalState) -> (r: ListStreamsResponse)
    requires
        state.valid(),
    ensures
        forall|i: int|
            0 <= i < r.streams@.len() ==> state.streams().contains_key(
                (#[trigger] r.streams@[i]).source_id@,
            ) && shows_stream(state.streams()[r.streams@[i].source_id@], r.streams@[i]),
        forall|k: Seq<char>| #[trigger]
            state.streams().contains_key(k) ==> exists|i: int|
                0 <= i < r.streams@.len() && (#[trigger] r.streams@[i]).source_id@ == k,
        forall|i: int, j: int|
            0 <= i < j < r.streams@.len() ==> (#[trigger] r.streams@[i]).source_id@ != (
            #[trigger] r.streams@[j]).source_id@,
{
    let infos = state.list_streams();
    let mut streams: Vec<StreamResponse> = Vec::new();
    let mut i: usize = 0;
    while i < infos.len()
        invariant
            i <= infos@.len(),
            streams@.len() == i,
            forall|k: int|
                0 <= k < infos@.len() ==> state.streams().contains_key(
                    (#[trigger] infos@[k]).source_id@,
                ) && state.streams()[infos@[k].source_id@].described_by(infos@[k]),
            forall|k: int|
                0 <= k < i ==> (#[trigger] streams@[k]).source_id@ == infos@[k].source_id@
                    && shows_stream(state.streams()[infos@[k].source_id@], streams@[k]),
        decreases infos@.len() - i,
    {
        let info = &infos[i];
        assert(state.streams()[infos@[i as int].source_id@].described_by(infos@[i as int]));
        streams.push(
            StreamResponse {
                source_id: info.source_id.clone(),
                rtsp_inputs: copy_inputs(info.rtsp_inputs.as_slice()),
                state: text(info.state.name()),
                should_record: info.should_record,
                restart_interval_secs: info.restart_interval_secs,
                recording_start_time: info.recording_start_time,
            },
        );
        i += 1;
    }
    proof {
        assert forall|k: Seq<char>| #[trigger] state.streams().contains_key(k) implies exists|
            i: int,
        | 0 <= i < streams@.len() && (#[trigger] streams@[i]).source_id@ == k by {
            let j = choose|j: int| 0 <= j < infos@.len() && (#[trigger] infos@[j]).source_id@ == k;
            assert(streams@[j].source_id@ == k);
        }
        assert forall|a: int, b: int| 0 <= a < b < streams@.len() implies (
        #[trigger] streams@[a]).source_id@ != (#[trigger] streams@[b]).source_id@ by {
            assert(infos@[a].source_id@ != infos@[b].source_id@);
        }
        assert forall|k: int| 0 <= k < streams@.len() implies state.streams().contains_key(
            (#[trigger] streams@[k]).source_id@,
        ) && shows_stream(state.streams()[streams@[k].source_id@], streams@[k]) by {
            assert(state.streams().contains_key(infos@[k].source_id@));
        }
    }
    ListStreamsResponse { streams }
}

/// One stream.
pub fn get_stream(state: &GlobalState, source_id: &VideoSourceId) -> (r: Result<
    StreamResponse,
    ApiError,
>)
    requires
        state.valid(),
    ensures
        match r {
            Ok(response) => state.streams().contains_key(source_id@) && shows_stream(
                state.streams()[source_id@],
                response,
            ),
            Err(error) => !state.streams().contains_key(source_id@) && error is NotFound
                && error.says() == not_found_text(source_id@),
        },
{
    match state.get_stream(source_id) {
        Ok(info) => Ok(stream_response(info)),
        Err(_) => Err(stream_not_found(source_id.as_str())),
    }
}

/// Deletes a stream, which is returned; its source is to be stopped.
pub fn delete_stream(state: &mut GlobalState, source_id: &VideoSourceId) -> (r: Result<
    SourceWrapper,
    ApiError,
>)
    requires
        old(state).valid(),
    ensures
        final(state).valid(),
        final(state).streams() == old(state).streams().remove(source_id@),
        final(state).sessions() == old(state).sessions(),
        final(state).publishers() == old(state).publishers(),
        final(state).webrtc_sessions() == old(state).webrtc_sessions(),
        final(state).serial() == old(state).serial(),
        match r {
            Ok(stream) => old(state).streams().contains_key(source_id@) && stream == old(
                state,
            ).streams()[source_id@],
            Err(error) => !old(state).streams().contains_key(source_id@) && error is NotFound
                && error.says() == not_found_text(source_id@),
        },
{
    match state.delete_stream(source_id) {
        Some(stream) => Ok(stream),
        None => Err(stream_not_found(source_id.as_str())),
    }
}

/// The answer that an error of a session is turned into.
pub open spec fn answered(error: SessionError, source_id: Seq<char>, answer: ApiError) -> bool {
    &&& missing(error) ==> answer is NotFound
    &&& !missing(error) ==> answer is BadRequest
    &&& answer.says() == error.said(source_id)
}

/// A WebRTC session of a stream is filed.
pub open spec fn opens_webrtc(
    before: GlobalState,
    after: GlobalState,
    source_id: Seq<char>,
    session_id: ClientSessionId,
) -> bool {
    let session = after.webrtc_sessions()[session_id];
    &&& after.webrtc_sessions() == before.webrtc_sessions().insert(session_id, session)
    &&& session.session_id == session_id
    &&& session.source_id@ == source_id
}

/// A WebRTC session of a stream can be opened for an offer: the stream's
/// parameter sets are known, and the offer can be read.
pub open spec fn webrtc_allowed(state: GlobalState, source_id: Seq<char>, offer: Seq<char>) -> bool {
    &&& state.streams().contains_key(source_id)
    &&& state.streams()[source_id].rtp_packetizer.initialized()
    &&& offer_refusal(offer) is None
}

/// The answer to a request for a WebRTC session that is not allowed: the
/// stream is looked for first, the offer is read last.
pub open spec fn webrtc_refused(
    state: GlobalState,
    source_id: Seq<char>,
    offer: Seq<char>,
    error: ApiError,
) -> bool {
    if !state.streams().contains_key(source_id) {
        answered(SessionError::StreamNotFound, source_id, error)
    } else if !state.streams()[source_id].rtp_packetizer.initialized() {
        answered(SessionError::StreamNotReady, source_id, error)
    } else {
        error is BadRequest && offer_refusal(offer) == Some(error.says())
    }
}

/// The answer to an offer, by what reading it gave: the request is bad for the
/// reason that it could not be read.
pub fn offer_answer(read: Result<(), String>) -> (r: Result<(), ApiError>)
    ensures
        match (read, r) {
            (Ok(()), Ok(())) => true,
            (Err(reason), Err(error)) => error == ApiError::BadRequest(reason),
            _ => false,
        },
{
    match read {
        Ok(()) => Ok(()),
        Err(reason) => Err(ApiError::BadRequest(reason)),
    }
}

/// Checks that a WebRTC session of a stream can be opened for an offer, and
/// says which codec the stream has.
pub fn check_webrtc_request(state: &GlobalState, source_id: &VideoSourceId, offer: &str) -> (r:
    Result<VideoCodec, ApiError>)
    requires
        state.valid(),
    ensures
        match r {
            Ok(codec) => {
                &&& webrtc_allowed(*state, source_id@, offer@)
                &&& state.streams()[source_id@].rtp_packetizer.stream_metadata matches Some(known)
                &&& known.codec == codec
            },
            Err(error) => {
                &&& !webrtc_allowed(*state, source_id@, offer@)
                &&& webrtc_refused(*state, source_id@, offer@, error)
            },
        },
{
    match state.webrtc_parameters(source_id) {
        Err(error) => Err(session_error(error, source_id.as_str())),
        Ok((codec, _)) => match offer_answer(WebrtcManager::check_offer(offer)) {
            Err(error) => Err(error),
            Ok(()) => Ok(codec),
        },
    }
}

/// A session for a client's offer, with a random id, and the codec of its
/// stream. It is opened once its connection stands.
pub fn offer_webrtc_session(state: &GlobalState, source_id: &VideoSourceId, offer: &str) -> (r:
    Result<(WebRtcSession, VideoCodec), ApiError>)
    requires
        state.valid(),
    ensures
        match r {
            Ok((session, codec)) => {
                &&& webrtc_allowed(*state, source_id@, offer@)
                &&& session.source_id@ == source_id@
                &&& is_version_4(session.session_id)
                &&& state.streams()[source_id@].rtp_packetizer.stream_metadata matches Some(known)
                &&& known.codec == codec
            },
            Err(error) => {
                &&& !webrtc_allowed(*state, source_id@, offer@)
                &&& webrtc_refused(*state, source_id@, offer@, error)
            },
        },
{
    match state.webrtc_parameters(source_id) {
        Err(error) => Err(session_error(error, source_id.as_str())),
        Ok((codec, _)) => match WebrtcManager::create_new_session(source_id.clone(), offer) {
            Err(reason) => Err(ApiError::BadRequest(reason)),
            Ok(session) => Ok((session, codec)),
        },
    }
}

/// Opens a WebRTC session whose connection stands.
pub fn create_webrtc_session(
    state: &mut GlobalState,
    source_id: &VideoSourceId,
    req: &CreateWebRtcSessionRequest,
    session_id: ClientSessionId,
    answer: String,
) -> (r: Result<CreateWebRtcSessionResponse, ApiError>)
    requires
        old(state).valid(),
    ensures
        final(state).valid(),
        final(state).publishers() == old(state).publishers(),
        match r {
            Ok(response) => {
                &&& webrtc_allowed(*old(state), source_id@, req.offer@)
                &&& response == (CreateWebRtcSessionResponse { session_id, answer })
                &&& old(state).opened(*final(state), source_id@, session_id)
                &&& opens_webrtc(*old(state), *final(state), source_id@, session_id)
            },
            Err(error) => {
                &&& !webrtc_allowed(*old(state), source_id@, req.offer@)
                &&& webrtc_refused(*old(state), source_id@, req.offer@, error)
                &&& old(state).unchanged(*final(state))
            },
        },
{
    if let Err(error) = check_webrtc_request(state, source_id, req.offer.as_str()) {
        return Err(error);
    }
    match state.create_websocket_session(source_id, session_id) {
        Ok(()) => Ok(CreateWebRtcSessionResponse { session_id, answer }),
        Err(error) => Err(session_error(error, source_id.as_str())),
    }
}

/// Opens a WebRTC session whose connection stands and shows a point in time in
/// it. Where there is no recording of that time, no session is opened.
pub fn create_dvr_webrtc_session(
    state: &mut GlobalState,
    source_id: &VideoSourceId,
    req: &CreateDvrWebRtcSessionRequest,
    session_id: ClientSessionId,
    answer: String,
    recordings: &[RecordingMetadata],
) -> (r: Result<CreateWebRtcSessionResponse, ApiError>)
    requires
        old(state).valid(),
    ensures
        final(state).valid(),
        final(state).publishers() == old(state).publishers(),
        r is Err ==> old(state).unchanged(*final(state)),
        if !webrtc_allowed(*old(state), source_id@, req.offer@) {
            r matches Err(error) && webrtc_refused(*old(state), source_id@, req.offer@, error)
        } else if old(state).streams()[source_id@].source.codec is None {
            r matches Err(error) && answered(SessionError::NoCodec, source_id@, error)
        } else if none_with(recordings@, |rec: RecordingMetadata| rec.holds(req.timestamp)) {
            r matches Err(error) && answered(SessionError::NoRecording, source_id@, error)
        } else {
            &&& r == Ok::<_, ApiError>(CreateWebRtcSessionResponse { session_id, answer })
            &&& exists|between: GlobalState|
                {
                    &&& old(state).opened(between, source_id@, session_id)
                    &&& opens_webrtc(*old(state), between, source_id@, session_id)
                    &&& #[trigger] between.seeks(
                        *final(state),
                        session_id,
                        req.timestamp,
                        recordings@,
                        Ok(SeekAction::Play),
                    )
                }
        },
{
    if let Err(error) = check_webrtc_request(state, source_id, req.offer.as_str()) {
        return Err(error);
    }
    let codec = match state.get_source(source_id) {
        None => None,
        Some(source) => source.source.get_codec(),
    };
    let codec = match codec {
        None => return Err(session_error(SessionError::NoCodec, source_id.as_str())),
        Some(codec) => codec,
    };
    let ghost holds = |rec: RecordingMetadata| rec.holds(req.timestamp);
    match DvrPlayer::new(source_id.clone(), req.timestamp, codec, recordings) {
        Err(_) => return Err(session_error(SessionError::NoRecording, source_id.as_str())),
        Ok(player) => {
            proof {
                let i = choose|i: int|
                    #[trigger] first_with(recordings@, i, holds) && recordings@[i]
                        == player.recording;
                assert(holds(recordings@[i]));
            }
        },
    }
    if let Err(error) = state.create_websocket_session(source_id, session_id) {
        return Err(session_error(error, source_id.as_str()));
    }
    let ghost between = *state;
    let sought = state.seek_session(&session_id, req.timestamp, recordings);
    assert(between.seeks(*state, session_id, req.timestamp, recordings@, sought));
    match sought {
        Ok(_) => Ok(CreateWebRtcSessionResponse { session_id, answer }),
        Err(error) => Err(session_error(error, source_id.as_str())),
    }
}

/// Deletes a WebRTC session. Where it has a connection it is returned; the
/// connection is to be closed.
pub fn delete_webrtc_session(state: &mut GlobalState, session_id: &ClientSessionId) -> (r: Result<
    Option<WebRtcSession>,
    ApiError,
>)
    requires
        old(state).valid(),
    ensures
        final(state).valid(),
        final(state).publishers() == old(state).publishers(),
        match r {
            Ok(session) => {
                &&& old(state).dropped(*final(state), *session_id)
                &&& session == old(state).webrtc_sessions().get(*session_id)
                &&& final(state).webrtc_sessions() == old(state).webrtc_sessions().remove(
                    *session_id,
                )
            },
            Err(error) => !old(state).sessions().contains_key(*session_id) && old(state).unchanged(
                *final(state),
            ) && answered(SessionError::UnknownSession, ""@, error),
        },
{
    match state.delete_webrtc_session(session_id) {
        Ok(session) => Ok(session),
        Err(error) => Err(session_error(error, "")),
    }
}

/// What a session leaves behind that is to be shut down.
#[derive(Debug)]
pub enum DeletedSession {
    /// A WebRTC session, with its connection if that stands.
    WebRtc(Option<WebRtcSession>),
    /// A WSC-RTP session, with its publisher.
    WscRtp(Option<WscRtpPublisher>),
}

/// Deletes a session of either kind: one that has a publisher is a WSC-RTP
/// session.
pub fn delete_session(state: &mut GlobalState, session_id: &ClientSessionId) -> (r: Result<
    DeletedSession,
    ApiError,
>)
    requires
        old(state).valid(),
    ensures
        final(state).valid(),
        r is Ok <==> old(state).sessions().contains_key(*session_id),
        match r {
            Ok(DeletedSession::WscRtp(publisher)) => {
                &&& old(state).publishers().contains_key(*session_id)
                &&& old(state).dropped(*final(state), *session_id)
                &&& final(state).publishers() == old(state).publishers().remove(*session_id)
                &&& final(state).webrtc_sessions() == old(state).webrtc_sessions()
                &&& publisher == Some(
                    WscRtpPublisher {
                        dead: true,
                        rtp_open: false,
                        sdp_open: false,
                        ..old(state).publishers()[*session_id]
                    },
                )
            },
            Ok(DeletedSession::WebRtc(session)) => {
                &&& !old(state).publishers().contains_key(*session_id)
                &&& old(state).dropped(*final(state), *session_id)
                &&& final(state).publishers() == old(state).publishers()
                &&& session == old(state).webrtc_sessions().get(*session_id)
                &&& final(state).webrtc_sessions() == old(state).webrtc_sessions().remove(
                    *session_id,
                )
            },
            Err(error) => old(state).unchanged(*final(state)) && answered(
                SessionError::UnknownSession,
                ""@,
                error,
            ),
        },
{
    if state.get_publisher(session_id).is_some() {
        match state.delete_wsc_rtp_session(session_id) {
            Ok(publisher) => Ok(DeletedSession::WscRtp(publisher)),
            Err(error) => Err(session_error(error, "")),
        }
    } else {
        match state.delete_webrtc_session(session_id) {
            Ok(session) => Ok(DeletedSession::WebRtc(session)),
            Err(error) => Err(session_error(error, "")),
        }
    }
}

/// The sessions of a stream.
pub fn list_webrtc_sessions(state: &GlobalState, source_id: &VideoSourceId) -> (r: Result<
    ListWebRtcSessionsResponse,
    ApiError,
>)
    requires
        state.valid(),
    ensures
        match r {
            Ok(response) => {
                &&& state.streams().contains_key(source_id@)
                &&& state.lists_sessions(source_id@, response.sessions@)
            },
            Err(error) => !state.streams().contains_key(source_id@) && error is NotFound
                && error.says() == not_found_text(source_id@),
        },
{
    if state.get_source(source_id).is_none() {
        return Err(stream_not_found(source_id.as_str()));
    }
    Ok(ListWebRtcSessionsResponse { sessions: state.list_webrtc_sessions(source_id) })
}

/// Seeks in a session.
pub fn seek_session(
    state: &mut GlobalState,
    session_id: &ClientSessionId,
    req: SeekRequest,
    recordings: &[RecordingMetadata],
) -> (r: Result<SeekAction, ApiError>)
    requires
        old(state).valid(),
    ensures
        final(state).valid(),
        exists|inner: Result<SeekAction, SessionError>| #[trigger]
            old(state).seeks(*final(state), *session_id, req.timestamp, recordings@, inner)
                && match (inner, r) {
                (Ok(a), Ok(b)) => a == b,
                (Err(error), Err(answer)) => answered(
                    error,
                    old(state).session_stream(*session_id),
                    answer,
                ),
                _ => false,
            },
{
    let source_id = match state.get_session(session_id) {
        Some(session) => session.source_id.clone(),
        None => String::new(),
    };
    let inner = state.seek_session(session_id, req.timestamp, recordings);
    assert(old(state).seeks(*state, *session_id, req.timestamp, recordings@, inner));
    match inner {
        Ok(action) => Ok(action),
        Err(error) => Err(session_error(error, source_id.as_str())),
    }
}

/// Sets the speed of a session.
pub fn set_session_speed(
    state: &mut GlobalState,
    session_id: &ClientSessionId,
    req: SpeedRequest,
) -> (r: Result<(), ApiError>)
    requires
        old(state).valid(),
    ensures
        final(state).valid(),
        exists|inner: Result<(), SessionError>| #[trigger]
            old(state).sets_speed(*final(state), *session_id, req.speed, inner) && match (inner, r) {
                (Ok(()), Ok(())) => true,
                (Err(error), Err(answer)) => answered(error, ""@, answer),
                _ => false,
            },
{
    let inner = state.set_session_speed(session_id, req.speed);
    assert(old(state).sets_speed(*state, *session_id, req.speed, inner));
    match inner {
        Ok(()) => Ok(()),
        Err(error) => Err(session_error(error, "")),
    }
}

/// Shows a session's stream live; the player that is returned is to be
/// stopped.
pub fn switch_session_to_live(state: &mut GlobalState, session_id: &ClientSessionId) -> (r: Result<
    Option<DvrPlayer>,
    ApiError,
>)
    requires
        old(state).valid(),
    ensures
        final(state).valid(),
        exists|inner: Result<Option<DvrPlayer>, SessionError>| #[trigger]
            old(state).goes_live(*final(state), *session_id, inner) && match (inner, r) {
                (Ok(a), Ok(b)) => a == b,
                (Err(error), Err(answer)) => answered(error, ""@, answer),
                _ => false,
            },
{
    let inner = state.switch_session_to_live(session_id);
    assert(old(state).goes_live(*state, *session_id, inner));
    match inner {
        Ok(player) => Ok(player),
        Err(error) => Err(session_error(error, "")),
    }
}

/// How a session plays; `position` is where in its recording its pipeline is,
/// in milliseconds, if it has one.
pub fn get_session_mode(
    state: &GlobalState,
    session_id: &ClientSessionId,
    position: Option<u64>,
) -> (r: Result<SessionModeResponse, ApiError>)
    requires
        state.valid(),
    ensures
        match r {
            Ok(mode) => state.sessions().contains_key(*session_id) && mode
                == state.sessions()[*session_id].mode(position),
            Err(answer) => !state.sessions().contains_key(*session_id) && answered(
                SessionError::SessionNotFound,
                ""@,
                answer,
            ),
        },
{
    match state.get_session_mode(session_id, position) {
        Ok(mode) => Ok(mode),
        Err(error) => Err(session_error(error, "")),
    }
}

/// Which status an error of a session is answered with, and in which words.
pub proof fn lemma_statuses(source_id: Seq<char>, answer: ApiError)
    ensures
        answered(SessionError::StreamNotFound, source_id, answer) ==> answer.code() == 404
            && answer.says() == "Stream not found"@,
        answered(SessionError::SessionNotFound, source_id, answer) ==> answer.code() == 404
            && answer.says() == "Session not found"@,
        answered(SessionError::UnknownSession, source_id, answer) ==> answer.code() == 404
            && answer.says() == "session not found"@,
        answered(SessionError::SourceNotFound, source_id, answer) ==> answer.code() == 404
            && answer.says() == "Source not found"@,
        answered(SessionError::StreamNotReady, source_id, answer) ==> answer.code() == 400
            && answer.says() == "Codec parameters not found - stream may not be ready"@,
        answered(SessionError::NoCodec, source_id, answer) ==> answer.code() == 400
            && answer.says() == "source is not ready, no codec...\n try again later"@,
        answered(SessionError::NoRecording, source_id, answer) ==> answer.code() == 400
            && answer.says() == "No recording found for source ID "@ + source_id,
        answered(SessionError::NotDvr, source_id, answer) ==> answer.code() == 400 && answer.says()
            == "Speed control only available in DVR mode"@,
        answer is Internal ==> answer.code() == 500,
{
}

/// A request for a WebRTC session is answered by the first thing that is wrong
/// with it: the stream is not there, its parameter sets are not known, or the
/// offer cannot be read. With nothing wrong it is not refused.
pub proof fn lemma_webrtc_request_decided(
    state: GlobalState,
    source_id: Seq<char>,
    offer: Seq<char>,
    error: ApiError,
)
    requires
        webrtc_refused(state, source_id, offer, error),
    ensures
        !webrtc_allowed(state, source_id, offer),
        error.code() == 404 <==> !state.streams().contains_key(source_id),
        state.streams().contains_key(source_id) ==> error.code() == 400,
        state.streams().contains_key(source_id)
            && state.streams()[source_id].rtp_packetizer.stream_metadata is None ==> error.says()
            == "Codec parameters not found - stream may not be ready"@,
        state.streams().contains_key(source_id)
            && state.streams()[source_id].rtp_packetizer.stream_metadata is Some ==> offer_refusal(
            offer,
        ) == Some(error.says()),
{
}

/// A stream is created as it was requested, field by field.
pub proof fn lemma_request_taken_over(req: CreateStreamRequest)
    ensures
        requested(req).source_id == req.source_id,
        requested(req).rtsp_inputs == req.rtsp_inputs,
        requested(req).username == req.username,
        requested(req).password == req.password,
        requested(req).should_record == req.should_record,
        requested(req).restart_interval_secs == req.restart_interval_secs,
{
}

/// Each session of a stream is in the list of its sessions, and shown there as
/// live exactly where it plays live.
pub proof fn lemma_sessions_are_listed(
    state: GlobalState,
    source_id: Seq<char>,
    list: Seq<WebRtcSessionResponse>,
    id: ClientSessionId,
    position: Option<u64>,
) -> (i: int)
    requires
        state.lists_sessions(source_id, list),
        state.sessions().contains_key(id),
        state.sessions()[id].source_id@ == source_id,
    ensures
        0 <= i < list.len(),
        list[i].session_id == id,
        list[i].source_id@ == source_id,
        list[i].is_live == state.sessions()[id].mode(position).is_live,
        forall|j: int| 0 <= j < list.len() && (#[trigger] list[j]).session_id == id ==> j == i,
{
    let i = choose|i: int| 0 <= i < list.len() && (#[trigger] list[i]).session_id == id;
    assert forall|j: int| 0 <= j < list.len() && (#[trigger] list[j]).session_id == id implies j
        == i by {
        if j < i {
            assert(list[j].session_id != list[i].session_id);
        } else if i < j {
            assert(list[i].session_id != list[j].session_id);
        }
    }
    i
}

/// What a client gets of a stream: its state by name, and when its recording
/// began, if there is one.
pub proof fn lemma_stream_shown(stream: SourceWrapper, response: StreamResponse)
    requires
        shows_stream(stream, response),
    ensures
        stream.source.state is Running ==> response.state@ == "Running"@,
        stream.source.state is Stopped ==> response.state@ == "Stopped"@,
        stream.recorder is None ==> response.recording_start_time is None,
        response.rtsp_inputs@ == stream.source.config.rtsp_inputs@,
        response.source_id@ == stream.source.config.source_id@,
        response.should_record == stream.source.config.should_record,
        response.restart_interval_secs == stream.source.config.restart_interval_secs,
        stream.recorder matches Some(recorder) ==> (recorder.recording matches Some(recording)
            ==> response.recording_start_time == Some(recording.start_time)),
{
}

} // verus!
