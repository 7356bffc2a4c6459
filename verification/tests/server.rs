use media_server::api::handlers;
use media_server::api::handlers::{ApiError, DeletedSession};
use media_server::api::models::{
    CreateDvrWebRtcSessionRequest, CreateStreamRequest, CreateWebRtcSessionRequest,
    CreateWebRtcSessionResponse, SeekRequest, SpeedRequest, StreamActivity, VideoSourceInput,
};
use media_server::app::session::{ClientSessionState, CreateStreamError, SeekAction, SessionError};
use media_server::app::GlobalState;
use media_server::common::{FFmpegVideoMetadata, TimeBase, VideoCodec};
use media_server::domain::dvr::filesystem::RecordingMetadata;
use media_server::domain::{StreamConfig, StreamState};
use media_server::publishers::webrtc::WebrtcManager;
use media_server::publishers::wsc_rtp::WscRtpPublisher;
use media_server::registry::{SessionRegistry, StreamRegistry};
use media_server::sources::rtsp::timeline::{FallbackChange, LiveStreamState, PacketTimes};

const OFFER: &str = "v=0\r\no=- 1 0 IN IP4 0.0.0.0\r\ns=-\r\nt=0 0\r\n";

fn open(
    state: &mut GlobalState,
    source_id: &String,
    offer: &str,
    session_id: u128,
) -> Result<CreateWebRtcSessionResponse, ApiError> {
    let req = CreateWebRtcSessionRequest { offer: id(offer) };
    handlers::create_webrtc_session(state, source_id, &req, session_id, id("v=0"))
}

fn id(name: &str) -> String {
    name.to_string()
}

fn input(url: &str) -> VideoSourceInput {
    VideoSourceInput {
        label: "primary".to_string(),
        url: url.to_string(),
        priority: 0,
    }
}

fn config(name: &str, urls: &[&str]) -> StreamConfig {
    StreamConfig {
        source_id: id(name),
        rtsp_inputs: urls.iter().map(|url| input(url)).collect(),
        username: None,
        password: None,
        should_record: true,
        restart_interval_secs: Some(3),
    }
}

fn request(name: &str, urls: &[&str]) -> CreateStreamRequest {
    CreateStreamRequest {
        source_id: id(name),
        rtsp_inputs: urls.iter().map(|url| input(url)).collect(),
        username: None,
        password: None,
        should_record: false,
        restart_interval_secs: None,
    }
}

fn metadata() -> FFmpegVideoMetadata {
    FFmpegVideoMetadata {
        codec: VideoCodec::H264,
        extradata: Some(vec![
            1, 0x64, 0, 0x1e, 0xff, 0xe1, 0, 4, 0x67, 0x42, 0, 0x1e, 1, 0, 4, 0x68, 0xce, 0x3c, 0x80,
        ]),
        timebase: TimeBase { num: 1, den: 90000 },
    }
}

fn ready_server() -> GlobalState {
    let mut state = GlobalState::new();
    state.create_rtsp_stream(config("cam", &["rtsp://a/1"])).unwrap();
    let source = state.get_source_mut(&id("cam")).unwrap();
    assert_eq!(source.on_metadata(&metadata(), 1700), Some(Ok(())));
    assert_eq!(source.on_metadata(&metadata(), 1800), None);
    state
}

fn consumers(state: &GlobalState, name: &str) -> Vec<u128> {
    let source = state.get_source(&id(name)).unwrap();
    source.rtp_packetizer.consumers.clone()
}

fn recordings() -> Vec<RecordingMetadata> {
    vec![RecordingMetadata {
        path: "dvr/x/1000_2000.mp4".to_string(),
        start_time: 1000,
        end_time: Some(2000),
    }]
}

#[test]
fn streams_are_created() {
    let mut state = GlobalState::new();
    assert_eq!(state.create_rtsp_stream(config("a", &["rtsp://a/1"])).unwrap(), "a");
    let error = state.create_rtsp_stream(config("a", &["rtsp://a/2"])).unwrap_err();
    assert_eq!(error.message(), "Stream a already exists");
    let error = state.create_rtsp_stream(config("b", &["rtsp://b/1", "rtsp://a/1"])).unwrap_err();
    assert_eq!(error.message(), "RTSP URL rtsp://a/1 already exists with source id a");
    let error = state.create_rtsp_stream(config("b", &["ftp://b/1"])).unwrap_err();
    assert!(matches!(error, CreateStreamError::InvalidUrl(_)));
    assert_eq!(error.message(), "Invalid URL scheme 'ftp'. Must be rtsp:// or rtsps://");
    let error = state.create_rtsp_stream(config("b", &[])).unwrap_err();
    assert_eq!(error.message(), "No RTSP URL given");
    state.create_rtsp_stream(config("b", &["rtsp://b/1"])).unwrap();
    let mut names: Vec<String> = state.list_streams().into_iter().map(|s| s.source_id).collect();
    names.sort();
    assert_eq!(names, vec!["a", "b"]);
    assert!(state.delete_stream(&id("a")).is_some());
    assert!(state.delete_stream(&id("a")).is_none());
    state.create_rtsp_stream(config("c", &["rtsp://a/1"])).unwrap();
    assert_eq!(state.cleanup().len(), 2);
    assert_eq!(state.list_streams().len(), 0);
}

#[test]
fn streams_are_described() {
    let mut state = GlobalState::new();
    let response = handlers::create_stream(&mut state, request("cam", &["rtsp://a/1"])).unwrap();
    assert_eq!(response.source_id, "cam");
    assert_eq!(response.rtsp_inputs, vec![input("rtsp://a/1")]);
    let shown = handlers::get_stream(&state, &id("cam")).unwrap();
    assert_eq!(shown.state, "Stopped");
    assert_eq!(shown.recording_start_time, None);
    let state = ready_server();
    let shown = handlers::get_stream(&state, &id("cam")).unwrap();
    assert_eq!(shown.state, "Running");
    assert_eq!(shown.recording_start_time, Some(1700));
    assert_eq!(shown.restart_interval_secs, Some(3));
    assert!(shown.should_record);
    assert_eq!(state.get_stream(&id("cam")).unwrap().state, StreamState::Running);
    assert_eq!(handlers::list_streams(&state).streams.len(), 1);
}

fn answer(error: ApiError) -> (u16, String, String) {
    let (code, body) = error.into_response();
    (code, body.error, body.message)
}

#[test]
fn errors_are_answered() {
    let mut state = GlobalState::new();
    let bad = |message: &str| (400, "400 Bad Request".to_string(), message.to_string());
    let missing = |message: &str| (404, "404 Not Found".to_string(), message.to_string());
    assert_eq!(
        answer(handlers::create_stream(&mut state, request("cam", &["no"])).unwrap_err()),
        bad("Invalid RTSP URL: relative URL without a base")
    );
    assert_eq!(
        answer(handlers::create_stream(&mut state, request("cam", &["http://a"])).unwrap_err()),
        bad("Invalid RTSP URL: Invalid URL scheme 'http'. Must be rtsp:// or rtsps://")
    );
    assert_eq!(
        answer(handlers::create_stream(&mut state, request("cam", &[])).unwrap_err()),
        bad("Invalid RTSP URL: No RTSP URL given")
    );
    handlers::create_stream(&mut state, request("cam", &["rtsp://a"])).unwrap();
    assert_eq!(
        answer(handlers::create_stream(&mut state, request("cam", &["rtsp://a"])).unwrap_err()),
        bad("Stream cam already exists")
    );
    let other = id("other");
    assert_eq!(
        answer(handlers::get_stream(&state, &other).unwrap_err()),
        missing("Stream other not found")
    );
    assert_eq!(
        answer(handlers::delete_stream(&mut state, &other).unwrap_err()),
        missing("Stream other not found")
    );
    assert_eq!(
        answer(handlers::list_webrtc_sessions(&state, &other).unwrap_err()),
        missing("Stream other not found")
    );
    assert_eq!(
        answer(open(&mut state, &other, OFFER, 1).unwrap_err()),
        missing("Stream not found")
    );
    assert_eq!(
        answer(open(&mut state, &id("cam"), "no", 1).unwrap_err()),
        bad("Codec parameters not found - stream may not be ready")
    );
    assert_eq!(
        answer(handlers::delete_webrtc_session(&mut state, &1).unwrap_err()),
        missing("session not found")
    );
    assert_eq!(
        answer(handlers::get_session_mode(&state, &1, None).unwrap_err()),
        missing("Session not found")
    );
    assert_eq!(
        answer(handlers::switch_session_to_live(&mut state, &1).unwrap_err()),
        missing("Session not found")
    );
    let req = SeekRequest { timestamp: 5 };
    let speed = SpeedRequest { speed: 2.0f64.to_bits() };
    assert_eq!(
        answer(handlers::set_session_speed(&mut state, &1, speed).unwrap_err()),
        missing("Session not found")
    );
    assert_eq!(
        answer(handlers::delete_session(&mut state, &1).unwrap_err()),
        missing("session not found")
    );
    assert_eq!(
        answer(handlers::seek_session(&mut state, &1, req, &[]).unwrap_err()),
        missing("Session not found")
    );
    assert_eq!(state.delete_wsc_rtp_session(&1).unwrap_err().message(""), "session not found");
    let session = state.create_wsc_rtp_registration(&id("cam")).unwrap();
    assert_eq!(
        answer(handlers::seek_session(&mut state, &session, req, &[]).unwrap_err()),
        bad("source is not ready, no codec...\n try again later")
    );
    assert_eq!(
        answer(handlers::set_session_speed(&mut state, &session, speed).unwrap_err()),
        bad("Speed control only available in DVR mode")
    );
    assert!(handlers::delete_stream(&mut state, &id("cam")).is_ok());
    assert_eq!(
        answer(handlers::seek_session(&mut state, &session, req, &[]).unwrap_err()),
        missing("Source not found")
    );
    assert_eq!(
        answer(ApiError::Internal(id("oh"))),
        (500, "500 Internal Server Error".to_string(), id("oh"))
    );
    assert_eq!(handlers::health("0.1.0").status, "healthy");
    assert_eq!(handlers::health("0.1.0").version, "0.1.0");
}

#[test]
fn webrtc_sessions_come_and_go() {
    let mut state = ready_server();
    let (codec, params) = state.webrtc_parameters(&id("cam")).unwrap();
    assert_eq!(codec, VideoCodec::H264);
    assert_eq!(params.sps, Some(vec![0x67, 0x42, 0, 0x1e]));
    assert_eq!(
        answer(open(&mut state, &id("cam"), "no", 7).unwrap_err()),
        (400, id("400 Bad Request"), id("SdpInvalidSyntax: no"))
    );
    assert_eq!(consumers(&state, "cam"), vec![]);
    let refused = handlers::offer_webrtc_session(&state, &id("cam"), "no").unwrap_err();
    assert_eq!(answer(refused).2, "SdpInvalidSyntax: no");
    assert_eq!(
        answer(handlers::offer_answer(Err(id("why"))).unwrap_err()),
        (400, id("400 Bad Request"), id("why"))
    );
    let (offered, codec) = handlers::offer_webrtc_session(&state, &id("cam"), OFFER).unwrap();
    assert_eq!((offered.source_id().as_str(), codec), ("cam", VideoCodec::H264));
    let response = open(&mut state, &id("cam"), OFFER, 7).unwrap();
    assert_eq!((response.session_id, response.answer.as_str()), (7, "v=0"));
    state.create_websocket_session(&id("cam"), 8).unwrap();
    assert_eq!(consumers(&state, "cam"), vec![7, 8]);
    let mut sessions = handlers::list_webrtc_sessions(&state, &id("cam")).unwrap().sessions;
    sessions.sort_by_key(|s| s.session_id);
    assert_eq!(sessions.len(), 2);
    assert_eq!(sessions[1].session_id, 8);
    assert_eq!(sessions[1].source_id, "cam");
    assert!(sessions[1].is_live);
    let gone = handlers::delete_webrtc_session(&mut state, &7).unwrap().unwrap();
    assert_eq!((gone.session_id(), gone.source_id().as_str()), (7, "cam"));
    assert_eq!(consumers(&state, "cam"), vec![8]);
    assert!(state.get_session(&7).is_none());
    assert!(state.delete_webrtc_session(&7).is_err());
    let session = state.create_wsc_rtp_registration(&id("cam")).unwrap();
    assert!(state.delete_webrtc_session(&session).unwrap().is_none());
}

#[test]
fn packets_reach_sessions() {
    let mut state = ready_server();
    let session = state.create_wsc_rtp_registration(&id("cam")).unwrap();
    assert_eq!(consumers(&state, "cam"), vec![session]);
    let source = state.get_source_mut(&id("cam")).unwrap();
    let times = PacketTimes {
        dts: Some(3000),
        pts: Some(3000),
        duration: 3000,
    };
    assert!(source.accepts(times));
    let output = source.on_packet(times, Some(&[0, 0, 1, 0x65, 9]), true);
    assert_eq!(output.packets.len(), 1);
    let buffer = output.buffer.unwrap();
    assert!(buffer.starts_stream);
    assert_eq!(&buffer.data[buffer.data.len() - 6..], &[0, 0, 0, 1, 0x65, 9]);
    source.buffer_written();
    assert!(!source.recorder.as_ref().unwrap().recording.as_ref().unwrap().waiting_for_keyframe);
    let first = state.stitch_for(&session, &output.packets).unwrap();
    let second = state.stitch_for(&session, &output.packets).unwrap();
    assert_eq!(first[0].header.timestamp, 3000);
    assert_eq!(second[0].header.seq, first[0].header.seq.wrapping_add(1));
    assert!(state.stitch_for(&(session ^ 1), &output.packets).is_none());
    // The description.
    assert_eq!(state.refresh_sdp(&session), None);
    let kept = state.get_publisher(&session).unwrap().get_sdp().unwrap();
    assert!(kept.contains("sprop-parameter-sets=Z0IAHg==,aM48gA=="));
    state.get_publisher_mut(&session).unwrap().open_sdp();
    assert_eq!(state.refresh_sdp(&session), Some(kept));
    let publisher = state.delete_wsc_rtp_session(&session).unwrap().unwrap();
    assert!(publisher.dead);
    assert!(state.get_publisher(&session).is_none());
    assert_eq!(consumers(&state, "cam"), vec![]);
    assert!(state.delete_wsc_rtp_session(&session).is_err());
}

#[test]
fn far_times_are_told() {
    let mut state = ready_server();
    let source = state.get_source_mut(&id("cam")).unwrap();
    let times = |dts: i64| PacketTimes {
        dts: Some(dts),
        pts: None,
        duration: 1,
    };
    assert!(source.accepts(times(i64::MAX / 90000)));
    assert!(!source.accepts(times(i64::MAX / 90000 + 1)));
    assert!(source.accepts(times(i64::MIN / 90000)));
    assert!(!source.accepts(times(i64::MIN)));
}

#[test]
fn the_placeholder_takes_over() {
    let mut state = ready_server();
    let source = state.get_source_mut(&id("cam")).unwrap();
    let times = |dts: i64| PacketTimes {
        dts: Some(dts),
        pts: None,
        duration: 40,
    };
    source.on_packet(times(1000), None, false);
    match source.on_live_state(LiveStreamState::Offline) {
        FallbackChange::Start(ctx) => assert_eq!(ctx.ts_offset, 1040),
        other => panic!("{:?}", other),
    }
    let output = source.on_packet(times(1040), Some(&[0, 0, 1, 0x41]), false);
    assert_eq!(output.packets[0].header.timestamp, 1040);
    // The camera is back, with times of its own.
    assert!(matches!(
        source.on_live_state(LiveStreamState::Online),
        FallbackChange::Stop
    ));
    let output = source.on_packet(times(3), Some(&[0, 0, 1, 0x41]), false);
    assert_eq!(output.packets[0].header.timestamp, 1080);
}

#[test]
fn rewinding_and_going_live() {
    let mut state = ready_server();
    state.create_websocket_session(&id("cam"), 7).unwrap();
    state.create_websocket_session(&id("cam"), 8).unwrap();
    let rec = recordings();
    assert_eq!(
        state.seek_session(&7, 500, &rec),
        Err(SessionError::NoRecording)
    );
    // The session stays with its stream.
    assert_eq!(consumers(&state, "cam"), vec![7, 8]);
    assert_eq!(state.seek_session(&7, 1500, &rec), Ok(SeekAction::Play));
    assert_eq!(consumers(&state, "cam"), vec![8]);
    let mode = state.get_session_mode(&7, Some(40)).unwrap();
    assert_eq!((mode.is_live, mode.current_time_ms), (false, Some(40)));
    assert_eq!(f64::from_bits(mode.speed), 1.0);
    match state.get_client_session_state(&7).unwrap() {
        ClientSessionState::Dvr(player) => assert_eq!(player.play_offset_ms(), Some(500)),
        other => panic!("{:?}", other),
    }
    assert_eq!(
        state.seek_session(&7, 1800, &rec),
        Ok(SeekAction::Seek { offset_ms: 800 })
    );
    let speed = SpeedRequest { speed: 2.5f64.to_bits() };
    assert!(handlers::set_session_speed(&mut state, &7, speed).is_ok());
    assert_eq!(state.set_session_speed(&8, speed.speed), Err(SessionError::NotDvr));
    let mode = handlers::get_session_mode(&state, &7, None).unwrap();
    assert_eq!((f64::from_bits(mode.speed), mode.current_time_ms), (2.5, None));
    let player = state.switch_session_to_live(&7).unwrap().unwrap();
    assert_eq!(player.recording.start_time, 1000);
    assert_eq!(consumers(&state, "cam"), vec![8, 7]);
    assert!(state.switch_session_to_live(&7).unwrap().is_none());
    let mode = handlers::get_session_mode(&state, &7, Some(40)).unwrap();
    assert_eq!((mode.is_live, mode.current_time_ms), (true, None));
    assert_eq!(f64::from_bits(mode.speed), 1.0);
    assert_eq!(consumers(&state, "cam"), vec![8, 7]);
}

#[test]
fn sessions_outlive_their_stream() {
    let mut state = ready_server();
    state.create_websocket_session(&id("cam"), 7).unwrap();
    let rec = recordings();
    assert_eq!(state.seek_session(&7, 1500, &rec), Ok(SeekAction::Play));
    state.delete_stream(&id("cam"));
    // A stream of the same name is another stream.
    state.create_rtsp_stream(config("cam", &["rtsp://a/1"])).unwrap();
    assert!(state.switch_session_to_live(&7).unwrap().is_some());
    assert_eq!(consumers(&state, "cam"), vec![]);
    assert_eq!(state.delete_client_session(&7), Ok(()));
    assert_eq!(state.delete_client_session(&7), Err(SessionError::UnknownSession));
}

#[test]
fn sessions_that_begin_with_a_recording() {
    let mut state = ready_server();
    let rec = recordings();
    let cam = id("cam");
    let at = |offer: &str, timestamp: u64| CreateDvrWebRtcSessionRequest {
        offer: id(offer),
        timestamp,
    };
    let opened =
        handlers::create_dvr_webrtc_session(&mut state, &cam, &at(OFFER, 1500), 7, id("v=0"), &rec);
    assert_eq!(opened.unwrap().session_id, 7);
    assert!(!state.get_session_mode(&7, None).unwrap().is_live);
    let refused =
        handlers::create_dvr_webrtc_session(&mut state, &cam, &at("no", 1500), 8, id(""), &rec);
    assert_eq!(answer(refused.unwrap_err()).2, "SdpInvalidSyntax: no");
    let refused =
        handlers::create_dvr_webrtc_session(&mut state, &cam, &at(OFFER, 5), 8, id("v=0"), &rec);
    assert_eq!(
        answer(refused.unwrap_err()),
        (
            400,
            "400 Bad Request".to_string(),
            "No recording found for source ID cam".to_string()
        )
    );
    // No session was opened.
    assert!(state.get_session(&8).is_none());
    assert_eq!(consumers(&state, "cam"), vec![]);
    let other = id("other");
    let missing =
        handlers::create_dvr_webrtc_session(&mut state, &other, &at(OFFER, 5), 9, id(""), &rec);
    assert_eq!(answer(missing.unwrap_err()).0, 404);
}

#[test]
fn names_are_registered() {
    let mut registry: StreamRegistry<u32> = StreamRegistry::new();
    assert_eq!(registry.insert(id("a"), 1), None);
    assert_eq!(registry.insert(id("b"), 2), None);
    assert_eq!(registry.insert(id("a"), 3), Some(1));
    assert!(registry.contains(&id("a")) && !registry.contains(&id("c")));
    assert_eq!(registry.get(&id("a")), Some(&3));
    *registry.get_mut(&id("b")).unwrap() = 20;
    assert!(registry.get_mut(&id("c")).is_none());
    let mut keys = registry.keys();
    keys.sort();
    assert_eq!(keys, vec!["a", "b"]);
    assert_eq!(registry.remove(&id("a")), Some(3));
    assert_eq!(registry.remove(&id("a")), None);
    assert_eq!(registry.insert(id("c"), 4), None);
    assert_eq!(registry.get(&id("b")), Some(&20));
    assert_eq!(registry.get(&id("c")), Some(&4));
    assert_eq!(registry.get(&id("a")), None);
}

#[test]
fn ids_are_registered() {
    let mut registry: SessionRegistry<String> = SessionRegistry::new();
    for i in 0..100u128 {
        assert_eq!(registry.insert(i << 90, i.to_string()), None);
    }
    for i in (0..100u128).step_by(2) {
        assert_eq!(registry.remove(&(i << 90)), Some(i.to_string()));
    }
    for i in 100..150u128 {
        registry.insert(i, i.to_string());
    }
    assert_eq!(registry.keys().len(), 100);
    for i in (1..100u128).step_by(2) {
        assert_eq!(registry.get(&(i << 90)), Some(&i.to_string()));
    }
    registry.get_mut(&120).unwrap().push('!');
    assert_eq!(registry.get(&120).unwrap(), "120!");
    assert_eq!(registry.get(&99), None);
}

#[test]
fn sessions_begin_afresh() {
    let mut state = ready_server();
    let session_id = state.create_wsc_rtp_registration(&id("cam")).unwrap();
    let made = WebrtcManager::create_new_session(id("cam"), OFFER).unwrap();
    for random in [session_id, made.session_id(), WscRtpPublisher::new(id("cam")).id] {
        assert_eq!(random >> 76 & 15, 4);
        assert_eq!(random >> 62 & 3, 2);
    }
    let publisher = state.get_publisher(&session_id).unwrap();
    assert!(!publisher.rtp_open && !publisher.sdp_open && !publisher.dead);
    assert_eq!(publisher.current_sdp, None);
    assert_eq!(publisher.holepunch_port, None);
    let stitcher = &state.get_session(&session_id).unwrap().stitching_consumer.stitcher;
    assert_eq!((stitcher.last_output_ts, stitcher.last_input_ts, stitcher.ts_offset), (0, 0, 0));
    assert!(!stitcher.has_received_packet);
}

#[test]
fn sessions_of_either_kind_are_deleted() {
    let mut state = ready_server();
    let wsc = state.create_wsc_rtp_registration(&id("cam")).unwrap();
    open(&mut state, &id("cam"), OFFER, 7).unwrap();
    match handlers::delete_session(&mut state, &wsc).unwrap() {
        DeletedSession::WscRtp(publisher) => assert!(publisher.unwrap().dead),
        other => panic!("{:?}", other),
    }
    assert_eq!(consumers(&state, "cam"), vec![7]);
    match handlers::delete_session(&mut state, &7).unwrap() {
        DeletedSession::WebRtc(session) => assert_eq!(session.unwrap().session_id(), 7),
        other => panic!("{:?}", other),
    }
    assert_eq!(consumers(&state, "cam"), vec![]);
}

#[test]
fn what_clients_are_told() {
    let mut state = GlobalState::new();
    state.create_rtsp_stream(config("cam", &["rtsp://a/1"])).unwrap();
    let source = &state.get_source(&id("cam")).unwrap().source;
    assert_eq!(source.activity(LiveStreamState::Online), StreamActivity::Connecting);
    assert_eq!(source.activity(LiveStreamState::Offline), StreamActivity::Error);
    let state = ready_server();
    let source = &state.get_source(&id("cam")).unwrap().source;
    assert_eq!(source.activity(LiveStreamState::Online), StreamActivity::Active);
    assert_eq!(source.activity(LiveStreamState::Offline), StreamActivity::Inactive);
    assert!(source.timeline.accepts_state(LiveStreamState::Offline));
    let mut timeline = source.timeline;
    timeline.last_dts = i64::MAX;
    timeline.last_duration = 1;
    assert!(!timeline.accepts_state(LiveStreamState::Offline));
    assert!(timeline.accepts_state(LiveStreamState::Online));
}
