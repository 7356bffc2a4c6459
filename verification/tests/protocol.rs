use media_server::api::models::{
    SessionMode, StreamActivity, VideoSourceInput, WscRtpClientMessage, WscRtpServerMessage,
    PORT_RANGE_END, PORT_RANGE_START,
};
use media_server::common::codec_parameters::CodecParameters;
use media_server::common::rtp::{RtpHeader, RtpPacket};
use media_server::common::VideoCodec;
use media_server::publishers::holepunch::{
    dummy_message, is_ack_datagram, is_holepunch_datagram, is_valid_holepunch, Negotiation,
    NegotiationAction, NegotiationEvent, PortSearch,
};
use media_server::publishers::sdp_text::{build_unicast_sdp, ClientAddress};
use media_server::publishers::webrtc::{ConnectionState, WebRtcSession, WebrtcManager};
use media_server::publishers::wsc_rtp::{
    is_ping_overdue, SessionAction, SessionEvent, SessionPhase, WscRtpPublisher, WscSession,
};
use std::sync::Arc;

const ID: u128 = 0x550e8400_e29b_41d4_a716_446655440000;

#[test]
fn holepunch_messages() {
    let text = "550e8400-e29b-41d4-a716-446655440000";
    assert!(is_valid_holepunch(&ID, &format!("ws-rtp {}", text)));
    assert!(is_valid_holepunch(&ID, &format!("  ws-rtp\u{2003}{}\n more", text)));
    assert!(is_valid_holepunch(&ID, "ws-rtp 550E8400E29B41D4A716446655440000"));
    assert!(is_valid_holepunch(&ID, &format!("ws-rtp {{{}}}", text)));
    assert!(is_valid_holepunch(&ID, &format!("ws-rtp URN:uuid:{}", text)));
    assert!(!is_valid_holepunch(&(ID + 1), &format!("ws-rtp {}", text)));
    assert!(!is_valid_holepunch(&ID, &format!("ws-rtp-ack {}", text)));
    assert!(!is_valid_holepunch(&ID, &format!("t5rtp {} 5004", text)));
    assert!(!is_valid_holepunch(&ID, "ws-rtp"));
    assert!(!is_valid_holepunch(&ID, ""));
    assert!(!is_valid_holepunch(&ID, "ws-rtp 550e8400-e29b-41d4-a716-44665544000"));
    assert!(!is_valid_holepunch(&ID, "ws-rtp 550e8400-e29b-41d4-a716-44665544000g"));
    assert!(!is_valid_holepunch(&ID, "ws-rtp 550e8400+e29b-41d4-a716-446655440000"));
    assert!(!is_valid_holepunch(&ID, "ws-rtp 550e8400-e29b-41d4-a716-4466554400\u{e9}"));
    assert!(is_holepunch_datagram(&ID, format!("ws-rtp {}", text).as_bytes()));
    assert!(!is_holepunch_datagram(&ID, &[0xff, 0xfe]));
}

#[test]
fn ids_are_written_and_read() {
    for id in [0, 1, ID, u128::MAX, 0x0123_4567_89ab_cdef_0123_4567_89ab_cdef] {
        let message = dummy_message(&id);
        let text = message.strip_prefix("ws-rtp-dummy ").unwrap();
        assert_eq!(text, uuid::Uuid::from_u128(id).to_string());
        assert!(is_valid_holepunch(&id, &format!("ws-rtp {}", text)));
    }
    assert_eq!(
        dummy_message(&ID),
        "ws-rtp-dummy 550e8400-e29b-41d4-a716-446655440000"
    );
}

#[test]
fn acknowledgements() {
    let ack = b"ws-rtp-ack 550e8400-e29b-41d4-a716-446655440000";
    assert!(is_ack_datagram(&ID, ack));
    assert!(is_ack_datagram(&ID, &[&ack[..], b" and more"].concat()));
    assert!(!is_ack_datagram(&ID, &ack[..ack.len() - 1]));
    assert!(!is_ack_datagram(&(ID + 1), ack));
    assert!(!is_ack_datagram(&ID, &[&ack[..], &[0xff]].concat()));
}

fn holepunch() -> NegotiationEvent {
    NegotiationEvent::Datagram(b"ws-rtp 550e8400-e29b-41d4-a716-446655440000".to_vec())
}

fn ack() -> NegotiationEvent {
    NegotiationEvent::Datagram(b"ws-rtp-ack 550e8400-e29b-41d4-a716-446655440000".to_vec())
}

#[test]
fn udp_is_negotiated() {
    let state = Negotiation::begin(1000);
    assert_eq!(state.action(1000), NegotiationAction::Receive { timeout_ms: 5000 });
    assert_eq!(state.action(2500), NegotiationAction::Receive { timeout_ms: 3500 });
    // An acknowledgement without a hole-punch counts for nothing.
    assert_eq!(state.step(&ID, &ack(), 1100), state);
    let state = state.step(&ID, &holepunch(), 2000);
    assert_eq!(state.action(2000), NegotiationAction::Connect);
    assert_eq!(
        state.step(&ID, &NegotiationEvent::ConnectFailed, 2000),
        Negotiation::AwaitingHolepunch { start: 1000 }
    );
    let mut state = state.step(&ID, &NegotiationEvent::Connected, 2000);
    for i in 0..5 {
        let now = 2000 + 100 * i;
        assert_eq!(state.action(now), NegotiationAction::SendDummy { timeout_ms: 100 });
        state = state.step(&ID, &NegotiationEvent::NoDatagram, now + 100);
    }
    assert_eq!(state.action(2500), NegotiationAction::Receive { timeout_ms: 4500 });
    assert_eq!(
        state.step(&ID, &NegotiationEvent::NoDatagram, 7000),
        Negotiation::FallBack
    );
    let done = state.step(&ID, &ack(), 6999);
    assert_eq!(done, Negotiation::Confirmed);
    assert_eq!(done.action(7000), NegotiationAction::Stop);
    // An acknowledgement that comes too late counts for nothing.
    assert_eq!(state.step(&ID, &ack(), 7000), Negotiation::FallBack);
    assert_eq!(state.step(&ID, &ack(), 3_602_000), Negotiation::FallBack);
}

#[test]
fn negotiation_gives_up() {
    let state = Negotiation::begin(0);
    assert_eq!(
        state.step(&ID, &NegotiationEvent::ReceiveFailed, 1),
        Negotiation::FallBack
    );
    assert_eq!(state.step(&ID, &NegotiationEvent::NoDatagram, 4999), state);
    assert_eq!(
        state.step(&ID, &NegotiationEvent::NoDatagram, 5000),
        Negotiation::FallBack
    );
    assert_eq!(state.step(&ID, &holepunch(), 5000), Negotiation::FallBack);
    assert_eq!(Negotiation::FallBack.step(&ID, &ack(), 0), Negotiation::FallBack);
}

#[test]
fn ports_are_tried_in_order() {
    let mut search = PortSearch::begin();
    let mut tried = Vec::new();
    while let PortSearch::Try(port) = search {
        tried.push(port);
        search = search.next();
    }
    let range: Vec<u16> = (PORT_RANGE_START..=PORT_RANGE_END).collect();
    assert_eq!(tried, range);
    assert_eq!(search.next(), PortSearch::Exhausted);
}

fn params() -> CodecParameters {
    let mut params = CodecParameters::default();
    params.update_from_nal(&VideoCodec::H264, &[0x67, 0x42, 0x00, 0x1e]);
    params.update_from_nal(&VideoCodec::H264, &[0x68, 0xce, 0x3c, 0x80]);
    params
}

#[test]
fn descriptions() {
    let addr = ClientAddress {
        is_ipv6: false,
        port: 5004,
    };
    assert_eq!(
        build_unicast_sdp(&"cam".to_string(), addr, &VideoCodec::H264, &params()),
        "v=0\r\no=- 98255 0 IN IP4 0.0.0.0\r\ns=media-server\r\nc=IN IP4 0.0.0.0\r\nt=0 0\r\n\
         m=video 5004 RTP/AVP 96\r\na=rtpmap:96 H264/90000\r\n\
         a=fmtp:96 packetization-mode=1;sprop-parameter-sets=Z0IAHg==,aM48gA==\r\na=sendonly\r\n"
    );
    let addr = ClientAddress {
        is_ipv6: true,
        port: 0,
    };
    assert_eq!(
        build_unicast_sdp(&String::new(), addr, &VideoCodec::H265, &CodecParameters::default()),
        "v=0\r\no=- 0 0 IN IP6 ::\r\ns=media-server\r\nc=IN IP6 ::\r\nt=0 0\r\n\
         m=video 0 RTP/AVP 96\r\na=rtpmap:96 H265/90000\r\n\
         a=fmtp:96 sprop-max-don-diff=0\r\na=sendonly\r\n"
    );
}

#[test]
fn long_names_wrap() {
    let name = "a rather long name of a stream, \u{e9}".to_string();
    let hash = name
        .bytes()
        .fold(0u64, |acc, b| acc.wrapping_mul(31).wrapping_add(b as u64));
    let addr = ClientAddress {
        is_ipv6: false,
        port: 1,
    };
    let sdp = build_unicast_sdp(&name, addr, &VideoCodec::H264, &params());
    assert!(sdp.contains(&format!("o=- {} 0 IN IP4", hash)));
}

#[test]
fn publishing() {
    let mut publisher = WscRtpPublisher::with_id(ID, "cam".to_string());
    let header = RtpHeader {
        payload_type: 96,
        marker: false,
        seq: 1,
        timestamp: 2,
        ssrc: 3,
    };
    let packet = RtpPacket::new(header, Arc::from(vec![9]));
    assert_eq!(publisher.on_new_packet(&packet), None);
    assert_eq!(publisher.get_sdp(), None);
    assert_eq!(publisher.update_params(&VideoCodec::H264, &params()), None);
    let sdp = publisher.get_sdp().unwrap();
    assert!(sdp.contains("m=video 0 RTP/AVP 96"));
    publisher.open_sdp();
    assert_eq!(publisher.update_params(&VideoCodec::H264, &params()), Some(sdp));
    publisher.open_rtp();
    assert_eq!(publisher.on_new_packet(&packet), Some(packet.to_bytes()));
    assert_eq!(publisher.get_holepunch_port(), None);
    publisher.bind_holepunch_port(30001);
    assert_eq!(publisher.get_holepunch_port(), Some(30001));
    publisher.shutdown();
    assert_eq!(publisher.on_new_packet(&packet), None);
    assert!(publisher.dead);
    assert_ne!(
        WscRtpPublisher::new("a".to_string()).id,
        WscRtpPublisher::new("a".to_string()).id
    );
}

#[test]
fn new_ids_are_random_uuids() {
    let id = uuid::Uuid::from_u128(WscRtpPublisher::new("a".to_string()).id);
    assert_eq!(id.get_version_num(), 4);
    assert_eq!(id.get_variant(), uuid::Variant::RFC4122);
}

#[test]
fn pings() {
    assert!(!is_ping_overdue(1000, 5999));
    assert!(is_ping_overdue(1000, 6000));
}

fn input() -> VideoSourceInput {
    VideoSourceInput {
        label: "primary".to_string(),
        url: "rtsp://cam/1".to_string(),
        priority: 0,
    }
}

#[test]
fn session_over_udp() {
    let (mut session, action) = WscSession::begin(ID, false, 10);
    assert!(matches!(action, SessionAction::BindPort));
    let action = session.step(
        SessionEvent::Allocated {
            port: Some(30005),
            active_source: Some(input()),
        },
        11,
    );
    match action {
        SessionAction::Send(WscRtpServerMessage::Init {
            session_id,
            holepunch_port,
            active_source,
        }) => {
            assert_eq!(session_id, "550e8400-e29b-41d4-a716-446655440000");
            assert_eq!(holepunch_port, 30005);
            assert_eq!(active_source, Some(input()));
        }
        other => panic!("{:?}", other),
    }
    assert!(matches!(
        session.step(SessionEvent::Sent(true), 12),
        SessionAction::Negotiate
    ));
    assert!(matches!(
        session.step(SessionEvent::Negotiated(true), 13),
        SessionAction::Describe
    ));
    match session.step(SessionEvent::SdpReady("v=0".to_string()), 14) {
        SessionAction::Send(WscRtpServerMessage::Sdp { sdp }) => assert_eq!(sdp, "v=0"),
        other => panic!("{:?}", other),
    }
    assert!(matches!(
        session.step(SessionEvent::Sent(false), 15),
        SessionAction::Listen
    ));
    match session.step(SessionEvent::Rtp(vec![1, 2]), 16) {
        SessionAction::SendUdp(bytes) => assert_eq!(bytes, vec![1, 2]),
        other => panic!("{:?}", other),
    }
    assert_eq!(session.last_ping, 10);
    assert!(matches!(
        session.step(SessionEvent::ClientMessage(Ok(WscRtpClientMessage::Ping)), 17),
        SessionAction::Send(WscRtpServerMessage::Pong)
    ));
    assert_eq!(session.last_ping, 17);
    assert!(matches!(
        session.step(SessionEvent::Sent(true), 18),
        SessionAction::Listen
    ));
    match session.step(SessionEvent::WsPing(vec![7]), 19) {
        SessionAction::SendPong(payload) => assert_eq!(payload, vec![7]),
        other => panic!("{:?}", other),
    }
    session.step(SessionEvent::WsPong, 20);
    assert_eq!(session.last_ping, 20);
    assert!(matches!(
        session.step(SessionEvent::Tick, 5019),
        SessionAction::Listen
    ));
    assert!(matches!(
        session.step(SessionEvent::Tick, 5020),
        SessionAction::Close
    ));
    assert!(matches!(session.phase, SessionPhase::Closed));
}

#[test]
fn session_over_the_websocket() {
    let (mut session, action) = WscSession::begin(ID, true, 10);
    assert!(matches!(action, SessionAction::FindSource));
    let action = session.step(
        SessionEvent::Allocated {
            port: None,
            active_source: None,
        },
        11,
    );
    assert!(matches!(
        action,
        SessionAction::Send(WscRtpServerMessage::Init {
            holepunch_port: 0,
            active_source: None,
            ..
        })
    ));
    assert!(matches!(
        session.step(SessionEvent::Sent(true), 12),
        SessionAction::Send(WscRtpServerMessage::FallingBackRtpToWs)
    ));
    assert!(matches!(
        session.step(SessionEvent::Sent(true), 13),
        SessionAction::Describe
    ));
    assert!(matches!(
        session.step(SessionEvent::SdpTimedOut, 14),
        SessionAction::Listen
    ));
    match session.step(SessionEvent::Rtp(vec![3]), 15) {
        SessionAction::SendBinary(bytes) => assert_eq!(bytes, vec![3]),
        other => panic!("{:?}", other),
    }
    // The same description is not sent twice, unless it was not sent.
    for (sent, again) in [(false, true), (true, false)] {
        assert!(matches!(
            session.step(SessionEvent::SdpUpdated("a".to_string()), 16),
            SessionAction::Send(WscRtpServerMessage::Sdp { .. })
        ));
        session.step(SessionEvent::Sent(sent), 17);
        let action = session.step(SessionEvent::SdpUpdated("a".to_string()), 18);
        assert_eq!(matches!(action, SessionAction::Send(_)), again);
        if again {
            session.step(SessionEvent::Sent(false), 19);
        }
    }
    match session.step(SessionEvent::ClientMessage(Err("bad".to_string())), 20) {
        SessionAction::Send(WscRtpServerMessage::Error { message }) => assert_eq!(message, "bad"),
        other => panic!("{:?}", other),
    }
    assert!(matches!(
        session.step(SessionEvent::Sent(false), 21),
        SessionAction::Close
    ));
}

#[test]
fn session_ends() {
    for event in [
        SessionEvent::WsClosed,
        SessionEvent::ReceiveFailed,
    ] {
        let (mut session, _) = WscSession::begin(ID, true, 10);
        session.phase = SessionPhase::Streaming;
        assert!(matches!(
            session.step(SessionEvent::NothingReceived, 1),
            SessionAction::Listen
        ));
        assert!(matches!(session.step(event, 1), SessionAction::Close));
    }
    let (mut session, _) = WscSession::begin(ID, true, 10);
    assert!(matches!(session.step(SessionEvent::Tick, 9000), SessionAction::Listen));
    let (mut session, _) = WscSession::begin(ID, true, 10);
    session.phase = SessionPhase::Introducing { has_port: true };
    assert!(matches!(
        session.step(SessionEvent::Sent(false), 1),
        SessionAction::Close
    ));
    let (mut session, _) = WscSession::begin(ID, true, 10);
    session.phase = SessionPhase::Negotiating;
    assert!(matches!(
        session.step(SessionEvent::Negotiated(false), 1),
        SessionAction::Send(WscRtpServerMessage::FallingBackRtpToWs)
    ));
}

#[test]
fn changes_are_told() {
    let (mut session, _) = WscSession::begin(ID, true, 10);
    session.phase = SessionPhase::Streaming;
    match session.step(SessionEvent::StreamStateChanged(StreamActivity::Inactive), 11) {
        SessionAction::Send(WscRtpServerMessage::StreamState { state }) => {
            assert_eq!(state, StreamActivity::Inactive)
        }
        other => panic!("{:?}", other),
    }
    assert!(matches!(session.phase, SessionPhase::Notifying));
    assert!(matches!(session.step(SessionEvent::Sent(false), 12), SessionAction::Listen));
    let mode = SessionMode::Dvr { timestamp: 5 };
    match session.step(SessionEvent::ModeChanged(mode), 13) {
        SessionAction::Send(WscRtpServerMessage::SessionMode(told)) => assert_eq!(told, mode),
        other => panic!("{:?}", other),
    }
    assert!(matches!(session.step(SessionEvent::Sent(true), 14), SessionAction::Listen));
    assert!(matches!(session.phase, SessionPhase::Streaming));
    assert_eq!(session.last_ping, 10);
}

const OFFER: &str = "v=0\r\no=- 1 0 IN IP4 0.0.0.0\r\ns=-\r\nt=0 0\r\n";

#[test]
fn offers_are_read() {
    assert_eq!(WebrtcManager::check_offer(OFFER), Ok(()));
    let refused = Err("SdpInvalidSyntax: no".to_string());
    assert_eq!(WebrtcManager::check_offer("no"), refused);
    let none = WebrtcManager::create_new_session("cam".to_string(), "no").unwrap_err();
    assert_eq!(none, "SdpInvalidSyntax: no");
    let none = WebrtcManager::session_for("cam".to_string(), Err("why".to_string()));
    assert_eq!(none.unwrap_err(), "why");
    let made = WebrtcManager::session_for("cam".to_string(), Ok(())).unwrap();
    assert_eq!(made.source_id(), "cam");
}

#[test]
fn webrtc_sessions() {
    let mut manager = WebrtcManager::new();
    let session = WebrtcManager::create_new_session("cam".to_string(), OFFER).unwrap();
    let id = session.session_id();
    assert_eq!(session.source_id(), "cam");
    let track = session.track(&VideoCodec::H265);
    assert_eq!(track.mime_type, "video/H265");
    assert_eq!(track.clock_rate, 90000);
    assert_eq!(track.track_id, "live_stream");
    assert_eq!(track.stream_id, uuid::Uuid::from_u128(id).to_string());
    manager.open_session(session);
    assert_eq!(manager.delete_session(&(id ^ 1)).is_some(), false);
    assert_eq!(manager.delete_session(&id).unwrap().session_id, id);
    assert!(manager.delete_session(&id).is_none());
    assert!(ConnectionState::Failed.ends_session());
    assert!(ConnectionState::Closed.ends_session());
    assert!(ConnectionState::Disconnected.ends_session());
    assert!(!ConnectionState::Connected.ends_session());
    let header = RtpHeader {
        payload_type: 96,
        marker: true,
        seq: 1,
        timestamp: 2,
        ssrc: 3,
    };
    let packet = RtpPacket::new(header, Arc::from(vec![5]));
    let session = WebRtcSession::new("cam".to_string(), 7);
    assert_eq!(session.on_new_packet(&packet), packet.to_bytes());
}
