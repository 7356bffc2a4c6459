//! WSC-RTP: a WebSocket for signalling, RTP over UDP or over the WebSocket.
use crate::api::models::{
    SessionMode, StreamActivity, VideoSourceInput, WscRtpClientMessage, WscRtpServerMessage,
};
use crate::common::codec_parameters::{fmtp_text, CodecParameters};
use crate::common::rtp::RtpPacket;
use crate::common::VideoCodec;
use crate::domain::session_id::{is_version_4, new_session_id, session_id_chars, session_id_text};
use crate::domain::{ClientSessionId, VideoSourceId};
use crate::publishers::holepunch::elapsed;
use crate::publishers::sdp_text::{
    build_unicast_sdp, lemma_lines_of_description, line, name_hash, unicast_sdp, ClientAddress,
};
use crate::text::decimal;
use vstd::prelude::*;
use vstd::utf8::*;

verus! {

/// A session is closed after so many milliseconds without a ping.
pub const PING_TIMEOUT_MS: u64 = 5000;

/// The first description of a stream is waited for so many milliseconds.
pub const SDP_TIMEOUT_MS: u64 = 5000;

/// What a session publishes: it takes packets and parameter sets in and says
/// what goes to the session's transport.
#[derive(Debug)]
pub struct WscRtpPublisher {
    pub id: ClientSessionId,
    pub video_source_id: VideoSourceId,
    /// A transport takes RTP packets.
    pub rtp_open: bool,
    /// The session takes descriptions.
    pub sdp_open: bool,
    /// The latest description, kept for a session that opens later.
    pub current_sdp: Option<String>,
    pub holepunch_port: Option<u16>,
    pub dead: bool,
}

/// A description that holds for any client over IPv4.
pub open spec fn published_sdp(
    source_id: Seq<char>,
    codec: VideoCodec,
    params: CodecParameters,
) -> Seq<char> {
    unicast_sdp(source_id, ClientAddress { is_ipv6: false, port: 0 }, codec, params@)
}

impl WscRtpPublisher {
    /// A publisher of the given session.
    pub fn with_id(id: ClientSessionId, video_source_id: VideoSourceId) -> (r: Self)
        ensures
            r == (WscRtpPublisher {
                id,
                video_source_id,
                rtp_open: false,
                sdp_open: false,
                current_sdp: None,
                holepunch_port: None,
                dead: false,
            }),
    {
        WscRtpPublisher {
            id,
            video_source_id,
            rtp_open: false,
            sdp_open: false,
            current_sdp: None,
            holepunch_port: None,
            dead: false,
        }
    }

    /// A publisher of a new session, with a random id.
    pub fn new(video_source_id: VideoSourceId) -> (r: Self)
        ensures
            r == (WscRtpPublisher {
                id: r.id,
                video_source_id,
                rtp_open: false,
                sdp_open: false,
                current_sdp: None,
                holepunch_port: None,
                dead: false,
            }),
            is_version_4(r.id),
    {
        WscRtpPublisher::with_id(new_session_id(), video_source_id)
    }

    /// Records the port on which the session's hole-punch is awaited.
    pub fn bind_holepunch_port(&mut self, port: u16)
        ensures
            *final(self) == (WscRtpPublisher { holepunch_port: Some(port), ..*old(self) }),
    {
        self.holepunch_port = Some(port);
    }

    pub fn get_holepunch_port(&self) -> (r: Option<u16>)
        ensures
            r == self.holepunch_port,
    {
        self.holepunch_port
    }

    /// The latest description of the stream.
    pub fn get_sdp(&self) -> (r: Option<String>)
        ensures
            r == self.current_sdp,
    {
        match &self.current_sdp {
            Some(sdp) => Some(sdp.clone()),
            None => None,
        }
    }

    /// The session takes descriptions from now on.
    pub fn open_sdp(&mut self)
        ensures
            *final(self) == (WscRtpPublisher { sdp_open: true, ..*old(self) }),
    {
        self.sdp_open = true;
    }

    /// The session has a transport for RTP from now on.
    pub fn open_rtp(&mut self)
        ensures
            *final(self) == (WscRtpPublisher { rtp_open: true, ..*old(self) }),
    {
        self.rtp_open = true;
    }

    /// The description of the stream with the given parameter sets.
    fn build_sdp(&self, codec: &VideoCodec, params: &CodecParameters) -> (r: String)
        ensures
            r@ == published_sdp(self.video_source_id@, *codec, *params),
    {
        build_unicast_sdp(
            &self.video_source_id,
            ClientAddress { is_ipv6: false, port: 0 },
            codec,
            params,
        )
    }

    /// Takes new parameter sets over. The description that results is kept,
    /// and returned where the session takes descriptions.
    pub fn update_params(&mut self, codec: &VideoCodec, params: &CodecParameters) -> (r: Option<
        String,
    >)
        ensures
            *final(self) == (WscRtpPublisher {
                current_sdp: final(self).current_sdp,
                ..*old(self)
            }),
            final(self).current_sdp matches Some(sdp) && sdp@ == published_sdp(
                old(self).video_source_id@,
                *codec,
                *params,
            ),
            r == (if old(self).sdp_open {
                final(self).current_sdp
            } else {
                None
            }),
    {
        let sdp = self.build_sdp(codec, params);
        self.current_sdp = Some(sdp.clone());
        if self.sdp_open {
            Some(sdp)
        } else {
            None
        }
    }

    /// The bytes that go to the session's transport for a packet; none
    /// without a transport, nor after the shutdown.
    pub fn on_new_packet(&self, packet: &RtpPacket) -> (r: Option<Vec<u8>>)
        ensures
            match r {
                Some(bytes) => !self.dead && self.rtp_open && bytes@ == packet.encoded(),
                None => self.dead || !self.rtp_open,
            },
    {
        if self.dead {
            return None;
        }
        if self.rtp_open {
            Some(packet.to_bytes())
        } else {
            None
        }
    }

    /// Publishes nothing more.
    pub fn shutdown(&mut self)
        ensures
            *final(self) == (WscRtpPublisher {
                dead: true,
                rtp_open: false,
                sdp_open: false,
                ..*old(self)
            }),
    {
        self.dead = true;
        self.rtp_open = false;
        self.sdp_open = false;
    }
}

/// Checks whether a session has been without a ping for too long.
pub fn is_ping_overdue(last_ping: u64, now: u64) -> (r: bool)
    ensures
        r <==> elapsed(last_ping, now) >= PING_TIMEOUT_MS,
{
    now >= last_ping && now - last_ping >= PING_TIMEOUT_MS
}

/// How far a session has come.
#[derive(Debug)]
pub enum SessionPhase {
    /// A port for the hole-punch is looked for.
    Allocating,
    /// The first message is being sent; a hole-punch can come where there is
    /// a port.
    Introducing { has_port: bool },
    /// UDP is negotiated.
    Negotiating,
    /// The client is being told that RTP goes over the WebSocket.
    FallingBack,
    /// The first description of the stream is waited for.
    Describing,
    /// The first description is being sent.
    SendingSdp,
    /// RTP flows.
    Streaming,
    /// RTP flows; a new description is being sent.
    Updating { sdp: String },
    /// RTP flows; a client message is being answered.
    Replying,
    /// RTP flows; the client is being told of a change.
    Notifying,
    /// The session is over.
    Closed,
}

/// What happens to a session.
#[derive(Debug)]
pub enum SessionEvent {
    /// The search for a port is over, with the port that was found, and with
    /// the input that the stream is read from, if it is being read.
    Allocated { port: Option<u16>, active_source: Option<VideoSourceInput> },
    /// A message was sent, or could not be.
    Sent(bool),
    /// UDP was confirmed, or was not.
    Negotiated(bool),
    /// A first description is there.
    SdpReady(String),
    /// None came in time.
    SdpTimedOut,
    /// The stream has a packet.
    Rtp(Vec<u8>),
    /// The stream has a new description.
    SdpUpdated(String),
    /// The client sent a message, or something that is none.
    ClientMessage(Result<WscRtpClientMessage, String>),
    /// A WebSocket ping with its payload.
    WsPing(Vec<u8>),
    WsPong,
    WsClosed,
    /// Receiving from the client failed.
    ReceiveFailed,
    /// There was nothing to receive.
    NothingReceived,
    /// What is known of the stream's camera has changed.
    StreamStateChanged(StreamActivity),
    /// What the session shows has changed.
    ModeChanged(SessionMode),
    /// Time has passed.
    Tick,
}

/// What a session asks for next.
#[derive(Debug)]
pub enum SessionAction {
    /// Look for a port for the hole-punch, and the stream's active input.
    BindPort,
    /// Find the stream's active input.
    FindSource,
    /// Send a message and report whether it was sent.
    Send(WscRtpServerMessage),
    /// Negotiate UDP.
    Negotiate,
    /// Wait for the first description of the stream.
    Describe,
    /// Send RTP over UDP.
    SendUdp(Vec<u8>),
    /// Send RTP over the WebSocket.
    SendBinary(Vec<u8>),
    /// Answer a WebSocket ping.
    SendPong(Vec<u8>),
    /// Wait for the next event.
    Listen,
    /// Shut the publisher down.
    Close,
}

/// One client's session.
#[derive(Debug)]
pub struct WscSession {
    pub id_text: String,
    pub phase: SessionPhase,
    /// RTP goes over UDP.
    pub udp: bool,
    /// The latest update of the stream's description that was sent.
    pub last_sdp: Option<String>,
    /// When the client last showed a sign of life.
    pub last_ping: u64,
}

impl WscSession {
    /// The session over and done with.
    pub open spec fn closed(self) -> (WscSession, SessionAction) {
        (WscSession { phase: SessionPhase::Closed, ..self }, SessionAction::Close)
    }

    /// The session in another phase, in which it asks for something.
    pub open spec fn then_asks(self, phase: SessionPhase, action: SessionAction) -> (
        WscSession,
        SessionAction,
    ) {
        (WscSession { phase, ..self }, action)
    }

    /// What an event does to a session whose RTP flows.
    pub open spec fn next_streaming(self, event: SessionEvent, now: u64) -> (
        WscSession,
        SessionAction,
    ) {
        match event {
            SessionEvent::Rtp(bytes) => if self.udp {
                (self, SessionAction::SendUdp(bytes))
            } else {
                (self, SessionAction::SendBinary(bytes))
            },
            SessionEvent::SdpUpdated(sdp) => if self.last_sdp matches Some(last) && last@ == sdp@ {
                (self, SessionAction::Listen)
            } else {
                self.then_asks(
                    SessionPhase::Updating { sdp },
                    SessionAction::Send(WscRtpServerMessage::Sdp { sdp }),
                )
            },
            SessionEvent::ClientMessage(message) => match message {
                Ok(WscRtpClientMessage::Ping) => (WscSession { last_ping: now, ..self }).then_asks(
                    SessionPhase::Replying,
                    SessionAction::Send(WscRtpServerMessage::Pong),
                ),
                Err(message) => self.then_asks(
                    SessionPhase::Replying,
                    SessionAction::Send(WscRtpServerMessage::Error { message }),
                ),
            },
            SessionEvent::WsPing(payload) => (
                WscSession { last_ping: now, ..self },
                SessionAction::SendPong(payload),
            ),
            SessionEvent::WsPong => (
                WscSession { last_ping: now, ..self },
                SessionAction::Listen,
            ),
            SessionEvent::WsClosed | SessionEvent::ReceiveFailed => self.closed(),
            SessionEvent::StreamStateChanged(state) => self.then_asks(
                SessionPhase::Notifying,
                SessionAction::Send(WscRtpServerMessage::StreamState { state }),
            ),
            SessionEvent::ModeChanged(mode) => self.then_asks(
                SessionPhase::Notifying,
                SessionAction::Send(WscRtpServerMessage::SessionMode(mode)),
            ),
            SessionEvent::Tick => if elapsed(self.last_ping, now) >= PING_TIMEOUT_MS {
                self.closed()
            } else {
                (self, SessionAction::Listen)
            },
            _ => (self, SessionAction::Listen),
        }
    }

    /// What an event does to a session. An event that does not belong to the
    /// phase changes nothing.
    pub open spec fn next(self, event: SessionEvent, now: u64) -> (WscSession, SessionAction) {
        match (self.phase, event) {
            (SessionPhase::Allocating, SessionEvent::Allocated { port, active_source })
                => self.then_asks(
                SessionPhase::Introducing { has_port: port is Some },
                SessionAction::Send(
                    WscRtpServerMessage::Init {
                        session_id: self.id_text,
                        holepunch_port: match port {
                            Some(port) => port,
                            None => 0,
                        },
                        active_source,
                    },
                ),
            ),
            (SessionPhase::Introducing { has_port }, SessionEvent::Sent(ok)) => if !ok {
                self.closed()
            } else if has_port {
                self.then_asks(SessionPhase::Negotiating, SessionAction::Negotiate)
            } else {
                self.then_asks(
                    SessionPhase::FallingBack,
                    SessionAction::Send(WscRtpServerMessage::FallingBackRtpToWs),
                )
            },
            (SessionPhase::Negotiating, SessionEvent::Negotiated(udp)) => if udp {
                (WscSession { udp, ..self }).then_asks(
                    SessionPhase::Describing,
                    SessionAction::Describe,
                )
            } else {
                self.then_asks(
                    SessionPhase::FallingBack,
                    SessionAction::Send(WscRtpServerMessage::FallingBackRtpToWs),
                )
            },
            (SessionPhase::FallingBack, SessionEvent::Sent(_)) => self.then_asks(
                SessionPhase::Describing,
                SessionAction::Describe,
            ),
            (SessionPhase::Describing, SessionEvent::SdpReady(sdp)) => self.then_asks(
                SessionPhase::SendingSdp,
                SessionAction::Send(WscRtpServerMessage::Sdp { sdp }),
            ),
            (SessionPhase::Describing, SessionEvent::SdpTimedOut) => self.then_asks(
                SessionPhase::Streaming,
                SessionAction::Listen,
            ),
            (SessionPhase::SendingSdp, SessionEvent::Sent(_)) => self.then_asks(
                SessionPhase::Streaming,
                SessionAction::Listen,
            ),
            (SessionPhase::Updating { sdp }, SessionEvent::Sent(ok)) => if ok {
                (WscSession { last_sdp: Some(sdp), ..self }).then_asks(
                    SessionPhase::Streaming,
                    SessionAction::Listen,
                )
            } else {
                self.then_asks(SessionPhase::Streaming, SessionAction::Listen)
            },
            (SessionPhase::Replying, SessionEvent::Sent(ok)) => if ok {
                self.then_asks(SessionPhase::Streaming, SessionAction::Listen)
            } else {
                self.closed()
            },
            (SessionPhase::Notifying, SessionEvent::Sent(_)) => self.then_asks(
                SessionPhase::Streaming,
                SessionAction::Listen,
            ),
            (SessionPhase::Streaming, event) => self.next_streaming(event, now),
            (SessionPhase::Closed, _) => (self, SessionAction::Close),
            _ => (self, SessionAction::Listen),
        }
    }

    /// A session that begins, and what it asks for: a port, unless the client
    /// wants RTP over the WebSocket.
    pub fn begin(id: ClientSessionId, force_websocket_transport: bool, now: u64) -> (r: (
        Self,
        SessionAction,
    ))
        ensures
            r.0.id_text@ == session_id_chars(id),
            r.0 == (WscSession {
                id_text: r.0.id_text,
                phase: SessionPhase::Allocating,
                udp: false,
                last_sdp: None,
                last_ping: now,
            }),
            r.1 == (if force_websocket_transport {
                SessionAction::FindSource
            } else {
                SessionAction::BindPort
            }),
    {
        let session = WscSession {
            id_text: session_id_text(id),
            phase: SessionPhase::Allocating,
            udp: false,
            last_sdp: None,
            last_ping: now,
        };
        if force_websocket_transport {
            (session, SessionAction::FindSource)
        } else {
            (session, SessionAction::BindPort)
        }
    }

    /// Ends the session.
    fn close(&mut self) -> (r: SessionAction)
        ensures
            (*final(self), r) == old(self).closed(),
    {
        self.phase = SessionPhase::Closed;
        SessionAction::Close
    }

    /// Takes an event of a session whose RTP flows in.
    fn step_streaming(&mut self, event: SessionEvent, now: u64) -> (r: SessionAction)
        ensures
            (*final(self), r) == old(self).next_streaming(event, now),
    {
        match event {
            SessionEvent::Rtp(bytes) => if self.udp {
                SessionAction::SendUdp(bytes)
            } else {
                SessionAction::SendBinary(bytes)
            },
            SessionEvent::SdpUpdated(sdp) => {
                let known = match &self.last_sdp {
                    Some(last) => *last == sdp,
                    None => false,
                };
                if known {
                    SessionAction::Listen
                } else {
                    self.phase = SessionPhase::Updating { sdp: sdp.clone() };
                    SessionAction::Send(WscRtpServerMessage::Sdp { sdp })
                }
            },
            SessionEvent::ClientMessage(message) => match message {
                Ok(WscRtpClientMessage::Ping) => {
                    self.last_ping = now;
                    self.phase = SessionPhase::Replying;
                    SessionAction::Send(WscRtpServerMessage::Pong)
                },
                Err(message) => {
                    self.phase = SessionPhase::Replying;
                    SessionAction::Send(WscRtpServerMessage::Error { message })
                },
            },
            SessionEvent::WsPing(payload) => {
                self.last_ping = now;
                SessionAction::SendPong(payload)
            },
            SessionEvent::WsPong => {
                self.last_ping = now;
                SessionAction::Listen
            },
            SessionEvent::WsClosed => self.close(),
            SessionEvent::ReceiveFailed => self.close(),
            SessionEvent::StreamStateChanged(state) => {
                self.phase = SessionPhase::Notifying;
                SessionAction::Send(WscRtpServerMessage::StreamState { state })
            },
            SessionEvent::ModeChanged(mode) => {
                self.phase = SessionPhase::Notifying;
                SessionAction::Send(WscRtpServerMessage::SessionMode(mode))
            },
            SessionEvent::Tick => if is_ping_overdue(self.last_ping, now) {
                self.close()
            } else {
                SessionAction::Listen
            },
            _ => SessionAction::Listen,
        }
    }

    /// Takes an event in and says what is to be done next.
    pub fn step(&mut self, event: SessionEvent, now: u64) -> (r: SessionAction)
        ensures
            (*final(self), r) == old(self).next(event, now),
    {
        match &self.phase {
            SessionPhase::Allocating => {
                if let SessionEvent::Allocated { port, active_source } = event {
                    self.phase = SessionPhase::Introducing { has_port: port.is_some() };
                    let holepunch_port: u16 = match port {
                        Some(port) => port,
                        None => 0,
                    };
                    return SessionAction::Send(
                        WscRtpServerMessage::Init {
                            session_id: self.id_text.clone(),
                            holepunch_port,
                            active_source,
                        },
                    );
                }
            },
            SessionPhase::Introducing { has_port } => {
                if let SessionEvent::Sent(ok) = event {
                    if !ok {
                        return self.close();
                    }
                    if *has_port {
                        self.phase = SessionPhase::Negotiating;
                        return SessionAction::Negotiate;
                    }
                    self.phase = SessionPhase::FallingBack;
                    return SessionAction::Send(WscRtpServerMessage::FallingBackRtpToWs);
                }
            },
            SessionPhase::Negotiating => {
                if let SessionEvent::Negotiated(udp) = event {
                    if udp {
                        self.udp = true;
                        self.phase = SessionPhase::Describing;
                        return SessionAction::Describe;
                    }
                    self.phase = SessionPhase::FallingBack;
                    return SessionAction::Send(WscRtpServerMessage::FallingBackRtpToWs);
                }
            },
            SessionPhase::FallingBack => {
                if let SessionEvent::Sent(_) = event {
                    self.phase = SessionPhase::Describing;
                    return SessionAction::Describe;
                }
            },
            SessionPhase::Describing => match event {
                SessionEvent::SdpReady(sdp) => {
                    self.phase = SessionPhase::SendingSdp;
                    return SessionAction::Send(WscRtpServerMessage::Sdp { sdp });
                },
                SessionEvent::SdpTimedOut => {
                    self.phase = SessionPhase::Streaming;
                    return SessionAction::Listen;
                },
                _ => {},
            },
            SessionPhase::SendingSdp => {
                if let SessionEvent::Sent(_) = event {
                    self.phase = SessionPhase::Streaming;
                }
            },
            SessionPhase::Updating { sdp } => {
                if let SessionEvent::Sent(ok) = event {
                    if ok {
                        self.last_sdp = Some(sdp.clone());
                    }
                    self.phase = SessionPhase::Streaming;
                }
            },
            SessionPhase::Replying => {
                if let SessionEvent::Sent(ok) = event {
                    if !ok {
                        return self.close();
                    }
                    self.phase = SessionPhase::Streaming;
                }
            },
            SessionPhase::Notifying => {
                if let SessionEvent::Sent(_) = event {
                    self.phase = SessionPhase::Streaming;
                }
            },
            SessionPhase::Streaming => {
                return self.step_streaming(event, now);
            },
            SessionPhase::Closed => {
                return SessionAction::Close;
            },
        }
        SessionAction::Listen
    }
}

/// A session and what it has asked for so far, after a list of events.
pub open spec fn session_run(begin: WscSession, events: Seq<(SessionEvent, u64)>) -> (
    WscSession,
    Seq<SessionAction>,
)
    decreases events.len(),
{
    if events.len() == 0 {
        (begin, seq![])
    } else {
        let (session, actions) = session_run(begin, events.drop_last());
        let (after, action) = session.next(events.last().0, events.last().1);
        (after, actions.push(action))
    }
}

/// The session's transport is settled: UDP was confirmed, or the client was
/// told that RTP goes over the WebSocket.
pub open spec fn transport_settled(phase: SessionPhase) -> bool {
    ||| phase is Describing
    ||| phase is SendingSdp
    ||| phase is Streaming
    ||| phase is Updating
    ||| phase is Replying
    ||| phase is Notifying
}

/// The action sends a message of the given kind.
pub open spec fn sends_init(action: SessionAction) -> bool {
    action matches SessionAction::Send(message) && message is Init
}

pub open spec fn sends_sdp(action: SessionAction) -> bool {
    action matches SessionAction::Send(message) && message is Sdp
}

pub open spec fn sends_fallback(action: SessionAction) -> bool {
    action matches SessionAction::Send(message) && message is FallingBackRtpToWs
}

/// The stream is described to a client only once the transport is settled.
pub proof fn lemma_sdp_after_transport(session: WscSession, event: SessionEvent, now: u64)
    ensures
        sends_sdp(session.next(event, now).1) ==> transport_settled(session.phase),
{
}

/// A session whose RTP flows is closed by the passing of time exactly when it
/// has been without a ping for too long.
pub proof fn lemma_closes_without_ping(session: WscSession, now: u64)
    requires
        session.phase is Streaming,
    ensures
        session.next(SessionEvent::Tick, now).0.phase is Closed <==> elapsed(session.last_ping, now)
            >= PING_TIMEOUT_MS,
        session.next(SessionEvent::Tick, now).1 is Close <==> elapsed(session.last_ping, now)
            >= PING_TIMEOUT_MS,
{
}

/// A client whose RTP flows is told of every change of the stream's camera and
/// of what the session shows.
pub proof fn lemma_client_is_told(
    session: WscSession,
    state: StreamActivity,
    mode: SessionMode,
    now: u64,
)
    requires
        session.phase is Streaming,
    ensures
        session.next(SessionEvent::StreamStateChanged(state), now).1 == SessionAction::Send(
            WscRtpServerMessage::StreamState { state },
        ),
        session.next(SessionEvent::ModeChanged(mode), now).1 == SessionAction::Send(
            WscRtpServerMessage::SessionMode(mode),
        ),
{
}

/// What one event can do to a session's order.
proof fn lemma_session_step(session: WscSession, event: SessionEvent, now: u64)
    ensures
        ({
            let (after, action) = session.next(event, now);
            &&& session.phase is Allocating && !(after.phase is Allocating) ==> sends_init(action)
            &&& session.phase is Allocating && after.phase is Allocating ==> !(action is Send)
            &&& !(session.phase is Allocating) ==> !(after.phase is Allocating)
            &&& uses_websocket(after) ==> uses_websocket(session) || sends_fallback(action)
            &&& after.udp ==> session.udp || event == SessionEvent::Negotiated(true)
        }),
{
}

/// RTP goes over the WebSocket, and the client is told or has been told so.
pub open spec fn uses_websocket(session: WscSession) -> bool {
    session.phase is FallingBack || transport_settled(session.phase) && !session.udp
}

/// A list of actions holds one that sends the initial message.
pub open spec fn introduced(actions: Seq<SessionAction>) -> bool {
    exists|j: int| 0 <= j < actions.len() && sends_init(#[trigger] actions[j])
}

/// A list of actions holds one that tells the client of the fallback.
pub open spec fn fell_back(actions: Seq<SessionAction>) -> bool {
    exists|j: int| 0 <= j < actions.len() && sends_fallback(#[trigger] actions[j])
}

/// One of the events confirms UDP.
pub open spec fn udp_confirmed(events: Seq<(SessionEvent, u64)>) -> bool {
    exists|j: int|
        0 <= j < events.len() && (#[trigger] events[j]).0 == SessionEvent::Negotiated(true)
}

/// A property of some element holds of a longer list too.
proof fn lemma_introduced_grows(actions: Seq<SessionAction>)
    requires
        actions.len() > 0,
    ensures
        introduced(actions.drop_last()) || sends_init(actions.last()) ==> introduced(actions),
        fell_back(actions.drop_last()) || sends_fallback(actions.last()) ==> fell_back(actions),
{
    let earlier = actions.drop_last();
    if introduced(earlier) {
        let j = choose|j: int| 0 <= j < earlier.len() && sends_init(#[trigger] earlier[j]);
        assert(sends_init(actions[j]));
    }
    if fell_back(earlier) {
        let j = choose|j: int| 0 <= j < earlier.len() && sends_fallback(#[trigger] earlier[j]);
        assert(sends_fallback(actions[j]));
    }
    if sends_init(actions.last()) {
        assert(sends_init(actions[actions.len() - 1]));
    }
    if sends_fallback(actions.last()) {
        assert(sends_fallback(actions[actions.len() - 1]));
    }
}

/// What every session keeps: nothing is sent before the initial message; a
/// session that does not use UDP has told its client so; UDP is used only
/// after it was confirmed.
pub proof fn lemma_session_order(begin: WscSession, events: Seq<(SessionEvent, u64)>)
    requires
        begin.phase is Allocating,
        !begin.udp,
    ensures
        ({
            let (session, actions) = session_run(begin, events);
            &&& actions.len() == events.len()
            &&& !(session.phase is Allocating) ==> introduced(actions)
            &&& actions.len() > 0 && actions.last() is Send ==> introduced(actions)
            &&& uses_websocket(session) ==> fell_back(actions)
            &&& session.udp ==> udp_confirmed(events)
        }),
    decreases events.len(),
{
    if events.len() > 0 {
        let earlier = events.drop_last();
        lemma_session_order(begin, earlier);
        let (before, sent) = session_run(begin, earlier);
        let actions = session_run(begin, events).1;
        lemma_session_step(before, events.last().0, events.last().1);
        assert(actions.drop_last() =~= sent);
        lemma_introduced_grows(actions);
        if udp_confirmed(earlier) {
            let j = choose|j: int|
                0 <= j < earlier.len() && (#[trigger] earlier[j]).0 == SessionEvent::Negotiated(
                    true,
                );
            assert(events[j].0 == SessionEvent::Negotiated(true));
        }
        if events.last().0 == SessionEvent::Negotiated(true) {
            assert(events[events.len() - 1].0 == SessionEvent::Negotiated(true));
        }
    }
}

/// While RTP flows every packet goes to the client as it is, over UDP where
/// that was confirmed and over the WebSocket elsewhere, and the session stays
/// as it was.
pub proof fn lemma_packets_go_through(session: WscSession, bytes: Vec<u8>, now: u64)
    requires
        session.phase is Streaming,
    ensures
        session.next(SessionEvent::Rtp(bytes), now).0 == session,
        session.udp ==> session.next(SessionEvent::Rtp(bytes), now).1 == SessionAction::SendUdp(
            bytes,
        ),
        !session.udp ==> session.next(SessionEvent::Rtp(bytes), now).1 == SessionAction::SendBinary(
            bytes,
        ),
{
}

/// Whatever the client shows a sign of life with, the session then stays open
/// for five seconds more and not longer. A ping is answered: that of the
/// protocol with a pong, that of the WebSocket with its own payload.
pub proof fn lemma_signs_of_life(session: WscSession, payload: Vec<u8>, now: u64, later: u64)
    requires
        session.phase is Streaming,
        now <= later,
    ensures
        ({
            let ping = SessionEvent::ClientMessage(Ok(WscRtpClientMessage::Ping));
            let (replying, pong) = session.next(ping, now);
            let answered = replying.next(SessionEvent::Sent(true), now).0;
            let (pinged, echo) = session.next(SessionEvent::WsPing(payload), now);
            let ponged = session.next(SessionEvent::WsPong, now).0;
            &&& pong == SessionAction::Send(WscRtpServerMessage::Pong)
            &&& echo == SessionAction::SendPong(payload)
            &&& answered.phase is Streaming && pinged.phase is Streaming && ponged.phase is Streaming
            &&& answered.udp == session.udp && answered.last_sdp == session.last_sdp
            &&& answered.next(SessionEvent::Tick, later).1 is Close <==> later - now >= 5000
            &&& pinged.next(SessionEvent::Tick, later).1 is Close <==> later - now >= 5000
            &&& ponged.next(SessionEvent::Tick, later).1 is Close <==> later - now >= 5000
        }),
{
}

/// A description goes to the client once: it is sent where it differs from the
/// last one that was, and once it was sent not again.
pub proof fn lemma_description_sent_once(session: WscSession, sdp: String, now: u64)
    requires
        session.phase is Streaming,
        !(session.last_sdp matches Some(last) && last@ == sdp@),
    ensures
        ({
            let (updating, action) = session.next(SessionEvent::SdpUpdated(sdp), now);
            let sent = updating.next(SessionEvent::Sent(true), now).0;
            let unsent = updating.next(SessionEvent::Sent(false), now).0;
            &&& action == SessionAction::Send(WscRtpServerMessage::Sdp { sdp })
            &&& sent.phase is Streaming && unsent.phase is Streaming
            &&& sent.next(SessionEvent::SdpUpdated(sdp), now) == (sent, SessionAction::Listen)
            &&& unsent.next(SessionEvent::SdpUpdated(sdp), now).1 == action
            &&& sent.udp == session.udp && sent.last_ping == session.last_ping
        }),
{
}

/// A message that is none is answered with what is wrong with it; the session
/// goes on, unless the answer cannot be sent.
pub proof fn lemma_bad_message_answered(session: WscSession, message: String, now: u64)
    requires
        session.phase is Streaming,
    ensures
        ({
            let (replying, action) = session.next(SessionEvent::ClientMessage(Err(message)), now);
            &&& action == SessionAction::Send(WscRtpServerMessage::Error { message })
            &&& replying.next(SessionEvent::Sent(true), now).0 == session
            &&& replying.next(SessionEvent::Sent(false), now).1 is Close
        }),
{
}

/// A client that goes away ends its session, and nothing wakes it again.
pub proof fn lemma_closed_for_good(session: WscSession, event: SessionEvent, now: u64)
    ensures
        session.phase is Streaming ==> session.next(SessionEvent::WsClosed, now).1 is Close
            && session.next(SessionEvent::WsClosed, now).0.phase is Closed && session.next(
            SessionEvent::ReceiveFailed,
            now,
        ).1 is Close && session.next(SessionEvent::ReceiveFailed, now).0.phase is Closed,
        session.phase is Closed ==> session.next(event, now) == (session, SessionAction::Close),
{
}

/// A client that is told of a change goes on as before.
pub proof fn lemma_told_and_on(
    session: WscSession,
    state: StreamActivity,
    mode: SessionMode,
    ok: bool,
    now: u64,
)
    requires
        session.phase is Streaming,
    ensures
        session.next(SessionEvent::StreamStateChanged(state), now).0.next(
            SessionEvent::Sent(ok),
            now,
        ).0 == session,
        session.next(SessionEvent::ModeChanged(mode), now).0.next(SessionEvent::Sent(ok), now).0
            == session,
{
}

/// How a session whose UDP is confirmed comes to stream: the client is told the
/// port, UDP is negotiated, the stream is described, and RTP goes over UDP.
pub proof fn lemma_session_over_udp(
    begin: WscSession,
    port: u16,
    active_source: Option<VideoSourceInput>,
    sdp: String,
    described: bool,
    now: u64,
)
    requires
        begin.phase is Allocating,
        !begin.udp,
    ensures
        ({
            let (introducing, first) = begin.next(
                SessionEvent::Allocated { port: Some(port), active_source },
                now,
            );
            let (negotiating, second) = introducing.next(SessionEvent::Sent(true), now);
            let (describing, third) = negotiating.next(SessionEvent::Negotiated(true), now);
            let (sending, fourth) = describing.next(SessionEvent::SdpReady(sdp), now);
            let streaming = sending.next(SessionEvent::Sent(described), now).0;
            let late = describing.next(SessionEvent::SdpTimedOut, now).0;
            &&& first == SessionAction::Send(
                WscRtpServerMessage::Init {
                    session_id: begin.id_text,
                    holepunch_port: port,
                    active_source,
                },
            )
            &&& second is Negotiate
            &&& third is Describe
            &&& fourth == SessionAction::Send(WscRtpServerMessage::Sdp { sdp })
            &&& streaming.phase is Streaming && streaming.udp
            &&& late.phase is Streaming && late.udp
            &&& introducing.next(SessionEvent::Sent(false), now).1 is Close
        }),
{
}

/// How a session without UDP comes to stream: without a port it is not
/// negotiated at all, and otherwise it was not confirmed; the client is told,
/// the stream is described, and RTP goes over the WebSocket.
pub proof fn lemma_session_over_websocket(
    begin: WscSession,
    port: Option<u16>,
    active_source: Option<VideoSourceInput>,
    sdp: String,
    told: bool,
    described: bool,
    now: u64,
)
    requires
        begin.phase is Allocating,
        !begin.udp,
    ensures
        ({
            let (introducing, first) = begin.next(
                SessionEvent::Allocated { port, active_source },
                now,
            );
            let (after, second) = introducing.next(SessionEvent::Sent(true), now);
            let (falling, third) = if port is Some {
                after.next(SessionEvent::Negotiated(false), now)
            } else {
                (after, second)
            };
            let (describing, fourth) = falling.next(SessionEvent::Sent(told), now);
            let (sending, fifth) = describing.next(SessionEvent::SdpReady(sdp), now);
            let streaming = sending.next(SessionEvent::Sent(described), now).0;
            &&& first == SessionAction::Send(
                WscRtpServerMessage::Init {
                    session_id: begin.id_text,
                    holepunch_port: port.unwrap_or(0),
                    active_source,
                },
            )
            &&& third == SessionAction::Send(WscRtpServerMessage::FallingBackRtpToWs)
            &&& fourth is Describe
            &&& fifth == SessionAction::Send(WscRtpServerMessage::Sdp { sdp })
            &&& streaming.phase is Streaming && !streaming.udp
            &&& streaming.last_ping == begin.last_ping
        }),
{
}

/// The description of a session's stream is the one for IPv4 and any port.
pub proof fn lemma_published_description(
    source_id: Seq<char>,
    codec: VideoCodec,
    params: CodecParameters,
)
    ensures
        published_sdp(source_id, codec, params) == line("v=0"@) + line(
            "o=- "@ + decimal(name_hash(encode_utf8(source_id)) as nat) + " 0 IN IP4 0.0.0.0"@,
        ) + line("s=media-server"@) + line("c=IN IP4 0.0.0.0"@) + line("t=0 0"@) + line(
            "m=video "@ + decimal(0) + " RTP/AVP 96"@,
        ) + line(
            match codec {
                VideoCodec::H264 => "a=rtpmap:96 H264/90000"@,
                VideoCodec::H265 => "a=rtpmap:96 H265/90000"@,
            },
        ) + line("a=fmtp:96 "@ + fmtp_text(codec, params@)) + line("a=sendonly"@),
{
    lemma_lines_of_description(
        source_id,
        ClientAddress { is_ipv6: false, port: 0 },
        codec,
        params@,
    );
}

} // verus!
