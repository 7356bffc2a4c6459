//! The server's streams and sessions.
pub mod serving;
pub mod session;
pub mod source;

use crate::api::models::{
    SessionModeResponse, UnixTimestamp, VideoSourceInput, WebRtcSessionResponse,
};
use crate::app::session::{
    ClientSession, ClientSessionState, CreateStreamError, SeekAction, SessionError,
};
use crate::app::source::SourceWrapper;
use crate::common::codec_parameters::CodecParameters;
use crate::common::packetizer::RtpPacketizer;
use crate::common::rtp::RtpPacket;
use crate::common::stitcher::{random_u32, StitchingConsumer};
use crate::common::VideoCodec;
use crate::domain::dvr::filesystem::{first_with, none_with, RecordingMetadata};
use crate::domain::dvr::recorder::DvrRecorder;
use crate::domain::session_id::{is_version_4, new_session_id};
use crate::domain::{ClientSessionId, StreamConfig, StreamInfo, VideoSourceId};
use crate::publishers::sdp_text::VIDEO_PAYLOAD_TYPE;
use crate::publishers::webrtc::{WebRtcSession, WebrtcManager};
use crate::publishers::wsc_rtp::{published_sdp, WscRtpPublisher};
use crate::registry::{lists_ids, lists_names, SessionRegistry, StreamRegistry};
use crate::sources::dvr::{offset_into, DvrPlayer, NORMAL_SPEED};
use crate::sources::rtsp::{
    inputs_refused, lemma_inputs_decided, valid_address, valid_inputs, RtspClient,
};
use vstd::prelude::*;

verus! {

/// Two lists of inputs have an address in common.
pub open spec fn share_url(a: Seq<VideoSourceInput>, b: Seq<VideoSourceInput>) -> bool {
    exists|i: int, j: int|
        0 <= i < a.len() && 0 <= j < b.len() && (#[trigger] a[i]).url@ == (#[trigger] b[j]).url@
}

/// Which list comes first does not matter.
proof fn lemma_share_either_way(a: Seq<VideoSourceInput>, b: Seq<VideoSourceInput>)
    requires
        share_url(a, b),
    ensures
        share_url(b, a),
{
    let (i, j) = choose|i: int, j: int|
        0 <= i < a.len() && 0 <= j < b.len() && (#[trigger] a[i]).url@ == (#[trigger] b[j]).url@;
    assert(b[j].url@ == a[i].url@);
}

/// The first address of one list that is also in another.
fn shared_url(a: &[VideoSourceInput], b: &[VideoSourceInput]) -> (r: Option<String>)
    ensures
        match r {
            Some(url) => exists|i: int, j: int|
                0 <= i < a@.len() && 0 <= j < b@.len() && (#[trigger] a@[i]).url@ == (
                #[trigger] b@[j]).url@ && a@[i].url@ == url@,
            None => !share_url(a@, b@),
        },
{
    let mut i: usize = 0;
    while i < a.len()
        invariant
            i <= a@.len(),
            forall|k: int, j: int|
                0 <= k < i && 0 <= j < b@.len() ==> (#[trigger] a@[k]).url@ != (
                #[trigger] b@[j]).url@,
        decreases a@.len() - i,
    {
        let mut j: usize = 0;
        while j < b.len()
            invariant
                i < a@.len(),
                j <= b@.len(),
                forall|k: int| 0 <= k < j ==> a@[i as int].url@ != (#[trigger] b@[k]).url@,
            decreases b@.len() - j,
        {
            if a[i].url == b[j].url {
                assert(a@[i as int].url@ == b@[j as int].url@);
                return Some(a[i].url.clone());
            }
            j += 1;
        }
        i += 1;
    }
    None
}

/// All streams and sessions of the server.
#[derive(Debug)]
pub struct GlobalState {
    sources: StreamRegistry<SourceWrapper>,
    client_sessions: SessionRegistry<ClientSession>,
    wsc_publishers: SessionRegistry<WscRtpPublisher>,
    webrtc_manager: WebrtcManager,
    next_serial: u64,
}

impl GlobalState {
    /// The streams by their names.
    pub closed spec fn streams(self) -> Map<Seq<char>, SourceWrapper> {
        self.sources@
    }

    /// The sessions by their ids.
    pub closed spec fn sessions(self) -> Map<ClientSessionId, ClientSession> {
        self.client_sessions@
    }

    /// The publishers of WSC-RTP sessions by the sessions' ids.
    pub closed spec fn publishers(self) -> Map<ClientSessionId, WscRtpPublisher> {
        self.wsc_publishers@
    }

    /// The WebRTC sessions by their ids.
    pub closed spec fn webrtc_sessions(self) -> Map<ClientSessionId, WebRtcSession> {
        self.webrtc_manager.open_sessions()
    }

    /// The number that the next stream gets.
    pub closed spec fn serial(self) -> u64 {
        self.next_serial
    }

    /// What holds of the state at all times: everything is filed under its
    /// own name or id, no consumer is listed twice, and no two streams have an
    /// address in common.
    pub closed spec fn valid(self) -> bool {
        &&& self.sources.valid()
        &&& self.client_sessions.valid()
        &&& self.wsc_publishers.valid()
        &&& self.webrtc_manager.valid()
        &&& forall|k: Seq<char>| #[trigger]
            self.sources@.contains_key(k) ==> {
                &&& self.sources@[k].source.config.source_id@ == k
                &&& self.sources@[k].valid()
                &&& self.sources@[k].serial < self.next_serial
            }
        &&& forall|a: Seq<char>, b: Seq<char>| #[trigger]
            self.sources@.contains_key(a) && #[trigger] self.sources@.contains_key(b) && a != b
                ==> !share_url(
                self.sources@[a].source.config.rtsp_inputs@,
                self.sources@[b].source.config.rtsp_inputs@,
            ) && self.sources@[a].serial != self.sources@[b].serial
        &&& forall|id: ClientSessionId| #[trigger]
            self.client_sessions@.contains_key(id) ==> self.client_sessions@[id].id == id
                && self.client_sessions@[id].stitching_consumer.id == id
        &&& forall|id: ClientSessionId| #[trigger]
            self.wsc_publishers@.contains_key(id) ==> self.wsc_publishers@[id].id == id
        &&& forall|id: ClientSessionId| #[trigger]
            self.webrtc_manager.open_sessions().contains_key(id)
                ==> self.webrtc_manager.open_sessions()[id].session_id == id
    }

    /// Nothing changed.
    pub open spec fn unchanged(self, after: GlobalState) -> bool {
        &&& after.streams() == self.streams()
        &&& after.sessions() == self.sessions()
        &&& after.publishers() == self.publishers()
        &&& after.webrtc_sessions() == self.webrtc_sessions()
        &&& after.serial() == self.serial()
    }

    /// A server without streams.
    pub fn new() -> (r: Self)
        ensures
            r.valid(),
            r.streams() == Map::<Seq<char>, SourceWrapper>::empty(),
            r.sessions() == Map::<ClientSessionId, ClientSession>::empty(),
            r.publishers() == Map::<ClientSessionId, WscRtpPublisher>::empty(),
            r.webrtc_sessions() == Map::<ClientSessionId, WebRtcSession>::empty(),
            r.serial() == 0,
    {
        GlobalState {
            sources: StreamRegistry::new(),
            client_sessions: SessionRegistry::new(),
            wsc_publishers: SessionRegistry::new(),
            webrtc_manager: WebrtcManager::new(),
            next_serial: 0,
        }
    }

    /// A stream that has an address in common with the given inputs, and the
    /// address.
    fn find_shared_url(&self, inputs: &[VideoSourceInput]) -> (r: Option<(String, VideoSourceId)>)
        requires
            self.valid(),
        ensures
            match r {
                Some((url, source_id)) => {
                    &&& self.streams().contains_key(source_id@)
                    &&& exists|i: int, j: int|
                        0 <= i < self.streams()[source_id@].source.config.rtsp_inputs@.len() && 0
                            <= j < inputs@.len() && (
                        #[trigger] self.streams()[source_id@].source.config.rtsp_inputs@[i]).url@
                            == (#[trigger] inputs@[j]).url@
                            && self.streams()[source_id@].source.config.rtsp_inputs@[i].url@ == url@
                },
                None => forall|k: Seq<char>| #[trigger]
                    self.streams().contains_key(k) ==> !share_url(
                        self.streams()[k].source.config.rtsp_inputs@,
                        inputs@,
                    ),
            },
    {
        let names = self.sources.keys();
        let mut i: usize = 0;
        while i < names.len()
            invariant
                self.valid(),
                i <= names@.len(),
                lists_names(names@, self.sources@.dom()),
                forall|k: int|
                    0 <= k < i ==> !share_url(
                        self.sources@[(#[trigger] names@[k])@].source.config.rtsp_inputs@,
                        inputs@,
                    ),
            decreases names@.len() - i,
        {
            assert(self.sources@.dom().contains(names@[i as int]@));
            if let Some(wrapper) = self.sources.get(&names[i]) {
                if let Some(url) = shared_url(wrapper.source.inputs(), inputs) {
                    return Some((url, names[i].clone()));
                }
            }
            i += 1;
        }
        assert forall|k: Seq<char>| #[trigger] self.streams().contains_key(k) implies !share_url(
            self.streams()[k].source.config.rtsp_inputs@,
            inputs@,
        ) by {
            assert(self.sources@.dom().contains(k));
        }
        None
    }

    /// No stream has one of the addresses.
    pub open spec fn addresses_free(self, inputs: Seq<VideoSourceInput>) -> bool {
        forall|k: Seq<char>| #[trigger]
            self.streams().contains_key(k) ==> !share_url(
                self.streams()[k].source.config.rtsp_inputs@,
                inputs,
            )
    }

    /// The error that a stream is refused with.
    pub open spec fn refuses(self, config: StreamConfig, error: CreateStreamError) -> bool {
        match error {
            CreateStreamError::AlreadyExists { source_id } => source_id == config.source_id
                && self.streams().contains_key(source_id@),
            CreateStreamError::UrlTaken { url, source_id } => {
                let taken = self.streams()[source_id@].source.config.rtsp_inputs@;
                &&& !self.streams().contains_key(config.source_id@)
                &&& self.streams().contains_key(source_id@)
                &&& exists|i: int, j: int|
                    0 <= i < taken.len() && 0 <= j < config.rtsp_inputs@.len() && (
                    #[trigger] taken[i]).url@ == (#[trigger] config.rtsp_inputs@[j]).url@
                        && taken[i].url@ == url@
            },
            CreateStreamError::InvalidUrl(error) => {
                &&& !self.streams().contains_key(config.source_id@)
                &&& self.addresses_free(config.rtsp_inputs@)
                &&& inputs_refused(config.rtsp_inputs@, error)
            },
        }
    }

    /// Checks that another stream can be told apart from all before it.
    pub fn can_create_stream(&self) -> (r: bool)
        ensures
            r == (self.serial() < u64::MAX),
    {
        self.next_serial < u64::MAX
    }

    /// Creates a stream. Its name must be new, and so must its addresses be,
    /// which must be addresses of cameras.
    pub fn create_rtsp_stream(&mut self, config: StreamConfig) -> (r: Result<
        VideoSourceId,
        CreateStreamError,
    >)
        requires
            old(self).valid(),
            old(self).serial() < u64::MAX,
        ensures
            final(self).valid(),
            final(self).sessions() == old(self).sessions(),
            final(self).publishers() == old(self).publishers(),
            final(self).webrtc_sessions() == old(self).webrtc_sessions(),
            r is Err ==> old(self).unchanged(*final(self)),
            match r {
                Ok(id) => {
                    &&& id == config.source_id
                    &&& !old(self).streams().contains_key(id@)
                    &&& old(self).addresses_free(config.rtsp_inputs@)
                    &&& config.rtsp_inputs@.len() > 0
                    &&& valid_inputs(config.rtsp_inputs@)
                    &&& final(self).streams() == old(self).streams().insert(
                        id@,
                        final(self).streams()[id@],
                    )
                    &&& final(self).streams()[id@].fresh(config, old(self).serial())
                    &&& final(self).serial() == old(self).serial() + 1
                },
                Err(error) => old(self).refuses(config, error),
            },
    {
        let source_id = config.source_id.clone();
        if self.sources.contains(&source_id) {
            return Err(CreateStreamError::AlreadyExists { source_id });
        }
        if let Some((url, source_id)) = self.find_shared_url(config.rtsp_inputs.as_slice()) {
            return Err(CreateStreamError::UrlTaken { url, source_id });
        }
        let should_record = config.should_record;
        let source = match RtspClient::new(config) {
            Ok(source) => source,
            Err(error) => return Err(CreateStreamError::InvalidUrl(error)),
        };
        let recorder = if should_record {
            Some(DvrRecorder::new(source_id.clone()))
        } else {
            None
        };
        let rtp_packetizer = RtpPacketizer::new(
            random_u32(),
            VIDEO_PAYLOAD_TYPE,
        );
        let wrapper = SourceWrapper { source, rtp_packetizer, recorder, serial: self.next_serial };
        proof {
            let inputs = source.config.rtsp_inputs@;
            assert forall|k: Seq<char>| #[trigger] self.sources@.contains_key(k) implies !share_url(
                inputs,
                self.sources@[k].source.config.rtsp_inputs@,
            ) by {
                assert(self.streams().contains_key(k));
                let others = self.sources@[k].source.config.rtsp_inputs@;
                if share_url(inputs, others) {
                    lemma_share_either_way(inputs, others);
                }
            }
        }
        self.next_serial = self.next_serial + 1;
        let _ = self.sources.insert(source_id.clone(), wrapper);
        Ok(source_id)
    }

    /// Takes a stream out. Its sessions stay.
    pub fn delete_stream(&mut self, source_id: &VideoSourceId) -> (r: Option<SourceWrapper>)
        requires
            old(self).valid(),
        ensures
            final(self).valid(),
            r == old(self).streams().get(source_id@),
            final(self).streams() == old(self).streams().remove(source_id@),
            final(self).sessions() == old(self).sessions(),
            final(self).publishers() == old(self).publishers(),
            final(self).webrtc_sessions() == old(self).webrtc_sessions(),
            final(self).serial() == old(self).serial(),
    {
        self.sources.remove(source_id)
    }

    /// The stream of a name.
    pub fn get_source(&self, source_id: &VideoSourceId) -> (r: Option<&SourceWrapper>)
        requires
            self.valid(),
        ensures
            match r {
                Some(wrapper) => self.streams().contains_key(source_id@)
                    && self.streams()[source_id@] == *wrapper,
                None => !self.streams().contains_key(source_id@),
            },
    {
        self.sources.get(source_id)
    }

    /// The stream of a name, to be changed. The state stays valid if the
    /// stream does and is no other.
    pub fn get_source_mut(&mut self, source_id: &VideoSourceId) -> (r: Option<&mut SourceWrapper>)
        requires
            old(self).valid(),
        ensures
            final(self).sessions() == old(self).sessions(),
            final(self).publishers() == old(self).publishers(),
            final(self).webrtc_sessions() == old(self).webrtc_sessions(),
            final(self).serial() == old(self).serial(),
            match r {
                Some(wrapper) => {
                    &&& old(self).streams().contains_key(source_id@)
                    &&& *wrapper == old(self).streams()[source_id@]
                    &&& wrapper.valid()
                    &&& final(self).streams() == old(self).streams().insert(
                        source_id@,
                        *final(wrapper),
                    )
                    &&& final(wrapper).valid() && wrapper.same_stream(*final(wrapper))
                        ==> final(self).valid()
                },
                None => !old(self).streams().contains_key(source_id@) && final(self).valid()
                    && final(self).streams() == old(self).streams(),
            },
    {
        self.sources.get_mut(source_id)
    }

    /// What is known of a stream.
    pub fn get_stream(&self, source_id: &VideoSourceId) -> (r: Result<StreamInfo, SessionError>)
        requires
            self.valid(),
        ensures
            match r {
                Ok(info) => self.streams().contains_key(source_id@)
                    && self.streams()[source_id@].described_by(info),
                Err(error) => error == SessionError::StreamNotFound
                    && !self.streams().contains_key(source_id@),
            },
    {
        match self.sources.get(source_id) {
            Some(wrapper) => Ok(wrapper.info()),
            None => Err(SessionError::StreamNotFound),
        }
    }

    /// What is known of every stream, in no particular order.
    pub fn list_streams(&self) -> (r: Vec<StreamInfo>)
        requires
            self.valid(),
        ensures
            forall|i: int|
                0 <= i < r@.len() ==> self.streams().contains_key((#[trigger] r@[i]).source_id@)
                    && self.streams()[r@[i].source_id@].described_by(r@[i]),
            forall|k: Seq<char>| #[trigger]
                self.streams().contains_key(k) ==> exists|i: int|
                    0 <= i < r@.len() && (#[trigger] r@[i]).source_id@ == k,
            forall|i: int, j: int|
                0 <= i < j < r@.len() ==> (#[trigger] r@[i]).source_id@ != (
                #[trigger] r@[j]).source_id@,
    {
        let names = self.sources.keys();
        let mut infos: Vec<StreamInfo> = Vec::new();
        let mut i: usize = 0;
        while i < names.len()
            invariant
                self.valid(),
                i <= names@.len(),
                lists_names(names@, self.sources@.dom()),
                infos@.len() == i,
                forall|k: int|
                    0 <= k < i ==> (#[trigger] infos@[k]).source_id@ == names@[k]@
                        && self.sources@.contains_key(names@[k]@)
                        && self.sources@[names@[k]@].described_by(infos@[k]),
            decreases names@.len() - i,
        {
            assert(self.sources@.dom().contains(names@[i as int]@));
            if let Some(wrapper) = self.sources.get(&names[i]) {
                infos.push(wrapper.info());
            }
            i += 1;
        }
        proof {
            assert forall|k: Seq<char>| #[trigger] self.streams().contains_key(k) implies exists|
                i: int,
            | 0 <= i < infos@.len() && (#[trigger] infos@[i]).source_id@ == k by {
                assert(self.sources@.dom().contains(k));
                let j = choose|j: int| 0 <= j < names@.len() && (#[trigger] names@[j])@ == k;
                assert(infos@[j].source_id@ == k);
            }
            assert forall|a: int, b: int| 0 <= a < b < infos@.len() implies (
            #[trigger] infos@[a]).source_id@ != (#[trigger] infos@[b]).source_id@ by {
                assert(names@[a]@ != names@[b]@);
            }
        }
        infos
    }

    /// The parameter sets of a stream that a WebRTC session needs.
    pub fn webrtc_parameters(&self, source_id: &VideoSourceId) -> (r: Result<
        (VideoCodec, CodecParameters),
        SessionError,
    >)
        requires
            self.valid(),
        ensures
            match r {
                Ok((codec, params)) => {
                    &&& self.streams().contains_key(source_id@)
                    &&& self.streams()[source_id@].rtp_packetizer.stream_metadata matches Some(
                        state,
                    )
                    &&& codec == state.codec
                    &&& params@ == state.sets()
                },
                Err(SessionError::StreamNotFound) => !self.streams().contains_key(source_id@),
                Err(error) => error == SessionError::StreamNotReady
                    && self.streams().contains_key(source_id@)
                    && self.streams()[source_id@].rtp_packetizer.stream_metadata is None,
            },
    {
        match self.sources.get(source_id) {
            None => Err(SessionError::StreamNotFound),
            Some(wrapper) => match &wrapper.rtp_packetizer.stream_metadata {
                None => Err(SessionError::StreamNotReady),
                Some(state) => Ok((state.codec, state.codec_params.copied())),
            },
        }
    }

    /// A live session was opened on a stream: the session is filed, and its
    /// packets go to it.
    pub open spec fn opened(
        self,
        after: GlobalState,
        source_id: Seq<char>,
        id: ClientSessionId,
    ) -> bool {
        let session = after.sessions()[id];
        let stream = after.streams()[source_id];
        &&& self.streams().contains_key(source_id)
        &&& after.sessions() == self.sessions().insert(id, session)
        &&& session.id == id
        &&& session.source_id@ == source_id
        &&& session.live_serial == self.streams()[source_id].serial
        &&& session.state == ClientSessionState::Live
        &&& session.stitching_consumer.id == id
        &&& session.stitching_consumer.stitcher.is_fresh()
        &&& after.streams() == self.streams().insert(source_id, stream)
        &&& self.streams()[source_id].adds_consumer(stream, id)
        &&& after.serial() == self.serial()
    }

    /// Opens a live session on a stream.
    fn open_session(&mut self, source_id: &VideoSourceId, id: ClientSessionId) -> (r: bool)
        requires
            old(self).valid(),
        ensures
            final(self).valid(),
            final(self).publishers() == old(self).publishers(),
            final(self).webrtc_sessions() == old(self).webrtc_sessions(),
            r == old(self).streams().contains_key(source_id@),
            r ==> old(self).opened(*final(self), source_id@, id),
            !r ==> old(self).unchanged(*final(self)),
    {
        let live_serial: u64 = match self.sources.get_mut(source_id) {
            None => return false,
            Some(wrapper) => {
                wrapper.rtp_packetizer.add_consumer(id);
                wrapper.serial
            },
        };
        let session = ClientSession::new_live(id, source_id.clone(), live_serial);
        let _ = self.client_sessions.insert(id, session);
        true
    }

    /// Opens a WebRTC session, whose connection has the given id, on a stream
    /// whose parameter sets are known.
    pub fn create_websocket_session(
        &mut self,
        source_id: &VideoSourceId,
        session_id: ClientSessionId,
    ) -> (r: Result<(), SessionError>)
        requires
            old(self).valid(),
        ensures
            final(self).valid(),
            final(self).publishers() == old(self).publishers(),
            r is Err ==> old(self).unchanged(*final(self)),
            match r {
                Ok(()) => {
                    &&& old(self).streams()[source_id@].rtp_packetizer.initialized()
                    &&& old(self).opened(*final(self), source_id@, session_id)
                    &&& final(self).webrtc_sessions() == old(self).webrtc_sessions().insert(
                        session_id,
                        final(self).webrtc_sessions()[session_id],
                    )
                    &&& final(self).webrtc_sessions()[session_id].session_id == session_id
                    &&& final(self).webrtc_sessions()[session_id].source_id@ == source_id@
                },
                Err(SessionError::StreamNotFound) => !old(self).streams().contains_key(source_id@),
                Err(error) => error == SessionError::StreamNotReady && old(
                    self,
                ).streams().contains_key(source_id@) && !old(
                    self,
                ).streams()[source_id@].rtp_packetizer.initialized(),
            },
    {
        if let Err(error) = self.webrtc_parameters(source_id) {
            return Err(error);
        }
        let _ = self.open_session(source_id, session_id);
        self.webrtc_manager.open_session(WebRtcSession::new(source_id.clone(), session_id));
        Ok(())
    }

    /// Deletes a WebRTC session. Where it has a connection it is returned; the
    /// connection is to be closed.
    pub fn delete_webrtc_session(&mut self, session_id: &ClientSessionId) -> (r: Result<
        Option<WebRtcSession>,
        SessionError,
    >)
        requires
            old(self).valid(),
        ensures
            final(self).valid(),
            final(self).publishers() == old(self).publishers(),
            match r {
                Ok(session) => {
                    &&& old(self).dropped(*final(self), *session_id)
                    &&& session == old(self).webrtc_sessions().get(*session_id)
                    &&& final(self).webrtc_sessions() == old(self).webrtc_sessions().remove(
                        *session_id,
                    )
                },
                Err(error) => error == SessionError::UnknownSession && !old(
                    self,
                ).sessions().contains_key(*session_id) && old(self).unchanged(*final(self)),
            },
    {
        if let Err(error) = self.delete_client_session(session_id) {
            return Err(error);
        }
        Ok(self.webrtc_manager.delete_session(session_id))
    }

    /// Opens a WSC-RTP session with the given id.
    pub fn register_wsc_rtp(&mut self, source_id: &VideoSourceId, id: ClientSessionId) -> (r: Result<
        (),
        SessionError,
    >)
        requires
            old(self).valid(),
        ensures
            final(self).valid(),
            final(self).webrtc_sessions() == old(self).webrtc_sessions(),
            match r {
                Ok(()) => {
                    &&& old(self).opened(*final(self), source_id@, id)
                    &&& final(self).publishers() == old(self).publishers().insert(
                        id,
                        final(self).publishers()[id],
                    )
                    &&& final(self).publishers()[id].id == id
                    &&& final(self).publishers()[id].video_source_id@ == source_id@
                    &&& !final(self).publishers()[id].rtp_open
                    &&& !final(self).publishers()[id].sdp_open
                    &&& final(self).publishers()[id].current_sdp is None
                    &&& final(self).publishers()[id].holepunch_port is None
                    &&& !final(self).publishers()[id].dead
                },
                Err(error) => error == SessionError::StreamNotFound && !old(
                    self,
                ).streams().contains_key(source_id@) && old(self).unchanged(*final(self)),
            },
    {
        if !self.open_session(source_id, id) {
            return Err(SessionError::StreamNotFound);
        }
        let _ = self.wsc_publishers.insert(id, WscRtpPublisher::with_id(id, source_id.clone()));
        Ok(())
    }

    /// Opens a WSC-RTP session with a random id.
    pub fn create_wsc_rtp_registration(&mut self, source_id: &VideoSourceId) -> (r: Result<
        ClientSessionId,
        SessionError,
    >)
        requires
            old(self).valid(),
        ensures
            final(self).valid(),
            final(self).webrtc_sessions() == old(self).webrtc_sessions(),
            match r {
                Ok(id) => {
                    &&& is_version_4(id)
                    &&& old(self).opened(*final(self), source_id@, id)
                    &&& final(self).publishers() == old(self).publishers().insert(
                        id,
                        final(self).publishers()[id],
                    )
                    &&& final(self).publishers()[id].id == id
                    &&& final(self).publishers()[id].video_source_id@ == source_id@
                    &&& !final(self).publishers()[id].rtp_open
                    &&& !final(self).publishers()[id].sdp_open
                    &&& final(self).publishers()[id].current_sdp is None
                    &&& final(self).publishers()[id].holepunch_port is None
                    &&& !final(self).publishers()[id].dead
                },
                Err(error) => error == SessionError::StreamNotFound && !old(
                    self,
                ).streams().contains_key(source_id@) && old(self).unchanged(*final(self)),
            },
    {
        let id: ClientSessionId = new_session_id();
        match self.register_wsc_rtp(source_id, id) {
            Ok(()) => Ok(id),
            Err(error) => Err(error),
        }
    }

    /// A session is gone, and the stream of its name, if there is one, does
    /// not serve it any more.
    pub open spec fn dropped(self, after: GlobalState, id: ClientSessionId) -> bool {
        let source_id = self.sessions()[id].source_id@;
        let stream = after.streams()[source_id];
        &&& self.sessions().contains_key(id)
        &&& after.sessions() == self.sessions().remove(id)
        &&& after.serial() == self.serial()
        &&& if self.streams().contains_key(source_id) {
            &&& after.streams() == self.streams().insert(source_id, stream)
            &&& self.streams()[source_id].removes_consumer(stream, id)
        } else {
            after.streams() == self.streams()
        }
    }

    /// Deletes a session.
    pub fn delete_client_session(&mut self, session_id: &ClientSessionId) -> (r: Result<
        (),
        SessionError,
    >)
        requires
            old(self).valid(),
        ensures
            final(self).valid(),
            final(self).publishers() == old(self).publishers(),
            final(self).webrtc_sessions() == old(self).webrtc_sessions(),
            match r {
                Ok(()) => old(self).dropped(*final(self), *session_id),
                Err(error) => error == SessionError::UnknownSession && !old(
                    self,
                ).sessions().contains_key(*session_id) && old(self).unchanged(*final(self)),
            },
    {
        match self.client_sessions.remove(session_id) {
            None => {
                assert(old(self).sessions().remove(*session_id) =~= old(self).sessions());
                Err(SessionError::UnknownSession)
            },
            Some(session) => {
                if let Some(wrapper) = self.sources.get_mut(&session.source_id) {
                    wrapper.rtp_packetizer.remove_consumer(session.stitching_consumer.id);
                }
                Ok(())
            },
        }
    }

    /// Deletes a WSC-RTP session and shuts its publisher down, which is
    /// returned where there is one.
    pub fn delete_wsc_rtp_session(&mut self, id: &ClientSessionId) -> (r: Result<
        Option<WscRtpPublisher>,
        SessionError,
    >)
        requires
            old(self).valid(),
        ensures
            final(self).valid(),
            final(self).webrtc_sessions() == old(self).webrtc_sessions(),
            match r {
                Ok(publisher) => {
                    &&& old(self).dropped(*final(self), *id)
                    &&& final(self).publishers() == old(self).publishers().remove(*id)
                    &&& match publisher {
                        Some(publisher) => old(self).publishers().contains_key(*id) && publisher
                            == (WscRtpPublisher {
                            dead: true,
                            rtp_open: false,
                            sdp_open: false,
                            ..old(self).publishers()[*id]
                        }),
                        None => !old(self).publishers().contains_key(*id),
                    }
                },
                Err(error) => error == SessionError::UnknownSession && !old(
                    self,
                ).sessions().contains_key(*id) && old(self).unchanged(*final(self)),
            },
    {
        if let Err(error) = self.delete_client_session(id) {
            return Err(error);
        }
        match self.wsc_publishers.remove(id) {
            Some(mut publisher) => {
                publisher.shutdown();
                Ok(Some(publisher))
            },
            None => Ok(None),
        }
    }

    /// A session.
    pub fn get_session(&self, id: &ClientSessionId) -> (r: Option<&ClientSession>)
        requires
            self.valid(),
        ensures
            match r {
                Some(session) => self.sessions().contains_key(*id) && self.sessions()[*id]
                    == *session,
                None => !self.sessions().contains_key(*id),
            },
    {
        self.client_sessions.get(id)
    }

    /// The packets that a session gets for packets of its current source.
    pub fn stitch_for(&mut self, id: &ClientSessionId, frames: &[RtpPacket]) -> (r: Option<
        Vec<RtpPacket>,
    >)
        requires
            old(self).valid(),
        ensures
            final(self).valid(),
            final(self).streams() == old(self).streams(),
            final(self).publishers() == old(self).publishers(),
            final(self).webrtc_sessions() == old(self).webrtc_sessions(),
            final(self).serial() == old(self).serial(),
            match r {
                None => !old(self).sessions().contains_key(*id) && final(self).sessions() == old(
                    self,
                ).sessions(),
                Some(packets) => {
                    let session = old(self).sessions()[*id];
                    let stitcher = session.stitching_consumer.stitcher;
                    &&& old(self).sessions().contains_key(*id)
                    &&& final(self).sessions() == old(self).sessions().insert(
                        *id,
                        ClientSession {
                            stitching_consumer: StitchingConsumer {
                                stitcher: stitcher.after_packets(frames@),
                                ..session.stitching_consumer
                            },
                            ..session
                        },
                    )
                    &&& packets@.len() == frames@.len()
                    &&& forall|k: int|
                        0 <= k < packets@.len() ==> {
                            &&& (#[trigger] packets@[k]).payload == frames@[k].payload
                            &&& packets@[k].header == stitcher.after_packets(
                                frames@.take(k),
                            ).stitched(frames@[k].header)
                        }
                },
            },
    {
        match self.client_sessions.get_mut(id) {
            None => None,
            Some(session) => Some(session.stitching_consumer.stitcher.stitch_all(frames)),
        }
    }

    /// The publisher of a WSC-RTP session.
    pub fn get_publisher(&self, id: &ClientSessionId) -> (r: Option<&WscRtpPublisher>)
        requires
            self.valid(),
        ensures
            match r {
                Some(publisher) => self.publishers().contains_key(*id) && self.publishers()[*id]
                    == *publisher,
                None => !self.publishers().contains_key(*id),
            },
    {
        self.wsc_publishers.get(id)
    }

    /// The publisher of a WSC-RTP session, to be changed. The state stays
    /// valid if the publisher keeps its id.
    pub fn get_publisher_mut(&mut self, id: &ClientSessionId) -> (r: Option<&mut WscRtpPublisher>)
        requires
            old(self).valid(),
        ensures
            final(self).streams() == old(self).streams(),
            final(self).sessions() == old(self).sessions(),
            final(self).webrtc_sessions() == old(self).webrtc_sessions(),
            final(self).serial() == old(self).serial(),
            match r {
                Some(publisher) => {
                    &&& old(self).publishers().contains_key(*id)
                    &&& *publisher == old(self).publishers()[*id]
                    &&& publisher.id == *id
                    &&& final(self).publishers() == old(self).publishers().insert(
                        *id,
                        *final(publisher),
                    )
                    &&& final(publisher).id == *id ==> final(self).valid()
                },
                None => !old(self).publishers().contains_key(*id) && final(self).valid()
                    && final(self).publishers() == old(self).publishers(),
            },
    {
        self.wsc_publishers.get_mut(id)
    }

    /// Describes a session's stream to it, once the stream's parameter sets
    /// are known. The description is kept, and returned where the session
    /// takes descriptions.
    pub fn refresh_sdp(&mut self, id: &ClientSessionId) -> (r: Option<String>)
        requires
            old(self).valid(),
        ensures
            final(self).valid(),
            final(self).streams() == old(self).streams(),
            final(self).sessions() == old(self).sessions(),
            final(self).webrtc_sessions() == old(self).webrtc_sessions(),
            final(self).serial() == old(self).serial(),
            ({
                let name = old(self).sessions()[*id].source_id@;
                if old(self).sessions().contains_key(*id) && old(self).publishers().contains_key(
                    *id,
                ) && old(self).streams().contains_key(name) && old(
                    self,
                ).streams()[name].rtp_packetizer.initialized() {
                    let state = old(self).streams()[name].rtp_packetizer.stream_metadata->0;
                    let before = old(self).publishers()[*id];
                    let after = final(self).publishers()[*id];
                    &&& final(self).publishers() == old(self).publishers().insert(*id, after)
                    &&& after == (WscRtpPublisher { current_sdp: after.current_sdp, ..before })
                    &&& after.current_sdp matches Some(sdp)
                    &&& sdp@ == published_sdp(
                        before.video_source_id@,
                        state.codec,
                        state.codec_params,
                    )
                    &&& r == (if before.sdp_open {
                        after.current_sdp
                    } else {
                        None
                    })
                } else {
                    r is None && final(self).publishers() == old(self).publishers()
                }
            }),
    {
        let source_id = match self.client_sessions.get(id) {
            None => return None,
            Some(session) => session.source_id.clone(),
        };
        match self.webrtc_parameters(&source_id) {
            Err(_) => None,
            Ok((codec, params)) => match self.wsc_publishers.get_mut(id) {
                None => None,
                Some(publisher) => publisher.update_params(&codec, &params),
            },
        }
    }

    /// What a session shows.
    pub fn get_client_session_state(&self, id: &ClientSessionId) -> (r: Result<
        &ClientSessionState,
        SessionError,
    >)
        requires
            self.valid(),
        ensures
            match r {
                Ok(state) => self.sessions().contains_key(*id) && self.sessions()[*id].state
                    == *state,
                Err(error) => error == SessionError::SessionNotFound
                    && !self.sessions().contains_key(*id),
            },
    {
        match self.client_sessions.get(id) {
            Some(session) => Ok(&session.state),
            None => Err(SessionError::SessionNotFound),
        }
    }

    /// How a session plays; `position` is where in its recording its pipeline
    /// is, in milliseconds, if it has one.
    pub fn get_session_mode(&self, session_id: &ClientSessionId, position: Option<u64>) -> (r:
        Result<SessionModeResponse, SessionError>)
        requires
            self.valid(),
        ensures
            match r {
                Ok(mode) => self.sessions().contains_key(*session_id) && mode
                    == self.sessions()[*session_id].mode(position),
                Err(error) => error == SessionError::SessionNotFound
                    && !self.sessions().contains_key(*session_id),
            },
    {
        match self.client_sessions.get(session_id) {
            Some(session) => Ok(session.session_mode(position)),
            None => Err(SessionError::SessionNotFound),
        }
    }

    /// What setting the speed does, and how it ends: only a session that plays
    /// a recording has a speed to set.
    pub open spec fn sets_speed(
        self,
        after: GlobalState,
        id: ClientSessionId,
        speed: u64,
        r: Result<(), SessionError>,
    ) -> bool {
        let session = self.sessions()[id];
        if !self.sessions().contains_key(id) {
            r == Err::<(), _>(SessionError::SessionNotFound) && self.unchanged(after)
        } else {
            match session.state {
                ClientSessionState::Live => r == Err::<(), _>(SessionError::NotDvr)
                    && self.unchanged(after),
                ClientSessionState::Dvr(player) => {
                    &&& r == Ok::<_, SessionError>(())
                    &&& after.sessions() == self.sessions().insert(
                        id,
                        ClientSession {
                            state: ClientSessionState::Dvr(DvrPlayer { speed, ..player }),
                            ..session
                        },
                    )
                    &&& after.streams() == self.streams()
                    &&& after.publishers() == self.publishers()
                    &&& after.webrtc_sessions() == self.webrtc_sessions()
                    &&& after.serial() == self.serial()
                },
            }
        }
    }

    /// Sets the speed, which is given by its bits, of a session that plays a
    /// recording.
    pub fn set_session_speed(&mut self, session_id: &ClientSessionId, speed: u64) -> (r: Result<
        (),
        SessionError,
    >)
        requires
            old(self).valid(),
        ensures
            final(self).valid(),
            old(self).sets_speed(*final(self), *session_id, speed, r),
    {
        let is_live = match self.client_sessions.get(session_id) {
            None => return Err(SessionError::SessionNotFound),
            Some(session) => session.is_live(),
        };
        if is_live {
            return Err(SessionError::NotDvr);
        }
        if let Some(session) = self.client_sessions.get_mut(session_id) {
            if let ClientSessionState::Dvr(player) = &mut session.state {
                player.set_speed(speed);
            }
        }
        Ok(())
    }

    /// The stream that a session was opened on is still there.
    pub open spec fn on_air(self, session: ClientSession) -> bool {
        self.streams().contains_key(session.source_id@)
            && self.streams()[session.source_id@].serial == session.live_serial
    }

    /// Adds a session to the consumers of the stream that it was opened on.
    fn attach(&mut self, source_id: &VideoSourceId, serial: u64, id: ClientSessionId)
        requires
            old(self).valid(),
        ensures
            final(self).valid(),
            final(self).sessions() == old(self).sessions(),
            final(self).publishers() == old(self).publishers(),
            final(self).webrtc_sessions() == old(self).webrtc_sessions(),
            final(self).serial() == old(self).serial(),
            ({
                let stream = final(self).streams()[source_id@];
                if old(self).streams().contains_key(source_id@) && old(
                    self,
                ).streams()[source_id@].serial == serial {
                    &&& final(self).streams() == old(self).streams().insert(source_id@, stream)
                    &&& old(self).streams()[source_id@].adds_consumer(stream, id)
                } else {
                    final(self).streams() == old(self).streams()
                }
            }),
    {
        if let Some(wrapper) = self.sources.get_mut(source_id) {
            if wrapper.serial == serial {
                wrapper.rtp_packetizer.add_consumer(id);
            }
        }
        proof {
            let k = source_id@;
            if old(self).streams().contains_key(k) && old(self).streams()[k].serial != serial {
                assert(old(self).streams().insert(k, old(self).streams()[k]) =~= old(
                    self,
                ).streams());
            }
        }
    }

    /// Removes a session from the consumers of the stream that it was opened
    /// on.
    fn detach(&mut self, source_id: &VideoSourceId, serial: u64, id: ClientSessionId)
        requires
            old(self).valid(),
        ensures
            final(self).valid(),
            final(self).sessions() == old(self).sessions(),
            final(self).publishers() == old(self).publishers(),
            final(self).webrtc_sessions() == old(self).webrtc_sessions(),
            final(self).serial() == old(self).serial(),
            ({
                let stream = final(self).streams()[source_id@];
                if old(self).streams().contains_key(source_id@) && old(
                    self,
                ).streams()[source_id@].serial == serial {
                    &&& final(self).streams() == old(self).streams().insert(source_id@, stream)
                    &&& old(self).streams()[source_id@].removes_consumer(stream, id)
                } else {
                    final(self).streams() == old(self).streams()
                }
            }),
    {
        if let Some(wrapper) = self.sources.get_mut(source_id) {
            if wrapper.serial == serial {
                wrapper.rtp_packetizer.remove_consumer(id);
            }
        }
        proof {
            let k = source_id@;
            if old(self).streams().contains_key(k) && old(self).streams()[k].serial != serial {
                assert(old(self).streams().insert(k, old(self).streams()[k]) =~= old(
                    self,
                ).streams());
            }
        }
    }

    /// What going live does, and what it yields: the player of a recording that
    /// was being played. The session is served again by the stream that it was
    /// opened on, if that is still there.
    pub open spec fn goes_live(
        self,
        after: GlobalState,
        id: ClientSessionId,
        r: Result<Option<DvrPlayer>, SessionError>,
    ) -> bool {
        let session = self.sessions()[id];
        let stream = after.streams()[session.source_id@];
        &&& after.publishers() == self.publishers()
        &&& after.webrtc_sessions() == self.webrtc_sessions()
        &&& after.serial() == self.serial()
        &&& match r {
            Err(error) => error == SessionError::SessionNotFound && !self.sessions().contains_key(
                id,
            ) && self.unchanged(after),
            Ok(None) => self.sessions().contains_key(id) && session.state is Live
                && self.unchanged(after),
            Ok(Some(player)) => {
                &&& self.sessions().contains_key(id)
                &&& session.state == ClientSessionState::Dvr(player)
                &&& after.sessions() == self.sessions().insert(
                    id,
                    ClientSession { state: ClientSessionState::Live, ..session },
                )
                &&& if self.on_air(session) {
                    &&& after.streams() == self.streams().insert(session.source_id@, stream)
                    &&& self.streams()[session.source_id@].adds_consumer(stream, id)
                } else {
                    after.streams() == self.streams()
                }
            },
        }
    }

    /// Shows a session's stream live. The player of a recording that was being
    /// played is returned; it is to be stopped.
    pub fn switch_session_to_live(&mut self, session_id: &ClientSessionId) -> (r: Result<
        Option<DvrPlayer>,
        SessionError,
    >)
        requires
            old(self).valid(),
        ensures
            final(self).valid(),
            old(self).goes_live(*final(self), *session_id, r),
    {
        let mut state = ClientSessionState::Live;
        let (source_id, serial) = match self.client_sessions.get_mut(session_id) {
            None => return Err(SessionError::SessionNotFound),
            Some(session) => {
                core::mem::swap(&mut session.state, &mut state);
                (session.source_id.clone(), session.live_serial)
            },
        };
        match state {
            ClientSessionState::Live => {
                proof {
                    let session = old(self).sessions()[*session_id];
                    assert(old(self).sessions().insert(*session_id, session) =~= old(
                        self,
                    ).sessions());
                }
                Ok(None)
            },
            ClientSessionState::Dvr(player) => {
                self.attach(&source_id, serial, *session_id);
                Ok(Some(player))
            },
        }
    }

    /// What a seek does, and how it ends. A session that plays a recording
    /// seeks in it. One that is live leaves its stream for the recording, among
    /// those given, that holds the point in time; without such a recording
    /// nothing changes.
    pub open spec fn seeks(
        self,
        after: GlobalState,
        id: ClientSessionId,
        timestamp: UnixTimestamp,
        recordings: Seq<RecordingMetadata>,
        r: Result<SeekAction, SessionError>,
    ) -> bool {
        &&& after.publishers() == self.publishers()
        &&& after.webrtc_sessions() == self.webrtc_sessions()
        &&& after.serial() == self.serial()
        &&& {
            let session = self.sessions()[id];
            let name = session.source_id@;
            let stream = after.streams()[name];
            let holds = |rec: RecordingMetadata| rec.holds(timestamp);
            if !self.sessions().contains_key(id) {
                r == Err::<SeekAction, _>(SessionError::SessionNotFound) && self.unchanged(after)
            } else if !self.streams().contains_key(name) {
                r == Err::<SeekAction, _>(SessionError::SourceNotFound) && self.unchanged(after)
            } else if self.streams()[name].source.codec is None {
                r == Err::<SeekAction, _>(SessionError::NoCodec) && self.unchanged(
                    after,
                )
            } else {
                match session.state {
                    ClientSessionState::Dvr(player) => self.unchanged(after) && r
                        == Ok::<_, SessionError>(
                        SeekAction::Seek {
                            offset_ms: offset_into(player.recording, timestamp) as u64,
                        },
                    ),
                    ClientSessionState::Live => if none_with(recordings, holds) {
                        r == Err::<SeekAction, _>(SessionError::NoRecording) && self.unchanged(
                            after,
                        )
                    } else {
                        let then = after.sessions()[id];
                        &&& if self.on_air(session) {
                            &&& after.streams() == self.streams().insert(name, stream)
                            &&& self.streams()[name].removes_consumer(stream, id)
                        } else {
                            after.streams() == self.streams()
                        }
                        &&& r == Ok::<_, SessionError>(SeekAction::Play)
                        &&& after.sessions() == self.sessions().insert(id, then)
                        &&& then == (ClientSession { state: then.state, ..session })
                        &&& then.state matches ClientSessionState::Dvr(player)
                        &&& player.source_id == session.source_id
                        &&& player.codec == self.streams()[name].source.codec->0
                        &&& player.initial_time == timestamp
                        &&& player.speed == NORMAL_SPEED
                        &&& exists|i: int|
                            #[trigger] first_with(recordings, i, holds) && recordings[i]
                                == player.recording
                    },
                }
            }
        }
    }

    /// Shows a point in time in a session. One that plays a recording seeks in
    /// it. One that is live leaves its stream for the recording, among those
    /// of the stream, that holds the point in time; without such a recording
    /// it stays as it is.
    pub fn seek_session(
        &mut self,
        session_id: &ClientSessionId,
        timestamp: UnixTimestamp,
        recordings: &[RecordingMetadata],
    ) -> (r: Result<SeekAction, SessionError>)
        requires
            old(self).valid(),
        ensures
            final(self).valid(),
            old(self).seeks(*final(self), *session_id, timestamp, recordings@, r),
    {
        let (source_id, serial) = match self.client_sessions.get(session_id) {
            None => return Err(SessionError::SessionNotFound),
            Some(session) => (session.source_id.clone(), session.live_serial),
        };
        let codec = match self.sources.get(&source_id) {
            None => return Err(SessionError::SourceNotFound),
            Some(wrapper) => match wrapper.source.get_codec() {
                None => return Err(SessionError::NoCodec),
                Some(codec) => codec,
            },
        };
        if let Some(session) = self.client_sessions.get(session_id) {
            if let ClientSessionState::Dvr(player) = &session.state {
                return Ok(SeekAction::Seek { offset_ms: player.seek_offset_ms(timestamp) });
            }
        }
        let ghost holds = |rec: RecordingMetadata| rec.holds(timestamp);
        match DvrPlayer::new(source_id.clone(), timestamp, codec, recordings) {
            Err(_) => Err(SessionError::NoRecording),
            Ok(player) => {
                proof {
                    let i = choose|i: int|
                        #[trigger] first_with(recordings@, i, holds) && recordings@[i]
                            == player.recording;
                    assert(holds(recordings@[i]));
                }
                self.detach(&source_id, serial, *session_id);
                if let Some(session) = self.client_sessions.get_mut(session_id) {
                    session.state = ClientSessionState::Dvr(player);
                }
                Ok(SeekAction::Play)
            },
        }
    }

    /// A list holds each session of a stream once.
    pub open spec fn lists_sessions(
        self,
        source_id: Seq<char>,
        list: Seq<WebRtcSessionResponse>,
    ) -> bool {
        &&& forall|i: int|
            0 <= i < list.len() ==> {
                let session = self.sessions()[(#[trigger] list[i]).session_id];
                &&& self.sessions().contains_key(list[i].session_id)
                &&& session.source_id@ == source_id
                &&& list[i].source_id@ == source_id
                &&& list[i].is_live == session.state is Live
            }
        &&& forall|id: ClientSessionId| #[trigger]
            self.sessions().contains_key(id) && self.sessions()[id].source_id@ == source_id
                ==> exists|i: int| 0 <= i < list.len() && (#[trigger] list[i]).session_id == id
        &&& forall|i: int, j: int|
            0 <= i < j < list.len() ==> (#[trigger] list[i]).session_id != (
            #[trigger] list[j]).session_id
    }

    /// The name of a session's stream.
    pub open spec fn session_stream(self, id: ClientSessionId) -> Seq<char> {
        if self.sessions().contains_key(id) {
            self.sessions()[id].source_id@
        } else {
            seq![]
        }
    }

    /// The sessions of a stream, in no particular order.
    pub fn list_webrtc_sessions(&self, source_id: &VideoSourceId) -> (r: Vec<WebRtcSessionResponse>)
        requires
            self.valid(),
        ensures
            self.lists_sessions(source_id@, r@),
    {
        let ids = self.client_sessions.keys();
        let mut found: Vec<WebRtcSessionResponse> = Vec::new();
        let ghost mut positions: Seq<int> = seq![];
        let mut i: usize = 0;
        while i < ids.len()
            invariant
                self.valid(),
                i <= ids@.len(),
                lists_ids(ids@, self.client_sessions@.dom()),
                positions.len() == found@.len(),
                forall|k: int|
                    0 <= k < found@.len() ==> {
                        let session = self.client_sessions@[(#[trigger] found@[k]).session_id];
                        &&& self.client_sessions@.contains_key(found@[k].session_id)
                        &&& session.source_id@ == source_id@
                        &&& found@[k].source_id@ == source_id@
                        &&& found@[k].is_live == session.state is Live
                    },
                forall|k: int|
                    0 <= k < positions.len() ==> 0 <= (#[trigger] positions[k]) < i
                        && ids@[positions[k]] == found@[k].session_id,
                forall|k: int, l: int|
                    0 <= k < l < positions.len() ==> (#[trigger] positions[k]) < (
                    #[trigger] positions[l]),
                forall|k: int|
                    0 <= k < i && self.client_sessions@[#[trigger] ids@[k]].source_id@
                        == source_id@ ==> exists|j: int|
                        0 <= j < found@.len() && (#[trigger] found@[j]).session_id == ids@[k],
            decreases ids@.len() - i,
        {
            let ghost before = found@;
            assert(self.client_sessions@.dom().contains(ids@[i as int]));
            if let Some(session) = self.client_sessions.get(&ids[i]) {
                if session.source_id == *source_id {
                    found.push(
                        WebRtcSessionResponse {
                            session_id: ids[i],
                            source_id: source_id.clone(),
                            is_live: session.is_live(),
                        },
                    );
                    proof {
                        positions = positions.push(i as int);
                        assert(found@[before.len() as int].session_id == ids@[i as int]);
                    }
                }
            }
            proof {
                assert forall|k: int|
                    0 <= k < i + 1 && self.client_sessions@[#[trigger] ids@[k]].source_id@
                        == source_id@ implies exists|j: int|
                    0 <= j < found@.len() && (#[trigger] found@[j]).session_id == ids@[k] by {
                    if k < i {
                        let j = choose|j: int|
                            0 <= j < before.len() && (#[trigger] before[j]).session_id == ids@[k];
                        assert(found@[j].session_id == ids@[k]);
                    }
                }
            }
            i += 1;
        }
        proof {
            assert forall|id: ClientSessionId| #[trigger]
                self.sessions().contains_key(id) && self.sessions()[id].source_id@
                    == source_id@ implies exists|i: int|
                0 <= i < found@.len() && (#[trigger] found@[i]).session_id == id by {
                assert(self.client_sessions@.dom().contains(id));
                assert(ids@.contains(id));
                let k = choose|k: int| 0 <= k < ids@.len() && ids@[k] == id;
                assert(self.client_sessions@[ids@[k]].source_id@ == source_id@);
            }
            assert forall|a: int, b: int| 0 <= a < b < found@.len() implies (
            #[trigger] found@[a]).session_id != (#[trigger] found@[b]).session_id by {
                assert(positions[a] < positions[b]);
                assert(ids@[positions[a]] != ids@[positions[b]]);
            }
        }
        found
    }

    /// Takes all streams out. They are returned, in no particular order; their
    /// sources are to be stopped.
    pub fn cleanup(&mut self) -> (r: Vec<SourceWrapper>)
        requires
            old(self).valid(),
        ensures
            final(self).valid(),
            final(self).streams() == Map::<Seq<char>, SourceWrapper>::empty(),
            final(self).sessions() == old(self).sessions(),
            final(self).publishers() == old(self).publishers(),
            final(self).webrtc_sessions() == old(self).webrtc_sessions(),
            final(self).serial() == old(self).serial(),
            forall|k: Seq<char>| #[trigger]
                old(self).streams().contains_key(k) ==> r@.contains(old(self).streams()[k]),
            r@.len() == old(self).streams().dom().len(),
    {
        let names = self.sources.keys();
        let mut removed: Vec<SourceWrapper> = Vec::new();
        let mut i: usize = 0;
        proof {
            lemma_names_counted(names@, self.sources@.dom());
        }
        while i < names.len()
            invariant
                old(self).valid(),
                self.valid(),
                self.sessions() == old(self).sessions(),
                self.publishers() == old(self).publishers(),
                self.webrtc_sessions() == old(self).webrtc_sessions(),
                self.serial() == old(self).serial(),
                i <= names@.len(),
                lists_names(names@, old(self).sources@.dom()),
                removed@.len() == i,
                forall|k: int|
                    0 <= k < i ==> #[trigger] removed@[k] == old(self).sources@[names@[k]@],
                forall|k: Seq<char>| #[trigger]
                    self.sources@.contains_key(k) ==> old(self).sources@.contains_key(k)
                        && self.sources@[k] == old(self).sources@[k],
                forall|j: int|
                    i <= j < names@.len() ==> self.sources@.contains_key((#[trigger] names@[j])@),
                forall|j: int|
                    0 <= j < i ==> !self.sources@.contains_key((#[trigger] names@[j])@),
            decreases names@.len() - i,
        {
            let ghost name = names@[i as int]@;
            if let Some(wrapper) = self.sources.remove(&names[i]) {
                removed.push(wrapper);
            }
            i += 1;
        }
        proof {
            assert forall|k: Seq<char>| !self.sources@.contains_key(k) by {
                if self.sources@.contains_key(k) {
                    assert(old(self).sources@.dom().contains(k));
                    let j = choose|j: int| 0 <= j < names@.len() && (#[trigger] names@[j])@ == k;
                    assert(!self.sources@.contains_key(names@[j]@));
                }
            }
            assert(self.streams() =~= Map::<Seq<char>, SourceWrapper>::empty());
            assert forall|k: Seq<char>| #[trigger]
                old(self).streams().contains_key(k) implies removed@.contains(
                old(self).streams()[k],
            ) by {
                assert(old(self).sources@.dom().contains(k));
                let j = choose|j: int| 0 <= j < names@.len() && (#[trigger] names@[j])@ == k;
                assert(removed@[j] == old(self).sources@[names@[j]@]);
            }
        }
        removed
    }
}

/// What holds of every state: a stream or session is filed under its own name
/// or id, a session is listed at most once among the consumers of a stream,
/// and no two streams have an address in common.
pub proof fn lemma_state_is_consistent(state: GlobalState)
    requires
        state.valid(),
    ensures
        forall|k: Seq<char>| #[trigger]
            state.streams().contains_key(k) ==> {
                &&& state.streams()[k].source.config.source_id@ == k
                &&& state.streams()[k].valid()
            },
        forall|id: ClientSessionId| #[trigger]
            state.sessions().contains_key(id) ==> state.sessions()[id].id == id
                && state.sessions()[id].stitching_consumer.id == id,
        forall|id: ClientSessionId| #[trigger]
            state.publishers().contains_key(id) ==> state.publishers()[id].id == id,
        forall|a: Seq<char>, b: Seq<char>| #[trigger]
            state.streams().contains_key(a) && #[trigger] state.streams().contains_key(b) && a != b
                ==> !share_url(
                state.streams()[a].source.config.rtsp_inputs@,
                state.streams()[b].source.config.rtsp_inputs@,
            ),
{
    assert forall|k: Seq<char>| #[trigger] state.streams().contains_key(k) implies {
        &&& state.streams()[k].source.config.source_id@ == k
        &&& state.streams()[k].valid()
    } by {
        assert(state.sources@.contains_key(k));
    }
    assert forall|id: ClientSessionId| #[trigger] state.sessions().contains_key(id) implies
        state.sessions()[id].id == id && state.sessions()[id].stitching_consumer.id == id by {
        assert(state.client_sessions@.contains_key(id));
    }
    assert forall|id: ClientSessionId| #[trigger] state.publishers().contains_key(id) implies
        state.publishers()[id].id == id by {
        assert(state.wsc_publishers@.contains_key(id));
    }
    assert forall|a: Seq<char>, b: Seq<char>| #[trigger]
        state.streams().contains_key(a) && #[trigger] state.streams().contains_key(b) && a
            != b implies !share_url(
        state.streams()[a].source.config.rtsp_inputs@,
        state.streams()[b].source.config.rtsp_inputs@,
    ) by {
        assert(state.sources@.contains_key(a) && state.sources@.contains_key(b));
    }
}

/// A list that holds each key once is as long as there are keys.
proof fn lemma_names_counted(names: Seq<String>, keys: Set<Seq<char>>)
    requires
        lists_names(names, keys),
    ensures
        keys.len() == names.len(),
{
    let texts = Seq::new(names.len(), |i: int| names[i]@);
    assert(texts.no_duplicates()) by {
        assert forall|i: int, j: int| 0 <= i < j < texts.len() implies texts[i] != texts[j] by {
            assert(names[i]@ != names[j]@);
        }
    }
    texts.unique_seq_to_set();
    assert(texts.to_set() =~= keys) by {
        assert forall|k: Seq<char>| texts.to_set().contains(k) <==> keys.contains(k) by {
            if keys.contains(k) {
                let i = choose|i: int| 0 <= i < names.len() && (#[trigger] names[i])@ == k;
                assert(texts[i] == k);
            }
            if texts.to_set().contains(k) {
                let i = choose|i: int| 0 <= i < texts.len() && texts[i] == k;
                assert(keys.contains(names[i]@));
            }
        }
    }
}

/// A stream is not refused whose name no stream has, whose addresses no stream
/// has, and whose addresses are all addresses of cameras, one at least.
pub proof fn lemma_new_stream_not_refused(
    state: GlobalState,
    config: StreamConfig,
    error: CreateStreamError,
)
    requires
        !state.streams().contains_key(config.source_id@),
        forall|k: Seq<char>, i: int, j: int|
            #![trigger state.streams()[k].source.config.rtsp_inputs@[i], config.rtsp_inputs@[j]]
            state.streams().contains_key(k) && 0 <= i
                < state.streams()[k].source.config.rtsp_inputs@.len() && 0 <= j
                < config.rtsp_inputs@.len() ==> state.streams()[k].source.config.rtsp_inputs@[i].url@
                != config.rtsp_inputs@[j].url@,
        config.rtsp_inputs@.len() > 0,
        forall|j: int|
            0 <= j < config.rtsp_inputs@.len() ==> valid_address(
                (#[trigger] config.rtsp_inputs@[j]).url@,
            ),
    ensures
        !state.refuses(config, error),
{
    if state.refuses(config, error) {
        if let CreateStreamError::InvalidUrl(fault) = error {
            lemma_inputs_decided(config.rtsp_inputs@, fault);
        }
    }
}

/// The first thing that is wrong with a stream is what it is refused for: its
/// name, then an address that another stream has, then one that is none of a
/// camera.
pub proof fn lemma_refusal_by_first_fault(
    state: GlobalState,
    config: StreamConfig,
    error: CreateStreamError,
)
    requires
        state.refuses(config, error),
    ensures
        error is AlreadyExists <==> state.streams().contains_key(config.source_id@),
        error matches CreateStreamError::UrlTaken { url, source_id } ==> (exists|j: int|
            0 <= j < config.rtsp_inputs@.len() && (#[trigger] config.rtsp_inputs@[j]).url@ == url@)
            && (exists|i: int|
            0 <= i < state.streams()[source_id@].source.config.rtsp_inputs@.len() && (
            #[trigger] state.streams()[source_id@].source.config.rtsp_inputs@[i]).url@ == url@),
        error is InvalidUrl ==> config.rtsp_inputs@.len() == 0 || exists|j: int|
            0 <= j < config.rtsp_inputs@.len() && !valid_address(
                (#[trigger] config.rtsp_inputs@[j]).url@,
            ),
{
    if let CreateStreamError::UrlTaken { url, source_id } = error {
        let taken = state.streams()[source_id@].source.config.rtsp_inputs@;
        let (i, j) = choose|i: int, j: int|
            0 <= i < taken.len() && 0 <= j < config.rtsp_inputs@.len() && (#[trigger] taken[i]).url@
                == (#[trigger] config.rtsp_inputs@[j]).url@ && taken[i].url@ == url@;
        assert(config.rtsp_inputs@[j].url@ == url@);
        assert(state.streams()[source_id@].source.config.rtsp_inputs@[i].url@ == url@);
    }
    if let CreateStreamError::InvalidUrl(fault) = error {
        lemma_inputs_decided(config.rtsp_inputs@, fault);
    }
}

/// Opening a session touches the session and its stream only: it is there, live
/// and served last by its stream; all other sessions and streams are as before.
pub proof fn lemma_opening_is_local(
    before: GlobalState,
    after: GlobalState,
    name: Seq<char>,
    id: ClientSessionId,
)
    requires
        before.opened(after, name, id),
    ensures
        after.sessions().contains_key(id),
        after.sessions()[id].state is Live,
        after.sessions()[id].source_id@ == name,
        !before.streams()[name].rtp_packetizer.consumers@.contains(id)
            ==> after.streams()[name].rtp_packetizer.consumers@
            == before.streams()[name].rtp_packetizer.consumers@.push(id),
        forall|other: ClientSessionId|
            other != id ==> (#[trigger] after.sessions().contains_key(other)
                <==> before.sessions().contains_key(other)) && after.sessions()[other]
                == before.sessions()[other],
        forall|k: Seq<char>|
            k != name ==> (#[trigger] after.streams().contains_key(k)
                <==> before.streams().contains_key(k)) && after.streams()[k] == before.streams()[k],
        after.streams().contains_key(name),
{
}

/// Dropping a session touches the session and its stream only.
pub proof fn lemma_dropping_is_local(before: GlobalState, after: GlobalState, id: ClientSessionId)
    requires
        before.dropped(after, id),
    ensures
        !after.sessions().contains_key(id),
        forall|other: ClientSessionId|
            other != id ==> (#[trigger] after.sessions().contains_key(other)
                <==> before.sessions().contains_key(other)) && (before.sessions().contains_key(
                other,
            ) ==> after.sessions()[other] == before.sessions()[other]),
        forall|k: Seq<char>|
            #[trigger] after.streams().contains_key(k) <==> before.streams().contains_key(k),
        forall|k: Seq<char>|
            #![trigger after.streams()[k]]
            k != before.sessions()[id].source_id@ && before.streams().contains_key(k)
                ==> after.streams()[k] == before.streams()[k],
{
}

/// A seek within a recording finds the point in time: the start of the recording
/// and the offset that is sought make it up. The session goes on in the
/// recording as it is.
pub proof fn lemma_seek_within_recording(
    before: GlobalState,
    after: GlobalState,
    id: ClientSessionId,
    timestamp: UnixTimestamp,
    recordings: Seq<RecordingMetadata>,
    r: Result<SeekAction, SessionError>,
)
    requires
        before.seeks(after, id, timestamp, recordings, r),
        before.sessions().contains_key(id),
        before.streams().contains_key(before.sessions()[id].source_id@),
        before.streams()[before.sessions()[id].source_id@].source.codec is Some,
        before.sessions()[id].state is Dvr,
    ensures
        after.sessions() == before.sessions() && after.streams() == before.streams(),
        r matches Ok(SeekAction::Seek { offset_ms }) && {
            let start = before.sessions()[id].state->Dvr_0.recording.start_time;
            &&& timestamp >= start ==> start + offset_ms == timestamp
            &&& timestamp < start ==> offset_ms == 0
        },
{
}

/// A live session that seeks plays a recording from then on that holds the point
/// in time, if there is one; its stream does not serve it any more. Without such
/// a recording it stays live.
pub proof fn lemma_seek_from_live(
    before: GlobalState,
    after: GlobalState,
    id: ClientSessionId,
    timestamp: UnixTimestamp,
    recordings: Seq<RecordingMetadata>,
    r: Result<SeekAction, SessionError>,
)
    requires
        before.seeks(after, id, timestamp, recordings, r),
        before.sessions().contains_key(id),
        before.streams().contains_key(before.sessions()[id].source_id@),
        before.streams()[before.sessions()[id].source_id@].source.codec is Some,
        before.sessions()[id].state is Live,
    ensures
        r is Ok <==> exists|j: int|
            0 <= j < recordings.len() && (#[trigger] recordings[j]).start_time <= timestamp && (
            recordings[j].end_time matches Some(end) ==> timestamp <= end),
        r is Ok ==> r == Ok::<_, SessionError>(SeekAction::Play) && (
        after.sessions()[id].state matches ClientSessionState::Dvr(player) && {
            &&& player.recording.start_time <= timestamp
            &&& player.recording.end_time matches Some(end) ==> timestamp <= end
            &&& player.initial_time == timestamp
            &&& player.speed == 0x3FF0_0000_0000_0000
            &&& recordings.contains(player.recording)
        }),
        r is Err ==> r == Err::<SeekAction, _>(SessionError::NoRecording) && after.sessions()
            == before.sessions() && after.streams() == before.streams(),
        forall|other: ClientSessionId|
            other != id && before.sessions().contains_key(other) ==> #[trigger] after.sessions()[other]
                == before.sessions()[other],
{
    let holds = |rec: RecordingMetadata| rec.holds(timestamp);
    if none_with(recordings, holds) {
        assert forall|j: int| 0 <= j < recordings.len() implies !(((
        #[trigger] recordings[j]).start_time <= timestamp) && (
        recordings[j].end_time matches Some(end) ==> timestamp <= end)) by {
            assert(!holds(recordings[j]));
        }
    } else {
        let j = choose|j: int| 0 <= j < recordings.len() && holds(#[trigger] recordings[j]);
        assert(recordings[j].holds(timestamp));
        let player = after.sessions()[id].state->Dvr_0;
        let i = choose|i: int|
            #[trigger] first_with(recordings, i, holds) && recordings[i] == player.recording;
        assert(holds(recordings[i]));
        assert(recordings.contains(player.recording));
    }
}

/// What a seek is refused for, in this order: the session is not there, its
/// stream is not, or the stream's codec is not known.
pub proof fn lemma_seek_refusals(
    before: GlobalState,
    after: GlobalState,
    id: ClientSessionId,
    timestamp: UnixTimestamp,
    recordings: Seq<RecordingMetadata>,
    r: Result<SeekAction, SessionError>,
)
    requires
        before.seeks(after, id, timestamp, recordings, r),
    ensures
        r == Err::<SeekAction, _>(SessionError::SessionNotFound) <==> !before.sessions().contains_key(
            id,
        ),
        r == Err::<SeekAction, _>(SessionError::SourceNotFound) <==> before.sessions().contains_key(
            id,
        ) && !before.streams().contains_key(before.sessions()[id].source_id@),
        r == Err::<SeekAction, _>(SessionError::NoCodec) <==> before.sessions().contains_key(id)
            && before.streams().contains_key(before.sessions()[id].source_id@)
            && before.streams()[before.sessions()[id].source_id@].source.codec is None,
        after.publishers() == before.publishers(),
        after.webrtc_sessions() == before.webrtc_sessions(),
{
}

/// A session that goes live is live then, whatever it showed, and nothing else
/// about it or about any other session changes; one that played a recording
/// hands its player back.
pub proof fn lemma_going_live(
    before: GlobalState,
    after: GlobalState,
    id: ClientSessionId,
    r: Result<Option<DvrPlayer>, SessionError>,
)
    requires
        before.goes_live(after, id, r),
    ensures
        r is Ok <==> before.sessions().contains_key(id),
        r matches Err(error) ==> error is SessionNotFound,
        r is Ok ==> {
            let then = after.sessions()[id];
            &&& then.state is Live
            &&& then.source_id == before.sessions()[id].source_id
            &&& then.live_serial == before.sessions()[id].live_serial
            &&& then.stitching_consumer == before.sessions()[id].stitching_consumer
            &&& before.sessions()[id].state matches ClientSessionState::Dvr(player) ==> r == Ok::<
                _,
                SessionError,
            >(Some(player))
            &&& before.sessions()[id].state is Live ==> r == Ok::<Option<DvrPlayer>, SessionError>(
                None,
            )
        },
        forall|other: ClientSessionId|
            other != id && before.sessions().contains_key(other) ==> #[trigger] after.sessions()[other]
                == before.sessions()[other],
{
}

/// The speed of a recording that is played is what was set; a live session has
/// none to set.
pub proof fn lemma_speed_is_set(
    before: GlobalState,
    after: GlobalState,
    id: ClientSessionId,
    speed: u64,
    r: Result<(), SessionError>,
)
    requires
        before.sets_speed(after, id, speed, r),
    ensures
        r is Ok <==> before.sessions().contains_key(id) && before.sessions()[id].state is Dvr,
        r == Err::<(), _>(SessionError::NotDvr) <==> before.sessions().contains_key(id)
            && before.sessions()[id].state is Live,
        r is Ok ==> (after.sessions()[id].state matches ClientSessionState::Dvr(player)
            && player.speed == speed && player.recording
            == before.sessions()[id].state->Dvr_0.recording && player.initial_time
            == before.sessions()[id].state->Dvr_0.initial_time),
        r is Err ==> after.sessions() == before.sessions(),
        forall|other: ClientSessionId|
            other != id && before.sessions().contains_key(other) ==> #[trigger] after.sessions()[other]
                == before.sessions()[other],
        after.streams() == before.streams(),
{
}

} // verus!
