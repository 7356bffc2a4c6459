//! One stream of the server.
use crate::api::models::{copy_inputs, UnixTimestamp};
use crate::common::packetizer::{
    opt_bytes, InitializeError, RtpPacketizer, DEFAULT_MTU, VIDEO_CLOCK_RATE,
};
use crate::common::rtp::RtpPacket;
use crate::common::FFmpegVideoMetadata;
use crate::domain::dvr::recorder::{DvrRecorder, RecordedBuffer};
use crate::domain::{ClientSessionId, StreamConfig, StreamInfo, StreamState};
use crate::publishers::sdp_text::VIDEO_PAYLOAD_TYPE;
use crate::sources::rtsp::timeline::{
    fits, FallbackChange, FallbackContext, LiveStreamState, PacketTimes, Timeline,
};
use crate::sources::rtsp::RtspClient;
use vstd::prelude::*;

verus! {

/// A stream: where it comes from, and what becomes of it.
#[derive(Debug)]
pub struct SourceWrapper {
    pub source: RtspClient,
    pub rtp_packetizer: RtpPacketizer,
    pub recorder: Option<DvrRecorder>,
    /// Tells streams apart that had the same name one after the other.
    pub serial: u64,
}

/// What becomes of a packet of a stream.
#[derive(Debug)]
pub struct StreamOutput {
    /// The RTP packets for the stream's consumers.
    pub packets: Vec<RtpPacket>,
    /// What is to be recorded.
    pub buffer: Option<RecordedBuffer>,
}

impl SourceWrapper {
    /// A stream that was just created.
    pub open spec fn fresh(self, config: StreamConfig, serial: u64) -> bool {
        &&& self.source.config == config
        &&& self.source.state == StreamState::Stopped
        &&& self.source.codec is None
        &&& !self.source.shutdown
        &&& self.source.timeline == (Timeline {
            fallback_is_running: false,
            last_dts: 0,
            last_duration: 0,
            ts_offset: 0,
            codec: None,
            live_timebase: None,
        })
        &&& self.rtp_packetizer.payload_type == VIDEO_PAYLOAD_TYPE
        &&& self.rtp_packetizer.mtu == DEFAULT_MTU
        &&& self.rtp_packetizer.clock_rate == VIDEO_CLOCK_RATE
        &&& self.rtp_packetizer.stream_metadata is None
        &&& self.rtp_packetizer.consumers@.len() == 0
        &&& match self.recorder {
            Some(recorder) => config.should_record && recorder.stream_id == config.source_id
                && recorder.recording is None,
            None => !config.should_record,
        }
        &&& self.serial == serial
    }

    /// The stream with its packetizer's consumers changed.
    pub open spec fn with_consumers(self, changed: SourceWrapper) -> bool {
        changed == (SourceWrapper {
            rtp_packetizer: RtpPacketizer {
                consumers: changed.rtp_packetizer.consumers,
                ..self.rtp_packetizer
            },
            ..self
        })
    }

    /// The stream with a consumer added.
    pub open spec fn adds_consumer(self, changed: SourceWrapper, id: ClientSessionId) -> bool {
        let before = self.rtp_packetizer.consumers@;
        &&& self.with_consumers(changed)
        &&& changed.rtp_packetizer.consumers@ == (if before.contains(id) {
            before
        } else {
            before.push(id)
        })
    }

    /// The stream with a consumer removed.
    pub open spec fn removes_consumer(self, changed: SourceWrapper, id: ClientSessionId) -> bool {
        let before = self.rtp_packetizer.consumers@;
        &&& self.with_consumers(changed)
        &&& changed.rtp_packetizer.consumers@ == (if before.contains(id) {
            before.remove(before.index_of_first(id)->0)
        } else {
            before
        })
    }

    /// When the recording of the stream began.
    pub open spec fn recording_start(self) -> Option<UnixTimestamp> {
        match self.recorder {
            Some(recorder) => match recorder.recording {
                Some(recording) => Some(recording.start_time),
                None => None,
            },
            None => None,
        }
    }

    /// What is known of the stream.
    pub open spec fn described_by(self, info: StreamInfo) -> bool {
        &&& info.source_id@ == self.source.config.source_id@
        &&& info.rtsp_inputs@ == self.source.config.rtsp_inputs@
        &&& info.state == self.source.state
        &&& info.should_record == self.source.config.should_record
        &&& info.restart_interval_secs == self.source.config.restart_interval_secs
        &&& info.recording_start_time == self.recording_start()
    }

    /// What is known of the stream.
    pub fn info(&self) -> (r: StreamInfo)
        ensures
            self.described_by(r),
    {
        let recording_start_time = match &self.recorder {
            Some(recorder) => recorder.start_time(),
            None => None,
        };
        StreamInfo {
            source_id: self.source.config.source_id.clone(),
            rtsp_inputs: copy_inputs(self.source.inputs()),
            state: self.source.state(),
            should_record: self.source.config.should_record,
            restart_interval_secs: self.source.config.restart_interval_secs,
            recording_start_time,
        }
    }

    /// What holds of a stream at all times.
    pub open spec fn valid(self) -> bool {
        &&& self.source.has_input()
        &&& self.rtp_packetizer.consumers_distinct()
        &&& self.rtp_packetizer.mtu == DEFAULT_MTU
        &&& self.rtp_packetizer.clock_rate == VIDEO_CLOCK_RATE
        &&& self.recorder matches Some(recorder) ==> recorder.valid()
    }

    /// The stream is not another one.
    pub open spec fn same_stream(self, after: SourceWrapper) -> bool {
        &&& after.source.config == self.source.config
        &&& after.serial == self.serial
        &&& after.rtp_packetizer.consumers == self.rtp_packetizer.consumers
    }

    /// Takes the metadata of the camera's stream in. Where it is the first,
    /// the packetizer learns the stream, with the result that is returned, and
    /// a recording begins, if the stream is recorded.
    pub fn on_metadata(&mut self, metadata: &FFmpegVideoMetadata, start_time: UnixTimestamp) -> (r:
        Option<Result<(), InitializeError>>)
        requires
            old(self).valid(),
        ensures
            final(self).valid(),
            old(self).same_stream(*final(self)),
            match r {
                None => old(self).source.timeline.codec is Some && *final(self) == *old(self),
                Some(learned) => {
                    &&& old(self).source.timeline.codec is None
                    &&& final(self).source == (RtspClient {
                        state: StreamState::Running,
                        codec: Some(metadata.codec),
                        timeline: Timeline {
                            codec: Some(metadata.codec),
                            live_timebase: Some(metadata.timebase),
                            ..old(self).source.timeline
                        },
                        ..old(self).source
                    })
                    &&& old(self).rtp_packetizer.learns(
                        final(self).rtp_packetizer,
                        *metadata,
                        learned,
                    )
                    &&& match old(self).recorder {
                        Some(recorder) => final(self).recorder matches Some(after)
                            && recorder.begins(after, *metadata, start_time),
                        None => final(self).recorder is None,
                    }
                },
            },
    {
        if !self.source.on_metadata(metadata) {
            return None;
        }
        let learned = self.rtp_packetizer.initialize(metadata);
        if let Some(recorder) = self.recorder.as_mut() {
            recorder.initialize(metadata, start_time);
        }
        Some(learned)
    }

    /// Takes the camera's state in and says what to do about the placeholder.
    pub fn on_live_state(&mut self, state: LiveStreamState) -> (r: FallbackChange)
        requires
            old(self).valid(),
            old(self).source.timeline.starts_fallback(state) ==> fits(
                old(self).source.timeline.next_dts(),
            ),
        ensures
            final(self).valid(),
            old(self).same_stream(*final(self)),
            *final(self) == (SourceWrapper {
                source: RtspClient {
                    timeline: Timeline {
                        fallback_is_running: state == LiveStreamState::Offline && (old(
                            self,
                        ).source.timeline.fallback_is_running || old(
                            self,
                        ).source.timeline.starts_fallback(state)),
                        ..old(self).source.timeline
                    },
                    ..old(self).source
                },
                ..*old(self)
            }),
            r == (match state {
                LiveStreamState::Online => FallbackChange::Stop,
                LiveStreamState::Offline => if old(self).source.timeline.starts_fallback(state) {
                    FallbackChange::Start(
                        FallbackContext {
                            codec: old(self).source.timeline.codec->0,
                            live_timebase: old(self).source.timeline.live_timebase->0,
                            ts_offset: old(self).source.timeline.next_dts() as i64,
                        },
                    )
                } else {
                    FallbackChange::Keep
                },
            }),
    {
        self.source.timeline.on_live_state(state)
    }

    /// The times of a packet can be rewritten, and what results can be
    /// packetized and recorded.
    pub open spec fn can_take(self, times: PacketTimes, data: Option<Seq<u8>>) -> bool {
        let timeline = self.source.timeline;
        &&& timeline.can_take(times)
        &&& self.rtp_packetizer.can_take(
            Some(timeline.output_pts(times) as i64),
            Some(timeline.output_dts(times) as i64),
            data,
        )
        &&& self.recorder matches Some(recorder) ==> (recorder.recording matches Some(state)
            ==> state.timebase.den != 0)
    }

    /// Checks that a packet with these times can be taken in, whatever its
    /// data.
    pub fn accepts(&self, times: PacketTimes) -> (r: bool)
        requires
            self.valid(),
        ensures
            forall|data: Option<Seq<u8>>| #[trigger] self.can_take(times, data) == r,
    {
        if !self.source.timeline.accepts(times) {
            return false;
        }
        let mut timeline = self.source.timeline;
        let rewritten = timeline.on_packet(times);
        if !self.rtp_packetizer.accepts(Some(rewritten.pts), Some(rewritten.dts)) {
            return false;
        }
        match &self.recorder {
            Some(recorder) => match &recorder.recording {
                Some(state) => state.timebase.den != 0,
                None => true,
            },
            None => true,
        }
    }

    /// Takes a packet in, of the camera or of the placeholder: its times are
    /// rewritten; then it is packetized, and recorded if the stream is.
    pub fn on_packet(&mut self, times: PacketTimes, data: Option<&[u8]>, is_key: bool) -> (r:
        StreamOutput)
        requires
            old(self).valid(),
            old(self).can_take(times, opt_bytes(data)),
        ensures
            final(self).valid(),
            old(self).same_stream(*final(self)),
            ({
                let timeline = old(self).source.timeline;
                let dts = timeline.output_dts(times) as i64;
                let pts = timeline.output_pts(times) as i64;
                &&& final(self).source == (RtspClient {
                    timeline: Timeline {
                        last_dts: dts,
                        last_duration: times.duration,
                        ts_offset: timeline.offset_for(times.decode_time()) as i64,
                        ..timeline
                    },
                    ..old(self).source
                })
                &&& old(self).rtp_packetizer.takes(
                    final(self).rtp_packetizer,
                    Some(pts),
                    Some(dts),
                    opt_bytes(data),
                    r.packets@,
                )
                &&& match old(self).recorder {
                    Some(recorder) => final(self).recorder matches Some(after) && recorder.records(
                        after,
                        Some(pts),
                        Some(dts),
                        opt_bytes(data),
                        is_key,
                        r.buffer,
                    ),
                    None => final(self).recorder is None && r.buffer is None,
                }
            }),
    {
        let rewritten = self.source.timeline.on_packet(times);
        let (pts, dts) = (Some(rewritten.pts), Some(rewritten.dts));
        let packets = self.rtp_packetizer.on_new_packet(pts, dts, data);
        let buffer = match self.recorder.as_mut() {
            Some(recorder) => recorder.on_new_packet(pts, dts, data, is_key),
            None => None,
        };
        StreamOutput { packets, buffer }
    }

    /// The buffer that was to be recorded has been written.
    pub fn buffer_written(&mut self)
        requires
            old(self).valid(),
        ensures
            final(self).valid(),
            old(self).same_stream(*final(self)),
            *final(self) == (SourceWrapper { recorder: final(self).recorder, ..*old(self) }),
            match old(self).recorder {
                Some(recorder) => final(self).recorder matches Some(after) && after.stream_id
                    == recorder.stream_id && match recorder.recording {
                    Some(state) => {
                        &&& after.recording matches Some(then)
                        &&& then == (crate::domain::dvr::recorder::RecordingState {
                            waiting_for_keyframe: false,
                            header_buffer: then.header_buffer,
                            ..state
                        })
                        &&& state.waiting_for_keyframe ==> then.header_buffer@.len() == 0
                        &&& !state.waiting_for_keyframe ==> then.header_buffer
                            == state.header_buffer
                    },
                    None => after.recording is None,
                },
                None => final(self).recorder is None,
            },
    {
        if let Some(recorder) = self.recorder.as_mut() {
            recorder.buffer_written();
        }
    }
}

/// A stream that was just created has the payload type 96 and a clock of 90 kHz,
/// serves nobody, is not known yet, and records where that was asked for.
pub proof fn lemma_stream_starts_empty(stream: SourceWrapper, config: StreamConfig, serial: u64)
    requires
        stream.fresh(config, serial),
    ensures
        stream.source.config == config,
        stream.source.state is Stopped,
        stream.source.timeline.codec is None && stream.source.timeline.last_dts == 0
            && stream.source.timeline.ts_offset == 0 && !stream.source.timeline.fallback_is_running,
        stream.rtp_packetizer.payload_type == 96,
        stream.rtp_packetizer.clock_rate == 90000,
        stream.rtp_packetizer.mtu == 1428,
        !stream.rtp_packetizer.initialized(),
        stream.rtp_packetizer.consumers@ == Seq::<ClientSessionId>::empty(),
        stream.recorder is Some <==> config.should_record,
        stream.recording_start() is None,
{
}

/// Who joins a stream comes last and is listed once; the stream stays as it is
/// otherwise.
pub proof fn lemma_consumer_joins(before: SourceWrapper, after: SourceWrapper, id: ClientSessionId)
    requires
        before.adds_consumer(after, id),
    ensures
        before.rtp_packetizer.consumers@.contains(id) ==> after.rtp_packetizer.consumers@
            == before.rtp_packetizer.consumers@,
        !before.rtp_packetizer.consumers@.contains(id) ==> after.rtp_packetizer.consumers@
            == before.rtp_packetizer.consumers@ + seq![id],
        after.source == before.source,
        after.recorder == before.recorder,
        after.serial == before.serial,
        after.rtp_packetizer.sequence == before.rtp_packetizer.sequence,
        after.rtp_packetizer.stream_metadata == before.rtp_packetizer.stream_metadata,
{
    assert(before.rtp_packetizer.consumers@ + seq![id]
        =~= before.rtp_packetizer.consumers@.push(id));
}

/// Who leaves a stream is gone from its place, and those behind move up; the
/// stream stays as it is otherwise.
pub proof fn lemma_consumer_leaves(
    before: SourceWrapper,
    after: SourceWrapper,
    ahead: Seq<ClientSessionId>,
    id: ClientSessionId,
    behind: Seq<ClientSessionId>,
)
    requires
        before.removes_consumer(after, id),
        before.rtp_packetizer.consumers@ == ahead + seq![id] + behind,
        !ahead.contains(id),
    ensures
        after.rtp_packetizer.consumers@ == ahead + behind,
        after.source == before.source,
        after.recorder == before.recorder,
        after.serial == before.serial,
        after.rtp_packetizer.sequence == before.rtp_packetizer.sequence,
        after.rtp_packetizer.stream_metadata == before.rtp_packetizer.stream_metadata,
{
    let ids = before.rtp_packetizer.consumers@;
    let at = ahead.len() as int;
    assert(ids[at] == id);
    ids.index_of_first_ensures(id);
    let first = ids.index_of_first(id)->0;
    if first < at {
        assert(ahead[first] == id);
    }
    assert(ids.remove(at) =~= ahead + behind);
}

/// What is told of a stream is what it was created with and where it stands.
pub proof fn lemma_stream_described(stream: SourceWrapper, info: StreamInfo)
    requires
        stream.described_by(info),
    ensures
        info.source_id@ == stream.source.config.source_id@,
        info.rtsp_inputs@ == stream.source.config.rtsp_inputs@,
        info.state == stream.source.state,
        info.should_record == stream.source.config.should_record,
        info.restart_interval_secs == stream.source.config.restart_interval_secs,
        info.recording_start_time is Some <==> (stream.recorder matches Some(recorder)
            && recorder.recording is Some),
        info.recording_start_time matches Some(start) ==> stream.recorder->0.recording->0.start_time
            == start,
{
}

} // verus!
