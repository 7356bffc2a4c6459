//! Playing recordings.
use crate::api::models::UnixTimestamp;
use crate::arithmetic::{to_u32_wrapping, wrap_u32};
use crate::common::framing::{
    annex_b, annex_b_units, avcc_units, coded_stream, is_annex_b, lemma_coded_stream_read,
    lemma_length_stream_read, lemma_recognised_by_front, length_fits, length_stream, parse_annex_b,
    parse_avcc, well_formed_unit,
};
use crate::common::packetizer::{
    carried, ends_marked, payloads_of, units_have_room, RtpPacketizer,
};
use crate::common::rtp::RtpPacket;
use crate::common::VideoCodec;
use crate::domain::dvr::filesystem::{
    find_next_recording, first_with, none_with, FindNextRecRes, RecordingMetadata,
};
use crate::domain::VideoSourceId;
use crate::text::chars_of;
use vstd::prelude::*;
use vstd::string::*;

verus! {

/// Nanoseconds in a second.
pub const NANOSECONDS: u64 = 1_000_000_000;

/// Why a recording cannot be sought in.
#[derive(Debug, Clone)]
pub enum SeekError {
    SeekBeforeStart,
    SeekAfterEnd,
    /// The pipeline refused.
    GstError(String),
}

impl SeekError {
    /// The error in words.
    pub open spec fn said(self) -> Seq<char> {
        match self {
            SeekError::SeekBeforeStart => "seek before start"@,
            SeekError::SeekAfterEnd => "seek after end"@,
            SeekError::GstError(reason) => reason@,
        }
    }

    /// The error in words.
    pub fn message(&self) -> (r: String)
        ensures
            r@ == self.said(),
    {
        match self {
            SeekError::SeekBeforeStart => crate::text::text("seek before start"),
            SeekError::SeekAfterEnd => crate::text::text("seek after end"),
            SeekError::GstError(reason) => reason.clone(),
        }
    }
}

/// The pipeline element that parses a codec.
pub open spec fn parser_named(codec: VideoCodec) -> Seq<char> {
    match codec {
        VideoCodec::H264 => "h264parse"@,
        VideoCodec::H265 => "h265parse"@,
    }
}

/// The pipeline element that parses a codec.
pub fn parser_element(codec: &VideoCodec) -> (r: &'static str)
    ensures
        r@ == parser_named(*codec),
{
    match codec {
        VideoCodec::H264 => "h264parse",
        VideoCodec::H265 => "h265parse",
    }
}

/// The media type of a codec in a pipeline.
pub open spec fn media_type_named(codec: VideoCodec) -> Seq<char> {
    match codec {
        VideoCodec::H264 => "video/x-h264"@,
        VideoCodec::H265 => "video/x-h265"@,
    }
}

/// The media type of a codec in a pipeline.
pub fn media_type(codec: &VideoCodec) -> (r: &'static str)
    ensures
        r@ == media_type_named(*codec),
{
    match codec {
        VideoCodec::H264 => "video/x-h264",
        VideoCodec::H265 => "video/x-h265",
    }
}

/// The format that a recording is played in: Annex B, frame by frame.
pub fn byte_stream_caps(codec: &VideoCodec) -> (r: String)
    ensures
        r@ == media_type_named(*codec) + ",stream-format=byte-stream,alignment=au"@,
{
    let mut caps = String::new();
    caps.append(media_type(codec));
    caps.append(",stream-format=byte-stream,alignment=au");
    assert(caps@ =~= media_type_named(*codec) + ",stream-format=byte-stream,alignment=au"@);
    caps
}

/// A pad of the demuxer carries video as far as can be told.
pub open spec fn may_be_video(media_type: Option<Seq<char>>) -> bool {
    match media_type {
        Some(name) => "video/"@.is_prefix_of(name),
        None => true,
    }
}

/// Decides whether a pad of the demuxer is to be linked: the first that may
/// be video is.
pub fn links_pad(is_linked: bool, media_type: Option<&str>) -> (r: bool)
    ensures
        r == (!is_linked && may_be_video(
            match media_type {
                Some(name) => Some(name@),
                None => None,
            },
        )),
{
    if is_linked {
        return false;
    }
    let name = match media_type {
        Some(name) => chars_of(name),
        None => return true,
    };
    proof {
        reveal_strlit("video/");
    }
    if name.len() < 6 {
        return false;
    }
    let r = name[0] == 'v' && name[1] == 'i' && name[2] == 'd' && name[3] == 'e' && name[4] == 'o'
        && name[5] == '/';
    proof {
        let head = name@.subrange(0, 6);
        assert(head[0] == name@[0] && head[1] == name@[1] && head[2] == name@[2] && head[3]
            == name@[3] && head[4] == name@[4] && head[5] == name@[5]);
        assert(r <==> head =~= "video/"@);
    }
    r
}

/// The RTP timestamp of a sample: its time in ticks of 90 kHz, rounded down,
/// modulo 2^32; zero without a time.
pub open spec fn sample_timestamp(pts_ns: Option<u64>) -> int {
    match pts_ns {
        Some(pts) => wrap_u32(pts * 90000 / 1_000_000_000),
        None => 0,
    }
}

/// The RTP timestamp of a sample.
pub fn rtp_timestamp_of(pts_ns: Option<u64>) -> (r: u32)
    ensures
        r == sample_timestamp(pts_ns),
{
    match pts_ns {
        Some(pts) => {
            let ticks: u128 = pts as u128 * 90000 / NANOSECONDS as u128;
            to_u32_wrapping(ticks as i128)
        },
        None => 0,
    }
}

/// The units of a sample: Annex B, else with four-byte lengths.
pub open spec fn sample_units(data: Seq<u8>) -> Seq<Seq<u8>> {
    if annex_b(data) {
        annex_b_units(data)
    } else {
        avcc_units(data, 4)
    }
}

/// The packets of a sample.
pub fn packetize_sample(
    packetizer: &mut RtpPacketizer,
    raw_data: &[u8],
    pts_ns: Option<u64>,
    codec: &VideoCodec,
) -> (r: Vec<RtpPacket>)
    requires
        units_have_room(sample_units(raw_data@), *codec, old(packetizer).mtu as int),
    ensures
        carried(
            r@,
            *old(packetizer),
            payloads_of(sample_units(raw_data@), *codec, old(packetizer).mtu as int),
            sample_timestamp(pts_ns) as u32,
            ends_marked(sample_units(raw_data@), *codec, old(packetizer).mtu as int),
        ),
        *final(packetizer) == old(packetizer).advanced(r@.len() as int),
{
    let timestamp: u32 = rtp_timestamp_of(pts_ns);
    let nal_units = if is_annex_b(raw_data) {
        parse_annex_b(raw_data)
    } else {
        parse_avcc(raw_data, &4)
    };
    packetizer.packetize(nal_units.as_slice(), timestamp, codec)
}

/// How far into a recording a point in time lies, in milliseconds; zero
/// before its start.
pub open spec fn offset_into(recording: RecordingMetadata, timestamp: UnixTimestamp) -> int {
    if timestamp >= recording.start_time {
        timestamp - recording.start_time
    } else {
        0
    }
}

/// Nanoseconds in a millisecond.
pub const NANOSECONDS_PER_MS: u64 = 1_000_000;

/// How long a pipeline has been running, in whole milliseconds, by its clock
/// and the time at which it started, in nanoseconds.
pub open spec fn running_ms(clock: Option<(u64, u64)>) -> int {
    match clock {
        Some((now, base)) => if now > base {
            (now - base) / NANOSECONDS_PER_MS as int
        } else {
            0
        },
        None => 0,
    }
}

/// The bits of the floating-point number 1, the speed of a recording itself.
pub const NORMAL_SPEED: u64 = 0x3FF0_0000_0000_0000;

/// Plays one recording to one session.
#[derive(Debug)]
pub struct DvrPlayer {
    pub source_id: VideoSourceId,
    pub codec: VideoCodec,
    pub recording: RecordingMetadata,
    pub initial_time: UnixTimestamp,
    /// The bits of the floating-point number that is the speed.
    pub speed: u64,
}

/// There is no recording to play.
#[derive(Debug)]
pub struct NoRecording {
    pub source_id: VideoSourceId,
}

impl NoRecording {
    /// The error in words.
    pub fn message(&self) -> (r: String)
        ensures
            r@ == "No recording found for source ID "@ + self.source_id@,
    {
        let mut out = crate::text::text("No recording found for source ID ");
        out.append(self.source_id.as_str());
        out
    }
}

impl DvrPlayer {
    /// The recording holds the time that playing begins at.
    pub open spec fn valid(self) -> bool {
        self.recording.holds(self.initial_time)
    }

    /// The recording to play: only one that holds the point in time will do.
    fn resolve_new_state(source_id: &VideoSourceId, res: FindNextRecRes) -> (r: Result<
        RecordingMetadata,
        NoRecording,
    >)
        ensures
            match (res, r) {
                (Some((recording, None)), Ok(found)) => found == recording,
                (Some((_, None)), Err(_)) => false,
                (_, Err(error)) => error.source_id == *source_id,
                (_, Ok(_)) => false,
            },
    {
        match res {
            Some((recording, None)) => Ok(recording),
            _ => Err(NoRecording { source_id: source_id.clone() }),
        }
    }

    /// A player of the first of a stream's recordings that holds a point in
    /// time.
    pub fn new(
        source_id: VideoSourceId,
        initial_start_time: UnixTimestamp,
        codec: VideoCodec,
        recordings: &[RecordingMetadata],
    ) -> (r: Result<Self, NoRecording>)
        ensures
            ({
                let holds = |rec: RecordingMetadata| rec.holds(initial_start_time);
                match r {
                    Ok(player) => {
                        &&& player.valid()
                        &&& player.source_id == source_id
                        &&& player.codec == codec
                        &&& player.initial_time == initial_start_time
                        &&& player.speed == NORMAL_SPEED
                        &&& exists|i: int|
                            #[trigger] first_with(recordings@, i, holds) && recordings@[i]
                                == player.recording
                    },
                    Err(error) => none_with(recordings@, holds) && error.source_id == source_id,
                }
            }),
    {
        let res = find_next_recording(recordings, initial_start_time);
        match DvrPlayer::resolve_new_state(&source_id, res) {
            Ok(recording) => Ok(
                DvrPlayer {
                    source_id,
                    codec,
                    recording,
                    initial_time: initial_start_time,
                    speed: NORMAL_SPEED,
                },
            ),
            Err(error) => Err(error),
        }
    }

    /// The speed, by its bits.
    pub fn speed(&self) -> (r: u64)
        ensures
            r == self.speed,
    {
        self.speed
    }

    /// Changes the speed, which is given by its bits.
    pub fn set_speed(&mut self, speed: u64)
        ensures
            *final(self) == (DvrPlayer { speed, ..*old(self) }),
    {
        self.speed = speed;
    }

    /// Where in the recording playing begins, in milliseconds; nowhere if the
    /// recording begins later.
    pub fn play_offset_ms(&self) -> (r: Option<u64>)
        ensures
            match r {
                Some(ms) => self.initial_time >= self.recording.start_time && ms == offset_into(
                    self.recording,
                    self.initial_time,
                ),
                None => self.initial_time < self.recording.start_time,
            },
            self.valid() ==> r is Some,
    {
        if self.initial_time >= self.recording.start_time {
            Some(self.seek_offset_ms(self.initial_time))
        } else {
            None
        }
    }

    /// Where in the recording a point in time lies, in milliseconds.
    pub fn seek_offset_ms(&self, timestamp: UnixTimestamp) -> (r: u64)
        ensures
            r == offset_into(self.recording, timestamp),
    {
        if timestamp >= self.recording.start_time {
            timestamp - self.recording.start_time
        } else {
            0
        }
    }

    /// The point in time that is being played, by the pipeline's clock and
    /// the time at which it started, in nanoseconds.
    pub fn current_timestamp(&self, clock: Option<(u64, u64)>) -> (r: UnixTimestamp)
        requires
            self.recording.start_time + running_ms(clock) <= u64::MAX,
        ensures
            r == self.recording.start_time + running_ms(clock),
    {
        match clock {
            Some((now, base)) => {
                let running_time: u64 = if now > base {
                    (now - base) / NANOSECONDS_PER_MS
                } else {
                    0
                };
                self.recording.start_time + running_time
            },
            None => self.recording.start_time,
        }
    }

    pub fn recording_metadata(&self) -> (r: RecordingMetadata)
        ensures
            r == self.recording,
    {
        self.recording.copied()
    }
}

/// The states of a pipeline.
#[derive(Debug, Clone, Copy, PartialEq, Eq, Structural)]
pub enum PipelineState {
    Null,
    Ready,
    Paused,
    Playing,
}

/// A step of shutting a pipeline down.
#[derive(Debug, Clone, Copy, PartialEq, Eq, Structural)]
pub enum StopStep {
    PostEndOfStream,
    SetPaused,
    /// Give the change a moment.
    Settle,
    SetNull,
}

/// The steps that shut a pipeline down: a running one is drained first.
pub open spec fn stop_sequence(state: PipelineState, has_bus: bool) -> Seq<StopStep> {
    if state is Null {
        seq![]
    } else if has_bus && (state is Playing || state is Paused) {
        seq![StopStep::PostEndOfStream, StopStep::SetPaused, StopStep::Settle, StopStep::SetNull]
    } else {
        seq![StopStep::SetNull]
    }
}

/// The steps that shut a pipeline down.
pub fn stop_steps(state: PipelineState, has_bus: bool) -> (r: Vec<StopStep>)
    ensures
        r@ == stop_sequence(state, has_bus),
{
    let mut steps: Vec<StopStep> = Vec::new();
    if state == PipelineState::Null {
        return steps;
    }
    if has_bus && (state == PipelineState::Playing || state == PipelineState::Paused) {
        steps.push(StopStep::PostEndOfStream);
        steps.push(StopStep::SetPaused);
        steps.push(StopStep::Settle);
    }
    steps.push(StopStep::SetNull);
    assert(steps@ =~= stop_sequence(state, has_bus));
    steps
}

/// What a pipeline says.
#[derive(Debug, Clone, Copy, PartialEq, Eq, Structural)]
pub enum PipelineMessage {
    StateChanged(PipelineState),
    EndOfStream,
    Error,
    Other,
    /// It says nothing more.
    Closed,
}

/// How waiting for a state goes on.
#[derive(Debug, Clone, Copy, PartialEq, Eq, Structural)]
pub enum StateWait {
    Wait,
    Reached,
    Failed,
}

/// Takes in what a pipeline says while it is waited for to reach a state.
pub fn await_state(target: PipelineState, message: PipelineMessage) -> (r: StateWait)
    ensures
        r == (match message {
            PipelineMessage::StateChanged(current) => if current == target {
                StateWait::Reached
            } else {
                StateWait::Wait
            },
            PipelineMessage::Other => StateWait::Wait,
            _ => StateWait::Failed,
        }),
{
    match message {
        PipelineMessage::StateChanged(current) => if current == target {
            StateWait::Reached
        } else {
            StateWait::Wait
        },
        PipelineMessage::Other => StateWait::Wait,
        _ => StateWait::Failed,
    }
}

/// The position that is sought, counted from the start of the recording, is the
/// point in time that was asked for; before the start it is the start. A later
/// point in time lies further in.
pub proof fn lemma_seek_finds_the_time(
    recording: RecordingMetadata,
    timestamp: UnixTimestamp,
    later: UnixTimestamp,
)
    ensures
        timestamp >= recording.start_time ==> recording.start_time + offset_into(
            recording,
            timestamp,
        ) == timestamp,
        timestamp < recording.start_time ==> offset_into(recording, timestamp) == 0,
        recording.start_time <= timestamp < later ==> offset_into(recording, timestamp)
            < offset_into(recording, later),
{
}

/// The time that a pipeline has been running is the number of whole
/// milliseconds between the two times of its clock; none before it started, nor
/// without a clock.
pub proof fn lemma_running_time(now: u64, base: u64, ms: int)
    requires
        now >= base,
        ms * 1_000_000 <= now - base < (ms + 1) * 1_000_000,
    ensures
        running_ms(Some((now, base))) == ms,
        base < now ==> running_ms(Some((base, now))) == 0,
        running_ms(None) == 0,
{
}

/// A sample's RTP timestamp counts the whole ticks of 90 kHz up to its time,
/// modulo 2^32. A second is 90000 ticks.
pub proof fn lemma_sample_ticks(pts_ns: u64, ticks: int, second_later: u64)
    requires
        ticks * 1_000_000_000 <= pts_ns * 90000 < (ticks + 1) * 1_000_000_000,
        second_later == pts_ns + 1_000_000_000,
    ensures
        sample_timestamp(Some(pts_ns)) == ticks % 0x1_0000_0000,
        sample_timestamp(Some(second_later)) == (ticks + 90000) % 0x1_0000_0000,
        sample_timestamp(None) == 0,
{
}

/// A running pipeline is drained before it is shut down, and every pipeline that
/// is not shut down yet is shut down last of all.
pub proof fn lemma_shut_down_last(state: PipelineState, has_bus: bool)
    ensures
        ({
            let steps = stop_sequence(state, has_bus);
            &&& state is Null <==> steps.len() == 0
            &&& !(state is Null) ==> steps.last() is SetNull
            &&& steps.contains(StopStep::PostEndOfStream) <==> has_bus && (state is Playing
                || state is Paused)
            &&& steps.contains(StopStep::PostEndOfStream) ==> steps[0] is PostEndOfStream
                && steps[1] is SetPaused && steps[2] is Settle
        }),
{
    let steps = stop_sequence(state, has_bus);
    if has_bus && (state is Playing || state is Paused) {
        assert(steps[0] == StopStep::PostEndOfStream);
    }
}

/// A sample is read whichever way its units stand in it: behind start codes, or
/// behind lengths of four bytes that do not begin as a start code does.
pub proof fn lemma_sample_is_read(nals: Seq<Seq<u8>>, long: Seq<bool>)
    requires
        nals.len() == long.len(),
        nals.len() > 0,
    ensures
        (forall|i: int| 0 <= i < nals.len() ==> well_formed_unit(#[trigger] nals[i]))
            ==> sample_units(coded_stream(nals, long)) == nals,
        (forall|i: int| 0 <= i < nals.len() ==> (#[trigger] nals[i]).len() < 0x1_0000_0000)
            && nals[0].len() != 1 && !(0x100 <= nals[0].len() < 0x200) ==> sample_units(
            length_stream(nals, 4),
        ) == nals,
{
    if forall|i: int| 0 <= i < nals.len() ==> well_formed_unit(#[trigger] nals[i]) {
        lemma_coded_stream_read(nals, long);
    }
    if (forall|i: int| 0 <= i < nals.len() ==> (#[trigger] nals[i]).len() < 0x1_0000_0000)
        && nals[0].len() != 1 && !(0x100 <= nals[0].len() < 0x200) {
        let data = length_stream(nals, 4);
        let n = nals[0].len() as int;
        assert(n < 0x1_0000_0000);
        assert forall|i: int| 0 <= i < nals.len() implies length_fits(#[trigger] nals[i], 4) by {
            assert(nals[i].len() < 0x1_0000_0000);
        }
        lemma_length_stream_read(nals, 4, seq![]);
        assert(data + Seq::<u8>::empty() =~= data);
        assert(nals + avcc_units(seq![], 4) =~= nals) by {
            assert(avcc_units(seq![], 4).len() == 0);
        }
        lemma_recognised_by_front(data);
        assert(data[0] == (n / 0x100_0000) as u8);
        assert(data[1] == (n / 0x1_0000 % 256) as u8);
        assert(data[2] == (n / 256 % 256) as u8);
        assert(data[3] == (n % 256) as u8);
    }
}

/// The pad that is linked is the first whose media type begins with `video/`, or
/// that has none.
pub proof fn lemma_video_by_its_type(name: Seq<char>)
    ensures
        may_be_video(None),
        may_be_video(Some(name)) <==> name.len() >= 6 && name.take(6) == seq![
            'v',
            'i',
            'd',
            'e',
            'o',
            '/',
        ],
{
    reveal_strlit("video/");
    assert("video/"@ =~= seq!['v', 'i', 'd', 'e', 'o', '/']);
    if name.len() >= 6 {
        assert(name.take(6) =~= name.subrange(0, 6));
    }
}

} // verus!
