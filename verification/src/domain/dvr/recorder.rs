//! What of a stream is written into a recording, and when.
use crate::api::models::UnixTimestamp;
use crate::common::extradata::{
    configures_decoder, extradata_of, lemma_parameter_sets_complete, parameter_sets,
    parse_extradata,
};
use crate::common::framing::{
    annex_b_stream, annex_b_units, build_annex_b, copy_range, detected_units, free_of_start_codes,
    lemma_annex_b_round_trip, lemma_streams_join, non_empty_units, parse_detected_units, views,
    FramingFormat,
};
use crate::common::nal_utils::is_parameter_set;
use crate::common::packetizer::opt_bytes;
use crate::common::{FFmpegVideoMetadata, TimeBase, VideoCodec};
use crate::domain::dvr::filesystem::{
    active_name, dir_for_digest, finished_name, generate_active_recording_filename,
    generate_finished_recording_filename, get_stream_dvr_dir, sha256,
};
use crate::domain::VideoSourceId;
use vstd::prelude::*;
use vstd::string::*;
use vstd::utf8::*;

verus! {

/// A number as 64 unsigned bits.
pub open spec fn unsigned(n: i32) -> int {
    if n >= 0 {
        n as int
    } else {
        n + 0x1_0000_0000_0000_0000
    }
}

fn to_unsigned(n: i32) -> (r: u64)
    ensures
        r == unsigned(n),
{
    if n >= 0 {
        n as u64
    } else {
        u64::MAX - ((-(n + 1)) as u64)
    }
}

/// A number, cut off at the largest that 64 bits hold.
pub open spec fn saturated(n: int) -> int {
    if n > u64::MAX {
        u64::MAX as int
    } else {
        n
    }
}

/// A timestamp in nanoseconds; a negative one counts as zero.
pub open spec fn nanoseconds(ts: i64, timebase: TimeBase) -> int {
    if ts >= 0 {
        saturated(saturated(ts * unsigned(timebase.num)) * 1_000_000_000) / unsigned(timebase.den)
    } else {
        0
    }
}

/// A product, cut off at the largest number that 64 bits hold.
fn multiply_saturating(a: u64, b: u64) -> (r: u64)
    ensures
        r == saturated(a * b),
{
    let product: u128 = {
        assert(0 <= a * b <= 0xffff_ffff_ffff_ffff * 0xffff_ffff_ffff_ffff) by (nonlinear_arith)
            requires
                a <= 0xffff_ffff_ffff_ffff,
                b <= 0xffff_ffff_ffff_ffff,
        ;
        a as u128 * b as u128
    };
    if product > u64::MAX as u128 {
        u64::MAX
    } else {
        product as u64
    }
}

/// A timestamp in nanoseconds.
pub fn to_nanoseconds(ts: i64, timebase: &TimeBase) -> (r: u64)
    requires
        timebase.den != 0,
    ensures
        r == nanoseconds(ts, *timebase),
{
    if ts < 0 {
        return 0;
    }
    let numerator: u64 = multiply_saturating(
        multiply_saturating(ts as u64, to_unsigned(timebase.num)),
        1_000_000_000,
    );
    numerator / to_unsigned(timebase.den)
}

/// Later timestamps never come out as earlier nanoseconds.
pub proof fn lemma_nanoseconds_in_order(a: i64, b: i64, timebase: TimeBase)
    requires
        a <= b,
        timebase.den != 0,
    ensures
        nanoseconds(a, timebase) <= nanoseconds(b, timebase),
{
    let n = unsigned(timebase.num);
    let d = unsigned(timebase.den);
    assert(0 <= a <= b ==> a * n <= b * n) by (nonlinear_arith)
        requires
            n >= 0,
    ;
    let x = saturated(saturated(a * n) * 1_000_000_000);
    let y = saturated(saturated(b * n) * 1_000_000_000);
    if a >= 0 {
        assert(x / d <= y / d) by (nonlinear_arith)
            requires
                x <= y,
                d > 0,
        ;
    } else if b >= 0 {
        assert(b * n >= 0) by (nonlinear_arith)
            requires
                b >= 0,
                n >= 0,
        ;
        assert(0 <= y / d) by (nonlinear_arith)
            requires
                0 <= y,
                d > 0,
        ;
    }
}

/// A piece of a recording.
#[derive(Debug)]
pub struct RecordedBuffer {
    /// Annex-B data.
    pub data: Vec<u8>,
    pub pts_ns: u64,
    pub dts_ns: u64,
    pub is_keyframe: bool,
    /// It is the first; the start of the stream is to be announced before it.
    pub starts_stream: bool,
}

/// The state of a recording.
#[derive(Debug)]
pub struct RecordingState {
    pub framing_format: FramingFormat,
    pub file_path: String,
    pub start_time: UnixTimestamp,
    pub codec: VideoCodec,
    /// Nothing has been written yet: a recording begins with a keyframe.
    pub waiting_for_keyframe: bool,
    /// The parameter sets that stand before the first keyframe.
    pub header_buffer: Vec<Vec<u8>>,
    pub stream_started: bool,
    pub timebase: TimeBase,
}

impl RecordingState {
    /// The buffer that units with these times make.
    pub open spec fn makes(
        self,
        buffer: RecordedBuffer,
        data: Seq<u8>,
        pts: i64,
        dts: i64,
        is_keyframe: bool,
        starts_stream: bool,
    ) -> bool {
        &&& buffer.data@ == data
        &&& buffer.pts_ns == nanoseconds(pts, self.timebase)
        &&& buffer.dts_ns == (if dts >= 0 {
            nanoseconds(dts, self.timebase)
        } else {
            nanoseconds(pts, self.timebase)
        })
        &&& buffer.is_keyframe == is_keyframe
        &&& buffer.starts_stream == starts_stream
    }

    /// Parse NAL units from packet data, auto-detecting the framing format.
    pub fn parse_nal_units(&self, data: &[u8]) -> (r: Vec<Vec<u8>>)
        ensures
            views(r@) == detected_units(data@, self.framing_format),
    {
        parse_detected_units(data, &self.framing_format)
    }

    /// The buffer of some data.
    fn buffer(
        &self,
        data: Vec<u8>,
        pts: i64,
        dts: i64,
        is_keyframe: bool,
        starts_stream: bool,
    ) -> (r: RecordedBuffer)
        requires
            self.timebase.den != 0,
        ensures
            self.makes(r, data@, pts, dts, is_keyframe, starts_stream),
    {
        let pts_ns: u64 = to_nanoseconds(pts, &self.timebase);
        let dts_ns: u64 = if dts >= 0 {
            to_nanoseconds(dts, &self.timebase)
        } else {
            pts_ns
        };
        RecordedBuffer { data, pts_ns, dts_ns, is_keyframe, starts_stream }
    }

    /// Keeps the parameter sets among some units for the first keyframe.
    fn buffer_headers(&mut self, nal_units: &[Vec<u8>])
        ensures
            *final(self) == (RecordingState {
                header_buffer: final(self).header_buffer,
                ..*old(self)
            }),
            views(final(self).header_buffer@) == views(old(self).header_buffer@) + parameter_sets(
                views(nal_units@),
                old(self).codec,
            ),
    {
        let ghost start = *self;
        let ghost units = views(nal_units@);
        let mut i: usize = 0;
        assert(units.take(0) =~= seq![]);
        assert(views(self.header_buffer@) =~= views(start.header_buffer@) + parameter_sets(
            units.take(0),
            self.codec,
        ));
        while i < nal_units.len()
            invariant
                i <= nal_units@.len(),
                units == views(nal_units@),
                *self == (RecordingState { header_buffer: self.header_buffer, ..start }),
                views(self.header_buffer@) == views(start.header_buffer@) + parameter_sets(
                    units.take(i as int),
                    start.codec,
                ),
            decreases nal_units@.len() - i,
        {
            let ghost before = self.header_buffer@;
            let nal = nal_units[i].as_slice();
            assert(units.take(i + 1).drop_last() =~= units.take(i as int));
            assert(units.take(i + 1).last() == nal@);
            if is_parameter_set(nal, &self.codec) {
                let copy = copy_range(nal, 0, nal.len());
                assert(copy@ =~= nal@);
                self.header_buffer.push(copy);
                assert(views(self.header_buffer@) =~= views(before).push(nal@));
                assert(views(self.header_buffer@) =~= views(start.header_buffer@) + parameter_sets(
                    units.take(i + 1),
                    start.codec,
                ));
            }
            i += 1;
        }
        assert(units.take(i as int) =~= units);
    }

    /// The parameter sets that are kept, once those of some units have been
    /// added.
    pub open spec fn headers_with(self, nal_units: Seq<Vec<u8>>) -> Seq<Seq<u8>> {
        views(self.header_buffer@) + parameter_sets(views(nal_units), self.codec)
    }

    /// Takes the units of a packet in and returns the buffer to write, if
    /// any. Until the first keyframe only parameter sets are kept; they stand
    /// before that keyframe.
    pub fn write_nal_data(
        &mut self,
        nal_units: &[Vec<u8>],
        pts: i64,
        dts: i64,
        is_key_frame: bool,
    ) -> (r: Option<RecordedBuffer>)
        requires
            old(self).timebase.den != 0,
        ensures
            nal_units@.len() == 0 ==> r is None && *final(self) == *old(self),
            nal_units@.len() > 0 && !old(self).waiting_for_keyframe ==> {
                &&& *final(self) == *old(self)
                &&& r matches Some(buffer)
                &&& old(self).makes(
                    buffer,
                    annex_b_stream(views(nal_units@)),
                    pts,
                    dts,
                    is_key_frame,
                    false,
                )
            },
            nal_units@.len() > 0 && old(self).waiting_for_keyframe ==> {
                &&& *final(self) == (RecordingState {
                    header_buffer: final(self).header_buffer,
                    stream_started: old(self).stream_started || is_key_frame,
                    ..*old(self)
                })
                &&& views(final(self).header_buffer@) == old(self).headers_with(nal_units@)
                &&& match r {
                    None => !is_key_frame,
                    Some(buffer) => is_key_frame && old(self).makes(
                        buffer,
                        annex_b_stream(old(self).headers_with(nal_units@)) + annex_b_stream(
                            views(nal_units@),
                        ),
                        pts,
                        dts,
                        true,
                        !old(self).stream_started,
                    ),
                }
            },
    {
        if nal_units.len() == 0 {
            return None;
        }
        if self.waiting_for_keyframe {
            self.buffer_headers(nal_units);
            if !is_key_frame {
                return None;
            }
            let starts_stream = !self.stream_started;
            self.stream_started = true;
            let mut combined = build_annex_b(self.header_buffer.as_slice());
            let packet = build_annex_b(nal_units);
            combined.extend_from_slice(packet.as_slice());
            assert(combined@ =~= annex_b_stream(old(self).headers_with(nal_units@))
                + annex_b_stream(views(nal_units@)));
            return Some(self.buffer(combined, pts, dts, true, starts_stream));
        }
        let packet = build_annex_b(nal_units);
        Some(self.buffer(packet, pts, dts, is_key_frame, false))
    }

    /// The buffer that was asked for has been written.
    pub fn buffer_written(&mut self)
        ensures
            *final(self) == (if old(self).waiting_for_keyframe {
                RecordingState {
                    waiting_for_keyframe: false,
                    header_buffer: final(self).header_buffer,
                    ..*old(self)
                }
            } else {
                *old(self)
            }),
            old(self).waiting_for_keyframe ==> final(self).header_buffer@.len() == 0,
    {
        if self.waiting_for_keyframe {
            self.waiting_for_keyframe = false;
            self.header_buffer = Vec::new();
        }
    }
}

/// How packets are framed, and which parameter sets stand first, by the
/// extradata: four-byte lengths and none, where it says nothing.
pub open spec fn set_up_by(
    framing_format: FramingFormat,
    headers: Seq<Seq<u8>>,
    codec: VideoCodec,
    extradata: Option<Seq<u8>>,
) -> bool {
    let known = match extradata {
        Some(data) => extradata_of(data, codec),
        None => None,
    };
    &&& framing_format is Avcc
    &&& framing_format->length_size == (match known {
        Some(e) => e.length_size,
        None => 4,
    })
    &&& headers == (match known {
        Some(e) => e.units,
        None => seq![],
    })
}

/// How packets are framed, and which parameter sets stand first.
fn recording_setup(codec: &VideoCodec, extradata: &Option<Vec<u8>>) -> (r: (
    FramingFormat,
    Vec<Vec<u8>>,
))
    ensures
        set_up_by(
            r.0,
            views(r.1@),
            *codec,
            match *extradata {
                Some(data) => Some(data@),
                None => None,
            },
        ),
{
    if let Some(data) = extradata {
        if let Some(parsed) = parse_extradata(data.as_slice(), codec) {
            return (parsed.framing_format, parsed.nals);
        }
    }
    let headers: Vec<Vec<u8>> = Vec::new();
    assert(views(headers@) =~= seq![]);
    (FramingFormat::Avcc { length_size: 4 }, headers)
}

/// The files of a recording that has ended: the name that it had, and the one
/// that it gets.
#[derive(Debug)]
pub struct FinishedRecording {
    pub old_path: String,
    pub new_path: String,
}

/// Records one stream, one recording at a time.
#[derive(Debug)]
pub struct DvrRecorder {
    pub stream_id: VideoSourceId,
    pub recording: Option<RecordingState>,
}

/// The path of a file in the directory of a stream's recordings.
pub open spec fn recording_path(stream_id: Seq<char>, name: Seq<char>) -> Seq<char> {
    dir_for_digest(sha256(encode_utf8(stream_id))) + "/"@ + name
}

/// The path of a file in the directory of a stream's recordings.
fn path_of(stream_id: &VideoSourceId, name: &str) -> (r: String)
    ensures
        r@ == recording_path(stream_id@, name@),
{
    let mut path = get_stream_dvr_dir(stream_id);
    path.append("/");
    path.append(name);
    path
}

impl DvrRecorder {
    /// The files of the recording carry its times.
    pub open spec fn valid(self) -> bool {
        self.recording matches Some(state) ==> state.file_path@ == recording_path(
            self.stream_id@,
            active_name(state.start_time),
        )
    }

    /// What beginning a recording does.
    pub open spec fn begins(
        self,
        after: DvrRecorder,
        metadata: FFmpegVideoMetadata,
        start_time: UnixTimestamp,
    ) -> bool {
        &&& after.stream_id == self.stream_id
        &&& after.recording matches Some(state)
        &&& state.file_path@ == recording_path(self.stream_id@, active_name(start_time))
        &&& state.start_time == start_time
        &&& state.codec == metadata.codec
        &&& state.timebase == metadata.timebase
        &&& state.waiting_for_keyframe
        &&& !state.stream_started
        &&& set_up_by(
            state.framing_format,
            views(state.header_buffer@),
            metadata.codec,
            match metadata.extradata {
                Some(data) => Some(data@),
                None => None,
            },
        )
    }

    /// What a packet does to the recorder, and the buffer that is to be
    /// written: none while nothing is recorded, none for a packet without
    /// units, and none before the first keyframe.
    pub open spec fn records(
        self,
        after: DvrRecorder,
        pts: Option<i64>,
        dts: Option<i64>,
        data: Option<Seq<u8>>,
        is_key: bool,
        r: Option<RecordedBuffer>,
    ) -> bool {
        match (self.recording, data) {
            (Some(state), Some(d)) => {
                let nals = detected_units(d, state.framing_format);
                let p = match pts {
                    Some(p) => p,
                    None => 0,
                };
                let t = match dts {
                    Some(t) => t,
                    None => p,
                };
                let headers = views(state.header_buffer@) + parameter_sets(nals, state.codec);
                &&& after.stream_id == self.stream_id
                &&& after.recording matches Some(then)
                &&& then == (RecordingState {
                    header_buffer: then.header_buffer,
                    stream_started: state.stream_started || nals.len() > 0
                        && state.waiting_for_keyframe && is_key,
                    ..state
                })
                &&& views(then.header_buffer@) == (if state.waiting_for_keyframe {
                    headers
                } else {
                    views(state.header_buffer@)
                })
                &&& match r {
                    None => nals.len() == 0 || state.waiting_for_keyframe && !is_key,
                    Some(buffer) => {
                        &&& nals.len() > 0
                        &&& is_key || !state.waiting_for_keyframe
                        &&& state.makes(
                            buffer,
                            if state.waiting_for_keyframe {
                                annex_b_stream(headers) + annex_b_stream(nals)
                            } else {
                                annex_b_stream(nals)
                            },
                            p,
                            t,
                            is_key,
                            state.waiting_for_keyframe && !state.stream_started,
                        )
                    },
                }
            },
            _ => r is None && after == self,
        }
    }

    pub fn new(stream_id: VideoSourceId) -> (r: Self)
        ensures
            r.stream_id == stream_id,
            r.recording is None,
            r.valid(),
    {
        DvrRecorder { stream_id, recording: None }
    }

    /// Begins a recording of a stream with this metadata. One that goes on is
    /// given up.
    pub fn initialize(&mut self, metadata: &FFmpegVideoMetadata, start_time: UnixTimestamp)
        ensures
            final(self).valid(),
            old(self).begins(*final(self), *metadata, start_time),
    {
        let (framing_format, header_buffer) = recording_setup(
            &metadata.codec,
            &metadata.extradata,
        );
        let name = generate_active_recording_filename(start_time);
        let file_path = path_of(&self.stream_id, name.as_str());
        self.recording = Some(
            RecordingState {
                framing_format,
                file_path,
                start_time,
                codec: metadata.codec,
                waiting_for_keyframe: true,
                header_buffer,
                stream_started: false,
                timebase: metadata.timebase,
            },
        );
    }

    /// Takes a packet in and returns the buffer to write, if any: none while
    /// nothing is recorded, and none for a packet without data.
    pub fn on_new_packet(
        &mut self,
        pts: Option<i64>,
        dts: Option<i64>,
        data: Option<&[u8]>,
        is_key: bool,
    ) -> (r: Option<RecordedBuffer>)
        requires
            old(self).recording matches Some(state) ==> state.timebase.den != 0,
        ensures
            old(self).valid() ==> final(self).valid(),
            old(self).records(*final(self), pts, dts, opt_bytes(data), is_key, r),
    {
        let data = match data {
            Some(data) => data,
            None => return None,
        };
        match self.recording.as_mut() {
            None => None,
            Some(state) => {
                let nal_units = state.parse_nal_units(data);
                let pts: i64 = pts.unwrap_or(0);
                let dts: i64 = dts.unwrap_or(pts);
                proof {
                    if nal_units@.len() == 0 {
                        let none = views(nal_units@);
                        assert(views(state.header_buffer@) + parameter_sets(none, state.codec)
                            =~= views(state.header_buffer@));
                    }
                }
                state.write_nal_data(nal_units.as_slice(), pts, dts, is_key)
            },
        }
    }

    /// The buffer that was asked for has been written.
    pub fn buffer_written(&mut self)
        ensures
            final(self).stream_id == old(self).stream_id,
            old(self).valid() ==> final(self).valid(),
            match old(self).recording {
                Some(state) => {
                    &&& final(self).recording matches Some(after)
                    &&& after == (RecordingState {
                        waiting_for_keyframe: false,
                        header_buffer: after.header_buffer,
                        ..state
                    })
                    &&& if state.waiting_for_keyframe {
                        after.header_buffer@.len() == 0
                    } else {
                        after.header_buffer == state.header_buffer
                    }
                },
                None => final(self).recording is None,
            },
    {
        if let Some(state) = self.recording.as_mut() {
            state.buffer_written();
        }
    }

    /// Ends the recording, if there is one, and says what its file is to be
    /// called.
    pub fn finalize_recording(&mut self, end_time: UnixTimestamp) -> (r: Option<FinishedRecording>)
        requires
            old(self).valid(),
        ensures
            final(self).stream_id == old(self).stream_id,
            final(self).recording is None,
            match r {
                Some(finished) => {
                    &&& old(self).recording matches Some(state)
                    &&& finished.old_path == state.file_path
                    &&& finished.new_path@ == recording_path(
                        old(self).stream_id@,
                        finished_name(state.start_time, end_time),
                    )
                },
                None => old(self).recording is None,
            },
    {
        match self.recording.take() {
            None => None,
            Some(state) => {
                let name = generate_finished_recording_filename(state.start_time, end_time);
                let new_path = path_of(&self.stream_id, name.as_str());
                Some(FinishedRecording { old_path: state.file_path, new_path })
            },
        }
    }

    /// The file of the recording that goes on.
    pub fn current_path(&self) -> (r: Option<String>)
        ensures
            r == (match self.recording {
                Some(state) => Some(state.file_path),
                None => None,
            }),
    {
        match &self.recording {
            Some(state) => Some(state.file_path.clone()),
            None => None,
        }
    }

    pub fn stream_id(&self) -> (r: &VideoSourceId)
        ensures
            *r == self.stream_id,
    {
        &self.stream_id
    }

    /// When the recording that goes on began.
    pub fn start_time(&self) -> (r: Option<UnixTimestamp>)
        ensures
            r == (match self.recording {
                Some(state) => Some(state.start_time),
                None => None,
            }),
    {
        match &self.recording {
            Some(state) => Some(state.start_time),
            None => None,
        }
    }
}

/// A time in nanoseconds is its whole number of nanoseconds, where that fits 64
/// bits on the way; a negative time is zero.
pub proof fn lemma_nanoseconds_of_time(ts: i64, timebase: TimeBase, ns: int)
    requires
        timebase.num > 0 && timebase.den > 0,
        0 <= ns,
        ts * timebase.num * 1_000_000_000 <= u64::MAX,
        ns * timebase.den <= ts * timebase.num * 1_000_000_000 < (ns + 1) * timebase.den,
    ensures
        nanoseconds(ts, timebase) == ns,
        forall|early: i64| early < 0 ==> #[trigger] nanoseconds(early, timebase) == 0,
{
    let d = timebase.den as int;
    let n = ts * timebase.num * 1_000_000_000;
    assert(n / d == ns && n >= 0) by (nonlinear_arith)
        requires
            d > 0,
            0 <= ns,
            ns * d <= n < (ns + 1) * d,
    ;
    if ts < 0 {
        assert(ts * timebase.num < 0) by (nonlinear_arith)
            requires
                ts < 0,
                timebase.num > 0,
        ;
    }
}

/// What is kept of a list is part of it.
proof fn lemma_kept_units_free(units: Seq<Seq<u8>>, codec: VideoCodec)
    requires
        forall|i: int| 0 <= i < units.len() ==> free_of_start_codes(#[trigger] units[i]),
    ensures
        forall|i: int|
            0 <= i < parameter_sets(units, codec).len() ==> free_of_start_codes(
                #[trigger] parameter_sets(units, codec)[i],
            ),
    decreases units.len(),
{
    if units.len() > 0 {
        let earlier = units.drop_last();
        assert forall|i: int| 0 <= i < earlier.len() implies free_of_start_codes(
            #[trigger] earlier[i],
        ) by {
            assert(earlier[i] == units[i]);
        }
        lemma_kept_units_free(earlier, codec);
        let before = parameter_sets(earlier, codec);
        let kept = parameter_sets(units, codec);
        assert forall|i: int| 0 <= i < kept.len() implies free_of_start_codes(
            #[trigger] kept[i],
        ) by {
            if i < before.len() {
                assert(kept[i] == before[i]);
                assert(free_of_start_codes(parameter_sets(earlier, codec)[i]));
            } else {
                assert(kept[i] == units[units.len() - 1]);
            }
        }
    }
}

/// The units that a recording holds after a packet. From the first keyframe on
/// every packet is recorded, unit by unit; before that keyframe stand the
/// parameter sets that were kept and those of the keyframe's own packet; what
/// came before it is not recorded, but its parameter sets are kept.
pub proof fn lemma_recording_reads_back(
    recorder: DvrRecorder,
    after: DvrRecorder,
    state: RecordingState,
    pts: Option<i64>,
    dts: Option<i64>,
    data: Seq<u8>,
    is_key: bool,
    r: Option<RecordedBuffer>,
)
    requires
        recorder.recording == Some(state),
        recorder.records(after, pts, dts, Some(data), is_key, r),
        detected_units(data, state.framing_format).len() > 0,
        forall|i: int|
            0 <= i < state.header_buffer@.len() ==> free_of_start_codes(
                #[trigger] views(state.header_buffer@)[i],
            ),
        forall|i: int|
            0 <= i < detected_units(data, state.framing_format).len() ==> free_of_start_codes(
                #[trigger] detected_units(data, state.framing_format)[i],
            ),
    ensures
        ({
            let nals = detected_units(data, state.framing_format);
            let kept = views(state.header_buffer@);
            let own = nals.filter(|nal: Seq<u8>| configures_decoder(nal, state.codec));
            &&& r is Some <==> is_key || !state.waiting_for_keyframe
            &&& !state.waiting_for_keyframe ==> annex_b_units(r->0.data@) == non_empty_units(nals)
            &&& state.waiting_for_keyframe && is_key ==> annex_b_units(r->0.data@)
                == non_empty_units(kept + own + nals)
            &&& state.waiting_for_keyframe ==> (after.recording matches Some(then) && views(
                then.header_buffer@,
            ) == kept + own)
            &&& r is Some ==> r->0.is_keyframe == is_key
            &&& r is Some ==> (r->0.starts_stream <==> state.waiting_for_keyframe
                && !state.stream_started)
            &&& after.recording matches Some(then) && (then.stream_started <==> state.stream_started
                || state.waiting_for_keyframe && is_key) && then.waiting_for_keyframe
                == state.waiting_for_keyframe
            &&& r is Some ==> r->0.pts_ns == nanoseconds(pts.unwrap_or(0), state.timebase)
            &&& r is Some && dts.unwrap_or(pts.unwrap_or(0)) >= 0 ==> r->0.dts_ns == nanoseconds(
                dts.unwrap_or(pts.unwrap_or(0)),
                state.timebase,
            )
            &&& r is Some && dts.unwrap_or(pts.unwrap_or(0)) < 0 ==> r->0.dts_ns == r->0.pts_ns
        }),
{
    let nals = detected_units(data, state.framing_format);
    let kept = views(state.header_buffer@);
    lemma_parameter_sets_complete(nals, state.codec);
    let own = parameter_sets(nals, state.codec);
    lemma_annex_b_round_trip(nals);
    lemma_kept_units_free(nals, state.codec);
    lemma_streams_join(kept + own, nals);
    let all = kept + own + nals;
    assert forall|i: int| 0 <= i < all.len() implies free_of_start_codes(#[trigger] all[i]) by {
        if i < kept.len() {
            assert(all[i] == kept[i]);
        } else if i < kept.len() + own.len() {
            assert(all[i] == own[i - kept.len()]);
        } else {
            assert(all[i] == nals[i - kept.len() - own.len()]);
        }
    }
    lemma_annex_b_round_trip(all);
}

/// A packet that holds no unit leaves a recording as it is.
pub proof fn lemma_nothing_to_record(
    recorder: DvrRecorder,
    after: DvrRecorder,
    pts: Option<i64>,
    dts: Option<i64>,
    data: Option<Seq<u8>>,
    is_key: bool,
    r: Option<RecordedBuffer>,
)
    requires
        recorder.records(after, pts, dts, data, is_key, r),
        recorder.recording is None || data is None,
    ensures
        r is None,
        after == recorder,
{
}

/// A recording begins with the parameter sets that the stream announces, waits
/// for its first keyframe, and is filed under the time at which it began.
pub proof fn lemma_recording_begins(
    recorder: DvrRecorder,
    after: DvrRecorder,
    metadata: FFmpegVideoMetadata,
    start_time: UnixTimestamp,
)
    requires
        recorder.begins(after, metadata, start_time),
    ensures
        ({
            let announced = match metadata.extradata {
                Some(data) => extradata_of(data@, metadata.codec),
                None => None,
            };
            &&& after.stream_id == recorder.stream_id
            &&& after.recording matches Some(state)
            &&& state.waiting_for_keyframe && !state.stream_started
            &&& state.start_time == start_time && state.codec == metadata.codec
                && state.timebase == metadata.timebase
            &&& announced matches Some(e) ==> views(state.header_buffer@) == e.units
                && state.framing_format is Avcc && state.framing_format->length_size
                == e.length_size
            &&& announced is None ==> views(state.header_buffer@).len() == 0
                && state.framing_format == (FramingFormat::Avcc { length_size: 4 })
            &&& state.file_path@ == recording_path(recorder.stream_id@, active_name(start_time))
        }),
{
}

/// A time that does not fit 64 bits on the way is cut off there.
pub proof fn lemma_late_times_cut_off(ts: i64, timebase: TimeBase)
    requires
        timebase.num > 0 && timebase.den > 0,
        ts * timebase.num * 1_000_000_000 > u64::MAX,
    ensures
        nanoseconds(ts, timebase) == u64::MAX as int / timebase.den as int,
{
    if ts < 0 {
        assert(ts * timebase.num < 0) by (nonlinear_arith)
            requires
                ts < 0,
                timebase.num > 0,
        ;
    }
}

} // verus!
