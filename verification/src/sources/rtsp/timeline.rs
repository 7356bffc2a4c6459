//! One timeline for a stream whose packets come from the camera or, while it
//! is offline, from a placeholder.
use crate::common::{TimeBase, VideoCodec};
use vstd::prelude::*;

verus! {

/// Whether the camera sends packets.
#[derive(Debug, Clone, Copy, PartialEq, Eq, Structural)]
pub enum LiveStreamState {
    Online,
    Offline,
}

/// Info needed by fallback pipeline to produce timestamp-compatible packets.
#[derive(Debug, Clone, Copy)]
pub struct FallbackContext {
    pub codec: VideoCodec,
    /// Timebase of the live stream (fallback must convert to this).
    pub live_timebase: TimeBase,
    /// Timestamp offset to apply (last_dts + last_duration from live stream).
    pub ts_offset: i64,
}

/// What to do about the placeholder.
#[derive(Debug, Clone, Copy)]
pub enum FallbackChange {
    /// Nothing.
    Keep,
    /// Stop playing it.
    Stop,
    /// Start playing it.
    Start(FallbackContext),
}

/// The times of a packet, as its source gives them.
#[derive(Debug, Clone, Copy, PartialEq, Eq, Structural)]
pub struct PacketTimes {
    pub dts: Option<i64>,
    pub pts: Option<i64>,
    pub duration: i64,
}

/// The times that a packet goes out with.
#[derive(Debug, Clone, Copy, PartialEq, Eq, Structural)]
pub struct RewrittenTimes {
    pub dts: i64,
    pub pts: i64,
}

impl PacketTimes {
    /// The decoding time, zero where there is none.
    pub open spec fn decode_time(self) -> int {
        match self.dts {
            Some(dts) => dts as int,
            None => 0,
        }
    }

    /// The presentation time, the decoding time where there is none.
    pub open spec fn present_time(self) -> int {
        match self.pts {
            Some(pts) => pts as int,
            None => self.decode_time(),
        }
    }
}

/// A number fits 64 bits.
pub open spec fn fits(n: int) -> bool {
    i64::MIN <= n <= i64::MAX
}

/// Checks that a number fits 64 bits.
fn is_i64(n: i128) -> (r: bool)
    ensures
        r == fits(n as int),
{
    i64::MIN as i128 <= n && n <= i64::MAX as i128
}

/// The state of a stream's timeline.
#[derive(Debug, Clone, Copy)]
pub struct Timeline {
    pub fallback_is_running: bool,
    /// The decoding time and the duration of the last packet that went out.
    pub last_dts: i64,
    pub last_duration: i64,
    /// What is added to the times of the packets that come in.
    pub ts_offset: i64,
    pub codec: Option<VideoCodec>,
    pub live_timebase: Option<TimeBase>,
}

impl Timeline {
    /// Where the next packet belongs.
    pub open spec fn next_dts(self) -> int {
        self.last_dts + self.last_duration
    }

    /// With the present offset the decoding time would go back.
    pub open spec fn goes_back(self, dts: int) -> bool {
        self.last_dts != 0 && dts + self.ts_offset < self.last_dts
    }

    /// The offset for a packet with this decoding time.
    pub open spec fn offset_for(self, dts: int) -> int {
        if self.goes_back(dts) {
            self.next_dts() - dts
        } else {
            self.ts_offset as int
        }
    }

    /// The times of the packet can be rewritten within 64 bits.
    pub open spec fn can_take(self, times: PacketTimes) -> bool {
        &&& fits(times.decode_time() + self.ts_offset)
        &&& fits(times.present_time() + self.ts_offset)
        &&& self.goes_back(times.decode_time()) ==> {
            &&& fits(self.next_dts())
            &&& fits(self.next_dts() - times.decode_time())
            &&& fits(times.present_time() + self.next_dts() - times.decode_time())
        }
    }

    /// The decoding time that a packet goes out with.
    pub open spec fn output_dts(self, times: PacketTimes) -> int {
        times.decode_time() + self.offset_for(times.decode_time())
    }

    /// The presentation time that a packet goes out with.
    pub open spec fn output_pts(self, times: PacketTimes) -> int {
        times.present_time() + self.offset_for(times.decode_time())
    }

    /// The placeholder is started when the camera goes offline.
    pub open spec fn starts_fallback(self, state: LiveStreamState) -> bool {
        state == LiveStreamState::Offline && !self.fallback_is_running && self.codec is Some
            && self.live_timebase is Some
    }

    /// The timeline of a stream that begins.
    pub fn new() -> (r: Self)
        ensures
            r == (Timeline {
                fallback_is_running: false,
                last_dts: 0,
                last_duration: 0,
                ts_offset: 0,
                codec: None,
                live_timebase: None,
            }),
    {
        Timeline {
            fallback_is_running: false,
            last_dts: 0,
            last_duration: 0,
            ts_offset: 0,
            codec: None,
            live_timebase: None,
        }
    }

    /// Checks that the camera's state can be taken in: where the placeholder
    /// is to start, the time at which it does fits 64 bits.
    pub fn accepts_state(&self, state: LiveStreamState) -> (r: bool)
        ensures
            r == (self.starts_fallback(state) ==> fits(self.next_dts())),
    {
        let starts = match state {
            LiveStreamState::Online => false,
            LiveStreamState::Offline => !self.fallback_is_running && self.codec.is_some()
                && self.live_timebase.is_some(),
        };
        !starts || is_i64(self.last_dts as i128 + self.last_duration as i128)
    }

    /// Takes the camera's state in. While the camera is offline the
    /// placeholder plays, from where the camera left off, once codec and time
    /// base of the camera are known.
    pub fn on_live_state(&mut self, state: LiveStreamState) -> (r: FallbackChange)
        requires
            old(self).starts_fallback(state) ==> fits(old(self).next_dts()),
        ensures
            *final(self) == (Timeline {
                fallback_is_running: match state {
                    LiveStreamState::Online => false,
                    LiveStreamState::Offline => old(self).fallback_is_running
                        || old(self).starts_fallback(state),
                },
                ..*old(self)
            }),
            r == (match state {
                LiveStreamState::Online => FallbackChange::Stop,
                LiveStreamState::Offline => if old(self).starts_fallback(state) {
                    FallbackChange::Start(
                        FallbackContext {
                            codec: old(self).codec->0,
                            live_timebase: old(self).live_timebase->0,
                            ts_offset: old(self).next_dts() as i64,
                        },
                    )
                } else {
                    FallbackChange::Keep
                },
            }),
    {
        match state {
            LiveStreamState::Online => {
                self.fallback_is_running = false;
                FallbackChange::Stop
            },
            LiveStreamState::Offline => {
                if !self.fallback_is_running {
                    if let (Some(codec), Some(live_timebase)) = (self.codec, self.live_timebase) {
                        // Continue from where the live stream left off.
                        let ts_offset: i64 = self.last_dts + self.last_duration;
                        self.fallback_is_running = true;
                        return FallbackChange::Start(
                            FallbackContext { codec, live_timebase, ts_offset },
                        );
                    }
                }
                FallbackChange::Keep
            },
        }
    }

    /// Takes the metadata of the camera's stream in and says whether it is
    /// the first: only then are the consumers initialized.
    pub fn on_metadata(&mut self, codec: VideoCodec, timebase: TimeBase) -> (r: bool)
        ensures
            r == (old(self).codec is None),
            *final(self) == (if r {
                Timeline { codec: Some(codec), live_timebase: Some(timebase), ..*old(self) }
            } else {
                *old(self)
            }),
    {
        if self.codec.is_some() {
            return false;
        }
        self.codec = Some(codec);
        self.live_timebase = Some(timebase);
        true
    }

    /// Checks that the times of a packet can be rewritten within 64 bits.
    pub fn accepts(&self, times: PacketTimes) -> (r: bool)
        ensures
            r == self.can_take(times),
    {
        let dts: i128 = match times.dts {
            Some(dts) => dts as i128,
            None => 0,
        };
        let pts: i128 = match times.pts {
            Some(pts) => pts as i128,
            None => dts,
        };
        let offset: i128 = self.ts_offset as i128;
        let last: i128 = self.last_dts as i128;
        let next: i128 = last + self.last_duration as i128;
        if !is_i64(dts + offset) || !is_i64(pts + offset) {
            return false;
        }
        if last != 0 && dts + offset < last {
            is_i64(next) && is_i64(next - dts) && is_i64(pts + next - dts)
        } else {
            true
        }
    }

    /// Rewrites the times of a packet to be continuous across source switches.
    pub fn on_packet(&mut self, times: PacketTimes) -> (r: RewrittenTimes)
        requires
            old(self).can_take(times),
        ensures
            r.dts == old(self).output_dts(times),
            r.pts == old(self).output_pts(times),
            *final(self) == (Timeline {
                last_dts: r.dts,
                last_duration: times.duration,
                ts_offset: old(self).offset_for(times.decode_time()) as i64,
                ..*old(self)
            }),
    {
        let dts: i64 = times.dts.unwrap_or(0);
        let pts: i64 = times.pts.unwrap_or(dts);
        let mut new_dts: i64 = dts + self.ts_offset;
        let mut new_pts: i64 = pts + self.ts_offset;

        // Only adjust the offset if the timestamp would still go backwards.
        if new_dts < self.last_dts && self.last_dts != 0 {
            self.ts_offset = self.last_dts + self.last_duration - dts;
            new_dts = dts + self.ts_offset;
            new_pts = pts + self.ts_offset;
        }
        self.last_dts = new_dts;
        self.last_duration = times.duration;
        RewrittenTimes { dts: new_dts, pts: new_pts }
    }
}

/// Decoding times never go back. A last time of zero counts as no packet yet,
/// so it is left out.
pub proof fn lemma_time_never_goes_back(timeline: Timeline, times: PacketTimes)
    requires
        timeline.last_dts != 0,
        timeline.last_duration >= 0,
    ensures
        timeline.output_dts(times) >= timeline.last_dts,
{
}

/// Where a source takes over whose times lie further back, its first packet
/// follows the last one by that one's duration.
pub proof fn lemma_switch_follows_on(timeline: Timeline, times: PacketTimes)
    requires
        timeline.goes_back(times.decode_time()),
    ensures
        timeline.output_dts(times) == timeline.next_dts(),
{
}

/// Presentation and decoding time stay as far apart as they came.
pub proof fn lemma_presentation_delay_kept(timeline: Timeline, times: PacketTimes)
    ensures
        timeline.output_pts(times) - timeline.output_dts(times) == times.present_time()
            - times.decode_time(),
{
}

/// A packet that does not lie before the last one goes out with its own times
/// and the offset, however far ahead it lies, and the offset stays. So does
/// every packet after a time of zero.
pub proof fn lemma_time_ahead_kept(timeline: Timeline, times: PacketTimes, dts: int, pts: int)
    requires
        dts == times.dts.unwrap_or(0),
        pts == times.pts.unwrap_or(dts as i64),
        timeline.last_dts == 0 || dts + timeline.ts_offset >= timeline.last_dts,
    ensures
        timeline.output_dts(times) == dts + timeline.ts_offset,
        timeline.output_pts(times) == pts + timeline.ts_offset,
        timeline.offset_for(times.decode_time()) == timeline.ts_offset,
{
}

/// A packet that lies before the last one goes out where that one ends, and
/// the offset is what puts it there.
pub proof fn lemma_time_back_moved(timeline: Timeline, times: PacketTimes, dts: int, pts: int)
    requires
        dts == times.dts.unwrap_or(0),
        pts == times.pts.unwrap_or(dts as i64),
        timeline.last_dts != 0,
        dts + timeline.ts_offset < timeline.last_dts,
    ensures
        timeline.output_dts(times) == timeline.last_dts + timeline.last_duration,
        timeline.output_pts(times) - timeline.output_dts(times) == pts - dts,
        timeline.offset_for(times.decode_time()) + dts == timeline.last_dts
            + timeline.last_duration,
{
}

/// Two packets of one source whose decoding times rise come out as far apart
/// as they came in.
pub proof fn lemma_source_spacing_kept(
    timeline: Timeline,
    first: PacketTimes,
    second: PacketTimes,
    after: Timeline,
)
    requires
        timeline.can_take(first),
        after == (Timeline {
            last_dts: timeline.output_dts(first) as i64,
            last_duration: first.duration,
            ts_offset: timeline.offset_for(first.decode_time()) as i64,
            ..timeline
        }),
        first.dts.unwrap_or(0) <= second.dts.unwrap_or(0),
    ensures
        after.output_dts(second) - timeline.output_dts(first) == second.dts.unwrap_or(0)
            - first.dts.unwrap_or(0),
        after.output_pts(second) - timeline.output_pts(first) == second.pts.unwrap_or(
            second.dts.unwrap_or(0),
        ) - first.pts.unwrap_or(first.dts.unwrap_or(0)),
{
}

/// Times that are nowhere near the limits of 64 bits can be taken in.
pub proof fn lemma_ordinary_times_accepted(timeline: Timeline, times: PacketTimes)
    requires
        -0x800_0000_0000_0000 <= timeline.last_dts <= 0x800_0000_0000_0000,
        -0x800_0000_0000_0000 <= timeline.last_duration <= 0x800_0000_0000_0000,
        -0x800_0000_0000_0000 <= timeline.ts_offset <= 0x800_0000_0000_0000,
        times.dts matches Some(dts) ==> -0x800_0000_0000_0000 <= dts <= 0x800_0000_0000_0000,
        times.pts matches Some(pts) ==> -0x800_0000_0000_0000 <= pts <= 0x800_0000_0000_0000,
    ensures
        timeline.can_take(times),
{
}

/// The placeholder is to start when the camera goes offline, it is not playing
/// already, and the camera's stream is known; it begins where the last packet
/// ends.
pub proof fn lemma_placeholder_starts(timeline: Timeline, state: LiveStreamState)
    ensures
        timeline.starts_fallback(state) <==> (state is Offline && !timeline.fallback_is_running
            && timeline.codec is Some && timeline.live_timebase is Some),
        timeline.next_dts() == timeline.last_dts + timeline.last_duration,
{
}

} // verus!
