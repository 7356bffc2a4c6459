//! The placeholder that plays while a camera is offline.
use crate::arithmetic::{
    divide, lemma_product_bound, lemma_wrap_i64_fits, to_i64_wrapping, trunc_div, wrap_i64,
};
use crate::common::{TimeBase, VideoCodec};
use crate::sources::rtsp::timeline::{fits, FallbackContext, PacketTimes, RewrittenTimes};
use crate::text::text;
use vstd::prelude::*;

verus! {

/// A timestamp in another time base: the exact value rounded toward zero, in
/// 64 bits. Without usable time bases it stays as it is.
pub open spec fn rescaled(ts: i64, from_tb: TimeBase, to_tb: TimeBase) -> int {
    if from_tb.den == 0 || to_tb.num == 0 {
        ts as int
    } else {
        wrap_i64(trunc_div(ts * from_tb.num * to_tb.den, from_tb.den * to_tb.num))
    }
}

/// Convert a timestamp from one timebase to another.
pub fn rescale_ts(ts: i64, from_tb: TimeBase, to_tb: TimeBase) -> (r: i64)
    ensures
        r == rescaled(ts, from_tb, to_tb),
{
    if from_tb.den == 0 || to_tb.num == 0 {
        return ts;
    }
    let from_num: i128 = from_tb.num as i128;
    let from_den: i128 = from_tb.den as i128;
    let to_num: i128 = to_tb.num as i128;
    let to_den: i128 = to_tb.den as i128;
    let wide: i128 = ts as i128;
    proof {
        let two31: int = 0x8000_0000;
        let two63: int = 0x8000_0000_0000_0000;
        lemma_product_bound(wide as int, from_num as int, two63, two31);
        lemma_product_bound(wide * from_num, to_den as int, two63 * two31, two31);
        lemma_product_bound(from_den as int, to_num as int, two31, two31);
        lemma_product_nonzero(from_den as int, to_num as int);
    }
    let num: i128 = wide * from_num * to_den;
    let den: i128 = from_den * to_num;
    to_i64_wrapping(divide(num, den))
}

/// A product without a zero is none.
proof fn lemma_product_nonzero(a: int, b: int)
    by (nonlinear_arith)
    requires
        a != 0,
        b != 0,
    ensures
        a * b != 0,
{
}

/// The file that plays for a codec.
pub open spec fn placeholder_file(codec: VideoCodec) -> Seq<char> {
    match codec {
        VideoCodec::H264 => "assets/placeholder_h264.mp4"@,
        VideoCodec::H265 => "assets/placeholder_h265.mp4"@,
    }
}

/// The path of the file that plays for a codec.
pub fn placeholder_path(codec: &VideoCodec) -> (r: String)
    ensures
        r@ == placeholder_file(*codec),
{
    match codec {
        VideoCodec::H264 => text("assets/placeholder_h264.mp4"),
        VideoCodec::H265 => text("assets/placeholder_h265.mp4"),
    }
}

/// What reading the file yields.
#[derive(Debug, Clone, Copy, PartialEq, Eq, Structural)]
pub enum FallbackRead {
    Packet { stream_index: usize, times: PacketTimes },
    EndOfFile,
    Failed,
}

/// What to do next.
#[derive(Debug, Clone, Copy, PartialEq, Eq, Structural)]
pub enum FallbackAction {
    /// Send the packet, with these times and this duration, when its own
    /// time has come.
    Send { times: RewrittenTimes, duration: i64 },
    /// Leave the packet out.
    Skip,
    /// Go back to the start of the file.
    Rewind,
    /// Stop playing.
    Stop,
}

/// Converts the times of the file's packets. The file plays again and again;
/// each round goes on from the one before.
#[derive(Debug, Clone, Copy)]
pub struct FallbackClock {
    pub live_timebase: TimeBase,
    pub file_timebase: TimeBase,
    pub stream_index: usize,
    /// What is added to the converted times, in the live stream's units.
    pub cumulative_offset: i64,
    pub last_converted_dts: i64,
}

impl FallbackClock {
    /// A time of the file on the live stream's timeline.
    pub open spec fn converted(self, ts: int) -> int {
        rescaled(ts as i64, self.file_timebase, self.live_timebase) + self.cumulative_offset
    }

    /// What was read can be converted within 64 bits.
    pub open spec fn can_take(self, read: FallbackRead) -> bool {
        match read {
            FallbackRead::Packet { stream_index, times } => stream_index == self.stream_index ==> {
                &&& fits(self.converted(times.decode_time()))
                &&& fits(self.converted(times.present_time()))
            },
            FallbackRead::EndOfFile => fits(self.last_converted_dts + 1),
            FallbackRead::Failed => true,
        }
    }

    /// The clock of a placeholder that begins to play.
    pub fn new(ctx: &FallbackContext, file_timebase: TimeBase, stream_index: usize) -> (r: Self)
        ensures
            r == (FallbackClock {
                live_timebase: ctx.live_timebase,
                file_timebase,
                stream_index,
                cumulative_offset: ctx.ts_offset,
                last_converted_dts: ctx.ts_offset,
            }),
    {
        FallbackClock {
            live_timebase: ctx.live_timebase,
            file_timebase,
            stream_index,
            cumulative_offset: ctx.ts_offset,
            last_converted_dts: ctx.ts_offset,
        }
    }

    /// Checks that a time of the file can be converted within 64 bits.
    fn converts(&self, ts: i64) -> (r: bool)
        ensures
            r == fits(self.converted(ts as int)),
    {
        let sum: i128 = rescale_ts(ts, self.file_timebase, self.live_timebase) as i128
            + self.cumulative_offset as i128;
        i64::MIN as i128 <= sum && sum <= i64::MAX as i128
    }

    /// Checks that what was read can be converted within 64 bits.
    pub fn accepts(&self, read: &FallbackRead) -> (r: bool)
        ensures
            r == self.can_take(*read),
    {
        match read {
            FallbackRead::Packet { stream_index, times } => {
                let dts: i64 = times.dts.unwrap_or(0);
                let pts: i64 = times.pts.unwrap_or(dts);
                *stream_index != self.stream_index || (self.converts(dts) && self.converts(pts))
            },
            FallbackRead::EndOfFile => self.last_converted_dts < i64::MAX,
            FallbackRead::Failed => true,
        }
    }

    /// Takes in what was read, unless playing is to end, and says what to do.
    pub fn on_read(&mut self, terminate: bool, read: FallbackRead) -> (r: FallbackAction)
        requires
            !terminate ==> old(self).can_take(read),
        ensures
            terminate ==> r == FallbackAction::Stop && *final(self) == *old(self),
            !terminate ==> match read {
                FallbackRead::Failed => r == FallbackAction::Stop && *final(self) == *old(self),
                FallbackRead::EndOfFile => r == FallbackAction::Rewind && *final(self) == (
                FallbackClock {
                    cumulative_offset: (old(self).last_converted_dts + 1) as i64,
                    ..*old(self)
                }),
                FallbackRead::Packet { stream_index, times } => if stream_index != old(
                    self,
                ).stream_index {
                    r == FallbackAction::Skip && *final(self) == *old(self)
                } else {
                    &&& r == (FallbackAction::Send {
                        times: RewrittenTimes {
                            dts: old(self).converted(times.decode_time()) as i64,
                            pts: old(self).converted(times.present_time()) as i64,
                        },
                        duration: rescaled(
                            times.duration,
                            old(self).file_timebase,
                            old(self).live_timebase,
                        ) as i64,
                    })
                    &&& *final(self) == (FallbackClock {
                        last_converted_dts: old(self).converted(times.decode_time()) as i64,
                        ..*old(self)
                    })
                },
            },
    {
        if terminate {
            return FallbackAction::Stop;
        }
        match read {
            FallbackRead::Failed => FallbackAction::Stop,
            FallbackRead::EndOfFile => {
                // +1 to ensure continuity.
                self.cumulative_offset = self.last_converted_dts + 1;
                FallbackAction::Rewind
            },
            FallbackRead::Packet { stream_index, times } => {
                if stream_index != self.stream_index {
                    return FallbackAction::Skip;
                }
                let orig_dts: i64 = times.dts.unwrap_or(0);
                let orig_pts: i64 = times.pts.unwrap_or(orig_dts);
                let (from, to) = (self.file_timebase, self.live_timebase);
                let dts: i64 = rescale_ts(orig_dts, from, to) + self.cumulative_offset;
                let pts: i64 = rescale_ts(orig_pts, from, to) + self.cumulative_offset;
                let duration: i64 = rescale_ts(times.duration, from, to);
                self.last_converted_dts = dts;
                FallbackAction::Send { times: RewrittenTimes { dts, pts }, duration }
            },
        }
    }
}

/// The quotient of two numbers that are not negative is not negative.
proof fn lemma_quotient_not_negative(a: int, b: int)
    by (nonlinear_arith)
    requires
        a >= 0,
        b > 0,
    ensures
        a / b >= 0,
{
}

/// Between valid time bases a time that is not negative stays so, where its
/// new value fits 64 bits.
pub proof fn lemma_rescaled_not_negative(ts: i64, from_tb: TimeBase, to_tb: TimeBase)
    requires
        ts >= 0,
        from_tb.valid(),
        to_tb.valid(),
        fits(trunc_div(ts * from_tb.num * to_tb.den, from_tb.den * to_tb.num)),
    ensures
        rescaled(ts, from_tb, to_tb) >= 0,
{
    let den = from_tb.den * to_tb.num;
    let num = ts * from_tb.num * to_tb.den;
    assert(ts * from_tb.num >= 0) by (nonlinear_arith)
        requires
            ts >= 0,
            from_tb.num > 0,
    ;
    assert(num >= 0) by (nonlinear_arith)
        requires
            num == ts * from_tb.num * to_tb.den,
            ts * from_tb.num >= 0,
            to_tb.den > 0,
    ;
    assert(den > 0) by (nonlinear_arith)
        requires
            den == from_tb.den * to_tb.num,
            from_tb.den > 0,
            to_tb.num > 0,
    ;
    lemma_quotient_not_negative(num, den);
    lemma_wrap_i64_fits(trunc_div(num, den));
}

/// A round of the file begins after the last packet of the round before:
/// with an offset one past it, no time of the file that is not negative comes
/// out at or before that packet.
pub proof fn lemma_rounds_follow_on(clock: FallbackClock, after: FallbackClock, ts: i64)
    requires
        after == (FallbackClock {
            cumulative_offset: (clock.last_converted_dts + 1) as i64,
            ..clock
        }),
        fits(clock.last_converted_dts + 1),
        ts >= 0,
        clock.file_timebase.valid(),
        clock.live_timebase.valid(),
        fits(
            trunc_div(
                ts * clock.file_timebase.num * clock.live_timebase.den,
                clock.file_timebase.den * clock.live_timebase.num,
            ),
        ),
    ensures
        after.converted(ts as int) > clock.last_converted_dts,
{
    lemma_rescaled_not_negative(ts, clock.file_timebase, clock.live_timebase);
}

/// A time in another time base is the same time there, rounded toward zero: for
/// `n / d` units it is the whole number of them, where that fits 64 bits.
pub proof fn lemma_same_time_elsewhere(ts: i64, from_tb: TimeBase, to_tb: TimeBase, units: int)
    requires
        from_tb.num > 0 && from_tb.den > 0 && to_tb.num > 0 && to_tb.den > 0,
        0 <= units <= i64::MAX,
    ensures
        units * (from_tb.den * to_tb.num) <= ts * from_tb.num * to_tb.den < (units + 1) * (
        from_tb.den * to_tb.num) ==> rescaled(ts, from_tb, to_tb) == units,
        units * (from_tb.den * to_tb.num) <= -(ts * from_tb.num * to_tb.den) < (units + 1) * (
        from_tb.den * to_tb.num) ==> rescaled(ts, from_tb, to_tb) == -units,
{
    let d = from_tb.den * to_tb.num;
    let n = ts * from_tb.num * to_tb.den;
    assert(d > 0) by (nonlinear_arith)
        requires
            d == from_tb.den * to_tb.num,
            from_tb.den > 0,
            to_tb.num > 0,
    ;
    assert(units * d >= 0) by (nonlinear_arith)
        requires
            units >= 0,
            d > 0,
    ;
    if units * d <= n < (units + 1) * d {
        lemma_whole_quotient(n, d, units);
        lemma_wrap_i64_fits(units);
    }
    if units * d <= -n < (units + 1) * d {
        lemma_whole_quotient(-n, d, units);
        if n == 0 {
            assert(units == 0) by (nonlinear_arith)
                requires
                    units >= 0,
                    d > 0,
                    units * d <= 0,
            ;
        }
        lemma_wrap_i64_fits(-units);
    }
}

/// A quotient, by the multiples of the divisor around the dividend.
proof fn lemma_whole_quotient(n: int, d: int, q: int)
    by (nonlinear_arith)
    requires
        d > 0,
        0 <= q,
        q * d <= n < (q + 1) * d,
    ensures
        n / d == q,
{
}

/// In its own time base a time stays as it is, and so it does without usable
/// time bases.
pub proof fn lemma_own_timebase_keeps_time(ts: i64, tb: TimeBase, other: TimeBase)
    requires
        tb.num > 0 && tb.den > 0,
        ts > i64::MIN,
    ensures
        rescaled(ts, tb, tb) == ts,
        other.den == 0 ==> rescaled(ts, other, tb) == ts,
        other.num == 0 ==> rescaled(ts, tb, other) == ts,
{
    let d = tb.den * tb.num;
    let size: int = if ts >= 0 {
        ts as int
    } else {
        -ts
    };
    assert(size * d <= size * d < (size + 1) * d) by (nonlinear_arith)
        requires
            d == tb.den * tb.num,
            tb.den > 0,
            tb.num > 0,
            size >= 0,
    ;
    assert(ts * tb.num * tb.den == ts * d) by (nonlinear_arith)
        requires
            d == tb.den * tb.num,
    ;
    lemma_same_time_elsewhere(ts, tb, tb, size);
    if ts >= 0 {
        assert(ts * d == size * d);
    } else {
        assert(-(ts * d) == size * d) by (nonlinear_arith)
            requires
                size == -ts,
        ;
    }
}

/// The start of the file comes out where the round begins, and any other time as
/// far from there as it is from the start, in the live stream's units.
pub proof fn lemma_placeholder_on_timeline(clock: FallbackClock, ts: i64)
    requires
        clock.file_timebase.num > 0 && clock.file_timebase.den > 0,
        clock.live_timebase.num > 0 && clock.live_timebase.den > 0,
    ensures
        clock.converted(0) == clock.cumulative_offset,
        clock.converted(ts as int) - clock.converted(0) == rescaled(
            ts,
            clock.file_timebase,
            clock.live_timebase,
        ),
        clock.file_timebase == clock.live_timebase && ts > i64::MIN ==> clock.converted(ts as int)
            == ts + clock.cumulative_offset,
{
    let d = clock.file_timebase.den * clock.live_timebase.num;
    assert(d > 0) by (nonlinear_arith)
        requires
            d == clock.file_timebase.den * clock.live_timebase.num,
            clock.file_timebase.den > 0,
            clock.live_timebase.num > 0,
    ;
    let start: i64 = 0;
    assert(start * clock.file_timebase.num * clock.live_timebase.den == 0) by (nonlinear_arith)
        requires
            start == 0,
    ;
    assert(0 * d == 0 && (0 + 1) * d == d) by (nonlinear_arith);
    lemma_same_time_elsewhere(start, clock.file_timebase, clock.live_timebase, 0);
    if clock.file_timebase == clock.live_timebase && ts > i64::MIN {
        lemma_own_timebase_keeps_time(ts, clock.file_timebase, clock.file_timebase);
    }
}

/// Packets with ordinary times can always be converted: where the product that
/// is divided has 62 bits, and so has the offset.
pub proof fn lemma_ordinary_placeholder_accepted(clock: FallbackClock, times: PacketTimes)
    requires
        clock.file_timebase.num > 0 && clock.file_timebase.den > 0,
        clock.live_timebase.num > 0 && clock.live_timebase.den > 0,
        -0x4000_0000_0000_0000 < clock.cumulative_offset < 0x4000_0000_0000_0000,
        0 <= times.decode_time() * clock.file_timebase.num * clock.live_timebase.den
            < 0x4000_0000_0000_0000,
        0 <= times.present_time() * clock.file_timebase.num * clock.live_timebase.den
            < 0x4000_0000_0000_0000,
    ensures
        clock.can_take(FallbackRead::Packet { stream_index: clock.stream_index, times }),
{
    let d = clock.file_timebase.den * clock.live_timebase.num;
    assert(d > 0) by (nonlinear_arith)
        requires
            d == clock.file_timebase.den * clock.live_timebase.num,
            clock.file_timebase.den > 0,
            clock.live_timebase.num > 0,
    ;
    lemma_quotient_is_smaller(
        times.decode_time() * clock.file_timebase.num * clock.live_timebase.den,
        d,
    );
    lemma_quotient_is_smaller(
        times.present_time() * clock.file_timebase.num * clock.live_timebase.den,
        d,
    );
}

/// A quotient is no larger than the dividend.
proof fn lemma_quotient_is_smaller(n: int, d: int)
    by (nonlinear_arith)
    requires
        0 <= n,
        d > 0,
    ensures
        0 <= n / d <= n,
{
}

} // verus!
