//! One continuous RTP stream out of sources that take turns.
use crate::arithmetic::{abs, to_u32_wrapping, wrap_u32};
use crate::common::packetizer::{random_u16, sequence_at};
use crate::common::rtp::{RtpHeader, RtpPacket};
use crate::domain::ClientSessionId;
use vstd::prelude::*;

verus! {

/// A jump of the timestamps by more than this (one second at 90 kHz) means
/// that the source has changed.
pub const SOURCE_SWITCH_THRESHOLD: u32 = 90000;

/// The step from the last packet of one source to the first of the next: one
/// frame of 30 per second.
pub const FRAME_DELTA: u32 = 3000;

/// Rewrites RTP headers so that sequence numbers and timestamps go on without
/// a break when the source changes: from live to recorded video, to the
/// placeholder of a camera that is offline, or between redundant sources.
#[derive(Debug, Clone, Copy)]
pub struct RtpStitcher {
    pub ssrc: u32,
    /// The sequence number of the next packet.
    pub seq: u16,
    /// What is added to the timestamps of the current source.
    pub ts_offset: i64,
    pub last_output_ts: u32,
    pub last_input_ts: u32,
    pub has_received_packet: bool,
}

/// `rand::random` yields any number of the type.
#[verifier::external_body]
pub(crate) fn random_u32() -> (r: u32) {
    rand::random::<u32>()
}

/// What happens to a stitcher.
pub ghost enum StitcherEvent {
    /// A packet with this timestamp is stitched.
    Packet(u32),
    /// A source is announced whose first packet has this timestamp.
    Switch(u32),
}

impl RtpStitcher {
    /// No packet has been stitched yet, and no source announced.
    pub open spec fn is_fresh(self) -> bool {
        &&& self.ts_offset == 0
        &&& self.last_output_ts == 0
        &&& self.last_input_ts == 0
        &&& !self.has_received_packet
    }

    /// The timestamp that follows the last one by a frame.
    pub open spec fn next_frame_ts(self) -> int {
        wrap_u32(self.last_output_ts + FRAME_DELTA)
    }

    /// Whether a packet with this timestamp comes from another source than
    /// the packet before it.
    pub open spec fn detects_switch(self, ts: u32) -> bool {
        self.has_received_packet && abs(ts - self.last_input_ts) > SOURCE_SWITCH_THRESHOLD
    }

    /// The stitcher with its offset set so that `ts` comes out a frame after
    /// the last timestamp.
    pub open spec fn adjusted(self, ts: u32) -> RtpStitcher {
        RtpStitcher { ts_offset: (self.next_frame_ts() - ts) as i64, ..self }
    }

    /// The stitcher as it treats a packet with this timestamp.
    pub open spec fn prepared(self, ts: u32) -> RtpStitcher {
        if self.detects_switch(ts) {
            self.adjusted(ts)
        } else {
            self
        }
    }

    /// The timestamp that a packet goes out with.
    pub open spec fn output_ts(self, ts: u32) -> int {
        wrap_u32(ts + self.prepared(ts).ts_offset)
    }

    /// The stitcher after a packet.
    pub open spec fn after_packet(self, ts: u32) -> RtpStitcher {
        RtpStitcher {
            seq: sequence_at(self.seq, 1),
            last_output_ts: self.output_ts(ts) as u32,
            last_input_ts: ts,
            has_received_packet: true,
            ..self.prepared(ts)
        }
    }

    /// The stitcher after an event.
    pub open spec fn after_event(self, event: StitcherEvent) -> RtpStitcher {
        match event {
            StitcherEvent::Packet(ts) => self.after_packet(ts),
            StitcherEvent::Switch(ts) => self.adjusted(ts),
        }
    }

    /// The stitcher after a list of events.
    pub open spec fn after(self, events: Seq<StitcherEvent>) -> RtpStitcher
        decreases events.len(),
    {
        if events.len() == 0 {
            self
        } else {
            self.after(events.drop_last()).after_event(events.last())
        }
    }

    /// The header that a packet goes out with.
    pub open spec fn stitched(self, header: RtpHeader) -> RtpHeader {
        RtpHeader {
            payload_type: header.payload_type,
            marker: header.marker,
            seq: self.seq,
            timestamp: self.output_ts(header.timestamp) as u32,
            ssrc: self.ssrc,
        }
    }

    /// The stitcher after a list of packets.
    pub open spec fn after_packets(self, frames: Seq<RtpPacket>) -> RtpStitcher
        decreases frames.len(),
    {
        if frames.len() == 0 {
            self
        } else {
            self.after_packets(frames.drop_last()).after_packet(frames.last().header.timestamp)
        }
    }

    /// A stitcher whose first packet has the given number.
    pub fn with_sequence(ssrc: u32, seq: u16) -> (r: Self)
        ensures
            r == (RtpStitcher {
                ssrc,
                seq,
                ts_offset: 0,
                last_output_ts: 0,
                last_input_ts: 0,
                has_received_packet: false,
            }),
    {
        RtpStitcher {
            ssrc,
            seq,
            ts_offset: 0,
            last_output_ts: 0,
            last_input_ts: 0,
            has_received_packet: false,
        }
    }

    /// A stitcher whose first packet has a random number.
    pub fn new(ssrc: u32) -> (r: Self)
        ensures
            r == (RtpStitcher {
                ssrc,
                seq: r.seq,
                ts_offset: 0,
                last_output_ts: 0,
                last_input_ts: 0,
                has_received_packet: false,
            }),
    {
        RtpStitcher::with_sequence(ssrc, random_u16())
    }

    /// Rewrite the header fields of a packet and share its payload.
    pub fn stitch(&mut self, frame: &RtpPacket) -> (r: RtpPacket)
        ensures
            *final(self) == old(self).after_packet(frame.header.timestamp),
            r.payload == frame.payload,
            r.header == old(self).stitched(frame.header),
    {
        let orig_ts: u32 = frame.header.timestamp;
        if self.has_received_packet {
            let last_input: u32 = self.last_input_ts;
            let delta: u32 = if orig_ts >= last_input {
                orig_ts - last_input
            } else {
                last_input - orig_ts
            };
            if delta > SOURCE_SWITCH_THRESHOLD {
                self.adjust_for_source_switch(orig_ts);
            }
        } else {
            self.has_received_packet = true;
        }
        self.last_input_ts = orig_ts;

        let new_ts: u32 = to_u32_wrapping(orig_ts as i128 + self.ts_offset as i128);
        self.last_output_ts = new_ts;

        let seq: u16 = self.seq;
        self.seq = if seq == u16::MAX {
            0
        } else {
            seq + 1
        };
        let new_header = RtpHeader {
            payload_type: frame.header.payload_type,
            marker: frame.header.marker,
            seq,
            timestamp: new_ts,
            ssrc: self.ssrc,
        };
        RtpPacket { header: new_header, payload: frame.payload.clone() }
    }

    /// Stitches a list of packets, one after the other.
    pub fn stitch_all(&mut self, frames: &[RtpPacket]) -> (r: Vec<RtpPacket>)
        ensures
            *final(self) == old(self).after_packets(frames@),
            r@.len() == frames@.len(),
            forall|k: int|
                0 <= k < r@.len() ==> {
                    &&& (#[trigger] r@[k]).payload == frames@[k].payload
                    &&& r@[k].header == old(self).after_packets(frames@.take(k)).stitched(
                        frames@[k].header,
                    )
                },
    {
        let ghost start = *self;
        let mut stitched: Vec<RtpPacket> = Vec::new();
        let mut i: usize = 0;
        assert(frames@.take(0) =~= seq![]);
        while i < frames.len()
            invariant
                i <= frames@.len(),
                stitched@.len() == i,
                *self == start.after_packets(frames@.take(i as int)),
                forall|k: int|
                    0 <= k < i ==> {
                        &&& (#[trigger] stitched@[k]).payload == frames@[k].payload
                        &&& stitched@[k].header == start.after_packets(frames@.take(k)).stitched(
                            frames@[k].header,
                        )
                    },
            decreases frames@.len() - i,
        {
            assert(frames@.take(i + 1).drop_last() =~= frames@.take(i as int));
            stitched.push(self.stitch(&frames[i]));
            i += 1;
        }
        assert(frames@.take(i as int) =~= frames@);
        stitched
    }

    /// Announces a source whose first packet has the given timestamp, so that
    /// the timestamps go on from where they are.
    pub fn adjust_for_source_switch(&mut self, new_source_first_ts: u32)
        ensures
            *final(self) == old(self).adjusted(new_source_first_ts),
    {
        let target: u32 = to_u32_wrapping(self.last_output_ts as i128 + FRAME_DELTA as i128);
        self.ts_offset = target as i64 - new_source_first_ts as i64;
    }

    /// Reset the stitcher state (e.g., on new client connection).
    pub fn reset(&mut self)
        ensures
            *final(self) == (RtpStitcher {
                ssrc: old(self).ssrc,
                seq: final(self).seq,
                ts_offset: 0,
                last_output_ts: 0,
                last_input_ts: 0,
                has_received_packet: false,
            }),
    {
        *self = RtpStitcher::new(self.ssrc);
    }

    pub fn ssrc(&self) -> (r: u32)
        ensures
            r == self.ssrc,
    {
        self.ssrc
    }
}

/// The number of packets among some events.
pub open spec fn packets_among(events: Seq<StitcherEvent>) -> int
    decreases events.len(),
{
    if events.len() == 0 {
        0
    } else if events.last() is Packet {
        packets_among(events.drop_last()) + 1
    } else {
        packets_among(events.drop_last())
    }
}

/// Sequence numbers are continuous whatever sources the packets come from:
/// each packet is numbered by how many went before it, and the source
/// identifier never changes.
pub proof fn lemma_sequence_continuous(stitcher: RtpStitcher, events: Seq<StitcherEvent>)
    ensures
        packets_among(events) >= 0,
        stitcher.after(events).seq == sequence_at(stitcher.seq, packets_among(events)),
        stitcher.after(events).ssrc == stitcher.ssrc,
    decreases events.len(),
{
    if events.len() > 0 {
        lemma_sequence_continuous(stitcher, events.drop_last());
    }
}

/// The first packet of an announced source goes out a frame after the packet
/// before it.
pub proof fn lemma_announced_switch_is_smooth(stitcher: RtpStitcher, ts: u32)
    ensures
        stitcher.adjusted(ts).output_ts(ts) == stitcher.next_frame_ts(),
{
}

/// The first packet of a source that is found by its timestamp goes out a
/// frame after the packet before it.
pub proof fn lemma_detected_switch_is_smooth(stitcher: RtpStitcher, ts: u32)
    requires
        stitcher.detects_switch(ts),
    ensures
        stitcher.output_ts(ts) == stitcher.next_frame_ts(),
{
}

/// Within one source the timestamps go out as far apart as they came in.
pub proof fn lemma_spacing_kept(stitcher: RtpStitcher, first: u32, second: u32)
    requires
        !stitcher.after_packet(first).detects_switch(second),
    ensures
        wrap_u32(
            stitcher.after_packet(first).output_ts(second) - stitcher.output_ts(first),
        ) == wrap_u32(second - first),
{
}

/// Stitches the packets of one session, which is known by its id.
#[derive(Debug, Clone, Copy)]
pub struct StitchingConsumer {
    pub id: ClientSessionId,
    pub stitcher: RtpStitcher,
}

impl StitchingConsumer {
    /// A consumer with a random source identifier and first number.
    pub fn new(inner: ClientSessionId) -> (r: Self)
        ensures
            r.id == inner,
            r.stitcher == (RtpStitcher {
                ssrc: r.stitcher.ssrc,
                seq: r.stitcher.seq,
                ts_offset: 0,
                last_output_ts: 0,
                last_input_ts: 0,
                has_received_packet: false,
            }),
    {
        StitchingConsumer { id: inner, stitcher: RtpStitcher::new(random_u32()) }
    }

    /// Call when switching sources to maintain timestamp continuity.
    pub fn adjust_for_source_switch(&mut self, new_source_first_ts: u32)
        ensures
            final(self).id == old(self).id,
            final(self).stitcher == old(self).stitcher.adjusted(new_source_first_ts),
    {
        self.stitcher.adjust_for_source_switch(new_source_first_ts);
    }

    /// The session that the packets go to.
    pub fn inner(&self) -> (r: ClientSessionId)
        ensures
            r == self.id,
    {
        self.id
    }

    /// The packet that the session gets for a packet of its current source.
    pub fn on_new_packet(&mut self, frame: &RtpPacket) -> (r: RtpPacket)
        ensures
            final(self).id == old(self).id,
            final(self).stitcher == old(self).stitcher.after_packet(frame.header.timestamp),
            r.payload == frame.payload,
            r.header == old(self).stitcher.stitched(frame.header),
    {
        self.stitcher.stitch(frame)
    }
}

/// What goes out for a packet: its payload type and marker, under the session's
/// source identifier and next number. The stitcher then expects the number
/// after it, and remembers both timestamps.
pub proof fn lemma_header_rewritten(stitcher: RtpStitcher, header: RtpHeader)
    ensures
        ({
            let out = stitcher.stitched(header);
            let after = stitcher.after_packet(header.timestamp);
            &&& out.payload_type == header.payload_type
            &&& out.marker == header.marker
            &&& out.ssrc == stitcher.ssrc
            &&& out.seq == stitcher.seq
            &&& after.ssrc == stitcher.ssrc
            &&& after.seq == (stitcher.seq + 1) % 0x1_0000
            &&& after.has_received_packet
            &&& after.last_input_ts == header.timestamp
            &&& after.last_output_ts == out.timestamp
        }),
{
}

/// The first packet of a stitcher that no source was announced to goes out at
/// its own time.
pub proof fn lemma_first_time_kept(stitcher: RtpStitcher, header: RtpHeader)
    requires
        !stitcher.has_received_packet,
        stitcher.ts_offset == 0,
    ensures
        stitcher.stitched(header).timestamp == header.timestamp,
{
}

/// A packet whose timestamp lies more than a second from that of the packet
/// before it, ahead or back alike, goes out a frame after that packet.
pub proof fn lemma_jump_is_a_switch(stitcher: RtpStitcher, header: RtpHeader)
    requires
        stitcher.has_received_packet,
        header.timestamp - stitcher.last_input_ts > 90000 || stitcher.last_input_ts
            - header.timestamp > 90000,
    ensures
        stitcher.stitched(header).timestamp == (stitcher.last_output_ts + 3000) % 0x1_0000_0000,
{
}

/// Of two packets, one after the other, the second goes out as far from the
/// first as it came, where that is a second at most, and else a frame later.
/// So no step between two packets is longer than a second.
pub proof fn lemma_steps_are_small(stitcher: RtpStitcher, first: RtpHeader, second: RtpHeader)
    ensures
        ({
            let a = stitcher.stitched(first).timestamp as int;
            let b = stitcher.after_packet(first.timestamp).stitched(second).timestamp as int;
            let step = second.timestamp - first.timestamp;
            &&& -90000 <= step <= 90000 ==> b == (a + step) % 0x1_0000_0000
            &&& step < -90000 || step > 90000 ==> b == (a + 3000) % 0x1_0000_0000
            &&& (b - a) % 0x1_0000_0000 <= 90000 || (a - b) % 0x1_0000_0000 <= 90000
        }),
{
}

/// The first packet of an announced source goes out a frame after the last
/// packet, whatever its own time.
pub proof fn lemma_announced_source_goes_on(stitcher: RtpStitcher, header: RtpHeader)
    ensures
        stitcher.adjusted(header.timestamp).stitched(header).timestamp == (stitcher.last_output_ts
            + 3000) % 0x1_0000_0000,
        stitcher.adjusted(header.timestamp).seq == stitcher.seq,
        stitcher.adjusted(header.timestamp).ssrc == stitcher.ssrc,
        stitcher.adjusted(header.timestamp).last_output_ts == stitcher.last_output_ts,
{
}

/// A packet more is taken in after those before it.
proof fn lemma_one_packet_more(stitcher: RtpStitcher, frames: Seq<RtpPacket>, k: int)
    requires
        0 < k <= frames.len(),
    ensures
        stitcher.after_packets(frames.take(k)) == stitcher.after_packets(
            frames.take(k - 1),
        ).after_packet(frames[k - 1].header.timestamp),
{
    assert(frames.take(k).drop_last() =~= frames.take(k - 1));
    assert(frames.take(k).last() == frames[k - 1]);
}

/// Packets are counted, and the source identifier stays.
proof fn lemma_packets_are_numbered(stitcher: RtpStitcher, frames: Seq<RtpPacket>, k: int)
    requires
        0 <= k <= frames.len(),
    ensures
        stitcher.after_packets(frames.take(k)).seq == (stitcher.seq + k) % 0x1_0000,
        stitcher.after_packets(frames.take(k)).ssrc == stitcher.ssrc,
    decreases k,
{
    if k > 0 {
        lemma_packets_are_numbered(stitcher, frames, k - 1);
        lemma_one_packet_more(stitcher, frames, k);
        lemma_header_rewritten(
            stitcher.after_packets(frames.take(k - 1)),
            frames[k - 1].header,
        );
    } else {
        assert(frames.take(0) =~= seq![]);
    }
}

/// A list of packets goes out numbered one after the other, with no step of
/// more than a second between two of them.
pub proof fn lemma_list_goes_on(stitcher: RtpStitcher, frames: Seq<RtpPacket>, k: int)
    requires
        0 <= k < frames.len(),
    ensures
        ({
            let now = stitcher.after_packets(frames.take(k));
            let out = now.stitched(frames[k].header);
            &&& out.seq == (stitcher.seq + k) % 0x1_0000
            &&& out.ssrc == stitcher.ssrc
            &&& k > 0 ==> {
                let last = stitcher.after_packets(frames.take(k - 1)).stitched(
                    frames[k - 1].header,
                ).timestamp as int;
                (out.timestamp - last) % 0x1_0000_0000 <= 90000 || (last - out.timestamp)
                    % 0x1_0000_0000 <= 90000
            }
        }),
{
    lemma_packets_are_numbered(stitcher, frames, k);
    if k > 0 {
        lemma_one_packet_more(stitcher, frames, k);
        lemma_steps_are_small(
            stitcher.after_packets(frames.take(k - 1)),
            frames[k - 1].header,
            frames[k].header,
        );
    }
}

} // verus!
