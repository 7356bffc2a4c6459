//! NAL units into RTP packets: whole where they fit, else in fragments.
use crate::arithmetic::{divide, lemma_product_bound, to_u32_wrapping, trunc_div, wrap_u32};
use crate::common::codec_parameters::{CodecParameters, CodecSets};
use crate::common::extradata::{extradata_of, parse_extradata};
use crate::common::framing::{
    copy_range, detected_units, parse_detected_units, views, FramingFormat,
};
use crate::common::rtp::{shared, RtpHeader, RtpPacket};
use crate::common::{TimeBase, VideoCodec, FFmpegVideoMetadata};
use crate::domain::ClientSessionId;
use vstd::prelude::*;

verus! {

/// The packet size that covers most networks, mobile ones among them.
pub const DEFAULT_MTU: usize = 1428;

/// The size of an RTP header without extensions.
pub const RTP_HEADER_SIZE: usize = 12;

/// Ticks per second of the RTP clock of video.
pub const VIDEO_CLOCK_RATE: u32 = 90000;

/// What the packetizer knows of its source stream.
#[derive(Debug)]
pub struct SrcStreamState {
    pub codec: VideoCodec,
    pub framing_format: FramingFormat,
    pub codec_params: CodecParameters,
    pub timebase: TimeBase,
}

/// Turns the NAL units of one stream into RTP packets, which it numbers one
/// after the other. Its consumers are known by their session ids.
#[derive(Debug)]
pub struct RtpPacketizer {
    pub ssrc: u32,
    /// The sequence number of the next packet.
    pub sequence: u16,
    pub payload_type: u8,
    pub mtu: usize,
    pub clock_rate: u32,
    pub stream_metadata: Option<SrcStreamState>,
    pub consumers: Vec<ClientSessionId>,
}

/// Why a packetizer cannot be initialized.
#[derive(Debug, Clone, Copy, PartialEq, Eq, Structural)]
pub enum InitializeError {
    AlreadyInitialized,
    NoExtradata,
    EmptyExtradata,
    UnreadableExtradata,
}

/// `rand::random` yields any number of the type.
#[verifier::external_body]
pub(crate) fn random_u16() -> (r: u16) {
    rand::random::<u16>()
}

/// The fragments of a unit's data, at most `size` bytes of it in each. Every
/// fragment begins with `head` and a byte that holds the unit's type, with
/// bit 7 set in the first fragment and bit 6 in the last.
pub open spec fn fragments(
    head: Seq<u8>,
    unit_type: int,
    data: Seq<u8>,
    size: int,
    first: bool,
) -> Seq<Seq<u8>>
    decreases data.len(),
{
    let start_bit: int = if first {
        128
    } else {
        0
    };
    if data.len() == 0 || size <= 0 {
        seq![]
    } else if data.len() <= size {
        seq![head.push((unit_type + start_bit + 64) as u8) + data]
    } else {
        seq![head.push((unit_type + start_bit) as u8) + data.take(size)] + fragments(
            head,
            unit_type,
            data.skip(size),
            size,
            false,
        )
    }
}

/// The bytes before an FU-A header: type 28 with the unit's NRI bits.
pub open spec fn fu_a_head(nal: Seq<u8>) -> Seq<u8> {
    seq![(28 + nal[0] / 32 % 4 * 32) as u8]
}

/// The bytes before an H.265 FU header: type 49 with the unit's layer and
/// temporal ids.
pub open spec fn fu_head(nal: Seq<u8>) -> Seq<u8> {
    seq![(98 + nal[0] % 2) as u8, nal[1]]
}

/// The RTP payloads that carry a unit (RFC 6184, RFC 7798): the unit itself
/// where it fits a packet, else its fragments. An empty unit has none, nor
/// has an H.265 unit without its two header bytes that does not fit.
pub open spec fn unit_payloads(nal: Seq<u8>, codec: VideoCodec, mtu: int) -> Seq<Seq<u8>> {
    if nal.len() == 0 {
        seq![]
    } else if nal.len() <= mtu - RTP_HEADER_SIZE {
        seq![nal]
    } else {
        match codec {
            VideoCodec::H264 => fragments(
                fu_a_head(nal),
                nal[0] as int % 32,
                nal.skip(1),
                mtu - RTP_HEADER_SIZE - 2,
                true,
            ),
            VideoCodec::H265 => if nal.len() < 2 {
                seq![]
            } else {
                fragments(
                    fu_head(nal),
                    nal[0] as int / 2 % 64,
                    nal.skip(2),
                    mtu - RTP_HEADER_SIZE - 3,
                    true,
                )
            },
        }
    }
}

/// The payloads of a list of units, one unit after the other.
pub open spec fn payloads_of(nals: Seq<Seq<u8>>, codec: VideoCodec, mtu: int) -> Seq<Seq<u8>>
    decreases nals.len(),
{
    if nals.len() == 0 {
        seq![]
    } else {
        payloads_of(nals.drop_last(), codec, mtu) + unit_payloads(nals.last(), codec, mtu)
    }
}

/// Whether the packets of a list of units end in one with the marker bit:
/// they do if the last unit has any payload.
pub open spec fn ends_marked(nals: Seq<Seq<u8>>, codec: VideoCodec, mtu: int) -> bool {
    nals.len() > 0 && unit_payloads(nals.last(), codec, mtu).len() > 0
}

/// A packet of the given size limit has room for its header and for a unit
/// or, where the unit is larger, for at least one byte of it.
pub open spec fn unit_has_room(nal: Seq<u8>, codec: VideoCodec, mtu: int) -> bool {
    ||| nal.len() == 0
    ||| mtu >= RTP_HEADER_SIZE && nal.len() <= mtu - RTP_HEADER_SIZE
    ||| match codec {
        VideoCodec::H264 => mtu > RTP_HEADER_SIZE + 2,
        VideoCodec::H265 => mtu > RTP_HEADER_SIZE + 3 || mtu >= RTP_HEADER_SIZE && nal.len() < 2,
    }
}

/// Every unit of a list has room.
pub open spec fn units_have_room(nals: Seq<Seq<u8>>, codec: VideoCodec, mtu: int) -> bool {
    forall|i: int| 0 <= i < nals.len() ==> unit_has_room(#[trigger] nals[i], codec, mtu)
}

/// A timestamp in ticks of a clock: zero without a valid time base, else the
/// exact value rounded toward zero, modulo 2^32.
pub open spec fn rtp_timestamp(pts: int, clock_rate: int, timebase: TimeBase) -> int {
    if timebase.valid() {
        wrap_u32(trunc_div(pts * clock_rate * timebase.num, timebase.den as int))
    } else {
        0
    }
}

/// The timestamp's conversion stays within 64 bits.
pub open spec fn convertible(pts: int, clock_rate: int, timebase: TimeBase) -> bool {
    timebase.valid() ==> i64::MIN <= pts * clock_rate <= i64::MAX && i64::MIN <= pts * clock_rate
        * timebase.num <= i64::MAX
}

/// The timestamp of a packet: its presentation time, or the decoding time
/// where that is zero or missing, or zero.
pub open spec fn source_timestamp(pts: Option<i64>, dts: Option<i64>) -> i64 {
    match pts {
        Some(p) if p != 0 => p,
        _ => match dts {
            Some(d) => d,
            None => 0,
        },
    }
}

/// The timestamp of a packet.
fn source_time(pts: Option<i64>, dts: Option<i64>) -> (r: i64)
    ensures
        r == source_timestamp(pts, dts),
{
    match pts {
        Some(p) => if p != 0 {
            p
        } else {
            dts.unwrap_or(0)
        },
        None => dts.unwrap_or(0),
    }
}

/// The contents of optional data.
pub open spec fn opt_bytes(data: Option<&[u8]>) -> Option<Seq<u8>> {
    match data {
        Some(d) => Some(d@),
        None => None,
    }
}

/// The number of a packet, counted on from `start`.
pub open spec fn sequence_at(start: u16, k: int) -> u16 {
    ((start + k) % 0x1_0000) as u16
}

/// The packets carry the given payloads, in order, numbered on from the
/// packetizer's sequence number; only the last may have the marker bit.
pub open spec fn carried(
    packets: Seq<RtpPacket>,
    by: RtpPacketizer,
    payloads: Seq<Seq<u8>>,
    timestamp: u32,
    marked: bool,
) -> bool {
    &&& packets.len() == payloads.len()
    &&& forall|k: int|
        0 <= k < packets.len() ==> {
            &&& (#[trigger] packets[k]).payload@ == payloads[k]
            &&& packets[k].header == RtpHeader {
                payload_type: by.payload_type,
                marker: marked && k == packets.len() - 1,
                seq: sequence_at(by.sequence, k),
                timestamp,
                ssrc: by.ssrc,
            }
        }
}

/// One more packet, numbered on, carries one more payload.
proof fn lemma_carried_push(
    sent: Seq<RtpPacket>,
    packets: Seq<RtpPacket>,
    by: RtpPacketizer,
    payloads: Seq<Seq<u8>>,
    timestamp: u32,
    marked: bool,
)
    requires
        carried(sent, by, payloads, timestamp, false),
        packets.len() == sent.len() + 1,
        packets.drop_last() == sent,
        packets.last().header == (RtpHeader {
            payload_type: by.payload_type,
            marker: marked,
            seq: sequence_at(by.sequence, payloads.len() as int),
            timestamp,
            ssrc: by.ssrc,
        }),
    ensures
        carried(packets, by, payloads.push(packets.last().payload@), timestamp, marked),
{
    assert forall|k: int| 0 <= k < sent.len() implies #[trigger] packets[k] == sent[k] by {
        assert(packets.drop_last()[k] == sent[k]);
    }
}

/// The data of a unit's fragments, put together again.
pub open spec fn joined_data(payloads: Seq<Seq<u8>>, header_len: int) -> Seq<u8>
    decreases payloads.len(),
{
    if payloads.len() == 0 {
        seq![]
    } else {
        payloads[0].skip(header_len) + joined_data(payloads.skip(1), header_len)
    }
}

/// The unit that a receiver gets from the payloads of one unit (RFC 6184,
/// RFC 7798): a single payload is the unit; fragments have the unit's type in
/// their third header part and the rest of its header in the first.
pub open spec fn received_unit(payloads: Seq<Seq<u8>>, codec: VideoCodec) -> Seq<u8> {
    let head = payloads[0];
    if payloads.len() == 1 {
        head
    } else {
        match codec {
            VideoCodec::H264 => seq![(head[0] / 32 * 32 + head[1] % 32) as u8] + joined_data(
                payloads,
                2,
            ),
            VideoCodec::H265 => seq![
                (head[0] / 128 * 128 + head[2] % 64 * 2 + head[0] % 2) as u8,
                head[1],
            ] + joined_data(payloads, 3),
        }
    }
}

/// What holds of the fragments of a unit.
proof fn lemma_fragments(head: Seq<u8>, unit_type: int, data: Seq<u8>, size: int, first: bool)
    requires
        0 <= unit_type < 64,
        size > 0,
    ensures
        ({
            let parts = fragments(head, unit_type, data, size, first);
            &&& data.len() > 0 ==> parts.len() > 0
            &&& data.len() > size ==> parts.len() > 1
            &&& joined_data(parts, head.len() as int + 1) == data
            &&& forall|i: int|
                0 <= i < parts.len() ==> {
                    &&& head.len() + 1 < (#[trigger] parts[i]).len() <= head.len() + 1 + size
                    &&& parts[i].take(head.len() as int) == head
                    &&& parts[i][head.len() as int] % 64 == unit_type
                    &&& parts[i][head.len() as int] >= 128 <==> first && i == 0
                    &&& parts[i][head.len() as int] / 64 % 2 == 1 <==> i == parts.len() - 1
                }
        }),
    decreases data.len(),
{
    let parts = fragments(head, unit_type, data, size, first);
    let n = head.len() as int;
    if data.len() == 0 {
    } else if data.len() <= size {
        assert(parts[0].skip(n + 1) =~= data);
        assert(parts[0].take(n) =~= head);
        assert(joined_data(parts.skip(1), n + 1) =~= seq![]);
        assert(joined_data(parts, n + 1) =~= data);
    } else {
        let rest = fragments(head, unit_type, data.skip(size), size, false);
        lemma_fragments(head, unit_type, data.skip(size), size, false);
        assert(parts.skip(1) =~= rest);
        assert(parts[0].skip(n + 1) =~= data.take(size));
        assert(parts[0].take(n) =~= head);
        assert(data.take(size) + data.skip(size) =~= data);
        assert forall|i: int| 0 < i < parts.len() implies #[trigger] parts[i] == rest[i - 1] by {}
    }
}

/// No packet of a unit is larger than the packetizer's packet size.
pub proof fn lemma_packets_fit(nal: Seq<u8>, codec: VideoCodec, mtu: int)
    requires
        unit_has_room(nal, codec, mtu),
    ensures
        forall|k: int|
            0 <= k < unit_payloads(nal, codec, mtu).len() ==> 0 < (#[trigger] unit_payloads(
                nal,
                codec,
                mtu,
            )[k]).len() <= mtu - RTP_HEADER_SIZE,
{
    if nal.len() > 0 && nal.len() > mtu - RTP_HEADER_SIZE {
        match codec {
            VideoCodec::H264 => lemma_fragments(
                fu_a_head(nal),
                nal[0] as int % 32,
                nal.skip(1),
                mtu - RTP_HEADER_SIZE - 2,
                true,
            ),
            VideoCodec::H265 => if nal.len() >= 2 {
                lemma_fragments(
                    fu_head(nal),
                    nal[0] as int / 2 % 64,
                    nal.skip(2),
                    mtu - RTP_HEADER_SIZE - 3,
                    true,
                )
            },
        }
    }
}

/// No packet of a list of units is larger than the packet size.
pub proof fn lemma_all_packets_fit(nals: Seq<Seq<u8>>, codec: VideoCodec, mtu: int)
    requires
        units_have_room(nals, codec, mtu),
    ensures
        forall|k: int|
            0 <= k < payloads_of(nals, codec, mtu).len() ==> 0 < (#[trigger] payloads_of(
                nals,
                codec,
                mtu,
            )[k]).len() <= mtu - RTP_HEADER_SIZE,
    decreases nals.len(),
{
    if nals.len() > 0 {
        let earlier = payloads_of(nals.drop_last(), codec, mtu);
        let last = unit_payloads(nals.last(), codec, mtu);
        assert(unit_has_room(nals[nals.len() - 1], codec, mtu));
        assert forall|i: int| 0 <= i < nals.drop_last().len() implies unit_has_room(
            #[trigger] nals.drop_last()[i],
            codec,
            mtu,
        ) by {
            assert(unit_has_room(nals[i], codec, mtu));
        }
        lemma_all_packets_fit(nals.drop_last(), codec, mtu);
        lemma_packets_fit(nals.last(), codec, mtu);
        assert forall|k: int| 0 <= k < payloads_of(nals, codec, mtu).len() implies 0 < (
        #[trigger] payloads_of(nals, codec, mtu)[k]).len() <= mtu - RTP_HEADER_SIZE by {
            if k < earlier.len() {
                assert(payloads_of(nals, codec, mtu)[k] == earlier[k]);
            } else {
                assert(payloads_of(nals, codec, mtu)[k] == last[k - earlier.len()]);
            }
        }
    }
}

/// A receiver gets back the unit that was packetized, whole or in fragments.
/// The unit's first bit, which the codecs forbid, is not set.
pub proof fn lemma_unit_received(nal: Seq<u8>, codec: VideoCodec, mtu: int)
    requires
        unit_has_room(nal, codec, mtu),
        nal.len() > 0,
        nal[0] < 128,
        codec == VideoCodec::H265 ==> nal.len() >= 2,
    ensures
        unit_payloads(nal, codec, mtu).len() > 0,
        received_unit(unit_payloads(nal, codec, mtu), codec) == nal,
{
    let payloads = unit_payloads(nal, codec, mtu);
    if nal.len() > mtu - RTP_HEADER_SIZE {
        match codec {
            VideoCodec::H264 => {
                let head = fu_a_head(nal);
                lemma_fragments(
                    head,
                    nal[0] as int % 32,
                    nal.skip(1),
                    mtu - RTP_HEADER_SIZE - 2,
                    true,
                );
                assert(payloads[0].take(1)[0] == head[0]);
                assert(received_unit(payloads, codec) =~= nal);
            },
            VideoCodec::H265 => {
                let head = fu_head(nal);
                lemma_fragments(
                    head,
                    nal[0] as int / 2 % 64,
                    nal.skip(2),
                    mtu - RTP_HEADER_SIZE - 3,
                    true,
                );
                assert(payloads[0].take(2)[0] == head[0]);
                assert(payloads[0].take(2)[1] == head[1]);
                assert(received_unit(payloads, codec) =~= nal);
            },
        }
    }
}

/// Of the packets of a fragmented unit the first, and no other, has the start
/// bit, and the last, and no other, the end bit.
pub proof fn lemma_fragment_bits(nal: Seq<u8>, codec: VideoCodec, mtu: int)
    requires
        unit_has_room(nal, codec, mtu),
        nal.len() > 1,
        nal.len() > mtu - RTP_HEADER_SIZE,
    ensures
        ({
            let payloads = unit_payloads(nal, codec, mtu);
            let at: int = if codec == VideoCodec::H264 {
                1
            } else {
                2
            };
            &&& payloads.len() > 1
            &&& forall|k: int|
                0 <= k < payloads.len() ==> {
                    &&& (#[trigger] payloads[k])[at] >= 128 <==> k == 0
                    &&& payloads[k][at] / 64 % 2 == 1 <==> k == payloads.len() - 1
                }
        }),
{
    match codec {
        VideoCodec::H264 => {
            lemma_fragments(
                fu_a_head(nal),
                nal[0] as int % 32,
                nal.skip(1),
                mtu - RTP_HEADER_SIZE - 2,
                true,
            );
        },
        VideoCodec::H265 => lemma_fragments(
            fu_head(nal),
            nal[0] as int / 2 % 64,
            nal.skip(2),
            mtu - RTP_HEADER_SIZE - 3,
            true,
        ),
    }
}

/// Packet numbers go on from one call to the next.
pub proof fn lemma_sequence_goes_on(start: u16, first: int, second: int)
    requires
        first >= 0,
        second >= 0,
    ensures
        sequence_at(sequence_at(start, first), second) == sequence_at(start, first + second),
{
}

impl SrcStreamState {
    /// The parameter sets, in mathematical terms.
    pub open spec fn sets(self) -> CodecSets {
        self.codec_params@
    }
}

impl RtpPacketizer {
    /// The packetizer knows its source stream.
    pub open spec fn initialized(self) -> bool {
        self.stream_metadata is Some
    }

    /// The packetizer after `count` more packets.
    pub open spec fn advanced(self, count: int) -> RtpPacketizer {
        RtpPacketizer { sequence: sequence_at(self.sequence, count), ..self }
    }

    /// What learning the source stream from its metadata does: each error has
    /// its reason, and after success the stream is known.
    pub open spec fn learns(
        self,
        after: RtpPacketizer,
        metadata: FFmpegVideoMetadata,
        r: Result<(), InitializeError>,
    ) -> bool {
        if self.initialized() {
            r == Err::<(), _>(InitializeError::AlreadyInitialized) && after == self
        } else {
            match metadata.extradata {
                None => r == Err::<(), _>(InitializeError::NoExtradata) && after == self,
                Some(data) => if data@.len() == 0 {
                    r == Err::<(), _>(InitializeError::EmptyExtradata) && after == self
                } else {
                    match extradata_of(data@, metadata.codec) {
                        None => r == Err::<(), _>(InitializeError::UnreadableExtradata) && after
                            == self,
                        Some(e) => {
                            &&& r is Ok
                            &&& after == (RtpPacketizer {
                                stream_metadata: after.stream_metadata,
                                ..self
                            })
                            &&& after.stream_metadata matches Some(state)
                            &&& state.codec == metadata.codec
                            &&& state.timebase == metadata.timebase
                            &&& state.framing_format is Avcc
                            &&& state.framing_format->length_size == e.length_size
                            &&& state.sets() == CodecSets::none().with_extradata(metadata.codec, e)
                        },
                    }
                },
            }
        }
    }

    /// A source packet can be packetized: its time fits 64 bits on the way,
    /// and its units have room.
    pub open spec fn can_take(
        self,
        pts: Option<i64>,
        dts: Option<i64>,
        data: Option<Seq<u8>>,
    ) -> bool {
        self.stream_metadata matches Some(s) ==> {
            &&& convertible(
                source_timestamp(pts, dts) as int,
                self.clock_rate as int,
                s.timebase,
            )
            &&& data matches Some(d) ==> units_have_room(
                detected_units(d, s.framing_format),
                s.codec,
                self.mtu as int,
            )
        }
    }

    /// What a source packet does to the packetizer, and the packets that it
    /// makes of it: none before the packetizer knows its stream, nor of a
    /// packet without data.
    pub open spec fn takes(
        self,
        after: RtpPacketizer,
        pts: Option<i64>,
        dts: Option<i64>,
        data: Option<Seq<u8>>,
        packets: Seq<RtpPacket>,
    ) -> bool {
        match (self.stream_metadata, data) {
            (Some(s), Some(d)) => {
                let nals = detected_units(d, s.framing_format);
                let timestamp = rtp_timestamp(
                    source_timestamp(pts, dts) as int,
                    self.clock_rate as int,
                    s.timebase,
                );
                &&& carried(
                    packets,
                    self,
                    payloads_of(nals, s.codec, self.mtu as int),
                    timestamp as u32,
                    ends_marked(nals, s.codec, self.mtu as int),
                )
                &&& after == (RtpPacketizer {
                    stream_metadata: after.stream_metadata,
                    ..self.advanced(packets.len() as int)
                })
                &&& after.stream_metadata matches Some(known)
                &&& known == (SrcStreamState { codec_params: known.codec_params, ..s })
                &&& known.sets() == s.sets().with_units(s.codec, nals)
            },
            _ => packets.len() == 0 && after == self,
        }
    }

    /// No consumer is listed twice.
    pub open spec fn consumers_distinct(self) -> bool {
        self.consumers@.no_duplicates()
    }

    /// A packetizer whose first packet has the given number.
    pub fn with_sequence(ssrc: u32, payload_type: u8, sequence: u16) -> (r: Self)
        ensures
            r.ssrc == ssrc,
            r.payload_type == payload_type,
            r.sequence == sequence,
            r.mtu == DEFAULT_MTU,
            r.clock_rate == VIDEO_CLOCK_RATE,
            r.stream_metadata is None,
            r.consumers@ == Seq::<ClientSessionId>::empty(),
            r.consumers_distinct(),
    {
        RtpPacketizer {
            ssrc,
            sequence,
            payload_type,
            mtu: DEFAULT_MTU,
            clock_rate: VIDEO_CLOCK_RATE,
            stream_metadata: None,
            consumers: Vec::new(),
        }
    }

    /// A packetizer whose first packet has a random number.
    pub fn new(ssrc: u32, payload_type: u8) -> (r: Self)
        ensures
            r.ssrc == ssrc,
            r.payload_type == payload_type,
            r.mtu == DEFAULT_MTU,
            r.clock_rate == VIDEO_CLOCK_RATE,
            r.stream_metadata is None,
            r.consumers@ == Seq::<ClientSessionId>::empty(),
            r.consumers_distinct(),
    {
        RtpPacketizer::with_sequence(ssrc, payload_type, random_u16())
    }

    /// The parameter sets of the source stream, once they are known.
    pub fn get_codec_params(&self) -> (r: Option<CodecParameters>)
        ensures
            match r {
                Some(p) => self.stream_metadata matches Some(s) && p@ == s.sets(),
                None => !self.initialized(),
            },
    {
        match &self.stream_metadata {
            Some(metadata) => Some(metadata.codec_params.copied()),
            None => None,
        }
    }

    /// Where a consumer stands in the list.
    fn consumer_index(&self, consumer: ClientSessionId) -> (r: Option<usize>)
        ensures
            match r {
                Some(i) => i < self.consumers@.len() && self.consumers@[i as int] == consumer && (
                forall|j: int| 0 <= j < i ==> self.consumers@[j] != consumer),
                None => !self.consumers@.contains(consumer),
            },
    {
        let mut i: usize = 0;
        while i < self.consumers.len()
            invariant
                i <= self.consumers@.len(),
                forall|j: int| 0 <= j < i ==> self.consumers@[j] != consumer,
            decreases self.consumers@.len() - i,
        {
            if self.consumers[i] == consumer {
                return Some(i);
            }
            i += 1;
        }
        None
    }

    /// Adds a consumer; one that is listed already stays listed once.
    pub fn add_consumer(&mut self, consumer: ClientSessionId)
        ensures
            *final(self) == (RtpPacketizer { consumers: final(self).consumers, ..*old(self) }),
            final(self).consumers@ == (if old(self).consumers@.contains(consumer) {
                old(self).consumers@
            } else {
                old(self).consumers@.push(consumer)
            }),
            old(self).consumers_distinct() ==> final(self).consumers_distinct(),
    {
        if self.consumer_index(consumer).is_none() {
            self.consumers.push(consumer);
        }
    }

    /// Removes a consumer, where it is listed.
    pub fn remove_consumer(&mut self, consumer: ClientSessionId)
        ensures
            *final(self) == (RtpPacketizer { consumers: final(self).consumers, ..*old(self) }),
            final(self).consumers@ == (if old(self).consumers@.contains(consumer) {
                old(self).consumers@.remove(old(self).consumers@.index_of_first(consumer)->0)
            } else {
                old(self).consumers@
            }),
            old(self).consumers_distinct() ==> final(self).consumers_distinct()
                && !final(self).consumers@.contains(consumer),
    {
        if let Some(index) = self.consumer_index(consumer) {
            proof {
                let ids = self.consumers@;
                ids.index_of_first_ensures(consumer);
                let first = ids.index_of_first(consumer)->0;
                assert(first == index);
                if ids.no_duplicates() {
                    let rest = ids.remove(index as int);
                    assert forall|i: int, j: int|
                        0 <= i < rest.len() && 0 <= j < rest.len() && i != j implies rest[i]
                        != rest[j] by {
                        let a = if i < index { i } else { i + 1 };
                        let b = if j < index { j } else { j + 1 };
                        assert(ids[a] != ids[b]);
                    }
                    assert forall|i: int| 0 <= i < rest.len() implies rest[i] != consumer by {
                        let a = if i < index { i } else { i + 1 };
                        assert(ids[a] != ids[index as int]);
                    }
                }
            }
            let _removed = self.consumers.remove(index);
        }
    }

    /// The packetizer with another packet size.
    pub fn with_mtu(self, mtu: usize) -> (r: Self)
        ensures
            r == (RtpPacketizer { mtu, ..self }),
    {
        RtpPacketizer { mtu, ..self }
    }

    /// The number for the next packet.
    fn next_seq(&mut self) -> (r: u16)
        ensures
            r == old(self).sequence,
            *final(self) == old(self).advanced(1),
    {
        let seq: u16 = self.sequence;
        self.sequence = if seq == u16::MAX {
            0
        } else {
            seq + 1
        };
        seq
    }

    /// Appends a packet with the given payload.
    fn push_packet(
        &mut self,
        frames: &mut Vec<RtpPacket>,
        payload: Vec<u8>,
        marker: bool,
        timestamp: u32,
    )
        ensures
            *final(self) == old(self).advanced(1),
            final(frames)@.len() == old(frames)@.len() + 1,
            final(frames)@.drop_last() == old(frames)@,
            final(frames)@.last().payload@ == payload@,
            final(frames)@.last().header == (RtpHeader {
                payload_type: old(self).payload_type,
                marker,
                seq: old(self).sequence,
                timestamp,
                ssrc: old(self).ssrc,
            }),
    {
        let header = RtpHeader {
            payload_type: self.payload_type,
            marker,
            seq: self.next_seq(),
            timestamp,
            ssrc: self.ssrc,
        };
        frames.push(RtpPacket::new(header, shared(payload)));
        assert(frames@.drop_last() =~= old(frames)@);
    }

    /// Appends the packets of a fragmented unit.
    fn push_fragments(
        &mut self,
        frames: &mut Vec<RtpPacket>,
        head: &[u8],
        unit_type: u8,
        data: &[u8],
        size: usize,
        is_last_nal: bool,
        timestamp: u32,
        Ghost(start): Ghost<RtpPacketizer>,
        Ghost(before): Ghost<Seq<Seq<u8>>>,
    )
        requires
            unit_type < 64,
            size > 0,
            *old(self) == start.advanced(before.len() as int),
            carried(old(frames)@, start, before, timestamp, false),
        ensures
            ({
                let added = fragments(head@, unit_type as int, data@, size as int, true);
                &&& *final(self) == start.advanced((before + added).len() as int)
                &&& carried(
                    final(frames)@,
                    start,
                    before + added,
                    timestamp,
                    is_last_nal && added.len() > 0,
                )
            }),
    {
        let mut at: usize = 0;
        let ghost added = fragments(head@, unit_type as int, data@, size as int, true);
        let ghost mut done: Seq<Seq<u8>> = seq![];
        assert(data@.skip(0) =~= data@);
        assert(done + added =~= added);
        assert(before + done =~= before);
        while at < data.len()
            invariant
                at <= data@.len(),
                unit_type < 64,
                size > 0,
                added == fragments(head@, unit_type as int, data@, size as int, true),
                added == done + fragments(
                    head@,
                    unit_type as int,
                    data@.skip(at as int),
                    size as int,
                    at == 0,
                ),
                *self == start.advanced((before + done).len() as int),
                carried(
                    frames@,
                    start,
                    before + done,
                    timestamp,
                    is_last_nal && at == data@.len() && done.len() > 0,
                ),
            decreases data@.len() - at,
        {
            let ghost rest = data@.skip(at as int);
            let ghost first = at == 0;
            let is_last_fragment = data.len() - at <= size;
            let end: usize = if is_last_fragment {
                data.len()
            } else {
                at + size
            };
            let mut fu_header: u8 = unit_type;
            if at == 0 {
                fu_header = fu_header + 0x80;
            }
            if is_last_fragment {
                fu_header = fu_header + 0x40;
            }
            let mut fu_payload: Vec<u8> = Vec::new();
            fu_payload.extend_from_slice(head);
            fu_payload.push(fu_header);
            fu_payload.extend_from_slice(&data[at..end]);
            let ghost payload = fu_payload@;
            proof {
                assert(data@.subrange(at as int, end as int) =~= rest.take(end - at));
                assert(payload =~= head@.push(fu_header) + rest.take(end - at));
                if is_last_fragment {
                    assert(rest.take(end - at) =~= rest);
                    assert(data@.skip(end as int) =~= seq![]);
                } else {
                    assert(rest.skip(size as int) =~= data@.skip(end as int));
                }
                assert(added =~= done.push(payload) + fragments(
                    head@,
                    unit_type as int,
                    data@.skip(end as int),
                    size as int,
                    false,
                ));
                assert((before + done).push(payload) =~= before + done.push(payload));
            }
            let ghost sent = frames@;
            let marker = is_last_nal && is_last_fragment;
            self.push_packet(frames, fu_payload, marker, timestamp);
            proof {
                lemma_carried_push(sent, frames@, start, before + done, timestamp, marker);
                done = done.push(payload);
            }
            at = end;
        }
        assert(data@.skip(at as int) =~= seq![]);
        assert(done =~= added);
    }

    /// Appends the packets of an H.264 unit.
    fn packetize_h264(
        &mut self,
        frames: &mut Vec<RtpPacket>,
        nal: &[u8],
        is_last_nal: bool,
        timestamp: u32,
        Ghost(start): Ghost<RtpPacketizer>,
        Ghost(before): Ghost<Seq<Seq<u8>>>,
    )
        requires
            nal@.len() > 0,
            unit_has_room(nal@, VideoCodec::H264, old(self).mtu as int),
            *old(self) == start.advanced(before.len() as int),
            carried(old(frames)@, start, before, timestamp, false),
        ensures
            ({
                let added = unit_payloads(nal@, VideoCodec::H264, start.mtu as int);
                &&& *final(self) == start.advanced((before + added).len() as int)
                &&& carried(
                    final(frames)@,
                    start,
                    before + added,
                    timestamp,
                    is_last_nal && added.len() > 0,
                )
            }),
    {
        let max_payload: usize = self.mtu - RTP_HEADER_SIZE;
        if nal.len() <= max_payload {
            self.push_whole(frames, nal, is_last_nal, timestamp, Ghost(start), Ghost(before));
        } else {
            let head: Vec<u8> = vec![28 + nal[0] / 32 % 4 * 32];
            assert(head@ =~= fu_a_head(nal@));
            let data = copy_range(nal, 1, nal.len());
            assert(data@ =~= nal@.skip(1));
            self.push_fragments(
                frames,
                head.as_slice(),
                nal[0] % 32,
                data.as_slice(),
                max_payload - 2,
                is_last_nal,
                timestamp,
                Ghost(start),
                Ghost(before),
            );
        }
    }

    /// Appends the packets of an H.265 unit.
    fn packetize_h265(
        &mut self,
        frames: &mut Vec<RtpPacket>,
        nal: &[u8],
        is_last_nal: bool,
        timestamp: u32,
        Ghost(start): Ghost<RtpPacketizer>,
        Ghost(before): Ghost<Seq<Seq<u8>>>,
    )
        requires
            nal@.len() > 0,
            unit_has_room(nal@, VideoCodec::H265, old(self).mtu as int),
            *old(self) == start.advanced(before.len() as int),
            carried(old(frames)@, start, before, timestamp, false),
        ensures
            ({
                let added = unit_payloads(nal@, VideoCodec::H265, start.mtu as int);
                &&& *final(self) == start.advanced((before + added).len() as int)
                &&& carried(
                    final(frames)@,
                    start,
                    before + added,
                    timestamp,
                    is_last_nal && added.len() > 0,
                )
            }),
    {
        let max_payload: usize = self.mtu - RTP_HEADER_SIZE;
        if nal.len() <= max_payload {
            self.push_whole(frames, nal, is_last_nal, timestamp, Ghost(start), Ghost(before));
        } else if nal.len() < 2 {
            assert(before + Seq::<Seq<u8>>::empty() =~= before);
        } else {
            let head: Vec<u8> = vec![98 + nal[0] % 2, nal[1]];
            assert(head@ =~= fu_head(nal@));
            let data = copy_range(nal, 2, nal.len());
            assert(data@ =~= nal@.skip(2));
            self.push_fragments(
                frames,
                head.as_slice(),
                nal[0] / 2 % 64,
                data.as_slice(),
                max_payload - 3,
                is_last_nal,
                timestamp,
                Ghost(start),
                Ghost(before),
            );
        }
    }

    /// Appends the packet of a unit that fits.
    fn push_whole(
        &mut self,
        frames: &mut Vec<RtpPacket>,
        nal: &[u8],
        marker: bool,
        timestamp: u32,
        Ghost(start): Ghost<RtpPacketizer>,
        Ghost(before): Ghost<Seq<Seq<u8>>>,
    )
        requires
            *old(self) == start.advanced(before.len() as int),
            carried(old(frames)@, start, before, timestamp, false),
        ensures
            *final(self) == start.advanced(before.len() as int + 1),
            carried(final(frames)@, start, before + seq![nal@], timestamp, marker),
    {
        let payload = copy_range(nal, 0, nal.len());
        assert(payload@ =~= nal@);
        let ghost sent = frames@;
        self.push_packet(frames, payload, marker, timestamp);
        proof {
            lemma_carried_push(sent, frames@, start, before, timestamp, marker);
            assert(before + seq![nal@] =~= before.push(nal@));
        }
    }

    /// Packetize NAL units into RTP packets. The last packet has the marker
    /// bit, unless the last unit has no payload.
    pub fn packetize(&mut self, nal_units: &[Vec<u8>], timestamp: u32, codec: &VideoCodec) -> (r:
        Vec<RtpPacket>)
        requires
            units_have_room(views(nal_units@), *codec, old(self).mtu as int),
        ensures
            ({
                let nals = views(nal_units@);
                let mtu = old(self).mtu as int;
                let payloads = payloads_of(nals, *codec, mtu);
                &&& carried(r@, *old(self), payloads, timestamp, ends_marked(nals, *codec, mtu))
                &&& *final(self) == old(self).advanced(r@.len() as int)
            }),
    {
        let ghost start = *self;
        let ghost nals = views(nal_units@);
        let mut rtp_frames: Vec<RtpPacket> = Vec::new();
        let mut i: usize = 0;
        assert(nals.take(0) =~= seq![]);
        assert(*self == start.advanced(0));
        while i < nal_units.len()
            invariant
                i <= nal_units@.len(),
                nals == views(nal_units@),
                units_have_room(nals, *codec, start.mtu as int),
                *self == start.advanced(
                    payloads_of(nals.take(i as int), *codec, start.mtu as int).len() as int,
                ),
                carried(
                    rtp_frames@,
                    start,
                    payloads_of(nals.take(i as int), *codec, start.mtu as int),
                    timestamp,
                    i == nals.len() && ends_marked(nals, *codec, start.mtu as int),
                ),
            decreases nal_units@.len() - i,
        {
            let ghost before = payloads_of(nals.take(i as int), *codec, start.mtu as int);
            proof {
                assert(nals.take(i + 1).drop_last() =~= nals.take(i as int));
                assert(nals.take(i + 1).last() == nals[i as int]);
                assert(nals[i as int] == nal_units@[i as int]@);
                assert(unit_has_room(nals[i as int], *codec, start.mtu as int));
                if i + 1 == nals.len() {
                    assert(nals.last() == nals[i as int]);
                }
            }
            let is_last_nal = i == nal_units.len() - 1;
            let nal = nal_units[i].as_slice();
            if nal.len() > 0 {
                match codec {
                    VideoCodec::H264 => self.packetize_h264(
                        &mut rtp_frames,
                        nal,
                        is_last_nal,
                        timestamp,
                        Ghost(start),
                        Ghost(before),
                    ),
                    VideoCodec::H265 => self.packetize_h265(
                        &mut rtp_frames,
                        nal,
                        is_last_nal,
                        timestamp,
                        Ghost(start),
                        Ghost(before),
                    ),
                }
            } else {
                assert(before + Seq::<Seq<u8>>::empty() =~= before);
            }
            i += 1;
        }
        assert(nals.take(i as int) =~= nals);
        rtp_frames
    }

    /// Converts a timestamp of the source stream to the RTP clock.
    pub fn pts_to_rtp_timestamp(&self, pts: i64, timebase: &TimeBase) -> (r: u32)
        requires
            convertible(pts as int, self.clock_rate as int, *timebase),
        ensures
            r == rtp_timestamp(pts as int, self.clock_rate as int, *timebase),
    {
        if !timebase.is_valid() {
            return 0;
        }
        let ticks: i64 = pts * (self.clock_rate as i64) * (timebase.num as i64);
        to_u32_wrapping(divide(ticks as i128, timebase.den as i128))
    }

    /// Checks that the time of a source packet can be converted within 64
    /// bits.
    pub fn accepts(&self, pts: Option<i64>, dts: Option<i64>) -> (r: bool)
        ensures
            r == (self.stream_metadata matches Some(s) ==> convertible(
                source_timestamp(pts, dts) as int,
                self.clock_rate as int,
                s.timebase,
            )),
    {
        let timebase = match &self.stream_metadata {
            Some(state) => state.timebase,
            None => return true,
        };
        if !timebase.is_valid() {
            return true;
        }
        let source: i64 = source_time(pts, dts);
        proof {
            let two32: int = 0x1_0000_0000;
            let two63: int = 0x8000_0000_0000_0000;
            lemma_product_bound(source as int, self.clock_rate as int, two63, two32);
        }
        let ticks: i128 = source as i128 * self.clock_rate as i128;
        if ticks < i64::MIN as i128 || ticks > i64::MAX as i128 {
            return false;
        }
        proof {
            let two31: int = 0x8000_0000;
            let two63: int = 0x8000_0000_0000_0000;
            lemma_product_bound(ticks as int, timebase.num as int, two63, two31);
        }
        let ticks: i128 = ticks * timebase.num as i128;
        i64::MIN as i128 <= ticks && ticks <= i64::MAX as i128
    }

    /// Learns the source stream from its metadata. A packetizer learns its
    /// stream once.
    pub fn initialize(&mut self, metadata: &FFmpegVideoMetadata) -> (r: Result<(), InitializeError>)
        ensures
            old(self).learns(*final(self), *metadata, r),
    {
        if self.stream_metadata.is_some() {
            return Err(InitializeError::AlreadyInitialized);
        }
        let extradata = match &metadata.extradata {
            Some(extradata) => extradata,
            None => return Err(InitializeError::NoExtradata),
        };
        if extradata.len() == 0 {
            return Err(InitializeError::EmptyExtradata);
        }
        let parsed = match parse_extradata(extradata.as_slice(), &metadata.codec) {
            Some(parsed) => parsed,
            None => return Err(InitializeError::UnreadableExtradata),
        };
        let mut codec_params = CodecParameters::default();
        if let FramingFormat::Avcc { length_size } = parsed.framing_format {
            codec_params.nal_length_size = Some(length_size);
        }
        codec_params.update_from_nals(&metadata.codec, parsed.nals.as_slice());
        self.stream_metadata = Some(
            SrcStreamState {
                codec: metadata.codec,
                framing_format: parsed.framing_format,
                codec_params,
                timebase: metadata.timebase,
            },
        );
        Ok(())
    }

    /// The packets of a source packet. Parameter sets in it are taken over
    /// (the resolution may change in mid-stream). Before the packetizer knows
    /// its stream there are none.
    pub fn on_new_packet(&mut self, pts: Option<i64>, dts: Option<i64>, data: Option<&[u8]>) -> (r:
        Vec<RtpPacket>)
        requires
            old(self).can_take(pts, dts, opt_bytes(data)),
        ensures
            old(self).takes(*final(self), pts, dts, opt_bytes(data), r@),
    {
        let data = match data {
            Some(data) => data,
            None => return Vec::new(),
        };
        let (codec, framing_format, timebase) = match &self.stream_metadata {
            Some(state) => (state.codec, state.framing_format, state.timebase),
            None => return Vec::new(),
        };
        let timestamp: u32 = self.pts_to_rtp_timestamp(source_time(pts, dts), &timebase);
        let nal_units = parse_detected_units(data, &framing_format);
        if let Some(state) = self.stream_metadata.as_mut() {
            state.codec_params.update_from_nals(&codec, nal_units.as_slice());
        }
        self.packetize(nal_units.as_slice(), timestamp, &codec)
    }
}

/// A unit that fits a packet is carried whole, an empty one not at all.
pub proof fn lemma_small_unit_is_whole(nal: Seq<u8>, codec: VideoCodec, mtu: int)
    ensures
        0 < nal.len() <= mtu - 12 ==> unit_payloads(nal, codec, mtu) == seq![nal],
        nal.len() == 0 ==> unit_payloads(nal, codec, mtu).len() == 0,
{
}

/// The header bytes of fragments. Of H.264 the first byte has type 28 and the
/// unit's NRI bits, the second the unit's type. Of H.265 the first two bytes
/// have type 49 and the unit's layer and temporal ids, the third the unit's
/// type.
pub proof fn lemma_fragment_headers(nal: Seq<u8>, codec: VideoCodec, mtu: int, k: int)
    requires
        unit_has_room(nal, codec, mtu),
        nal.len() > 1,
        nal.len() > mtu - 12,
        0 <= k < unit_payloads(nal, codec, mtu).len(),
    ensures
        ({
            let part = unit_payloads(nal, codec, mtu)[k];
            match codec {
                VideoCodec::H264 => {
                    &&& part[0] < 128
                    &&& part[0] / 32 == nal[0] / 32 % 4
                    &&& part[0] % 32 == 28
                    &&& part[1] % 64 == nal[0] % 32
                },
                VideoCodec::H265 => {
                    &&& part[0] < 128
                    &&& part[0] / 2 == 49
                    &&& part[0] % 2 == nal[0] % 2
                    &&& part[1] == nal[1]
                    &&& part[2] % 64 == nal[0] / 2 % 64
                },
            }
        }),
{
    let part = unit_payloads(nal, codec, mtu)[k];
    match codec {
        VideoCodec::H264 => {
            lemma_fragments(
                fu_a_head(nal),
                nal[0] as int % 32,
                nal.skip(1),
                mtu - RTP_HEADER_SIZE - 2,
                true,
            );
            assert(part.take(1)[0] == fu_a_head(nal)[0]);
        },
        VideoCodec::H265 => {
            lemma_fragments(
                fu_head(nal),
                nal[0] as int / 2 % 64,
                nal.skip(2),
                mtu - RTP_HEADER_SIZE - 3,
                true,
            );
            assert(part.take(2)[0] == fu_head(nal)[0]);
            assert(part.take(2)[1] == fu_head(nal)[1]);
        },
    }
}

/// All fragments but the last are as long as they can be.
proof fn lemma_full_fragments(
    head: Seq<u8>,
    unit_type: int,
    data: Seq<u8>,
    size: int,
    first: bool,
    k: int,
)
    requires
        size > 0,
        0 <= k < fragments(head, unit_type, data, size, first).len() - 1,
    ensures
        fragments(head, unit_type, data, size, first)[k].len() == head.len() + 1 + size,
    decreases data.len(),
{
    let parts = fragments(head, unit_type, data, size, first);
    let rest = fragments(head, unit_type, data.skip(size), size, false);
    assert(data.len() > size);
    if k > 0 {
        lemma_full_fragments(head, unit_type, data.skip(size), size, false, k - 1);
        assert(parts[k] == rest[k - 1]);
    }
}

/// A unit takes no more packets than it must: all its packets but the last are
/// of the full size.
pub proof fn lemma_packets_are_full(nal: Seq<u8>, codec: VideoCodec, mtu: int, k: int)
    requires
        unit_has_room(nal, codec, mtu),
        0 <= k < unit_payloads(nal, codec, mtu).len() - 1,
    ensures
        unit_payloads(nal, codec, mtu)[k].len() == mtu - 12,
{
    match codec {
        VideoCodec::H264 => lemma_full_fragments(
            fu_a_head(nal),
            nal[0] as int % 32,
            nal.skip(1),
            mtu - RTP_HEADER_SIZE - 2,
            true,
            k,
        ),
        VideoCodec::H265 => lemma_full_fragments(
            fu_head(nal),
            nal[0] as int / 2 % 64,
            nal.skip(2),
            mtu - RTP_HEADER_SIZE - 3,
            true,
            k,
        ),
    }
}

/// With packets of at least sixteen bytes every unit has room.
pub proof fn lemma_ordinary_packets_have_room(nals: Seq<Seq<u8>>, codec: VideoCodec, mtu: int)
    requires
        mtu >= 16,
    ensures
        units_have_room(nals, codec, mtu),
{
}

/// A unit that a receiver can put together again: its first bit, which the
/// codecs forbid, is not set, and an H.265 unit has its two header bytes.
pub open spec fn receivable(nal: Seq<u8>, codec: VideoCodec) -> bool {
    nal.len() > 0 && nal[0] < 128 && (codec is H265 ==> nal.len() >= 2)
}

/// Cut at the given places, a list of payloads falls into consecutive ranges
/// that fill it, one for each unit: a receiver gets the unit from its range,
/// and the range of an empty unit is empty.
pub open spec fn received_in_order(
    payloads: Seq<Seq<u8>>,
    nals: Seq<Seq<u8>>,
    codec: VideoCodec,
    cuts: Seq<int>,
) -> bool {
    &&& cuts.len() == nals.len() + 1
    &&& cuts[0] == 0
    &&& cuts.last() == payloads.len()
    &&& forall|i: int|
        0 <= i < nals.len() ==> {
            &&& 0 <= #[trigger] cuts[i] <= cuts[i + 1] <= payloads.len()
            &&& nals[i].len() == 0 ==> cuts[i] == cuts[i + 1]
            &&& receivable(nals[i], codec) ==> cuts[i] < cuts[i + 1] && received_unit(
                payloads.subrange(cuts[i], cuts[i + 1]),
                codec,
            ) == nals[i]
        }
}

/// A receiver gets back every unit of a list, whatever its type, in order and
/// with nothing between them.
pub proof fn lemma_units_received(nals: Seq<Seq<u8>>, codec: VideoCodec, mtu: int) -> (cuts: Seq<
    int,
>)
    requires
        units_have_room(nals, codec, mtu),
    ensures
        received_in_order(payloads_of(nals, codec, mtu), nals, codec, cuts),
        forall|i: int|
            0 <= i < nals.len() ==> payloads_of(nals, codec, mtu).subrange(
                #[trigger] cuts[i],
                cuts[i + 1],
            ) == unit_payloads(nals[i], codec, mtu),
    decreases nals.len(),
{
    let payloads = payloads_of(nals, codec, mtu);
    if nals.len() == 0 {
        seq![0]
    } else {
        let earlier = nals.drop_last();
        let n = earlier.len() as int;
        let before = payloads_of(earlier, codec, mtu);
        let added = unit_payloads(nals.last(), codec, mtu);
        assert forall|i: int| 0 <= i < earlier.len() implies unit_has_room(
            #[trigger] earlier[i],
            codec,
            mtu,
        ) by {
            assert(unit_has_room(nals[i], codec, mtu));
        }
        let shorter = lemma_units_received(earlier, codec, mtu);
        let cuts = shorter.push(payloads.len() as int);
        assert(unit_has_room(nals[n], codec, mtu));
        lemma_small_unit_is_whole(nals[n], codec, mtu);
        assert(payloads == before + added);
        assert forall|i: int| 0 <= i < nals.len() implies payloads.subrange(
            #[trigger] cuts[i],
            cuts[i + 1],
        ) == unit_payloads(nals[i], codec, mtu) && 0 <= cuts[i] <= cuts[i + 1] <= payloads.len() by {
            if i < n {
                assert(cuts[i] == shorter[i] && cuts[i + 1] == shorter[i + 1]);
                assert(0 <= shorter[i] <= shorter[i + 1] <= before.len());
                assert(payloads.subrange(cuts[i], cuts[i + 1]) =~= before.subrange(
                    shorter[i],
                    shorter[i + 1],
                ));
                assert(nals[i] == earlier[i]);
            } else {
                assert(cuts[n] == before.len());
                assert(payloads.subrange(cuts[n], cuts[n + 1]) =~= added);
            }
        }
        assert forall|i: int| 0 <= i < nals.len() implies {
            &&& 0 <= #[trigger] cuts[i] <= cuts[i + 1] <= payloads.len()
            &&& nals[i].len() == 0 ==> cuts[i] == cuts[i + 1]
            &&& receivable(nals[i], codec) ==> cuts[i] < cuts[i + 1] && received_unit(
                payloads.subrange(cuts[i], cuts[i + 1]),
                codec,
            ) == nals[i]
        } by {
            assert(unit_has_room(nals[i], codec, mtu));
            assert(payloads.subrange(cuts[i], cuts[i + 1]) == unit_payloads(nals[i], codec, mtu));
            lemma_small_unit_is_whole(nals[i], codec, mtu);
            if receivable(nals[i], codec) {
                lemma_unit_received(nals[i], codec, mtu);
            }
        }
        cuts
    }
}

/// The number of packets that all units of a list take together.
pub open spec fn packets_needed(nals: Seq<Seq<u8>>, codec: VideoCodec, mtu: int) -> nat
    decreases nals.len(),
{
    if nals.len() == 0 {
        0
    } else {
        unit_payloads(nals[0], codec, mtu).len() + packets_needed(nals.skip(1), codec, mtu)
    }
}

/// One more unit at the end takes its packets more.
proof fn lemma_packets_needed_push(nals: Seq<Seq<u8>>, codec: VideoCodec, mtu: int)
    requires
        nals.len() > 0,
    ensures
        packets_needed(nals, codec, mtu) == packets_needed(nals.drop_last(), codec, mtu)
            + unit_payloads(nals.last(), codec, mtu).len(),
    decreases nals.len(),
{
    if nals.len() > 1 {
        lemma_packets_needed_push(nals.skip(1), codec, mtu);
        assert(nals.skip(1).drop_last() =~= nals.drop_last().skip(1));
    } else {
        assert(nals.skip(1) =~= seq![]);
        assert(nals.drop_last() =~= seq![]);
    }
}

/// A list of units takes as many packets as its units do.
pub proof fn lemma_packets_counted(nals: Seq<Seq<u8>>, codec: VideoCodec, mtu: int)
    ensures
        payloads_of(nals, codec, mtu).len() == packets_needed(nals, codec, mtu),
    decreases nals.len(),
{
    if nals.len() > 0 {
        lemma_packets_needed_push(nals, codec, mtu);
        lemma_packets_counted(nals.drop_last(), codec, mtu);
    }
}

/// What a list of units is sent as: packets numbered one after the other, all
/// with the frame's timestamp, from which a receiver gets every unit back in
/// order; the last packet, and no other, has the marker bit, if the last unit
/// is one that a receiver can put together. The next packet gets the next
/// number.
pub proof fn lemma_frame_is_sent(
    packets: Seq<RtpPacket>,
    by: RtpPacketizer,
    after: RtpPacketizer,
    nals: Seq<Seq<u8>>,
    timestamp: u32,
    codec: VideoCodec,
) -> (cuts: Seq<int>)
    requires
        units_have_room(nals, codec, by.mtu as int),
        carried(
            packets,
            by,
            payloads_of(nals, codec, by.mtu as int),
            timestamp,
            ends_marked(nals, codec, by.mtu as int),
        ),
        after == by.advanced(packets.len() as int),
    ensures
        received_in_order(
            Seq::new(packets.len(), |k: int| packets[k].payload@),
            nals,
            codec,
            cuts,
        ),
        packets.len() == packets_needed(nals, codec, by.mtu as int),
        forall|k: int|
            0 <= k < packets.len() ==> {
                &&& (#[trigger] packets[k]).header.seq == (by.sequence + k) % 0x1_0000
                &&& packets[k].header.timestamp == timestamp
                &&& packets[k].header.ssrc == by.ssrc
                &&& packets[k].header.payload_type == by.payload_type
                &&& packets[k].payload@.len() <= by.mtu - 12
                &&& packets[k].header.marker ==> k == packets.len() - 1
            },
        nals.len() > 0 && receivable(nals.last(), codec) ==> packets.len() > 0
            && packets.last().header.marker,
        nals.len() > 0 && nals.last().len() == 0 && packets.len() > 0
            ==> !packets.last().header.marker,
        after.sequence == (by.sequence + packets.len()) % 0x1_0000,
        after.ssrc == by.ssrc && after.payload_type == by.payload_type && after.mtu == by.mtu,
        after.clock_rate == by.clock_rate && after.consumers == by.consumers,
        after.stream_metadata == by.stream_metadata,
{
    let mtu = by.mtu as int;
    let payloads = payloads_of(nals, codec, mtu);
    let seen = Seq::new(packets.len(), |k: int| packets[k].payload@);
    assert(seen =~= payloads);
    lemma_packets_counted(nals, codec, mtu);
    lemma_all_packets_fit(nals, codec, mtu);
    assert forall|k: int| 0 <= k < packets.len() implies (
    #[trigger] packets[k]).payload@.len() <= mtu - 12 by {
        assert(packets[k].payload@ == payloads[k]);
    }
    let cuts = lemma_units_received(nals, codec, mtu);
    if nals.len() > 0 {
        let n = nals.len() - 1;
        assert(unit_has_room(nals[n], codec, mtu));
        lemma_small_unit_is_whole(nals[n], codec, mtu);
        if receivable(nals[n], codec) {
            lemma_unit_received(nals[n], codec, mtu);
            assert(cuts[n] < cuts[n + 1]);
            assert(packets[packets.len() - 1] == packets.last());
        } else if packets.len() > 0 {
            assert(packets[packets.len() - 1] == packets.last());
        }
    }
    cuts
}

/// The timestamp of a packet is its time in ticks of the clock, rounded toward
/// zero, modulo 2^32; zero where the time base has a part that is not positive.
pub proof fn lemma_ticks(pts: int, clock_rate: int, timebase: TimeBase, ticks: int)
    requires
        ticks >= 0,
    ensures
        timebase.num > 0 && timebase.den > 0 && ticks * timebase.den <= pts * clock_rate
            * timebase.num < (ticks + 1) * timebase.den ==> rtp_timestamp(pts, clock_rate, timebase)
            == ticks % 0x1_0000_0000,
        timebase.num > 0 && timebase.den > 0 && ticks * timebase.den <= -(pts * clock_rate
            * timebase.num) < (ticks + 1) * timebase.den ==> rtp_timestamp(
            pts,
            clock_rate,
            timebase,
        ) == (-ticks) % 0x1_0000_0000,
        timebase.num <= 0 || timebase.den <= 0 ==> rtp_timestamp(pts, clock_rate, timebase) == 0,
{
    let n = pts * clock_rate * timebase.num;
    let d = timebase.den as int;
    if timebase.num > 0 && d > 0 {
        if ticks * d <= n < (ticks + 1) * d {
            lemma_quotient_is(n, d, ticks);
        }
        if ticks * d <= -n < (ticks + 1) * d {
            lemma_quotient_is(-n, d, ticks);
            if n == 0 {
                lemma_quotient_is(0, d, 0);
                assert(ticks == 0) by (nonlinear_arith)
                    requires
                        ticks >= 0,
                        d > 0,
                        ticks * d <= 0,
                ;
            }
            if n > 0 {
                assert(ticks * d >= 0) by (nonlinear_arith)
                    requires
                        ticks >= 0,
                        d > 0,
                ;
            }
        }
        if n < 0 {
            assert(ticks * d >= 0) by (nonlinear_arith)
                requires
                    ticks >= 0,
                    d > 0,
            ;
        }
    }
}

/// A quotient, by the multiples of the divisor around the dividend.
proof fn lemma_quotient_is(n: int, d: int, q: int)
    requires
        d > 0,
        0 <= q,
        q * d <= n < (q + 1) * d,
    ensures
        n / d == q,
        n >= 0,
{
    assert(n / d == q && n >= 0) by (nonlinear_arith)
        requires
            d > 0,
            0 <= q,
            q * d <= n < (q + 1) * d,
    ;
}

/// The time of a packet is its presentation time; the decoding time stands in
/// where that is missing or zero.
pub proof fn lemma_time_of_packet(pts: i64, dts: i64)
    ensures
        pts != 0 ==> source_timestamp(Some(pts), Some(dts)) == pts && source_timestamp(
            Some(pts),
            None,
        ) == pts,
        source_timestamp(Some(0), Some(dts)) == dts,
        source_timestamp(None, Some(dts)) == dts,
        source_timestamp(None, None) == 0,
{
}

/// What a packet of the source is sent as, once the stream is known: packets
/// with the packet's time on the RTP clock from which a receiver gets every
/// unit back. The parameter sets among the units are taken over; nothing else
/// that is known of the stream changes.
pub proof fn lemma_source_packet_is_sent(
    by: RtpPacketizer,
    after: RtpPacketizer,
    known: SrcStreamState,
    pts: Option<i64>,
    dts: Option<i64>,
    data: Seq<u8>,
    packets: Seq<RtpPacket>,
) -> (cuts: Seq<int>)
    requires
        by.stream_metadata == Some(known),
        by.can_take(pts, dts, Some(data)),
        by.takes(after, pts, dts, Some(data), packets),
    ensures
        ({
            let nals = detected_units(data, known.framing_format);
            &&& received_in_order(
                Seq::new(packets.len(), |k: int| packets[k].payload@),
                nals,
                known.codec,
                cuts,
            )
            &&& nals.len() > 0 && receivable(nals.last(), known.codec) ==> packets.len() > 0
                && packets.last().header.marker
            &&& after.stream_metadata matches Some(then)
            &&& then.codec == known.codec && then.framing_format == known.framing_format
                && then.timebase == known.timebase
            &&& then.codec_params@ == known.codec_params@.with_units(known.codec, nals)
        }),
        forall|k: int|
            0 <= k < packets.len() ==> {
                &&& (#[trigger] packets[k]).header.seq == (by.sequence + k) % 0x1_0000
                &&& packets[k].header.timestamp == rtp_timestamp(
                    source_timestamp(pts, dts) as int,
                    by.clock_rate as int,
                    known.timebase,
                )
                &&& packets[k].header.ssrc == by.ssrc
                &&& packets[k].header.payload_type == by.payload_type
                &&& packets[k].header.marker ==> k == packets.len() - 1
            },
        after.sequence == (by.sequence + packets.len()) % 0x1_0000,
        after.ssrc == by.ssrc && after.payload_type == by.payload_type && after.mtu == by.mtu,
        after.clock_rate == by.clock_rate && after.consumers == by.consumers,
{
    let nals = detected_units(data, known.framing_format);
    let timestamp = rtp_timestamp(
        source_timestamp(pts, dts) as int,
        by.clock_rate as int,
        known.timebase,
    ) as u32;
    lemma_frame_is_sent(
        packets,
        by,
        by.advanced(packets.len() as int),
        nals,
        timestamp,
        known.codec,
    )
}

/// Before a stream is known nothing is sent, nor for a packet without data.
pub proof fn lemma_nothing_to_send(
    by: RtpPacketizer,
    after: RtpPacketizer,
    pts: Option<i64>,
    dts: Option<i64>,
    data: Option<Seq<u8>>,
    packets: Seq<RtpPacket>,
)
    requires
        by.takes(after, pts, dts, data, packets),
        by.stream_metadata is None || data is None,
    ensures
        packets.len() == 0,
        after == by,
{
}

/// An ordinary packet can be sent: one whose time is nowhere near the limits of
/// 64 bits, in packets of ordinary size.
pub proof fn lemma_ordinary_packet_accepted(
    by: RtpPacketizer,
    known: SrcStreamState,
    pts: Option<i64>,
    dts: Option<i64>,
    data: Option<Seq<u8>>,
)
    requires
        by.stream_metadata == Some(known),
        by.mtu >= 16,
        by.clock_rate <= 90000,
        known.timebase.num <= 1001,
        -0x10_0000_0000 <= pts.unwrap_or(0) <= 0x10_0000_0000,
        -0x10_0000_0000 <= dts.unwrap_or(0) <= 0x10_0000_0000,
    ensures
        by.can_take(pts, dts, data),
{
    let t = source_timestamp(pts, dts) as int;
    let rate = by.clock_rate as int;
    let bound: int = 0x10_0000_0000int * 90000;
    lemma_product_bound(t, rate, 0x10_0000_0000, 90000);
    if known.timebase.num > 0 {
        lemma_product_bound(t * rate, known.timebase.num as int, bound, 1001);
        assert(bound * 1001 <= i64::MAX);
    }
}

/// A stream whose extradata can be read becomes known, with its codec, its time
/// base, the size of its lengths and its parameter sets. The packetizer
/// refuses a second stream, and extradata that is missing, empty or unreadable;
/// then nothing changes.
pub proof fn lemma_stream_becomes_known(
    by: RtpPacketizer,
    after: RtpPacketizer,
    metadata: FFmpegVideoMetadata,
    data: Vec<u8>,
    r: Result<(), InitializeError>,
)
    requires
        by.learns(after, metadata, r),
        metadata.extradata == Some(data),
    ensures
        r is Ok <==> by.stream_metadata is None && data@.len() > 0 && extradata_of(
            data@,
            metadata.codec,
        ) is Some,
        r is Err ==> after == by,
        r is Ok ==> {
            let e = extradata_of(data@, metadata.codec)->0;
            &&& after.stream_metadata matches Some(known)
            &&& known.codec == metadata.codec
            &&& known.timebase == metadata.timebase
            &&& known.framing_format is Avcc
            &&& known.framing_format->length_size == e.length_size
            &&& known.codec_params@ == CodecSets::none().with_extradata(metadata.codec, e)
            &&& after.sequence == by.sequence && after.ssrc == by.ssrc && after.mtu == by.mtu
        },
{
}

} // verus!
