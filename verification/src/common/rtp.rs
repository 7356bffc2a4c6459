//! RTP packets.
use crate::common::framing::{be16, be32, read_be16, read_be32};
use std::sync::Arc;
use vstd::prelude::*;

verus! {

/// RTP header fields that can be modified per-consumer without copying payload.
/// Based on RFC 3550 RTP header structure.
#[derive(Debug, Clone, Copy, PartialEq, Eq, Structural)]
pub struct RtpHeader {
    /// Payload type (7 bits)
    pub payload_type: u8,
    /// Marker bit - typically indicates end of frame
    pub marker: bool,
    /// Sequence number (16 bits)
    pub seq: u16,
    /// Timestamp (32 bits) - media clock
    pub timestamp: u32,
    /// Synchronization source identifier (32 bits)
    pub ssrc: u32,
}

/// A 16-bit number in big-endian order.
pub open spec fn be16_bytes(n: u16) -> Seq<u8> {
    seq![(n / 256) as u8, (n % 256) as u8]
}

/// A 32-bit number in big-endian order.
pub open spec fn be32_bytes(n: u32) -> Seq<u8> {
    seq![
        (n / 0x100_0000) as u8,
        (n / 0x1_0000 % 256) as u8,
        (n / 0x100 % 256) as u8,
        (n % 256) as u8,
    ]
}

impl RtpHeader {
    /// The header on the wire: version 2, no padding, no extension, no CSRC.
    pub open spec fn encoded(self) -> Seq<u8> {
        let marker_bit: int = if self.marker {
            128
        } else {
            0
        };
        seq![0x80, (marker_bit + self.payload_type % 128) as u8] + be16_bytes(self.seq)
            + be32_bytes(self.timestamp) + be32_bytes(self.ssrc)
    }

    /// The header that the first twelve bytes of a packet spell.
    pub open spec fn decoded(packet: Seq<u8>) -> RtpHeader {
        RtpHeader {
            payload_type: (packet[1] % 128) as u8,
            marker: packet[1] >= 128,
            seq: be16(packet, 2) as u16,
            timestamp: be32(packet, 4) as u32,
            ssrc: be32(packet, 8) as u32,
        }
    }

    /// Serialize header to 12-byte RTP header format.
    /// Version=2, no padding, no extension, no CSRC.
    pub fn to_bytes(&self) -> (r: [u8; 12])
        ensures
            r@ == self.encoded(),
    {
        let marker_bit: u8 = if self.marker {
            0x80
        } else {
            0
        };
        let buf: [u8; 12] = [
            // V=2, P=0, X=0, CC=0
            0x80,
            // M + PT
            marker_bit + self.payload_type % 128,
            // Sequence number
            (self.seq / 256) as u8,
            (self.seq % 256) as u8,
            // Timestamp
            (self.timestamp / 0x100_0000) as u8,
            (self.timestamp / 0x1_0000 % 256) as u8,
            (self.timestamp / 0x100 % 256) as u8,
            (self.timestamp % 256) as u8,
            // SSRC
            (self.ssrc / 0x100_0000) as u8,
            (self.ssrc / 0x1_0000 % 256) as u8,
            (self.ssrc / 0x100 % 256) as u8,
            (self.ssrc % 256) as u8,
        ];
        assert(buf@ =~= self.encoded());
        buf
    }

    /// Parse header from raw RTP packet bytes.
    /// Returns None if packet is too short.
    pub fn from_bytes(packet: &[u8]) -> (r: Option<Self>)
        ensures
            packet@.len() < 12 ==> r is None,
            packet@.len() >= 12 ==> r == Some(RtpHeader::decoded(packet@)),
    {
        if packet.len() < 12 {
            return None;
        }
        Some(
            RtpHeader {
                payload_type: packet[1] % 128,
                marker: packet[1] >= 128,
                seq: read_be16(packet, 2),
                timestamp: read_be32(packet, 4),
                ssrc: read_be32(packet, 8),
            },
        )
    }
}

/// Parsing a header that was serialized gives the header back. A payload type
/// has seven bits: of a larger one the low seven come back.
pub proof fn lemma_header_round_trip(header: RtpHeader, payload: Seq<u8>)
    ensures
        (header.encoded() + payload).len() >= 12,
        RtpHeader::decoded(header.encoded() + payload) == (RtpHeader {
            payload_type: (header.payload_type % 128) as u8,
            ..header
        }),
        header.payload_type < 128 ==> RtpHeader::decoded(header.encoded() + payload) == header,
{
    let packet = header.encoded() + payload;
    assert(packet[1] == header.encoded()[1]);
    assert(packet[2] == header.encoded()[2]);
    assert(packet[3] == header.encoded()[3]);
    assert(packet[4] == header.encoded()[4]);
    assert(packet[8] == header.encoded()[8]);
}

/// RTP frame with header separated from payload for zero-copy stitching.
/// The payload is shared (Arc) across all consumers; only headers are cloned/modified.
#[derive(Debug, Clone)]
pub struct RtpPacket {
    pub header: RtpHeader,
    /// Payload data (without RTP header). Shared across consumers.
    pub payload: Arc<[u8]>,
}

impl RtpPacket {
    /// Create a new RtpFrame from header and payload.
    pub fn new(header: RtpHeader, payload: Arc<[u8]>) -> (r: Self)
        ensures
            r.header == header,
            r.payload == payload,
    {
        RtpPacket { header, payload }
    }

    /// The packet on the wire: the header and the payload behind it.
    pub open spec fn encoded(self) -> Seq<u8> {
        self.header.encoded() + self.payload@
    }

    /// Serialize to complete RTP packet bytes (header + payload).
    pub fn to_bytes(&self) -> (r: Vec<u8>)
        ensures
            r@ == self.encoded(),
    {
        let header_bytes = self.header.to_bytes();
        let mut packet: Vec<u8> = Vec::new();
        packet.extend_from_slice(header_bytes.as_slice());
        packet.extend_from_slice(&*self.payload);
        assert(packet@ =~= self.encoded());
        packet
    }

    /// Total packet size (header + payload)
    pub fn len(&self) -> (r: usize)
        requires
            12 + self.payload@.len() <= usize::MAX,
        ensures
            r == self.encoded().len(),
            r == 12 + self.payload@.len(),
    {
        12 + self.payload.len()
    }

    /// Check if the packet carries no payload.
    pub fn is_empty(&self) -> (r: bool)
        ensures
            r == (self.payload@.len() == 0),
    {
        self.payload.len() == 0
    }
}

/// `Arc::from` of a vector shares its contents.
#[verifier::external_body]
pub(crate) fn shared(bytes: Vec<u8>) -> (r: Arc<[u8]>)
    ensures
        r@ == bytes@,
{
    Arc::from(bytes)
}

/// Where the fields of a header stand: version 2 and nothing else in the first
/// byte, the marker above the payload type in the second, then the numbers with
/// their high bytes first.
pub proof fn lemma_header_layout(header: RtpHeader)
    ensures
        ({
            let b = header.encoded();
            &&& b.len() == 12
            &&& b[0] == 0x80
            &&& b[1] >= 128 <==> header.marker
            &&& b[1] % 128 == header.payload_type % 128
            &&& b[2] * 256 + b[3] == header.seq
            &&& b[4] * 0x100_0000 + b[5] * 0x1_0000 + b[6] * 256 + b[7] == header.timestamp
            &&& b[8] * 0x100_0000 + b[9] * 0x1_0000 + b[10] * 256 + b[11] == header.ssrc
        }),
{
}

/// The header that is read from a packet, by the places of its fields.
pub proof fn lemma_header_read(b: Seq<u8>)
    requires
        b.len() >= 12,
    ensures
        ({
            let header = RtpHeader::decoded(b);
            &&& header.marker <==> b[1] >= 128
            &&& header.payload_type == b[1] % 128
            &&& header.seq == b[2] * 256 + b[3]
            &&& header.timestamp == b[4] * 0x100_0000 + b[5] * 0x1_0000 + b[6] * 256 + b[7]
            &&& header.ssrc == b[8] * 0x100_0000 + b[9] * 0x1_0000 + b[10] * 256 + b[11]
        }),
{
}

/// A packet on the wire is its header in twelve bytes and its payload.
pub proof fn lemma_packet_layout(packet: RtpPacket)
    ensures
        packet.encoded().take(12) == packet.header.encoded(),
        packet.encoded().skip(12) == packet.payload@,
{
    assert(packet.encoded().take(12) =~= packet.header.encoded());
    assert(packet.encoded().skip(12) =~= packet.payload@);
}

} // verus!
