use media_server::common::codec_parameters::CodecParameters;
use media_server::common::framing::FramingFormat;
use media_server::common::packetizer::{InitializeError, RtpPacketizer};
use media_server::common::rtp::{RtpHeader, RtpPacket};
use media_server::common::stitcher::{RtpStitcher, StitchingConsumer};
use media_server::common::traits::{PublishError, Resolution};
use media_server::common::{FFmpegVideoMetadata, TimeBase, VideoCodec};
use std::sync::Arc;

#[test]
fn test_small_nal_single_packet() {
    let mut packetizer = RtpPacketizer::new(12345, 96);
    let nal = vec![0x67, 0x42, 0x00, 0x1e];

    let frames = packetizer.packetize(&[nal.clone()], 0, &VideoCodec::H264);
    assert_eq!(frames.len(), 1);

    // Payload should match the NAL unit
    assert_eq!(&*frames[0].payload, &nal[..]);
    assert_eq!(frames[0].header.ssrc, 12345);
    assert_eq!(frames[0].header.payload_type, 96);
}

#[test]
fn test_large_nal_fragmentation() {
    let mut packetizer = RtpPacketizer::new(12345, 96).with_mtu(100);
    let nal = vec![0x65; 500];

    let frames = packetizer.packetize(&[nal], 0, &VideoCodec::H264);
    assert!(frames.len() > 1);

    // First FU-A packet: FU indicator + FU header with Start bit
    let first_payload = &frames[0].payload;
    assert_eq!(first_payload[0] & 0x1F, 28); // FU-A type
    assert!(first_payload[1] & 0x80 != 0); // Start bit set
    assert!(first_payload[1] & 0x40 == 0); // End bit not set

    // Last FU-A packet: End bit set
    let last_payload = &frames[frames.len() - 1].payload;
    assert!(last_payload[1] & 0x80 == 0); // Start bit not set
    assert!(last_payload[1] & 0x40 != 0); // End bit set
    assert!(frames[frames.len() - 1].header.marker); // Marker bit set
}

#[test]
fn lib_test_rtp_frame_serialization() {
    let header = RtpHeader {
        payload_type: 96,
        marker: true,
        seq: 1234,
        timestamp: 90000,
        ssrc: 0xDEADBEEF,
    };
    let payload: Arc<[u8]> = Arc::from(vec![1, 2, 3, 4]);
    let frame = RtpPacket::new(header, payload);

    let bytes = frame.to_bytes();
    assert_eq!(bytes.len(), 16); // 12 header + 4 payload

    // Parse it back
    let parsed = RtpHeader::from_bytes(&bytes).unwrap();
    assert_eq!(parsed.payload_type, 96);
    assert!(parsed.marker);
    assert_eq!(parsed.seq, 1234);
    assert_eq!(parsed.timestamp, 90000);
    assert_eq!(parsed.ssrc, 0xDEADBEEF);
}

#[test]
fn rtp_test_rtp_frame_serialization() {
    let header = RtpHeader {
        payload_type: 96,
        marker: true,
        seq: 1234,
        timestamp: 90000,
        ssrc: 0xDEADBEEF,
    };
    let payload: Arc<[u8]> = Arc::from(vec![1, 2, 3, 4]);
    let frame = RtpPacket::new(header, payload);

    let bytes = frame.to_bytes();
    assert_eq!(bytes.len(), 16); // 12 header + 4 payload

    // Parse it back
    let parsed = RtpHeader::from_bytes(&bytes).unwrap();
    assert_eq!(parsed.payload_type, 96);
    assert!(parsed.marker);
    assert_eq!(parsed.seq, 1234);
    assert_eq!(parsed.timestamp, 90000);
    assert_eq!(parsed.ssrc, 0xDEADBEEF);
}

#[test]
fn test_update_from_h264_extradata() {
    let sps = vec![0x67, 0x42, 0x00, 0x1e];
    let pps = vec![0x68, 0xce, 0x3c, 0x80];
    let extradata = vec![
        0x01, 0x64, 0x00, 0x1e, 0xff, 0xe1, 0x00, 0x04, 0x67, 0x42, 0x00, 0x1e, 0x01, 0x00, 0x04,
        0x68, 0xce, 0x3c, 0x80,
    ];

    let mut params = CodecParameters::default();
    params.update_from_extradata(&VideoCodec::H264, &extradata);

    assert_eq!(params.nal_length_size, Some(4));
    assert_eq!(params.sps, Some(sps));
    assert_eq!(params.pps, Some(pps));
}

#[test]
fn test_update_from_h265_extradata() {
    let vps = vec![0x40, 0x01, 0x0c];
    let sps = vec![0x42, 0x01, 0x01, 0x60];
    let pps = vec![0x44, 0x01, 0xc0];

    let mut extradata = vec![
        0x01, 0x01, 0x00, 0x00, 0x00, 0x00, 0x00, 0x00, 0x00, 0x00, 0x00, 0x00, 0x1e, 0xf0, 0x00,
        0xfc, 0xfc, 0xf8, 0xf8, 0x00, 0x00, 0x03, 0x03,
    ];

    push_h265_array(&mut extradata, 32, &vps);
    push_h265_array(&mut extradata, 33, &sps);
    push_h265_array(&mut extradata, 34, &pps);

    let mut params = CodecParameters::default();
    params.update_from_extradata(&VideoCodec::H265, &extradata);

    assert_eq!(params.nal_length_size, Some(4));
    assert_eq!(params.vps, Some(vps));
    assert_eq!(params.sps, Some(sps));
    assert_eq!(params.pps, Some(pps));
}

fn push_h265_array(buf: &mut Vec<u8>, nal_type: u8, nal: &[u8]) {
    buf.push(0x80 | (nal_type & 0x3f));
    buf.extend_from_slice(&1u16.to_be_bytes());
    buf.extend_from_slice(&(nal.len() as u16).to_be_bytes());
    buf.extend_from_slice(nal);
}

#[test]
fn header_bytes_are_big_endian() {
    let header = RtpHeader {
        payload_type: 0x60,
        marker: false,
        seq: 0x0102,
        timestamp: 0x03040506,
        ssrc: 0x0708090a,
    };
    assert_eq!(
        header.to_bytes(),
        [0x80, 0x60, 1, 2, 3, 4, 5, 6, 7, 8, 9, 10]
    );
    assert!(RtpHeader::from_bytes(&[0x80; 11]).is_none());
    let packet = RtpPacket::new(header, Arc::from(Vec::new()));
    assert!(packet.is_empty());
    assert_eq!(packet.len(), 12);
}

#[test]
fn format_parameters() {
    let mut params = CodecParameters::default();
    assert_eq!(params.fmtp(&VideoCodec::H264), "packetization-mode=1");
    assert_eq!(params.fmtp(&VideoCodec::H265), "sprop-max-don-diff=0");
    params.sps = Some(vec![0x67, 0x42, 0x00, 0x1e]);
    assert_eq!(params.fmtp(&VideoCodec::H264), "packetization-mode=1");
    params.pps = Some(vec![0x68, 0xce, 0x3c, 0x80]);
    assert_eq!(
        params.fmtp(&VideoCodec::H264),
        "packetization-mode=1;sprop-parameter-sets=Z0IAHg==,aM48gA=="
    );
    params.vps = Some(vec![0x40, 0x01, 0x0c]);
    assert_eq!(
        params.fmtp(&VideoCodec::H265),
        "sprop-max-don-diff=0;sprop-vps=QAEM;sprop-sps=Z0IAHg==;sprop-pps=aM48gA=="
    );
}

#[test]
fn fragments_put_together_give_the_unit() {
    let mut nal: Vec<u8> = (0..=255).cycle().take(401).collect();
    nal[0] = 0x65;
    let mut packetizer = RtpPacketizer::with_sequence(7, 96, 0xfffe).with_mtu(100);
    let frames = packetizer.packetize(&[vec![0x67, 1], nal.clone()], 5, &VideoCodec::H264);
    assert_eq!(frames.len(), 6);
    let numbers: Vec<u16> = frames.iter().map(|f| f.header.seq).collect();
    assert_eq!(numbers, vec![0xfffe, 0xffff, 0, 1, 2, 3]);
    assert_eq!(packetizer.sequence, 4);
    let parts = &frames[1..];
    let mut joined = vec![(parts[0].payload[0] & 0xe0) | (parts[0].payload[1] & 0x1f)];
    for part in parts {
        assert!(part.len() <= 100);
        assert_eq!(part.payload[0], 0x7c);
        joined.extend_from_slice(&part.payload[2..]);
    }
    assert_eq!(joined, nal);
    let marked: Vec<bool> = frames.iter().map(|f| f.header.marker).collect();
    assert_eq!(marked, vec![false, false, false, false, false, true]);
}

#[test]
fn h265_fragments() {
    let mut nal = vec![9u8; 200];
    nal[0] = 0x27;
    nal[1] = 0x0b;
    let mut packetizer = RtpPacketizer::with_sequence(7, 96, 0).with_mtu(100);
    let frames = packetizer.packetize(&[nal.clone()], 5, &VideoCodec::H265);
    assert_eq!(frames.len(), 3);
    assert_eq!(&frames[0].payload[..3], &[99, 0x0b, 0x93]);
    assert_eq!(&frames[1].payload[..3], &[99, 0x0b, 0x13]);
    assert_eq!(&frames[2].payload[..3], &[99, 0x0b, 0x53]);
    let data: usize = frames.iter().map(|f| f.payload.len() - 3).sum();
    assert_eq!(data, 198);
    // A last unit without payload leaves the packets unmarked.
    let frames = packetizer.packetize(&[vec![0x40, 1], vec![]], 5, &VideoCodec::H265);
    assert_eq!(frames.len(), 1);
    assert!(!frames[0].header.marker);
}

#[test]
fn rtp_timestamps() {
    let packetizer = RtpPacketizer::new(1, 96);
    let ms = TimeBase { num: 1, den: 1000 };
    assert_eq!(packetizer.pts_to_rtp_timestamp(1000, &ms), 90000);
    assert_eq!(packetizer.pts_to_rtp_timestamp(-1, &ms), 0xffff_ffa6);
    let odd = TimeBase { num: 1, den: 7 };
    assert_eq!(packetizer.pts_to_rtp_timestamp(1, &odd), 12857);
    assert_eq!(packetizer.pts_to_rtp_timestamp(-1, &odd), 0u32.wrapping_sub(12857));
    let bad = TimeBase { num: 1, den: 0 };
    assert_eq!(packetizer.pts_to_rtp_timestamp(5, &bad), 0);
}

fn metadata(extradata: Option<Vec<u8>>) -> FFmpegVideoMetadata {
    FFmpegVideoMetadata {
        codec: VideoCodec::H264,
        extradata,
        timebase: TimeBase { num: 1, den: 90000 },
    }
}

fn avcc_record() -> Vec<u8> {
    vec![
        0x01, 0x64, 0x00, 0x1e, 0xff, 0xe1, 0x00, 0x04, 0x67, 0x42, 0x00, 0x1e, 0x01, 0x00, 0x04,
        0x68, 0xce, 0x3c, 0x80,
    ]
}

#[test]
fn initialization() {
    let mut packetizer = RtpPacketizer::new(1, 96);
    assert_eq!(
        packetizer.initialize(&metadata(None)),
        Err(InitializeError::NoExtradata)
    );
    assert_eq!(
        packetizer.initialize(&metadata(Some(vec![]))),
        Err(InitializeError::EmptyExtradata)
    );
    assert_eq!(
        packetizer.initialize(&metadata(Some(vec![9; 30]))),
        Err(InitializeError::UnreadableExtradata)
    );
    assert!(packetizer.get_codec_params().is_none());
    assert_eq!(packetizer.on_new_packet(Some(1), None, Some(&[0, 0, 1, 0x65])).len(), 0);
    assert_eq!(packetizer.initialize(&metadata(Some(avcc_record()))), Ok(()));
    assert_eq!(
        packetizer.initialize(&metadata(Some(avcc_record()))),
        Err(InitializeError::AlreadyInitialized)
    );
    let params = packetizer.get_codec_params().unwrap();
    assert_eq!(params.nal_length_size, Some(4));
    assert_eq!(params.sps, Some(vec![0x67, 0x42, 0x00, 0x1e]));
}

#[test]
fn packets_of_a_stream() {
    let mut packetizer = RtpPacketizer::with_sequence(1, 96, 10);
    assert_eq!(packetizer.initialize(&metadata(Some(avcc_record()))), Ok(()));
    assert_eq!(
        packetizer.stream_metadata.as_ref().unwrap().framing_format,
        FramingFormat::Avcc { length_size: 4 }
    );
    // Annex-B data, whatever the extradata announced.
    let frames = packetizer.on_new_packet(Some(0), Some(77), Some(&[0, 0, 1, 0x67, 9, 0, 0, 1, 0x65]));
    assert_eq!(frames.len(), 2);
    assert_eq!(frames[0].header.timestamp, 77);
    assert_eq!(frames[1].header.seq, 11);
    assert!(frames[1].header.marker);
    assert_eq!(packetizer.get_codec_params().unwrap().sps, Some(vec![0x67, 9]));
    // Length-prefixed data.
    let frames = packetizer.on_new_packet(Some(5), Some(4), Some(&[0, 0, 0, 1, 0x65]));
    assert_eq!(frames.len(), 1);
    assert_eq!(frames[0].header.timestamp, 5);
    assert_eq!(packetizer.on_new_packet(None, None, None).len(), 0);
}

#[test]
fn consumers_are_listed_once() {
    let mut packetizer = RtpPacketizer::new(1, 96);
    packetizer.add_consumer(5);
    packetizer.add_consumer(6);
    packetizer.add_consumer(5);
    assert_eq!(packetizer.consumers, vec![5, 6]);
    packetizer.remove_consumer(7);
    packetizer.remove_consumer(5);
    assert_eq!(packetizer.consumers, vec![6]);
}

fn packet(timestamp: u32) -> RtpPacket {
    let header = RtpHeader {
        payload_type: 96,
        marker: true,
        seq: 7,
        timestamp,
        ssrc: 99,
    };
    RtpPacket::new(header, Arc::from(vec![1, 2]))
}

#[test]
fn stitching_across_sources() {
    let mut stitcher = RtpStitcher::with_sequence(5, 0xffff);
    let first = stitcher.stitch(&packet(1000));
    assert_eq!(first.header.timestamp, 1000);
    assert_eq!(first.header.seq, 0xffff);
    assert_eq!(first.header.ssrc, 5);
    assert!(first.header.marker);
    assert_eq!(&*first.payload, &[1, 2]);
    let second = stitcher.stitch(&packet(4000));
    assert_eq!(second.header.timestamp, 4000);
    assert_eq!(second.header.seq, 0);
    // A jump of more than a second is another source.
    let third = stitcher.stitch(&packet(4_000_000));
    assert_eq!(third.header.timestamp, 7000);
    assert_eq!(stitcher.stitch(&packet(4_003_600)).header.timestamp, 10600);
    // A jump back as well.
    assert_eq!(stitcher.stitch(&packet(10)).header.timestamp, 13600);
    // A jump of just a second is not.
    assert_eq!(stitcher.stitch(&packet(90010)).header.timestamp, 103600);
    assert_eq!(stitcher.ssrc(), 5);
    assert_eq!(stitcher.seq, 5);
}

#[test]
fn announced_switch() {
    let mut consumer = StitchingConsumer::new(42);
    let first = consumer.on_new_packet(&packet(u32::MAX - 1000));
    assert_eq!(first.header.timestamp, u32::MAX - 1000);
    consumer.adjust_for_source_switch(500);
    let second = consumer.on_new_packet(&packet(500));
    assert_eq!(second.header.timestamp, 1999);
    assert_eq!(second.header.seq, first.header.seq.wrapping_add(1));
    assert_eq!(second.header.ssrc, first.header.ssrc);
    assert_eq!(consumer.inner(), 42);
    consumer.stitcher.reset();
    assert!(!consumer.stitcher.has_received_packet);
    assert_eq!(consumer.stitcher.ssrc, first.header.ssrc);
}

#[test]
fn stitching_a_list() {
    let mut one = RtpStitcher::with_sequence(5, 3);
    let mut other = one;
    let frames = vec![packet(1), packet(3001), packet(500_000)];
    let list = one.stitch_all(&frames);
    for (i, frame) in frames.iter().enumerate() {
        assert_eq!(list[i].header, other.stitch(frame).header);
    }
}

#[test]
fn random_numbers_differ() {
    let numbers: Vec<u16> = (0..64).map(|_| RtpPacketizer::new(1, 96).sequence).collect();
    assert!(numbers.iter().any(|n| *n != numbers[0]));
    let ssrcs: Vec<u32> = (0..64).map(|_| StitchingConsumer::new(1).stitcher.ssrc).collect();
    assert!(ssrcs.iter().any(|n| *n != ssrcs[0]));
}

#[test]
fn publish_errors_in_words() {
    assert_eq!(PublishError::ConnectionClosed.message(), "Connection closed");
    assert_eq!(PublishError::BufferFull.message(), "Send buffer full");
    assert_eq!(PublishError::Io("x".to_string()).message(), "IO error: x");
    let mismatch = PublishError::CodecMismatch {
        expected: VideoCodec::H264,
        got: VideoCodec::H265,
    };
    assert_eq!(mismatch.message(), "Codec mismatch: expected H264, got H265");
    assert_eq!(PublishError::NotInitialized.message(), "Not initialized");
    let large = PublishError::PacketTooLarge { size: 9, max: 8 };
    assert_eq!(large.message(), "Packet too large: 9 > 8");
    let small = Resolution { width: 1, height: 2 };
    assert_eq!(small, Resolution { width: 1, height: 2 });
}
