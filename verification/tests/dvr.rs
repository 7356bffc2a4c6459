use media_server::common::framing::FramingFormat;
use media_server::common::packetizer::RtpPacketizer;
use media_server::common::{FFmpegVideoMetadata, TimeBase, VideoCodec};
use media_server::domain::dvr::filesystem::{
    find_next_recording, find_recording_for_timestamp, generate_active_recording_filename,
    generate_finished_recording_filename, get_digest_dvr_dir, get_stream_dvr_dir,
    list_recordings_for_stream_id, parse_recording_filename, FoundFile, RecordingMetadata,
};
use media_server::domain::dvr::recorder::{to_nanoseconds, DvrRecorder};
use media_server::sources::dvr::{
    await_state, byte_stream_caps, links_pad, media_type, packetize_sample, parser_element,
    rtp_timestamp_of, stop_steps, DvrPlayer, PipelineMessage, PipelineState, SeekError, StateWait,
    StopStep,
};

fn recording(start_time: u64, end_time: Option<u64>) -> RecordingMetadata {
    RecordingMetadata {
        path: format!("dvr/x/{}", start_time),
        start_time,
        end_time,
    }
}

fn file(name: &str, size: u64) -> FoundFile {
    FoundFile {
        path: format!("dvr/x/{}", name),
        name: name.to_string(),
        is_file: true,
        size,
    }
}

#[test]
fn directories() {
    assert_eq!(
        get_stream_dvr_dir(&"abc".to_string()),
        "dvr/ba7816bf8f01cfea414140de5dae2223b00361a396177a9cb410ff61f20015ad"
    );
    assert_eq!(
        get_stream_dvr_dir(&String::new()),
        "dvr/e3b0c44298fc1c149afbf4c8996fb92427ae41e4649b934ca495991b7852b855"
    );
    assert_eq!(get_digest_dvr_dir(&[0x00, 0xff, 0x0a]), "dvr/00ff0a");
    let dir = get_stream_dvr_dir(&"../../etc/passwd \u{1f600}".to_string());
    assert_eq!(dir.len(), 68);
    assert!(dir[4..].chars().all(|c| c.is_ascii_digit() || ('a'..='f').contains(&c)));
}

#[test]
fn file_names() {
    assert_eq!(generate_active_recording_filename(1700), "1700_latest.mp4");
    assert_eq!(generate_finished_recording_filename(0, u64::MAX), "0_18446744073709551615.mp4");
    assert_eq!(parse_recording_filename("1700_latest.mp4"), Some((1700, None)));
    assert_eq!(parse_recording_filename("0_18446744073709551615.mp4"), Some((0, Some(u64::MAX))));
    assert_eq!(parse_recording_filename("7_other.mp4"), Some((7, None)));
    assert_eq!(parse_recording_filename("7_.mp4"), Some((7, None)));
    for name in [
        "", ".mp4", "_.mp4", "7.mp4", "x_latest.mp4", "7_8_9.mp4", "7_latest.MP4", "7_latest",
        "18446744073709551616_latest.mp4", "-7_8.mp4",
    ] {
        assert_eq!(parse_recording_filename(name), None, "{}", name);
    }
}

#[test]
fn recordings_are_listed_in_order() {
    let mut folder = file("5_6.mp4", 1000);
    folder.is_file = false;
    let entries = vec![
        file("30_latest.mp4", 664),
        file("10_20.mp4", 1000),
        folder,
        file("40_50.mp4", 663),
        file("notes.txt", 1000),
        file("10_15.mp4", 1000),
    ];
    let found = list_recordings_for_stream_id(&entries);
    let paths: Vec<&str> = found.iter().map(|r| r.path.as_str()).collect();
    assert_eq!(
        paths,
        vec!["dvr/x/10_20.mp4", "dvr/x/10_15.mp4", "dvr/x/30_latest.mp4"]
    );
    assert_eq!(found[1].end_time, Some(15));
    assert_eq!(list_recordings_for_stream_id(&[]).len(), 0);
}

#[test]
fn recordings_are_found() {
    let list = vec![
        recording(10, Some(20)),
        recording(15, Some(40)),
        recording(60, None),
    ];
    let (found, wait) = find_next_recording(&list, 18).unwrap();
    assert_eq!((found.start_time, wait), (10, None));
    let (found, wait) = find_next_recording(&list, 40).unwrap();
    assert_eq!((found.start_time, wait), (15, None));
    let (found, wait) = find_next_recording(&list, 41).unwrap();
    assert_eq!((found.start_time, wait), (60, Some(19)));
    let (found, wait) = find_next_recording(&list, 1000).unwrap();
    assert_eq!((found.start_time, wait), (60, None));
    assert!(find_next_recording(&list[..2], 41).is_none());
    assert!(find_next_recording(&[], 0).is_none());
    assert_eq!(find_recording_for_timestamp(&list, 20).unwrap().start_time, 10);
    assert!(find_recording_for_timestamp(&list, 9).is_none());
    assert!(list[0].contains(10) && list[0].contains(20) && !list[0].contains(21));
    assert!(list[2].contains(u64::MAX) && !list[2].contains(59));
}

#[test]
fn nanoseconds() {
    let ticks = TimeBase { num: 1, den: 90000 };
    assert_eq!(to_nanoseconds(90000, &ticks), 1_000_000_000);
    assert_eq!(to_nanoseconds(1, &ticks), 11111);
    assert_eq!(to_nanoseconds(-5, &ticks), 0);
    assert_eq!(to_nanoseconds(i64::MAX, &ticks), u64::MAX / 90000);
    let odd = TimeBase { num: 1, den: -1 };
    assert_eq!(to_nanoseconds(3, &odd), 0);
}

fn metadata(extradata: Option<Vec<u8>>) -> FFmpegVideoMetadata {
    FFmpegVideoMetadata {
        codec: VideoCodec::H264,
        extradata,
        timebase: TimeBase { num: 1, den: 1000 },
    }
}

#[test]
fn a_recording_begins_with_a_keyframe() {
    let mut recorder = DvrRecorder::new("abc".to_string());
    assert!(recorder.on_new_packet(Some(1), None, Some(&[0, 0, 1, 0x65]), true).is_none());
    let extradata = vec![
        1, 0x64, 0, 0x1e, 0xff, 0xe1, 0, 2, 0x67, 0x42, 1, 0, 2, 0x68, 0xce,
    ];
    recorder.initialize(&metadata(Some(extradata)), 1700);
    let dir = "dvr/ba7816bf8f01cfea414140de5dae2223b00361a396177a9cb410ff61f20015ad";
    assert_eq!(recorder.current_path(), Some(format!("{}/1700_latest.mp4", dir)));
    assert_eq!(recorder.start_time(), Some(1700));
    assert_eq!(recorder.stream_id(), "abc");
    // Before the keyframe only parameter sets are kept.
    let more = [0, 0, 1, 0x67, 0x99, 0, 0, 1, 0x41, 7];
    assert!(recorder.on_new_packet(Some(1), None, Some(&more), false).is_none());
    let key = [0, 0, 0, 2, 0x65, 8];
    let first = recorder.on_new_packet(Some(40), Some(-2), Some(&key), true).unwrap();
    assert_eq!(
        first.data,
        vec![
            0, 0, 0, 1, 0x67, 0x42, 0, 0, 0, 1, 0x68, 0xce, 0, 0, 0, 1, 0x67, 0x99, 0, 0, 0, 1,
            0x65, 8
        ]
    );
    assert_eq!((first.pts_ns, first.dts_ns), (40_000_000, 40_000_000));
    assert!(first.is_keyframe && first.starts_stream);
    // As long as it has not been written, it is tried again.
    let again = recorder.on_new_packet(Some(41), None, Some(&key), true).unwrap();
    assert!(!again.starts_stream);
    assert_eq!(again.data, first.data);
    recorder.buffer_written();
    let next = recorder.on_new_packet(Some(80), Some(60), Some(&more), false).unwrap();
    assert_eq!(next.data, vec![0, 0, 0, 1, 0x67, 0x99, 0, 0, 0, 1, 0x41, 7]);
    assert_eq!((next.pts_ns, next.dts_ns), (80_000_000, 60_000_000));
    assert!(!next.is_keyframe && !next.starts_stream);
    assert!(recorder.on_new_packet(Some(90), None, Some(&[]), true).is_none());
    assert!(recorder.on_new_packet(Some(90), None, None, true).is_none());
    let finished = recorder.finalize_recording(1900).unwrap();
    assert_eq!(finished.old_path, format!("{}/1700_latest.mp4", dir));
    assert_eq!(finished.new_path, format!("{}/1700_1900.mp4", dir));
    assert!(recorder.finalize_recording(1901).is_none());
    assert_eq!(recorder.current_path(), None);
}

#[test]
fn a_recording_without_extradata() {
    let mut recorder = DvrRecorder::new("abc".to_string());
    recorder.initialize(&metadata(None), 5);
    let state = recorder.recording.as_ref().unwrap();
    assert_eq!(state.framing_format, FramingFormat::Avcc { length_size: 4 });
    assert_eq!(state.parse_nal_units(&[0, 0, 0, 1, 9]), vec![vec![9u8]]);
    let key = [0, 0, 1, 0x65];
    let first = recorder.on_new_packet(None, None, Some(&key), true).unwrap();
    assert_eq!(first.data, vec![0, 0, 0, 1, 0x65]);
    assert_eq!((first.pts_ns, first.dts_ns), (0, 0));
}

#[test]
fn playing() {
    let list = vec![recording(1000, Some(2000)), recording(3000, None)];
    let player = DvrPlayer::new("cam".to_string(), 1500, VideoCodec::H265, &list).unwrap();
    assert_eq!(player.recording_metadata().start_time, 1000);
    assert_eq!(player.play_offset_ms(), Some(500));
    assert_eq!(player.seek_offset_ms(1900), 900);
    assert_eq!(player.seek_offset_ms(900), 0);
    assert_eq!(player.current_timestamp(None), 1000);
    assert_eq!(player.current_timestamp(Some((50_999_999, 20_000_000))), 1030);
    assert_eq!(player.current_timestamp(Some((20, 50))), 1000);
    assert_eq!(f64::from_bits(player.speed()), 1.0);
    let none = DvrPlayer::new("cam".to_string(), 2500, VideoCodec::H265, &list).unwrap_err();
    assert_eq!(none.message(), "No recording found for source ID cam");
    assert_eq!(SeekError::SeekBeforeStart.message(), "seek before start");
    assert_eq!(SeekError::SeekAfterEnd.message(), "seek after end");
    assert_eq!(SeekError::GstError("why".to_string()).message(), "why");
}

#[test]
fn samples() {
    assert_eq!(rtp_timestamp_of(Some(1_000_000_000)), 90000);
    assert_eq!(rtp_timestamp_of(Some(11_111)), 0);
    assert_eq!(rtp_timestamp_of(Some(11_112)), 1);
    assert_eq!(
        rtp_timestamp_of(Some(u64::MAX)),
        (u64::MAX as u128 * 90000 / 1_000_000_000) as u32
    );
    assert_eq!(rtp_timestamp_of(None), 0);
    let mut packetizer = RtpPacketizer::with_sequence(1, 96, 9);
    let packets = packetize_sample(
        &mut packetizer,
        &[0, 0, 1, 0x67, 0, 0, 1, 0x65],
        Some(2_000_000_000),
        &VideoCodec::H264,
    );
    assert_eq!(packets.len(), 2);
    assert_eq!(packets[1].header.timestamp, 180_000);
    assert_eq!((packets[0].header.marker, packets[1].header.marker), (false, true));
    let packets = packetize_sample(&mut packetizer, &[0, 0, 0, 1, 0x65], None, &VideoCodec::H264);
    assert_eq!(packets.len(), 1);
    assert_eq!(packets[0].header.seq, 11);
    assert_eq!(packetize_sample(&mut packetizer, &[1], None, &VideoCodec::H264).len(), 0);
}

#[test]
fn pipelines() {
    assert_eq!(parser_element(&VideoCodec::H264), "h264parse");
    assert_eq!(media_type(&VideoCodec::H265), "video/x-h265");
    assert_eq!(
        byte_stream_caps(&VideoCodec::H264),
        "video/x-h264,stream-format=byte-stream,alignment=au"
    );
    assert!(links_pad(false, None));
    assert!(links_pad(false, Some("video/x-h264")));
    assert!(links_pad(false, Some("video/")));
    assert!(!links_pad(false, Some("video")));
    assert!(!links_pad(false, Some("audio/mpeg")));
    assert!(!links_pad(true, Some("video/x-h264")));
    assert_eq!(stop_steps(PipelineState::Null, true), vec![]);
    assert_eq!(stop_steps(PipelineState::Ready, true), vec![StopStep::SetNull]);
    assert_eq!(stop_steps(PipelineState::Playing, false), vec![StopStep::SetNull]);
    assert_eq!(
        stop_steps(PipelineState::Paused, true),
        vec![
            StopStep::PostEndOfStream,
            StopStep::SetPaused,
            StopStep::Settle,
            StopStep::SetNull
        ]
    );
    let target = PipelineState::Playing;
    for (message, wait) in [
        (PipelineMessage::StateChanged(PipelineState::Paused), StateWait::Wait),
        (PipelineMessage::StateChanged(PipelineState::Playing), StateWait::Reached),
        (PipelineMessage::Other, StateWait::Wait),
        (PipelineMessage::EndOfStream, StateWait::Failed),
        (PipelineMessage::Error, StateWait::Failed),
        (PipelineMessage::Closed, StateWait::Failed),
    ] {
        assert_eq!(await_state(target, message), wait);
    }
}
