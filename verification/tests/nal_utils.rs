use media_server::common::extradata::{parse_extradata, parse_h264_extradata, parse_h265_extradata};
use media_server::common::framing::{
    build_annex_b, is_annex_b, parse_annex_b, parse_avcc, parse_detected_units,
    parse_nal_units_with_length, FramingFormat,
};
use media_server::common::nal_utils::{
    get_h264_nal_type, get_h265_nal_type, is_h264_keyframe, is_h264_parameter_set,
    is_h265_keyframe, is_h265_parameter_set, is_keyframe, is_parameter_set, H264NalType,
    H265NalType,
};
use media_server::common::{TimeBase, VideoCodec};

fn push_h265_array(buf: &mut Vec<u8>, nal_type: u8, nal: &[u8]) {
    buf.push(0x80 | (nal_type & 0x3f));
    buf.extend_from_slice(&1u16.to_be_bytes());
    buf.extend_from_slice(&(nal.len() as u16).to_be_bytes());
    buf.extend_from_slice(nal);
}

#[test]
fn test_h264_nal_type_extraction() {
    let idr_byte = 0x65; // Type 5 (IDR) with NRI = 3
    let nal_type = H264NalType::from_byte(idr_byte).unwrap();
    assert_eq!(nal_type, H264NalType::IdrSlice);
    assert!(nal_type.is_keyframe());
    assert!(!nal_type.is_parameter_set());
}

#[test]
fn test_h264_parameter_sets() {
    let sps_byte = 0x67; // Type 7 (SPS)
    let pps_byte = 0x68; // Type 8 (PPS)

    let sps_type = H264NalType::from_byte(sps_byte).unwrap();
    let pps_type = H264NalType::from_byte(pps_byte).unwrap();

    assert_eq!(sps_type, H264NalType::Sps);
    assert_eq!(pps_type, H264NalType::Pps);
    assert!(sps_type.is_parameter_set());
    assert!(pps_type.is_parameter_set());
}

#[test]
fn test_h265_nal_type_extraction() {
    let idr_header = [0x26, 0x01]; // Type 19 (IDR_W_RADL)
    let nal_type = H265NalType::from_header(idr_header[0], idr_header[1]).unwrap();
    assert_eq!(nal_type, H265NalType::IdrWRadl);
    assert!(nal_type.is_keyframe());
    assert!(!nal_type.is_parameter_set());
}

#[test]
fn test_h265_parameter_sets() {
    let vps_header = [0x40, 0x01]; // Type 32 (VPS)
    let sps_header = [0x42, 0x01]; // Type 33 (SPS)
    let pps_header = [0x44, 0x01]; // Type 34 (PPS)

    let vps_type = H265NalType::from_header(vps_header[0], vps_header[1]).unwrap();
    let sps_type = H265NalType::from_header(sps_header[0], sps_header[1]).unwrap();
    let pps_type = H265NalType::from_header(pps_header[0], pps_header[1]).unwrap();

    assert_eq!(vps_type, H265NalType::Vps);
    assert_eq!(sps_type, H265NalType::Sps);
    assert_eq!(pps_type, H265NalType::Pps);
    assert!(vps_type.is_parameter_set());
    assert!(sps_type.is_parameter_set());
    assert!(pps_type.is_parameter_set());
}

#[test]
fn test_parse_annex_b() {
    let data = vec![
        0x00, 0x00, 0x00, 0x01, 0x67, 0x42, 0x00, 0x1e, 0x00, 0x00, 0x00, 0x01, 0x68, 0xce,
        0x3c, 0x80,
    ];

    let nals = parse_annex_b(&data);
    assert_eq!(nals.len(), 2);
    assert_eq!(nals[0], vec![0x67, 0x42, 0x00, 0x1e]);
    assert_eq!(nals[1], vec![0x68, 0xce, 0x3c, 0x80]);
}

#[test]
fn test_parse_avcc() {
    let data = vec![
        0x00, 0x00, 0x00, 0x04, 0x67, 0x42, 0x00, 0x1e, 0x00, 0x00, 0x00, 0x04, 0x68, 0xce,
        0x3c, 0x80,
    ];

    let nals = parse_avcc(&data, &4);
    assert_eq!(nals.len(), 2);
    assert_eq!(nals[0], vec![0x67, 0x42, 0x00, 0x1e]);
    assert_eq!(nals[1], vec![0x68, 0xce, 0x3c, 0x80]);
}

#[test]
fn test_parse_avcc_length_size_two() {
    let data = vec![
        0x00, 0x04, 0x67, 0x42, 0x00, 0x1e, 0x00, 0x04, 0x68, 0xce, 0x3c, 0x80,
    ];

    let nals = parse_avcc(&data, &2);
    assert_eq!(nals.len(), 2);
    assert_eq!(nals[0], vec![0x67, 0x42, 0x00, 0x1e]);
    assert_eq!(nals[1], vec![0x68, 0xce, 0x3c, 0x80]);
}

#[test]
fn test_build_annex_b() {
    let nals = vec![vec![0x67, 0x42, 0x00, 0x1e], vec![0x68, 0xce, 0x3c, 0x80]];

    let data = build_annex_b(&nals);
    assert_eq!(
        data,
        vec![
            0x00, 0x00, 0x00, 0x01, 0x67, 0x42, 0x00, 0x1e, 0x00, 0x00, 0x00, 0x01, 0x68, 0xce,
            0x3c, 0x80
        ]
    );
}

#[test]
fn test_is_annex_b() {
    let annex_b_3 = vec![0x00, 0x00, 0x01, 0x67];
    let annex_b_4 = vec![0x00, 0x00, 0x00, 0x01, 0x67];
    let avcc = vec![0x00, 0x00, 0x00, 0x04, 0x67];

    assert!(is_annex_b(&annex_b_3));
    assert!(is_annex_b(&annex_b_4));
    assert!(!is_annex_b(&avcc));
}

#[test]
fn test_is_h264_keyframe() {
    let idr_nal = vec![0x65, 0x88, 0x84];
    let non_idr_nal = vec![0x41, 0x9a, 0x00];

    assert!(is_h264_keyframe(&idr_nal));
    assert!(!is_h264_keyframe(&non_idr_nal));
}

#[test]
fn test_is_h265_keyframe() {
    let idr_nal = vec![0x26, 0x01, 0xaf];
    let non_idr_nal = vec![0x02, 0x01, 0xd0];

    assert!(is_h265_keyframe(&idr_nal));
    assert!(!is_h265_keyframe(&non_idr_nal));
}

#[test]
fn test_is_h264_parameter_set() {
    let sps_nal = vec![0x67, 0x42, 0x00, 0x1e];
    let pps_nal = vec![0x68, 0xce, 0x3c, 0x80];
    let idr_nal = vec![0x65, 0x88, 0x84];

    assert!(is_h264_parameter_set(&sps_nal));
    assert!(is_h264_parameter_set(&pps_nal));
    assert!(!is_h264_parameter_set(&idr_nal));
}

#[test]
fn test_is_h265_parameter_set() {
    let vps_nal = vec![0x40, 0x01, 0x0c];
    let sps_nal = vec![0x42, 0x01, 0x01, 0x60];
    let pps_nal = vec![0x44, 0x01, 0xc0];
    let idr_nal = vec![0x26, 0x01, 0xaf];

    assert!(is_h265_parameter_set(&vps_nal));
    assert!(is_h265_parameter_set(&sps_nal));
    assert!(is_h265_parameter_set(&pps_nal));
    assert!(!is_h265_parameter_set(&idr_nal));
}

#[test]
fn test_parse_h264_extradata() {
    let extradata = vec![
        0x01, 0x64, 0x00, 0x1e, 0xff, 0xe1, 0x00, 0x04, 0x67, 0x42, 0x00, 0x1e, 0x01, 0x00,
        0x04, 0x68, 0xce, 0x3c, 0x80,
    ];

    let parsed = parse_h264_extradata(&extradata).unwrap();
    assert_eq!(
        parsed.framing_format,
        FramingFormat::Avcc { length_size: 4 }
    );
    assert_eq!(parsed.nals.len(), 2);
    assert_eq!(parsed.nals[0], vec![0x67, 0x42, 0x00, 0x1e]);
    assert_eq!(parsed.nals[1], vec![0x68, 0xce, 0x3c, 0x80]);
}

#[test]
fn test_parse_h265_extradata() {
    let vps = vec![0x40, 0x01, 0x0c];
    let sps = vec![0x42, 0x01, 0x01, 0x60];
    let pps = vec![0x44, 0x01, 0xc0];

    let mut extradata = vec![
        0x01, 0x01, 0x00, 0x00, 0x00, 0x00, 0x00, 0x00, 0x00, 0x00, 0x00, 0x00, 0x1e, 0xf0,
        0x00, 0xfc, 0xfc, 0xf8, 0xf8, 0x00, 0x00, 0x03, 0x03,
    ];

    push_h265_array(&mut extradata, 32, &vps);
    push_h265_array(&mut extradata, 33, &sps);
    push_h265_array(&mut extradata, 34, &pps);

    let parsed = parse_h265_extradata(&extradata).unwrap();
    assert_eq!(
        parsed.framing_format,
        FramingFormat::Avcc { length_size: 4 }
    );
    assert_eq!(parsed.nals.len(), 3);
    assert_eq!(parsed.nals[0], vps);
    assert_eq!(parsed.nals[1], sps);
    assert_eq!(parsed.nals[2], pps);
}

#[test]
fn nal_types_by_number() {
    for code in 0u8..=255 {
        match H264NalType::from_byte(code) {
            Some(t) => assert_eq!(t.as_u8(), code & 0x1f),
            None => assert!(code & 0x1f > 23),
        }
        match H265NalType::from_header(code, 1) {
            Some(t) => assert_eq!(t.as_u8(), (code >> 1) & 0x3f),
            None => {}
        }
    }
    assert_eq!(get_h264_nal_type(&[]), None);
    assert_eq!(get_h265_nal_type(&[0x40]), None);
    assert_eq!(get_h265_nal_type(&[0x40, 0x01]), Some(H265NalType::Vps));
}

#[test]
fn either_codec() {
    assert!(is_keyframe(&[0x65], &VideoCodec::H264));
    assert!(!is_keyframe(&[], &VideoCodec::H264));
    assert!(is_keyframe(&[0x26, 0x01], &VideoCodec::H265));
    assert!(is_parameter_set(&[0x67], &VideoCodec::H264));
    assert!(!is_parameter_set(&[0x67], &VideoCodec::H265));
    assert!(is_parameter_set(&[0x42, 0x01], &VideoCodec::H265));
}

#[test]
fn annex_b_round_trip() {
    let nals = vec![vec![0x67, 0x42], vec![0x68], vec![0x65, 0x00, 0x00, 0x03, 0x01]];
    let stream = build_annex_b(&nals);
    assert!(is_annex_b(&stream));
    assert_eq!(parse_annex_b(&stream), nals);
    assert_eq!(build_annex_b(&[vec![], vec![0x65]]), vec![0, 0, 0, 1, 0x65]);
    assert_eq!(parse_annex_b(&[]).len(), 0);
    assert_eq!(parse_annex_b(&[0x65, 0x01]).len(), 0);
}

#[test]
fn avcc_edges() {
    assert_eq!(parse_avcc(&[3, 1, 2, 3, 2, 9], &1), vec![vec![1, 2, 3]]);
    assert_eq!(parse_avcc(&[0, 0, 0], &4).len(), 0);
    assert_eq!(parse_avcc(&[0, 0, 1, 9], &3).len(), 0);
    assert_eq!(parse_avcc(&[0, 0, 0, 0, 0, 0, 0, 1, 7], &4), vec![vec![], vec![7]]);
    let avcc = FramingFormat::Avcc { length_size: 2 };
    assert_eq!(parse_nal_units_with_length(&[0, 1, 7], &avcc), vec![vec![7]]);
    assert_eq!(
        parse_nal_units_with_length(&[0, 0, 1, 7], &FramingFormat::AnnexB),
        vec![vec![7]]
    );
    assert_eq!(parse_detected_units(&[0, 0, 1, 7], &avcc), vec![vec![7]]);
    assert_eq!(parse_detected_units(&[0, 1, 7], &avcc), vec![vec![7]]);
}

#[test]
fn extradata_of_other_shapes() {
    // Annex-B: only the parameter sets count.
    let annex_b = [0, 0, 0, 1, 0x67, 0x42, 0, 0, 1, 0x09, 0x10, 0, 0, 1, 0x68, 0xce];
    let parsed = parse_h264_extradata(&annex_b).unwrap();
    assert_eq!(parsed.nals, vec![vec![0x67, 0x42], vec![0x68, 0xce]]);
    assert_eq!(parsed.framing_format, FramingFormat::Avcc { length_size: 4 });
    // No picture parameter sets at all.
    let sps_only = [1, 0x64, 0, 0x1e, 0xfd, 0xe1, 0, 1, 0x67];
    let parsed = parse_extradata(&sps_only, &VideoCodec::H264).unwrap();
    assert_eq!(parsed.nals, vec![vec![0x67]]);
    assert_eq!(parsed.framing_format, FramingFormat::Avcc { length_size: 2 });
    // Cut off, or of another version.
    assert!(parse_h264_extradata(&[1, 0x64, 0, 0x1e, 0xff, 0xe1, 0, 4, 0x67]).is_none());
    assert!(parse_h264_extradata(&[2, 0x64, 0, 0x1e, 0xff, 0xe0, 0]).is_none());
    assert!(parse_h264_extradata(&[]).is_none());
    assert!(parse_h265_extradata(&[1; 22]).is_none());
}

#[test]
fn codecs_and_time_bases() {
    assert_eq!(VideoCodec::from_encoding_name("H264"), Some(VideoCodec::H264));
    assert_eq!(VideoCodec::from_encoding_name("hevc"), Some(VideoCodec::H265));
    assert_eq!(VideoCodec::from_encoding_name("h265"), Some(VideoCodec::H265));
    assert_eq!(VideoCodec::from_encoding_name("vp9"), None);
    assert_eq!(VideoCodec::H265.mime_type(), "video/H265");
    assert!(TimeBase::from_ffmpeg(1, 90000).unwrap().is_valid());
    assert!(TimeBase::from_ffmpeg(0, 90000).is_err());
    assert!(TimeBase::from_ffmpeg(1, -1).is_err());
}

#[test]
fn only_ascii_case_matters_to_codec_names() {
    // No other character has a lower case that spells a codec's name.
    for c in '\u{80}'..=char::MAX {
        let lower: String = c.to_lowercase().collect();
        for letter in ["h", "e", "v", "c", "2", "4", "5", "6"] {
            assert_ne!(lower, letter);
        }
    }
}
