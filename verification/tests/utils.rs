use media_server::arithmetic::{divide, to_i64_wrapping, to_u32_wrapping};
use media_server::text::{decimal_text, is_white_space, parse_decimal_chars};
use media_server::utils::{
    convert_h264_to_annex_b, convert_h265_to_annex_b, get_dvr_path, get_stream_hash,
    log_nal_units, AnnexBError,
};

#[test]
fn test_convert_h264_to_annex_b() {
    let input = vec![
        0, 0, 0, 5, 0x67, 0x42, 0x00, 0x1e, 0x8c, 0, 0, 0, 3, 0x68, 0xce, 0x3c,
    ];

    let result = convert_h264_to_annex_b(input).unwrap();

    assert_eq!(result[0..4], [0, 0, 0, 1]);
    assert_eq!(result[4], 0x67);
    assert_eq!(result[9..13], [0, 0, 0, 1]);
    assert_eq!(result[13], 0x68);
}

#[test]
fn conversion_errors() {
    assert_eq!(convert_h264_to_annex_b(vec![]), Ok(vec![]));
    assert_eq!(
        convert_h265_to_annex_b(vec![0, 0, 0, 0, 0, 0, 0, 1, 5]),
        Ok(vec![0, 0, 0, 1, 0, 0, 0, 1, 5])
    );
    let long = convert_h264_to_annex_b(vec![0, 0, 0, 9, 1]).unwrap_err();
    assert_eq!(long, AnnexBError::LengthExceedsData { length: 9 });
    assert_eq!(long.message(), "Invalid NAL unit: length 9 exceeds remaining data");
    let short = convert_h264_to_annex_b(vec![0, 0, 0, 1, 5, 0, 0]).unwrap_err();
    assert_eq!(short, AnnexBError::IncompleteLengthField);
    assert_eq!(
        short.message(),
        "Invalid NAL stream: incomplete length field at end"
    );
}

#[test]
fn hashes_and_paths() {
    assert_eq!(
        get_stream_hash("abc"),
        "ba7816bf8f01cfea414140de5dae2223b00361a396177a9cb410ff61f20015ad"
    );
    assert_eq!(get_dvr_path(17), "dvr/17.mp4");
}

#[test]
fn unit_labels() {
    let data = [0, 0, 0, 1, 0x67, 9, 0, 0, 0, 1, 0x65, 0, 0, 0, 1, 0x0c];
    assert_eq!(
        log_nal_units(&data),
        "Placeholder frame NAL units: SPS(7), IDR(5), Other(12) (total 16 bytes)"
    );
    assert_eq!(
        log_nal_units(&[]),
        "Placeholder frame NAL units:  (total 0 bytes)"
    );
}

#[test]
fn numbers_in_text() {
    for n in [0, 7, 10, 96, 90000, u64::MAX] {
        assert_eq!(decimal_text(n), n.to_string());
        let chars: Vec<char> = n.to_string().chars().collect();
        assert_eq!(parse_decimal_chars(&chars), Some(n));
    }
    for s in ["", "+", "-1", "1a", "18446744073709551616", "+5", "007"] {
        let chars: Vec<char> = s.chars().collect();
        assert_eq!(parse_decimal_chars(&chars), s.parse::<u64>().ok());
    }
}

#[test]
fn white_space_characters() {
    for c in '\0'..=char::MAX {
        assert_eq!(is_white_space(c), c.is_whitespace());
    }
}

#[test]
fn rounding_and_wrapping() {
    assert_eq!(divide(-7, 2), -3);
    assert_eq!(divide(7, -2), -3);
    assert_eq!(to_u32_wrapping(-1), u32::MAX);
    assert_eq!(to_u32_wrapping(0x1_0000_0005), 5);
    assert_eq!(to_i64_wrapping(0x8000_0000_0000_0000), i64::MIN);
}
