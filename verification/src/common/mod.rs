//! Codecs, NAL units and RTP.
pub mod codec_parameters;
pub mod extradata;
pub mod framing;
pub mod nal_utils;
pub mod packetizer;
pub mod rtp;
pub mod stitcher;
pub mod traits;

use crate::text::{lowered, spells, spells_ignoring_case};
use vstd::prelude::*;

verus! {

/// The video codecs that the server carries.
#[derive(Debug, Clone, Copy, PartialEq, Eq, Structural)]
pub enum VideoCodec {
    H264,
    H265,
}

impl VideoCodec {
    /// The codec that an encoding name stands for, in upper or lower case.
    pub fn from_encoding_name(name: &str) -> (r: Option<Self>)
        ensures
            r == Some(VideoCodec::H264) <==> spells_ignoring_case(name@, "h264"@),
            r == Some(VideoCodec::H265) <==> spells_ignoring_case(name@, "h265"@)
                || spells_ignoring_case(name@, "hevc"@),
    {
        proof {
            reveal_strlit("h264");
            reveal_strlit("h265");
            reveal_strlit("hevc");
            assert("h264"@[3] != "h265"@[3]);
            assert("h264"@[3] != "hevc"@[3]);
        }
        let lower = lowered(name);
        if spells(lower.as_slice(), "h264") {
            Some(VideoCodec::H264)
        } else if spells(lower.as_slice(), "h265") || spells(lower.as_slice(), "hevc") {
            Some(VideoCodec::H265)
        } else {
            None
        }
    }

    /// The MIME type that a WebRTC track of this codec is announced with.
    pub fn mime_type(&self) -> (r: &'static str)
        ensures
            r@ == (match *self {
                VideoCodec::H264 => "video/H264"@,
                VideoCodec::H265 => "video/H265"@,
            }),
    {
        match self {
            VideoCodec::H264 => "video/H264",
            VideoCodec::H265 => "video/H265",
        }
    }
}

/// The unit of a stream's timestamps, in seconds: `num / den`.
#[derive(Debug, Clone, Copy, PartialEq, Eq, Structural)]
pub struct TimeBase {
    pub num: i32,
    pub den: i32,
}

/// A time base with a part that is not positive.
#[derive(Debug, Clone, Copy, PartialEq, Eq, Structural)]
pub struct InvalidTimeBase {
    pub num: i32,
    pub den: i32,
}

impl TimeBase {
    /// A time base of positive parts.
    pub open spec fn valid(self) -> bool {
        self.num > 0 && self.den > 0
    }

    /// Takes a time base over from a demuxer, given its numerator and its
    /// denominator.
    pub fn from_ffmpeg(num: i32, den: i32) -> (r: Result<Self, InvalidTimeBase>)
        ensures
            num > 0 && den > 0 ==> r == Ok::<_, InvalidTimeBase>(TimeBase { num, den }),
            !(num > 0 && den > 0) ==> r == Err::<TimeBase, _>(InvalidTimeBase { num, den }),
    {
        if num <= 0 || den <= 0 {
            Err(InvalidTimeBase { num, den })
        } else {
            Ok(TimeBase { num, den })
        }
    }

    /// Checks that both parts are positive.
    pub fn is_valid(&self) -> (r: bool)
        ensures
            r == self.valid(),
    {
        self.num > 0 && self.den > 0
    }
}

/// What a demuxer tells about a video stream before its first packet.
#[derive(Debug, Clone)]
pub struct FFmpegVideoMetadata {
    pub codec: VideoCodec,
    pub extradata: Option<Vec<u8>>,
    pub timebase: TimeBase,
}

} // verus!
