//! What sources and publishers have in common.
use crate::common::VideoCodec;
use crate::text::{push_decimal, text};
use vstd::prelude::*;
use vstd::string::*;

verus! {

/// The size of a picture.
#[derive(Debug, Clone, Copy, PartialEq, Eq, Structural)]
pub struct Resolution {
    pub width: u32,
    pub height: u32,
}

/// Why a packet could not be published.
#[derive(Debug, Clone)]
pub enum PublishError {
    ConnectionClosed,
    BufferFull,
    Io(String),
    CodecMismatch { expected: VideoCodec, got: VideoCodec },
    NotInitialized,
    PacketTooLarge { size: usize, max: usize },
}

/// The name of a codec.
pub open spec fn codec_named(codec: VideoCodec) -> Seq<char> {
    match codec {
        VideoCodec::H264 => "H264"@,
        VideoCodec::H265 => "H265"@,
    }
}

/// The name of a codec.
pub fn codec_name(codec: &VideoCodec) -> (r: &'static str)
    ensures
        r@ == codec_named(*codec),
{
    match codec {
        VideoCodec::H264 => "H264",
        VideoCodec::H265 => "H265",
    }
}

impl PublishError {
    /// The error in words.
    pub open spec fn said(self) -> Seq<char> {
        match self {
            PublishError::ConnectionClosed => "Connection closed"@,
            PublishError::BufferFull => "Send buffer full"@,
            PublishError::Io(reason) => "IO error: "@ + reason@,
            PublishError::CodecMismatch { expected, got } => "Codec mismatch: expected "@
                + codec_named(expected) + ", got "@ + codec_named(got),
            PublishError::NotInitialized => "Not initialized"@,
            PublishError::PacketTooLarge { size, max } => "Packet too large: "@
                + crate::text::decimal(size as nat) + " > "@ + crate::text::decimal(max as nat),
        }
    }

    /// The error in words.
    pub fn message(&self) -> (r: String)
        ensures
            r@ == self.said(),
    {
        match self {
            PublishError::ConnectionClosed => text("Connection closed"),
            PublishError::BufferFull => text("Send buffer full"),
            PublishError::Io(reason) => {
                let mut out = text("IO error: ");
                out.append(reason.as_str());
                out
            },
            PublishError::CodecMismatch { expected, got } => {
                let mut out = text("Codec mismatch: expected ");
                out.append(codec_name(expected));
                out.append(", got ");
                out.append(codec_name(got));
                out
            },
            PublishError::NotInitialized => text("Not initialized"),
            PublishError::PacketTooLarge { size, max } => {
                let mut out = text("Packet too large: ");
                push_decimal(&mut out, *size as u64);
                out.append(" > ");
                push_decimal(&mut out, *max as u64);
                out
            },
        }
    }
}

} // verus!
