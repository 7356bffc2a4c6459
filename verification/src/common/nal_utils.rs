//! NAL unit types of H.264 and H.265, and what a unit's header tells about it.
use crate::common::VideoCodec;
use vstd::prelude::*;

verus! {

/// H.264 NAL unit types, in the order of their numbers (0 to 23).
#[derive(Debug, Clone, Copy, PartialEq, Eq, Structural)]
pub enum H264NalType {
    /// Unspecified
    Unspecified,
    /// Coded slice of a non-IDR picture
    NonIdrSlice,
    /// Coded slice data partition A
    SliceDataA,
    /// Coded slice data partition B
    SliceDataB,
    /// Coded slice data partition C
    SliceDataC,
    /// Coded slice of an IDR picture (keyframe)
    IdrSlice,
    /// Supplemental enhancement information (SEI)
    Sei,
    /// Sequence parameter set (SPS)
    Sps,
    /// Picture parameter set (PPS)
    Pps,
    /// Access unit delimiter
    AccessUnitDelimiter,
    /// End of sequence
    EndOfSequence,
    /// End of stream
    EndOfStream,
    /// Filler data
    FillerData,
    /// SPS extension
    SpsExtension,
    /// Prefix NAL unit
    PrefixNalUnit,
    /// Subset SPS
    SubsetSps,
    /// Reserved
    Reserved16,
    Reserved17,
    Reserved18,
    /// Coded slice of an auxiliary coded picture without partitioning
    AuxSlice,
    /// Coded slice extension
    SliceExtension,
    /// Reserved
    Reserved21,
    Reserved22,
    Reserved23,
}

impl H264NalType {
    /// The number that stands for this type in a NAL unit header.
    pub open spec fn code(self) -> u8 {
        match self {
            H264NalType::Unspecified => 0,
            H264NalType::NonIdrSlice => 1,
            H264NalType::SliceDataA => 2,
            H264NalType::SliceDataB => 3,
            H264NalType::SliceDataC => 4,
            H264NalType::IdrSlice => 5,
            H264NalType::Sei => 6,
            H264NalType::Sps => 7,
            H264NalType::Pps => 8,
            H264NalType::AccessUnitDelimiter => 9,
            H264NalType::EndOfSequence => 10,
            H264NalType::EndOfStream => 11,
            H264NalType::FillerData => 12,
            H264NalType::SpsExtension => 13,
            H264NalType::PrefixNalUnit => 14,
            H264NalType::SubsetSps => 15,
            H264NalType::Reserved16 => 16,
            H264NalType::Reserved17 => 17,
            H264NalType::Reserved18 => 18,
            H264NalType::AuxSlice => 19,
            H264NalType::SliceExtension => 20,
            H264NalType::Reserved21 => 21,
            H264NalType::Reserved22 => 22,
            H264NalType::Reserved23 => 23,
        }
    }

    /// Extracts the NAL type from the first byte of a NAL unit: the number in
    /// its low five bits. The numbers 24 to 31 name no NAL type.
    pub fn from_byte(byte: u8) -> (r: Option<Self>)
        ensures
            r is Some <==> byte % 32 <= 23,
            r matches Some(t) ==> t.code() == byte % 32,
    {
        let nal_type: u8 = byte & 0x1F;
        assert(byte & 0x1F == byte % 32) by (bit_vector);
        match nal_type {
            0 => Some(H264NalType::Unspecified),
            1 => Some(H264NalType::NonIdrSlice),
            2 => Some(H264NalType::SliceDataA),
            3 => Some(H264NalType::SliceDataB),
            4 => Some(H264NalType::SliceDataC),
            5 => Some(H264NalType::IdrSlice),
            6 => Some(H264NalType::Sei),
            7 => Some(H264NalType::Sps),
            8 => Some(H264NalType::Pps),
            9 => Some(H264NalType::AccessUnitDelimiter),
            10 => Some(H264NalType::EndOfSequence),
            11 => Some(H264NalType::EndOfStream),
            12 => Some(H264NalType::FillerData),
            13 => Some(H264NalType::SpsExtension),
            14 => Some(H264NalType::PrefixNalUnit),
            15 => Some(H264NalType::SubsetSps),
            16 => Some(H264NalType::Reserved16),
            17 => Some(H264NalType::Reserved17),
            18 => Some(H264NalType::Reserved18),
            19 => Some(H264NalType::AuxSlice),
            20 => Some(H264NalType::SliceExtension),
            21 => Some(H264NalType::Reserved21),
            22 => Some(H264NalType::Reserved22),
            23 => Some(H264NalType::Reserved23),
            _ => None,
        }
    }

    /// Returns the raw NAL type value.
    pub fn as_u8(self) -> (r: u8)
        ensures
            r == self.code(),
    {
        match self {
            H264NalType::Unspecified => 0,
            H264NalType::NonIdrSlice => 1,
            H264NalType::SliceDataA => 2,
            H264NalType::SliceDataB => 3,
            H264NalType::SliceDataC => 4,
            H264NalType::IdrSlice => 5,
            H264NalType::Sei => 6,
            H264NalType::Sps => 7,
            H264NalType::Pps => 8,
            H264NalType::AccessUnitDelimiter => 9,
            H264NalType::EndOfSequence => 10,
            H264NalType::EndOfStream => 11,
            H264NalType::FillerData => 12,
            H264NalType::SpsExtension => 13,
            H264NalType::PrefixNalUnit => 14,
            H264NalType::SubsetSps => 15,
            H264NalType::Reserved16 => 16,
            H264NalType::Reserved17 => 17,
            H264NalType::Reserved18 => 18,
            H264NalType::AuxSlice => 19,
            H264NalType::SliceExtension => 20,
            H264NalType::Reserved21 => 21,
            H264NalType::Reserved22 => 22,
            H264NalType::Reserved23 => 23,
        }
    }

    /// Checks if this NAL unit is a keyframe (IDR slice).
    pub fn is_keyframe(self) -> (r: bool)
        ensures
            r == (self is IdrSlice),
    {
        matches!(self, H264NalType::IdrSlice)
    }

    /// Checks if this NAL unit is a parameter set (SPS or PPS).
    pub fn is_parameter_set(self) -> (r: bool)
        ensures
            r == (self is Sps || self is Pps),
    {
        matches!(self, H264NalType::Sps | H264NalType::Pps)
    }
}

/// H.265/HEVC NAL unit types, in the order of their numbers (0 to 40).
#[derive(Debug, Clone, Copy, PartialEq, Eq, Structural)]
pub enum H265NalType {
    /// Coded slice segment of a non-TSA, non-STSA trailing picture
    TrailN,
    TrailR,
    /// Coded slice segment of a TSA picture
    TsaN,
    TsaR,
    /// Coded slice segment of an STSA picture
    StsaN,
    StsaR,
    /// Coded slice segment of a RADL picture
    RadlN,
    RadlR,
    /// Coded slice segment of a RASL picture
    RaslN,
    RaslR,
    /// Reserved
    Reserved10,
    Reserved11,
    Reserved12,
    Reserved13,
    Reserved14,
    Reserved15,
    /// Coded slice segment of a BLA picture (keyframe)
    BlaNLp,
    BlaWLp,
    BlaWRadl,
    /// Coded slice segment of an IDR picture (keyframe)
    IdrWRadl,
    IdrNLp,
    /// Coded slice segment of a CRA picture (keyframe)
    CraNut,
    /// Reserved
    Reserved22,
    Reserved23,
    Reserved24,
    Reserved25,
    Reserved26,
    Reserved27,
    Reserved28,
    Reserved29,
    Reserved30,
    Reserved31,
    /// Video parameter set (VPS)
    Vps,
    /// Sequence parameter set (SPS)
    Sps,
    /// Picture parameter set (PPS)
    Pps,
    /// Access unit delimiter
    AccessUnitDelimiter,
    /// End of sequence
    EndOfSequence,
    /// End of bitstream
    EndOfBitstream,
    /// Filler data
    FillerData,
    /// Supplemental enhancement information (SEI)
    SeiPrefix,
    SeiSuffix,
}

impl H265NalType {
    /// The number that stands for this type in a NAL unit header.
    pub open spec fn code(self) -> u8 {
        match self {
            H265NalType::TrailN => 0,
            H265NalType::TrailR => 1,
            H265NalType::TsaN => 2,
            H265NalType::TsaR => 3,
            H265NalType::StsaN => 4,
            H265NalType::StsaR => 5,
            H265NalType::RadlN => 6,
            H265NalType::RadlR => 7,
            H265NalType::RaslN => 8,
            H265NalType::RaslR => 9,
            H265NalType::Reserved10 => 10,
            H265NalType::Reserved11 => 11,
            H265NalType::Reserved12 => 12,
            H265NalType::Reserved13 => 13,
            H265NalType::Reserved14 => 14,
            H265NalType::Reserved15 => 15,
            H265NalType::BlaNLp => 16,
            H265NalType::BlaWLp => 17,
            H265NalType::BlaWRadl => 18,
            H265NalType::IdrWRadl => 19,
            H265NalType::IdrNLp => 20,
            H265NalType::CraNut => 21,
            H265NalType::Reserved22 => 22,
            H265NalType::Reserved23 => 23,
            H265NalType::Reserved24 => 24,
            H265NalType::Reserved25 => 25,
            H265NalType::Reserved26 => 26,
            H265NalType::Reserved27 => 27,
            H265NalType::Reserved28 => 28,
            H265NalType::Reserved29 => 29,
            H265NalType::Reserved30 => 30,
            H265NalType::Reserved31 => 31,
            H265NalType::Vps => 32,
            H265NalType::Sps => 33,
            H265NalType::Pps => 34,
            H265NalType::AccessUnitDelimiter => 35,
            H265NalType::EndOfSequence => 36,
            H265NalType::EndOfBitstream => 37,
            H265NalType::FillerData => 38,
            H265NalType::SeiPrefix => 39,
            H265NalType::SeiSuffix => 40,
        }
    }

    /// Extracts the NAL type from the two header bytes of a NAL unit: the
    /// number in bits 1 to 6 of the first. The numbers 41 to 63 name no NAL
    /// type.
    #[allow(unused_variables)]
    pub fn from_header(byte1: u8, byte2: u8) -> (r: Option<Self>)
        ensures
            r is Some <==> byte1 / 2 % 64 <= 40,
            r matches Some(t) ==> t.code() == byte1 / 2 % 64,
    {
        let nal_type: u8 = (byte1 >> 1) & 0x3F;
        assert((byte1 >> 1) & 0x3F == byte1 / 2 % 64) by (bit_vector);
        match nal_type {
            0 => Some(H265NalType::TrailN),
            1 => Some(H265NalType::TrailR),
            2 => Some(H265NalType::TsaN),
            3 => Some(H265NalType::TsaR),
            4 => Some(H265NalType::StsaN),
            5 => Some(H265NalType::StsaR),
            6 => Some(H265NalType::RadlN),
            7 => Some(H265NalType::RadlR),
            8 => Some(H265NalType::RaslN),
            9 => Some(H265NalType::RaslR),
            10 => Some(H265NalType::Reserved10),
            11 => Some(H265NalType::Reserved11),
            12 => Some(H265NalType::Reserved12),
            13 => Some(H265NalType::Reserved13),
            14 => Some(H265NalType::Reserved14),
            15 => Some(H265NalType::Reserved15),
            16 => Some(H265NalType::BlaNLp),
            17 => Some(H265NalType::BlaWLp),
            18 => Some(H265NalType::BlaWRadl),
            19 => Some(H265NalType::IdrWRadl),
            20 => Some(H265NalType::IdrNLp),
            21 => Some(H265NalType::CraNut),
            22 => Some(H265NalType::Reserved22),
            23 => Some(H265NalType::Reserved23),
            24 => Some(H265NalType::Reserved24),
            25 => Some(H265NalType::Reserved25),
            26 => Some(H265NalType::Reserved26),
            27 => Some(H265NalType::Reserved27),
            28 => Some(H265NalType::Reserved28),
            29 => Some(H265NalType::Reserved29),
            30 => Some(H265NalType::Reserved30),
            31 => Some(H265NalType::Reserved31),
            32 => Some(H265NalType::Vps),
            33 => Some(H265NalType::Sps),
            34 => Some(H265NalType::Pps),
            35 => Some(H265NalType::AccessUnitDelimiter),
            36 => Some(H265NalType::EndOfSequence),
            37 => Some(H265NalType::EndOfBitstream),
            38 => Some(H265NalType::FillerData),
            39 => Some(H265NalType::SeiPrefix),
            40 => Some(H265NalType::SeiSuffix),
            _ => None,
        }
    }

    /// Returns the raw NAL type value.
    pub fn as_u8(self) -> (r: u8)
        ensures
            r == self.code(),
    {
        match self {
            H265NalType::TrailN => 0,
            H265NalType::TrailR => 1,
            H265NalType::TsaN => 2,
            H265NalType::TsaR => 3,
            H265NalType::StsaN => 4,
            H265NalType::StsaR => 5,
            H265NalType::RadlN => 6,
            H265NalType::RadlR => 7,
            H265NalType::RaslN => 8,
            H265NalType::RaslR => 9,
            H265NalType::Reserved10 => 10,
            H265NalType::Reserved11 => 11,
            H265NalType::Reserved12 => 12,
            H265NalType::Reserved13 => 13,
            H265NalType::Reserved14 => 14,
            H265NalType::Reserved15 => 15,
            H265NalType::BlaNLp => 16,
            H265NalType::BlaWLp => 17,
            H265NalType::BlaWRadl => 18,
            H265NalType::IdrWRadl => 19,
            H265NalType::IdrNLp => 20,
            H265NalType::CraNut => 21,
            H265NalType::Reserved22 => 22,
            H265NalType::Reserved23 => 23,
            H265NalType::Reserved24 => 24,
            H265NalType::Reserved25 => 25,
            H265NalType::Reserved26 => 26,
            H265NalType::Reserved27 => 27,
            H265NalType::Reserved28 => 28,
            H265NalType::Reserved29 => 29,
            H265NalType::Reserved30 => 30,
            H265NalType::Reserved31 => 31,
            H265NalType::Vps => 32,
            H265NalType::Sps => 33,
            H265NalType::Pps => 34,
            H265NalType::AccessUnitDelimiter => 35,
            H265NalType::EndOfSequence => 36,
            H265NalType::EndOfBitstream => 37,
            H265NalType::FillerData => 38,
            H265NalType::SeiPrefix => 39,
            H265NalType::SeiSuffix => 40,
        }
    }

    /// Checks if this NAL unit is a keyframe (IDR, BLA, or CRA slice).
    pub fn is_keyframe(self) -> (r: bool)
        ensures
            r == (16 <= self.code() <= 21),
    {
        matches!(
            self,
            H265NalType::BlaNLp
                | H265NalType::BlaWLp
                | H265NalType::BlaWRadl
                | H265NalType::IdrWRadl
                | H265NalType::IdrNLp
                | H265NalType::CraNut
        )
    }

    /// Checks if this NAL unit is a parameter set (VPS, SPS, or PPS).
    pub fn is_parameter_set(self) -> (r: bool)
        ensures
            r == (self is Vps || self is Sps || self is Pps),
    {
        matches!(self, H265NalType::Vps | H265NalType::Sps | H265NalType::Pps)
    }
}

/// No two H.264 types have the same number, so a number read back names the
/// type it was written for.
pub proof fn lemma_h264_code_injective(a: H264NalType, b: H264NalType)
    requires
        a.code() == b.code(),
    ensures
        a == b,
{
}

/// No two H.265 types have the same number.
pub proof fn lemma_h265_code_injective(a: H265NalType, b: H265NalType)
    requires
        a.code() == b.code(),
    ensures
        a == b,
{
}

/// The number of an H.264 unit's type: the low five bits of its first byte.
pub open spec fn h264_type_code(nal: Seq<u8>) -> int {
    nal[0] as int % 32
}

/// The number of an H.265 unit's type: bits 1 to 6 of its first byte.
pub open spec fn h265_type_code(nal: Seq<u8>) -> int {
    nal[0] as int / 2 % 64
}

/// An IDR slice.
pub open spec fn h264_keyframe(nal: Seq<u8>) -> bool {
    nal.len() >= 1 && h264_type_code(nal) == 5
}

/// An SPS (7) or a PPS (8).
pub open spec fn h264_parameter_set(nal: Seq<u8>) -> bool {
    nal.len() >= 1 && 7 <= h264_type_code(nal) <= 8
}

/// A BLA, IDR or CRA slice; a unit without its two header bytes is none.
pub open spec fn h265_keyframe(nal: Seq<u8>) -> bool {
    nal.len() >= 2 && 16 <= h265_type_code(nal) <= 21
}

/// A VPS (32), an SPS (33) or a PPS (34).
pub open spec fn h265_parameter_set(nal: Seq<u8>) -> bool {
    nal.len() >= 2 && 32 <= h265_type_code(nal) <= 34
}

/// Whether the unit starts a picture that needs no earlier one.
pub open spec fn keyframe(nal: Seq<u8>, codec: VideoCodec) -> bool {
    match codec {
        VideoCodec::H264 => h264_keyframe(nal),
        VideoCodec::H265 => h265_keyframe(nal),
    }
}

/// Whether the unit is one that a decoder is configured from.
pub open spec fn parameter_set(nal: Seq<u8>, codec: VideoCodec) -> bool {
    match codec {
        VideoCodec::H264 => h264_parameter_set(nal),
        VideoCodec::H265 => h265_parameter_set(nal),
    }
}

/// Gets the H.264 NAL type from a NAL unit.
pub fn get_h264_nal_type(nal: &[u8]) -> (r: Option<H264NalType>)
    ensures
        r is Some <==> nal@.len() >= 1 && h264_type_code(nal@) <= 23,
        r matches Some(t) ==> t.code() == h264_type_code(nal@),
{
    if nal.len() == 0 {
        return None;
    }
    H264NalType::from_byte(nal[0])
}

/// Gets the H.265 NAL type from a NAL unit.
pub fn get_h265_nal_type(nal: &[u8]) -> (r: Option<H265NalType>)
    ensures
        r is Some <==> nal@.len() >= 2 && h265_type_code(nal@) <= 40,
        r matches Some(t) ==> t.code() == h265_type_code(nal@),
{
    if nal.len() < 2 {
        return None;
    }
    H265NalType::from_header(nal[0], nal[1])
}

/// Checks if an H.264 NAL unit is a keyframe (IDR slice).
pub fn is_h264_keyframe(nal: &[u8]) -> (r: bool)
    ensures
        r == h264_keyframe(nal@),
{
    match get_h264_nal_type(nal) {
        Some(t) => t.is_keyframe(),
        None => false,
    }
}

/// Checks if an H.265 NAL unit is a keyframe (IDR, BLA, or CRA slice).
pub fn is_h265_keyframe(nal: &[u8]) -> (r: bool)
    ensures
        r == h265_keyframe(nal@),
{
    match get_h265_nal_type(nal) {
        Some(t) => t.is_keyframe(),
        None => false,
    }
}

/// Checks if an H.264 NAL unit is a parameter set (SPS or PPS).
pub fn is_h264_parameter_set(nal: &[u8]) -> (r: bool)
    ensures
        r == h264_parameter_set(nal@),
{
    match get_h264_nal_type(nal) {
        Some(t) => t.is_parameter_set(),
        None => false,
    }
}

/// Checks if an H.265 NAL unit is a parameter set (VPS, SPS, or PPS).
pub fn is_h265_parameter_set(nal: &[u8]) -> (r: bool)
    ensures
        r == h265_parameter_set(nal@),
{
    match get_h265_nal_type(nal) {
        Some(t) => t.is_parameter_set(),
        None => false,
    }
}

/// Checks if a NAL unit is a keyframe for the given codec.
pub fn is_keyframe(nal: &[u8], codec: &VideoCodec) -> (r: bool)
    ensures
        r == keyframe(nal@, *codec),
{
    match codec {
        VideoCodec::H264 => is_h264_keyframe(nal),
        VideoCodec::H265 => is_h265_keyframe(nal),
    }
}

/// Checks if a NAL unit is a parameter set for the given codec.
pub fn is_parameter_set(nal: &[u8], codec: &VideoCodec) -> (r: bool)
    ensures
        r == parameter_set(nal@, *codec),
{
    match codec {
        VideoCodec::H264 => is_h264_parameter_set(nal),
        VideoCodec::H265 => is_h265_parameter_set(nal),
    }
}

/// What a unit is, by the bits of its first byte: in H.264 the five lowest, in
/// H.265 the six above the lowest. A slice of an IDR picture is a keyframe, in
/// H.265 also one of a BLA or CRA picture; SPS and PPS, in H.265 also VPS, are
/// the parameter sets. A unit that is shorter than its header is neither.
pub proof fn lemma_told_by_header_bits(nal: Seq<u8>)
    ensures
        nal.len() >= 1 ==> {
            let number = nal[0] & 0x1F;
            &&& keyframe(nal, VideoCodec::H264) <==> number == 5
            &&& parameter_set(nal, VideoCodec::H264) <==> number == 7 || number == 8
        },
        nal.len() >= 2 ==> {
            let number = (nal[0] >> 1) & 0x3F;
            &&& keyframe(nal, VideoCodec::H265) <==> number == 16 || number == 17 || number == 18
                || number == 19 || number == 20 || number == 21
            &&& parameter_set(nal, VideoCodec::H265) <==> number == 32 || number == 33 || number
                == 34
        },
        nal.len() == 0 ==> !keyframe(nal, VideoCodec::H264) && !parameter_set(
            nal,
            VideoCodec::H264,
        ),
        nal.len() < 2 ==> !keyframe(nal, VideoCodec::H265) && !parameter_set(
            nal,
            VideoCodec::H265,
        ),
{
    let byte = nal[0];
    assert(byte & 0x1F == byte % 32) by (bit_vector);
    assert((byte >> 1) & 0x3F == byte / 2 % 64) by (bit_vector);
}

} // verus!
