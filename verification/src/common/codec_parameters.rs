//! The parameter sets of a stream, and how SDP announces them.
use crate::common::extradata::{extradata_of, parse_extradata, Extradata};
use crate::common::framing::{copy_range, views, FramingFormat};
use crate::common::nal_utils::{
    get_h264_nal_type, get_h265_nal_type, h264_type_code, h265_type_code, H264NalType, H265NalType,
};
use crate::common::VideoCodec;
use base64::engine::general_purpose::STANDARD;
use base64::Engine;
use vstd::prelude::*;
use vstd::string::*;

verus! {

/// The parameter sets that a decoder of the stream needs.
#[derive(Debug, Clone, PartialEq, Eq)]
pub struct CodecParameters {
    /// Video Parameter Set, unique to H.265.
    pub vps: Option<Vec<u8>>,
    /// Sequence Parameter Set: frame rate, color format, resolution.
    pub sps: Option<Vec<u8>>,
    /// Picture Parameter Set, which can change in mid-stream.
    pub pps: Option<Vec<u8>>,
    /// The size of the length prefixes in the stream's packets.
    pub nal_length_size: Option<usize>,
}

/// The contents of `CodecParameters`.
pub ghost struct CodecSets {
    pub vps: Option<Seq<u8>>,
    pub sps: Option<Seq<u8>>,
    pub pps: Option<Seq<u8>>,
    pub nal_length_size: Option<usize>,
}

/// The contents of an optional byte list.
pub open spec fn option_view(bytes: Option<Vec<u8>>) -> Option<Seq<u8>> {
    match bytes {
        Some(b) => Some(b@),
        None => None,
    }
}

impl View for CodecParameters {
    type V = CodecSets;

    open spec fn view(&self) -> CodecSets {
        CodecSets {
            vps: option_view(self.vps),
            sps: option_view(self.sps),
            pps: option_view(self.pps),
            nal_length_size: self.nal_length_size,
        }
    }
}

impl CodecSets {
    /// Without any parameter set.
    pub open spec fn none() -> CodecSets {
        CodecSets { vps: None, sps: None, pps: None, nal_length_size: None }
    }

    /// With the unit put in its place, where it is a parameter set.
    pub open spec fn with_unit(self, codec: VideoCodec, nal: Seq<u8>) -> CodecSets {
        match codec {
            VideoCodec::H264 => if nal.len() < 1 {
                self
            } else if h264_type_code(nal) == 7 {
                CodecSets { sps: Some(nal), ..self }
            } else if h264_type_code(nal) == 8 {
                CodecSets { pps: Some(nal), ..self }
            } else {
                self
            },
            VideoCodec::H265 => if nal.len() < 2 {
                self
            } else if h265_type_code(nal) == 32 {
                CodecSets { vps: Some(nal), ..self }
            } else if h265_type_code(nal) == 33 {
                CodecSets { sps: Some(nal), ..self }
            } else if h265_type_code(nal) == 34 {
                CodecSets { pps: Some(nal), ..self }
            } else {
                self
            },
        }
    }

    /// With the units put in their places one after the other: of several
    /// sets of one kind the last one stays.
    pub open spec fn with_units(self, codec: VideoCodec, nals: Seq<Seq<u8>>) -> CodecSets
        decreases nals.len(),
    {
        if nals.len() == 0 {
            self
        } else {
            self.with_units(codec, nals.drop_last()).with_unit(codec, nals.last())
        }
    }

    /// With what extradata says.
    pub open spec fn with_extradata(self, codec: VideoCodec, extradata: Extradata) -> CodecSets {
        CodecSets {
            nal_length_size: Some(extradata.length_size as usize),
            ..self
        }.with_units(codec, extradata.units)
    }
}

/// A byte, or zero behind the end.
pub open spec fn byte_or_zero(bytes: Seq<u8>, i: int) -> int {
    if i < bytes.len() {
        bytes[i] as int
    } else {
        0
    }
}

/// The character of a six-bit number in the standard Base64 alphabet.
pub open spec fn base64_char(n: int) -> char {
    if n < 26 {
        (65 + n) as char
    } else if n < 52 {
        (71 + n) as char
    } else if n < 62 {
        (n - 4) as char
    } else if n == 62 {
        '+'
    } else {
        '/'
    }
}

/// Bytes in Base64 with the standard alphabet and padding: each group of
/// three bytes is a 24-bit number, written as four six-bit digits; digits
/// that only stand for bytes behind the end are `=`.
pub open spec fn base64_text(bytes: Seq<u8>) -> Seq<char> {
    Seq::new(
        (bytes.len() + 2) / 3 * 4,
        |i: int|
            {
                let first = i / 4 * 3;
                let number = byte_or_zero(bytes, first) * 0x1_0000 + byte_or_zero(bytes, first + 1)
                    * 0x100 + byte_or_zero(bytes, first + 2);
                if i % 4 == 0 {
                    base64_char(number / 0x4_0000)
                } else if i % 4 == 1 {
                    base64_char(number / 0x1000 % 64)
                } else if first + i % 4 > bytes.len() {
                    '='
                } else if i % 4 == 2 {
                    base64_char(number / 64 % 64)
                } else {
                    base64_char(number % 64)
                }
            },
    )
}

/// `base64::Engine::encode` of the engine `STANDARD` returns the bytes in
/// Base64 with the standard alphabet and padding.
#[verifier::external_body]
fn encode_base64(bytes: &[u8]) -> (r: String)
    ensures
        r@ == base64_text(bytes@),
{
    STANDARD.encode(bytes)
}

/// `;<key>` and the set in Base64, where there is one.
pub open spec fn fmtp_part(key: Seq<char>, set: Option<Seq<u8>>) -> Seq<char> {
    match set {
        Some(bytes) => key + base64_text(bytes),
        None => seq![],
    }
}

/// The format parameters of an RTP stream with the given sets.
pub open spec fn fmtp_text(codec: VideoCodec, sets: CodecSets) -> Seq<char> {
    match codec {
        VideoCodec::H264 => match (sets.sps, sets.pps) {
            (Some(sps), Some(pps)) => "packetization-mode=1"@ + ";sprop-parameter-sets="@
                + base64_text(sps) + ","@ + base64_text(pps),
            _ => "packetization-mode=1"@,
        },
        VideoCodec::H265 => "sprop-max-don-diff=0"@ + fmtp_part(";sprop-vps="@, sets.vps)
            + fmtp_part(";sprop-sps="@, sets.sps) + fmtp_part(";sprop-pps="@, sets.pps),
    }
}

/// Appends `<key><set in Base64>`, where there is a set.
fn push_fmtp_part(out: &mut String, key: &str, set: &Option<Vec<u8>>)
    ensures
        final(out)@ == old(out)@ + fmtp_part(key@, option_view(*set)),
{
    match set {
        Some(bytes) => {
            out.append(key);
            let encoded = encode_base64(bytes.as_slice());
            out.append(encoded.as_str());
            assert(out@ =~= old(out)@ + fmtp_part(key@, option_view(*set)));
        },
        None => {
            assert(out@ =~= old(out)@ + fmtp_part(key@, option_view(*set)));
        },
    }
}

impl Default for CodecParameters {
    fn default() -> (r: Self)
        ensures
            r@ == CodecSets::none(),
    {
        CodecParameters { vps: None, sps: None, pps: None, nal_length_size: None }
    }
}

/// A copy of an optional byte list.
fn copy_option(bytes: &Option<Vec<u8>>) -> (r: Option<Vec<u8>>)
    ensures
        option_view(r) == option_view(*bytes),
{
    match bytes {
        Some(b) => {
            let copy = copy_range(b.as_slice(), 0, b.len());
            assert(copy@ =~= b@);
            Some(copy)
        },
        None => None,
    }
}

impl CodecParameters {
    /// A copy of the parameters.
    pub fn copied(&self) -> (r: Self)
        ensures
            r@ == self@,
    {
        CodecParameters {
            vps: copy_option(&self.vps),
            sps: copy_option(&self.sps),
            pps: copy_option(&self.pps),
            nal_length_size: self.nal_length_size,
        }
    }

    /// Takes a NAL unit over where it is a parameter set.
    pub fn update_from_nal(&mut self, codec: &VideoCodec, nal: &[u8])
        ensures
            final(self)@ == old(self)@.with_unit(*codec, nal@),
    {
        if nal.len() == 0 {
            return;
        }
        let set = copy_range(nal, 0, nal.len());
        assert(set@ =~= nal@);
        match codec {
            VideoCodec::H264 => {
                if let Some(nal_type) = get_h264_nal_type(nal) {
                    match nal_type {
                        H264NalType::Sps => self.sps = Some(set),
                        H264NalType::Pps => self.pps = Some(set),
                        _ => {},
                    }
                }
            },
            VideoCodec::H265 => {
                if let Some(nal_type) = get_h265_nal_type(nal) {
                    match nal_type {
                        H265NalType::Vps => self.vps = Some(set),
                        H265NalType::Sps => self.sps = Some(set),
                        H265NalType::Pps => self.pps = Some(set),
                        _ => {},
                    }
                }
            },
        }
    }

    /// Takes the parameter sets of a list of units over.
    pub fn update_from_nals(&mut self, codec: &VideoCodec, nals: &[Vec<u8>])
        ensures
            final(self)@ == old(self)@.with_units(*codec, views(nals@)),
    {
        let ghost units = views(nals@);
        let mut i: usize = 0;
        assert(units.take(0) =~= seq![]);
        while i < nals.len()
            invariant
                i <= nals@.len(),
                units == views(nals@),
                self@ == old(self)@.with_units(*codec, units.take(i as int)),
            decreases nals@.len() - i,
        {
            assert(units.take(i + 1).drop_last() =~= units.take(i as int));
            assert(units.take(i + 1).last() == nals@[i as int]@);
            self.update_from_nal(codec, nals[i].as_slice());
            i += 1;
        }
        assert(units.take(i as int) =~= units);
    }

    /// Takes over what extradata says; extradata that says nothing changes
    /// nothing.
    pub fn update_from_extradata(&mut self, codec: &VideoCodec, extradata: &[u8])
        ensures
            final(self)@ == (match extradata_of(extradata@, *codec) {
                Some(e) => old(self)@.with_extradata(*codec, e),
                None => old(self)@,
            }),
    {
        if let Some(parsed) = parse_extradata(extradata, codec) {
            self.nal_length_size = match parsed.framing_format {
                FramingFormat::AnnexB => None,
                FramingFormat::Avcc { length_size } => Some(length_size),
            };
            self.update_from_nals(codec, parsed.nals.as_slice());
        }
    }

    /// The format parameters that SDP announces the stream with.
    pub fn fmtp(&self, codec: &VideoCodec) -> (r: String)
        ensures
            r@ == fmtp_text(*codec, self@),
    {
        let mut out = String::new();
        match codec {
            VideoCodec::H264 => {
                out.append("packetization-mode=1");
                assert(out@ =~= "packetization-mode=1"@);
                if let (Some(sps), Some(pps)) = (&self.sps, &self.pps) {
                    let sps_b64 = encode_base64(sps.as_slice());
                    let pps_b64 = encode_base64(pps.as_slice());
                    out.append(";sprop-parameter-sets=");
                    out.append(sps_b64.as_str());
                    out.append(",");
                    out.append(pps_b64.as_str());
                }
            },
            VideoCodec::H265 => {
                // In HEVC over RTP the Decoding Order Number (DON) manages packets
                // that arrive out of order. The "stream property max DON difference"
                // bounds how far apart the DONs of two NAL units in transmission
                // order may be.
                out.append("sprop-max-don-diff=0");
                assert(out@ =~= "sprop-max-don-diff=0"@);
                push_fmtp_part(&mut out, ";sprop-vps=", &self.vps);
                push_fmtp_part(&mut out, ";sprop-sps=", &self.sps);
                push_fmtp_part(&mut out, ";sprop-pps=", &self.pps);
            },
        }
        out
    }
}

/// A set in Base64 holds neither of the characters that separate sets, so
/// the receiver can tell the sets of a format parameter apart.
pub proof fn lemma_base64_has_no_separator(bytes: Seq<u8>)
    ensures
        forall|i: int|
            0 <= i < base64_text(bytes).len() ==> #[trigger] base64_text(bytes)[i] != ';'
                && base64_text(bytes)[i] != ',',
{
    assert forall|n: int| 0 <= n < 64 implies #[trigger] base64_char(n) != ';' && base64_char(n)
        != ',' by {}
}

/// The number of a parameter set's kind: 1 is a VPS, 2 an SPS, 3 a PPS; 0 is no
/// parameter set.
pub open spec fn set_kind(nal: Seq<u8>, codec: VideoCodec) -> int {
    match codec {
        VideoCodec::H264 => if nal.len() > 0 && nal[0] % 32 == 7 {
            2
        } else if nal.len() > 0 && nal[0] % 32 == 8 {
            3
        } else {
            0
        },
        VideoCodec::H265 => if nal.len() > 1 && 32 <= nal[0] / 2 % 64 <= 34 {
            nal[0] / 2 % 64 - 31
        } else {
            0
        },
    }
}

/// The set of a kind.
pub open spec fn set_of_kind(sets: CodecSets, kind: int) -> Option<Seq<u8>> {
    if kind == 1 {
        sets.vps
    } else if kind == 2 {
        sets.sps
    } else {
        sets.pps
    }
}

/// Of several sets of a kind the last one stays; where units hold none of a
/// kind, the set that was known stays. The size of lengths is not touched.
pub proof fn lemma_last_set_stays(
    sets: CodecSets,
    codec: VideoCodec,
    nals: Seq<Seq<u8>>,
    kind: int,
    i: int,
)
    requires
        1 <= kind <= 3,
        -1 <= i < nals.len(),
        i >= 0 ==> set_kind(nals[i], codec) == kind,
        forall|j: int| i < j < nals.len() ==> set_kind(#[trigger] nals[j], codec) != kind,
    ensures
        i >= 0 ==> set_of_kind(sets.with_units(codec, nals), kind) == Some(nals[i]),
        i < 0 ==> set_of_kind(sets.with_units(codec, nals), kind) == set_of_kind(sets, kind),
        sets.with_units(codec, nals).nal_length_size == sets.nal_length_size,
    decreases nals.len(),
{
    if nals.len() > 0 {
        let earlier = nals.drop_last();
        let last = nals.len() - 1;
        assert(nals.last() == nals[last]);
        if i < last {
            assert(set_kind(nals[last], codec) != kind);
            assert forall|j: int| i < j < earlier.len() implies set_kind(
                #[trigger] earlier[j],
                codec,
            ) != kind by {
                assert(earlier[j] == nals[j]);
            }
            lemma_last_set_stays(sets, codec, earlier, kind, i);
        } else {
            lemma_lengths_untouched(sets, codec, earlier);
        }
    }
}

/// Units do not touch the size of lengths.
proof fn lemma_lengths_untouched(sets: CodecSets, codec: VideoCodec, nals: Seq<Seq<u8>>)
    ensures
        sets.with_units(codec, nals).nal_length_size == sets.nal_length_size,
    decreases nals.len(),
{
    if nals.len() > 0 {
        lemma_lengths_untouched(sets, codec, nals.drop_last());
    }
}

/// Extradata sets the size of lengths, and its units count like any others.
pub proof fn lemma_extradata_taken_over(sets: CodecSets, codec: VideoCodec, extradata: Extradata)
    requires
        1 <= extradata.length_size <= 4,
    ensures
        sets.with_extradata(codec, extradata).nal_length_size == Some(
            extradata.length_size as usize,
        ),
        sets.with_extradata(codec, extradata).vps == sets.with_units(codec, extradata.units).vps,
        sets.with_extradata(codec, extradata).sps == sets.with_units(codec, extradata.units).sps,
        sets.with_extradata(codec, extradata).pps == sets.with_units(codec, extradata.units).pps,
{
    let base = CodecSets { nal_length_size: Some(extradata.length_size as usize), ..sets };
    lemma_lengths_untouched(base, codec, extradata.units);
    lemma_sets_apart(base, sets, codec, extradata.units);
}

/// Which sets units leave does not depend on the size of lengths.
proof fn lemma_sets_apart(a: CodecSets, b: CodecSets, codec: VideoCodec, nals: Seq<Seq<u8>>)
    requires
        a.vps == b.vps && a.sps == b.sps && a.pps == b.pps,
    ensures
        a.with_units(codec, nals).vps == b.with_units(codec, nals).vps,
        a.with_units(codec, nals).sps == b.with_units(codec, nals).sps,
        a.with_units(codec, nals).pps == b.with_units(codec, nals).pps,
    decreases nals.len(),
{
    if nals.len() > 0 {
        lemma_sets_apart(a, b, codec, nals.drop_last());
    }
}

/// Different six-bit numbers are different characters.
proof fn lemma_base64_chars_distinct(a: int, b: int)
    requires
        0 <= a < 64,
        0 <= b < 64,
        base64_char(a) == base64_char(b),
    ensures
        a == b,
        base64_char(a) != '=',
{
}

/// The characters of a number of 24 bits determine it.
proof fn lemma_group_of_digits(n: int, m: int)
    requires
        0 <= n < 0x100_0000,
        0 <= m < 0x100_0000,
        n / 0x4_0000 == m / 0x4_0000,
        n / 0x1000 % 64 == m / 0x1000 % 64,
        n / 64 % 64 == m / 64 % 64,
        n % 64 == m % 64,
    ensures
        n == m,
{
}

/// Groups with the same characters are the same.
proof fn lemma_groups_distinct(a: Seq<u8>, b: Seq<u8>, g: int)
    requires
        a.len() == b.len(),
        base64_text(a) == base64_text(b),
        0 <= g < (a.len() + 2) / 3,
    ensures
        byte_or_zero(a, 3 * g) == byte_or_zero(b, 3 * g),
        byte_or_zero(a, 3 * g + 1) == byte_or_zero(b, 3 * g + 1),
        byte_or_zero(a, 3 * g + 2) == byte_or_zero(b, 3 * g + 2),
{
    let first = g * 3;
    let n = byte_or_zero(a, first) * 0x1_0000 + byte_or_zero(a, first + 1) * 0x100 + byte_or_zero(
        a,
        first + 2,
    );
    let m = byte_or_zero(b, first) * 0x1_0000 + byte_or_zero(b, first + 1) * 0x100 + byte_or_zero(
        b,
        first + 2,
    );
    lemma_digits_of_group(a, g);
    lemma_digits_of_group(b, g);
    lemma_base64_chars_distinct(n / 0x4_0000, m / 0x4_0000);
    lemma_base64_chars_distinct(n / 0x1000 % 64, m / 0x1000 % 64);
    if first + 2 <= a.len() {
        lemma_base64_chars_distinct(n / 64 % 64, m / 64 % 64);
    }
    if first + 3 <= a.len() {
        lemma_base64_chars_distinct(n % 64, m % 64);
    }
    lemma_group_of_digits(n, m);
}

/// Different bytes have different texts in Base64.
pub proof fn lemma_base64_distinct(a: Seq<u8>, b: Seq<u8>)
    requires
        base64_text(a) == base64_text(b),
    ensures
        a == b,
{
    assert(base64_text(a).len() == (a.len() + 2) / 3 * 4);
    assert(base64_text(b).len() == (b.len() + 2) / 3 * 4);
    if a.len() > 0 && b.len() > 0 {
        lemma_padding(a);
        lemma_padding(b);
    }
    assert(a.len() == b.len());
    assert forall|i: int| 0 <= i < a.len() implies a[i] == b[i] by {
        lemma_groups_distinct(a, b, i / 3);
        assert(byte_or_zero(a, i) == byte_or_zero(b, i));
    }
    assert(a =~= b);
}

/// The four characters of a group.
proof fn lemma_digits_of_group(bytes: Seq<u8>, g: int)
    requires
        0 <= g < (bytes.len() + 2) / 3,
    ensures
        ({
            let s = base64_text(bytes);
            let first = g * 3;
            let n = byte_or_zero(bytes, first) * 0x1_0000 + byte_or_zero(bytes, first + 1) * 0x100
                + byte_or_zero(bytes, first + 2);
            &&& 0 <= n < 0x100_0000
            &&& s[4 * g] == base64_char(n / 0x4_0000)
            &&& s[4 * g + 1] == base64_char(n / 0x1000 % 64)
            &&& s[4 * g + 2] == (if first + 2 > bytes.len() {
                '='
            } else {
                base64_char(n / 64 % 64)
            })
            &&& s[4 * g + 3] == (if first + 3 > bytes.len() {
                '='
            } else {
                base64_char(n % 64)
            })
            &&& first + 2 > bytes.len() ==> n / 64 % 64 == 0
            &&& first + 3 > bytes.len() ==> n % 64 == byte_or_zero(bytes, first + 2)
                && byte_or_zero(bytes, first + 2) == 0
        }),
{
    let first = g * 3;
    assert(4 * g / 4 == g && (4 * g + 1) / 4 == g && (4 * g + 2) / 4 == g && (4 * g + 3) / 4 == g);
    assert(4 * g % 4 == 0 && (4 * g + 1) % 4 == 1 && (4 * g + 2) % 4 == 2 && (4 * g + 3) % 4 == 3);
}

/// The padding tells how many bytes the last group has.
proof fn lemma_padding(bytes: Seq<u8>)
    requires
        bytes.len() > 0,
    ensures
        ({
            let s = base64_text(bytes);
            let last = s.len() as int - 1;
            &&& last >= 3
            &&& s.len() == (bytes.len() + 2) / 3 * 4
            &&& s[last] == '=' <==> bytes.len() % 3 != 0
            &&& s[last - 1] == '=' <==> bytes.len() % 3 == 1
        }),
{
    let g = (bytes.len() + 2) / 3 - 1;
    let first = g * 3;
    let n = byte_or_zero(bytes, first) * 0x1_0000 + byte_or_zero(bytes, first + 1) * 0x100
        + byte_or_zero(bytes, first + 2);
    lemma_digits_of_group(bytes, g);
    lemma_base64_chars_distinct(n % 64, n % 64);
    lemma_base64_chars_distinct(n / 64 % 64, n / 64 % 64);
}

/// What is announced of an H.264 stream: its two sets, where both are known.
pub proof fn lemma_h264_announcement(sets: CodecSets)
    ensures
        sets.sps matches Some(sps) ==> (sets.pps matches Some(pps) ==> fmtp_text(
            VideoCodec::H264,
            sets,
        ) == "packetization-mode=1;sprop-parameter-sets="@ + base64_text(sps) + seq![',']
            + base64_text(pps)),
        sets.sps is None || sets.pps is None ==> fmtp_text(VideoCodec::H264, sets)
            == "packetization-mode=1"@,
        fmtp_text(VideoCodec::H264, sets).len() > 0,
{
    reveal_strlit("packetization-mode=1");
    reveal_strlit(";sprop-parameter-sets=");
    reveal_strlit(",");
    reveal_strlit("packetization-mode=1;sprop-parameter-sets=");
    if let (Some(sps), Some(pps)) = (sets.sps, sets.pps) {
        assert(fmtp_text(VideoCodec::H264, sets)
            =~= "packetization-mode=1;sprop-parameter-sets="@ + base64_text(sps) + seq![',']
            + base64_text(pps));
    }
}

/// What is announced of an H.265 stream: each of its three sets that is known,
/// in the order VPS, SPS, PPS.
pub proof fn lemma_h265_announcement(sets: CodecSets)
    ensures
        sets.vps matches Some(vps) ==> (sets.sps matches Some(sps) ==> (sets.pps matches Some(pps)
            ==> fmtp_text(VideoCodec::H265, sets) == "sprop-max-don-diff=0;sprop-vps="@
            + base64_text(vps) + ";sprop-sps="@ + base64_text(sps) + ";sprop-pps="@ + base64_text(
            pps,
        ))),
        sets.vps is None && sets.pps is None ==> (sets.sps matches Some(sps) ==> fmtp_text(
            VideoCodec::H265,
            sets,
        ) == "sprop-max-don-diff=0;sprop-sps="@ + base64_text(sps)),
        sets.vps is None && sets.sps is None ==> (sets.pps matches Some(pps) ==> fmtp_text(
            VideoCodec::H265,
            sets,
        ) == "sprop-max-don-diff=0;sprop-pps="@ + base64_text(pps)),
        sets.vps is None ==> (sets.sps matches Some(sps) ==> (sets.pps matches Some(pps)
            ==> fmtp_text(VideoCodec::H265, sets) == "sprop-max-don-diff=0;sprop-sps="@
            + base64_text(sps) + ";sprop-pps="@ + base64_text(pps))),
        sets.vps is None && sets.sps is None && sets.pps is None ==> fmtp_text(
            VideoCodec::H265,
            sets,
        ) == "sprop-max-don-diff=0"@,
        fmtp_text(VideoCodec::H265, sets).len() > 0,
{
    reveal_strlit("sprop-max-don-diff=0");
    reveal_strlit(";sprop-vps=");
    reveal_strlit(";sprop-sps=");
    reveal_strlit(";sprop-pps=");
    reveal_strlit("sprop-max-don-diff=0;sprop-vps=");
    reveal_strlit("sprop-max-don-diff=0;sprop-sps=");
    reveal_strlit("sprop-max-don-diff=0;sprop-pps=");
    let said = fmtp_text(VideoCodec::H265, sets);
    if let (Some(vps), Some(sps), Some(pps)) = (sets.vps, sets.sps, sets.pps) {
        assert(said =~= "sprop-max-don-diff=0;sprop-vps="@ + base64_text(vps) + ";sprop-sps="@
            + base64_text(sps) + ";sprop-pps="@ + base64_text(pps));
    }
    if let (None, Some(sps), Some(pps)) = (sets.vps, sets.sps, sets.pps) {
        assert(said =~= "sprop-max-don-diff=0;sprop-sps="@ + base64_text(sps) + ";sprop-pps="@
            + base64_text(pps));
    }
    if let (None, Some(sps), None) = (sets.vps, sets.sps, sets.pps) {
        assert(said =~= "sprop-max-don-diff=0;sprop-sps="@ + base64_text(sps));
    }
    if let (None, None, Some(pps)) = (sets.vps, sets.sps, sets.pps) {
        assert(said =~= "sprop-max-don-diff=0;sprop-pps="@ + base64_text(pps));
    }
    if sets.vps is None && sets.sps is None && sets.pps is None {
        assert(said =~= "sprop-max-don-diff=0"@);
    }
}

} // verus!
