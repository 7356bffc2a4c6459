//! Odds and ends of streams and files.
use crate::common::framing::{
    annex_b_units, avcc_units, be32, coded_stream, lemma_coded_stream_read, lemma_length_read, length_stream,
    read_be32, start_code, well_formed_unit, with_length,
};
use crate::domain::dvr::filesystem::{sha256, sha256_digest};
use crate::text::{decimal, decimal_text, hex_text, push_decimal, push_hex_byte, text};
use vstd::prelude::*;
use vstd::string::*;
use vstd::utf8::*;

verus! {

/// The directory of all recordings.
pub const DVR_DIRECTORY: &'static str = "dvr";

/// Why length-prefixed data cannot be given start codes.
#[derive(Debug, Clone, Copy, PartialEq, Eq, Structural)]
pub enum AnnexBError {
    /// The data ends within a length field.
    IncompleteLengthField,
    /// A length is greater than what is left of the data.
    LengthExceedsData { length: u32 },
}

impl AnnexBError {
    /// The error in words.
    pub open spec fn said(self) -> Seq<char> {
        match self {
            AnnexBError::IncompleteLengthField =>
                "Invalid NAL stream: incomplete length field at end"@,
            AnnexBError::LengthExceedsData { length } => "Invalid NAL unit: length "@ + decimal(
                length as nat,
            ) + " exceeds remaining data"@,
        }
    }

    /// The error in words.
    pub fn message(&self) -> (r: String)
        ensures
            r@ == self.said(),
    {
        match self {
            AnnexBError::IncompleteLengthField => text(
                "Invalid NAL stream: incomplete length field at end",
            ),
            AnnexBError::LengthExceedsData { length } => {
                let mut out = text("Invalid NAL unit: length ");
                push_decimal(&mut out, *length as u64);
                out.append(" exceeds remaining data");
                out
            },
        }
    }
}

/// The units of data in which each unit stands behind a four-byte length.
pub open spec fn prefixed_units(data: Seq<u8>) -> Result<Seq<Seq<u8>>, AnnexBError>
    decreases data.len(),
{
    if data.len() == 0 {
        Ok(seq![])
    } else if data.len() < 4 {
        Err(AnnexBError::IncompleteLengthField)
    } else if 4 + be32(data, 0) > data.len() {
        Err(AnnexBError::LengthExceedsData { length: be32(data, 0) as u32 })
    } else {
        behind(seq![data.subrange(4, 4 + be32(data, 0))], prefixed_units(data.skip(4 + be32(data, 0))))
    }
}

/// Units behind others.
pub open spec fn behind(
    first: Seq<Seq<u8>>,
    rest: Result<Seq<Seq<u8>>, AnnexBError>,
) -> Result<Seq<Seq<u8>>, AnnexBError> {
    match rest {
        Ok(units) => Ok(first + units),
        Err(error) => Err(error),
    }
}

/// Units, each behind a start code.
pub open spec fn with_start_codes(units: Seq<Seq<u8>>) -> Seq<u8>
    decreases units.len(),
{
    if units.len() == 0 {
        seq![]
    } else {
        with_start_codes(units.drop_last()) + start_code() + units.last()
    }
}

/// Puts start codes in the place of four-byte lengths.
pub fn convert_h264_to_annex_b(data: Vec<u8>) -> (r: Result<Vec<u8>, AnnexBError>)
    ensures
        match r {
            Ok(stream) => prefixed_units(data@) matches Ok(units) && stream@ == with_start_codes(
                units,
            ),
            Err(error) => prefixed_units(data@) == Err::<Seq<Seq<u8>>, _>(error),
        },
{
    let bytes = data.as_slice();
    let mut result: Vec<u8> = Vec::new();
    let mut i: usize = 0;
    let ghost mut done: Seq<Seq<u8>> = seq![];
    assert(data@.skip(0) =~= data@);
    proof {
        lemma_behind_nothing(prefixed_units(data@));
    }
    while i < bytes.len()
        invariant
            bytes@ == data@,
            i <= data@.len(),
            prefixed_units(data@) == behind(done, prefixed_units(data@.skip(i as int))),
            result@ == with_start_codes(done),
        decreases data@.len() - i,
    {
        let ghost rest = data@.skip(i as int);
        if bytes.len() - i < 4 {
            return Err(AnnexBError::IncompleteLengthField);
        }
        let length: u32 = read_be32(bytes, i);
        assert(length == be32(rest, 0));
        if length as usize > bytes.len() - i - 4 {
            return Err(AnnexBError::LengthExceedsData { length });
        }
        let end: usize = i + 4 + length as usize;
        result.push(0);
        result.push(0);
        result.push(0);
        result.push(1);
        result.extend_from_slice(&bytes[i + 4..end]);
        proof {
            let unit = data@.subrange(i + 4, end as int);
            assert(rest.subrange(4, 4 + length) =~= unit);
            assert(rest.skip(4 + length) =~= data@.skip(end as int));
            lemma_behind_twice(done, unit, prefixed_units(data@.skip(end as int)));
            assert(done.push(unit).drop_last() =~= done);
            assert(result@ =~= with_start_codes(done) + start_code() + unit);
            done = done.push(unit);
        }
        i = end;
    }
    proof {
        assert(data@.skip(i as int) =~= seq![]);
        assert(done + Seq::<Seq<u8>>::empty() =~= done);
    }
    Ok(result)
}

proof fn lemma_behind_nothing(rest: Result<Seq<Seq<u8>>, AnnexBError>)
    ensures
        behind(seq![], rest) == rest,
{
    if let Ok(units) = rest {
        assert(Seq::<Seq<u8>>::empty() + units =~= units);
    }
}

proof fn lemma_behind_twice(
    done: Seq<Seq<u8>>,
    unit: Seq<u8>,
    rest: Result<Seq<Seq<u8>>, AnnexBError>,
)
    ensures
        behind(done, behind(seq![unit], rest)) == behind(done.push(unit), rest),
{
    if let Ok(units) = rest {
        assert(done + (seq![unit] + units) =~= done.push(unit) + units);
    }
}

/// Puts start codes in the place of four-byte lengths.
pub fn convert_h265_to_annex_b(data: Vec<u8>) -> (r: Result<Vec<u8>, AnnexBError>)
    ensures
        match r {
            Ok(stream) => prefixed_units(data@) matches Ok(units) && stream@ == with_start_codes(
                units,
            ),
            Err(error) => prefixed_units(data@) == Err::<Seq<Seq<u8>>, _>(error),
        },
{
    convert_h264_to_annex_b(data)
}

/// Data that can be given start codes holds the units that `parse_avcc` finds
/// in it with four-byte lengths, and they fill it.
pub proof fn lemma_converted_units(data: Seq<u8>)
    requires
        prefixed_units(data) is Ok,
    ensures
        prefixed_units(data)->Ok_0 == avcc_units(data, 4),
        with_start_codes(prefixed_units(data)->Ok_0).len() == data.len(),
    decreases data.len(),
{
    if data.len() > 0 {
        let end = 4 + be32(data, 0);
        let unit = data.subrange(4, end);
        let rest = data.skip(end);
        lemma_converted_units(rest);
        lemma_start_codes_of_first(unit, prefixed_units(rest)->Ok_0);
    }
}

/// Start codes of a list that begins with `first`.
proof fn lemma_start_codes_of_first(first: Seq<u8>, rest: Seq<Seq<u8>>)
    ensures
        with_start_codes(seq![first] + rest) == start_code() + first + with_start_codes(rest),
    decreases rest.len(),
{
    let all = seq![first] + rest;
    if rest.len() == 0 {
        assert(all.drop_last() =~= seq![]);
        assert(all.last() == first);
        assert(with_start_codes(all.drop_last()) =~= seq![]);
        assert(with_start_codes(all) =~= start_code() + first + with_start_codes(rest));
    } else {
        assert(all.drop_last() =~= seq![first] + rest.drop_last());
        assert(all.last() == rest.last());
        lemma_start_codes_of_first(first, rest.drop_last());
        assert(with_start_codes(all) =~= start_code() + first + with_start_codes(rest));
    }
}

/// A digest in hexadecimal.
pub fn digest_text(digest: &[u8]) -> (r: String)
    ensures
        r@ == hex_text(digest@),
{
    let mut out = String::new();
    let mut i: usize = 0;
    while i < digest.len()
        invariant
            i <= digest@.len(),
            out@ == hex_text(digest@.take(i as int)),
        decreases digest@.len() - i,
    {
        push_hex_byte(&mut out, digest[i]);
        assert(out@ =~= hex_text(digest@.take(i + 1)));
        i += 1;
    }
    assert(digest@.take(i as int) =~= digest@);
    out
}

/// The hash of a stream's address.
pub fn get_stream_hash(rtsp_url: &str) -> (r: String)
    ensures
        r@ == hex_text(sha256(encode_utf8(rtsp_url@))),
        r@.len() == 64,
{
    let digest = sha256_digest(rtsp_url.as_bytes());
    digest_text(digest.as_slice())
}

/// The path of a recording that is known by a number.
pub fn get_dvr_path(source_id: u64) -> (r: String)
    ensures
        r@ == DVR_DIRECTORY@ + "/"@ + decimal(source_id as nat) + ".mp4"@,
{
    let mut path = String::new();
    path.append(DVR_DIRECTORY);
    path.append("/");
    let name = decimal_text(source_id);
    path.append(name.as_str());
    path.append(".mp4");
    assert(path@ =~= DVR_DIRECTORY@ + "/"@ + decimal(source_id as nat) + ".mp4"@);
    path
}

/// What the types of H.264 units are called.
pub open spec fn unit_type_name(unit_type: int) -> Seq<char> {
    if unit_type == 1 {
        "Non-IDR"@
    } else if unit_type == 5 {
        "IDR"@
    } else if unit_type == 6 {
        "SEI"@
    } else if unit_type == 7 {
        "SPS"@
    } else if unit_type == 8 {
        "PPS"@
    } else if unit_type == 9 {
        "AUD"@
    } else {
        "Other"@
    }
}

/// A unit by its header: what its type is called, and its number.
pub open spec fn unit_label(header: u8) -> Seq<char> {
    unit_type_name(header as int % 32) + "("@ + decimal((header % 32) as nat) + ")"@
}

/// The labels of the units behind four-byte start codes from `i` on, with
/// commas between them; `first` is the first label of a list.
pub open spec fn unit_labels(data: Seq<u8>, i: int, first: bool) -> Seq<char>
    decreases data.len() - i,
{
    if i < 0 || i + 4 >= data.len() {
        seq![]
    } else if data.subrange(i, i + 4) == start_code() {
        (if first {
            seq![]
        } else {
            ", "@
        }) + unit_label(data[i + 4]) + unit_labels(data, i + 5, false)
    } else {
        unit_labels(data, i + 1, first)
    }
}

/// Appends the label of a unit.
fn push_unit_label(out: &mut String, header: u8)
    ensures
        final(out)@ == old(out)@ + unit_label(header),
{
    let unit_type: u8 = header % 32;
    let name = match unit_type {
        1 => "Non-IDR",
        5 => "IDR",
        6 => "SEI",
        7 => "SPS",
        8 => "PPS",
        9 => "AUD",
        _ => "Other",
    };
    out.append(name);
    out.append("(");
    push_decimal(out, unit_type as u64);
    out.append(")");
    assert(out@ =~= old(out)@ + unit_label(header));
}

/// Describes the units of an Annex-B frame, for a log.
pub fn log_nal_units(data: &[u8]) -> (r: String)
    ensures
        r@ == "Placeholder frame NAL units: "@ + unit_labels(data@, 0, true) + " (total "@ + decimal(
            data@.len(),
        ) + " bytes)"@,
{
    let head = "Placeholder frame NAL units: ";
    let mut out = text(head);
    let mut i: usize = 0;
    let mut first = true;
    assert(out@ + unit_labels(data@, 0, true) == head@ + unit_labels(data@, 0, true));
    while i < data.len() && data.len() - i > 4
        invariant
            i <= data@.len(),
            out@ + unit_labels(data@, i as int, first) == head@ + unit_labels(data@, 0, true),
        decreases data@.len() - i,
    {
        let ghost before = out@;
        let is_start = data[i] == 0 && data[i + 1] == 0 && data[i + 2] == 0 && data[i + 3] == 1;
        let ghost code = data@.subrange(i as int, i + 4);
        if is_start {
            assert(code =~= start_code());
            if !first {
                out.append(", ");
            }
            push_unit_label(&mut out, data[i + 4]);
            assert(before + unit_labels(data@, i as int, first) =~= out@ + unit_labels(
                data@,
                i + 5,
                false,
            ));
            first = false;
            i += 5;
        } else {
            assert(code[0] == data@[i as int] && code[1] == data@[i + 1] && code[2] == data@[i + 2]
                && code[3] == data@[i + 3]);
            assert(code != start_code());
            i += 1;
        }
    }
    assert(out@ =~= out@ + unit_labels(data@, i as int, first));
    out.append(" (total ");
    push_decimal(&mut out, data.len() as u64);
    out.append(" bytes)");
    out
}

/// Units behind start codes, as `build_annex_b` writes them, where none is
/// empty.
proof fn lemma_start_codes_as_stream(nals: Seq<Seq<u8>>)
    requires
        forall|i: int| 0 <= i < nals.len() ==> (#[trigger] nals[i]).len() > 0,
    ensures
        with_start_codes(nals) == coded_stream(nals, Seq::new(nals.len(), |i: int| true)),
    decreases nals.len(),
{
    let long = Seq::new(nals.len(), |i: int| true);
    if nals.len() > 0 {
        let rest = nals.skip(1);
        assert forall|i: int| 0 <= i < rest.len() implies (#[trigger] rest[i]).len() > 0 by {
            assert(rest[i] == nals[i + 1]);
        }
        lemma_start_codes_as_stream(rest);
        lemma_start_codes_of_first(nals[0], rest);
        assert(seq![nals[0]] + rest =~= nals);
        assert(long.skip(1) =~= Seq::new(rest.len(), |i: int| true));
        assert(with_start_codes(nals) =~= coded_stream(nals, long));
    }
}

/// Data that is converted holds the same units as before, in the same order: a
/// reader of start codes finds what a reader of lengths would have.
pub proof fn lemma_conversion_keeps_units(nals: Seq<Seq<u8>>)
    requires
        forall|i: int|
            0 <= i < nals.len() ==> well_formed_unit(#[trigger] nals[i]) && nals[i].len()
                < 0x1_0000_0000,
    ensures
        prefixed_units(length_stream(nals, 4)) == Ok::<_, AnnexBError>(nals),
        annex_b_units(with_start_codes(nals)) == nals,
{
    lemma_prefixed_units_read(nals);
    assert forall|i: int| 0 <= i < nals.len() implies (#[trigger] nals[i]).len() > 0 by {
        assert(well_formed_unit(nals[i]));
    }
    lemma_start_codes_as_stream(nals);
    assert forall|i: int| 0 <= i < nals.len() implies well_formed_unit(#[trigger] nals[i]) by {}
    lemma_coded_stream_read(nals, Seq::new(nals.len(), |i: int| true));
}

/// A stream of four-byte lengths is read as the units that it was made of,
/// whatever they hold.
pub proof fn lemma_prefixed_units_read(nals: Seq<Seq<u8>>)
    requires
        forall|i: int| 0 <= i < nals.len() ==> (#[trigger] nals[i]).len() < 0x1_0000_0000,
    ensures
        prefixed_units(length_stream(nals, 4)) == Ok::<_, AnnexBError>(nals),
    decreases nals.len(),
{
    let data = length_stream(nals, 4);
    if nals.len() > 0 {
        let rest = nals.skip(1);
        assert forall|i: int| 0 <= i < rest.len() implies (#[trigger] rest[i]).len()
            < 0x1_0000_0000 by {
            assert(rest[i] == nals[i + 1]);
        }
        lemma_prefixed_units_read(rest);
        assert(nals[0].len() < 0x1_0000_0000);
        lemma_length_read(nals[0], 4, length_stream(rest, 4));
        assert(seq![nals[0]] + rest =~= nals);
    } else {
        assert(nals =~= seq![]);
    }
}

/// Data that is cut off within its last unit, or within that unit's length, is
/// refused, and the length is told that could not be met.
pub proof fn lemma_cut_off_data_refused(nals: Seq<Seq<u8>>, nal: Seq<u8>, kept: int)
    requires
        forall|i: int| 0 <= i < nals.len() ==> (#[trigger] nals[i]).len() < 0x1_0000_0000,
        nal.len() < 0x1_0000_0000,
        0 < kept < 4 + nal.len(),
    ensures
        prefixed_units(length_stream(nals, 4) + with_length(nal, 4).take(kept)) == (if kept < 4 {
            Err::<Seq<Seq<u8>>, _>(AnnexBError::IncompleteLengthField)
        } else {
            Err(AnnexBError::LengthExceedsData { length: nal.len() as u32 })
        }),
    decreases nals.len(),
{
    let whole = with_length(nal, 4);
    let tail = whole.take(kept);
    let data = length_stream(nals, 4) + tail;
    if nals.len() == 0 {
        assert(data =~= tail);
        if kept >= 4 {
            lemma_length_read(nal, 4, seq![]);
            assert(whole + Seq::<u8>::empty() =~= whole);
            assert(tail[0] == whole[0] && tail[1] == whole[1] && tail[2] == whole[2] && tail[3]
                == whole[3]);
            assert(be32(tail, 0) == nal.len());
        }
    } else {
        let rest = nals.skip(1);
        assert forall|i: int| 0 <= i < rest.len() implies (#[trigger] rest[i]).len()
            < 0x1_0000_0000 by {
            assert(rest[i] == nals[i + 1]);
        }
        lemma_cut_off_data_refused(rest, nal, kept);
        let more = length_stream(rest, 4) + tail;
        assert(nals[0].len() < 0x1_0000_0000);
        assert(data =~= with_length(nals[0], 4) + more);
        lemma_length_read(nals[0], 4, more);
    }
}

/// The log names the first unit of a frame by its type, and nothing where no
/// unit begins.
pub proof fn lemma_first_unit_is_named(data: Seq<u8>)
    requires
        data.len() > 4,
        data[0] == 0 && data[1] == 0 && data[2] == 0 && data[3] == 1,
    ensures
        unit_label(data[4]).is_prefix_of(unit_labels(data, 0, true)),
        data[4] % 32 == 7 ==> unit_label(data[4]) == "SPS(7)"@,
        data[4] % 32 == 8 ==> unit_label(data[4]) == "PPS(8)"@,
        data[4] % 32 == 5 ==> unit_label(data[4]) == "IDR(5)"@,
        data[4] % 32 == 1 ==> unit_label(data[4]) == "Non-IDR(1)"@,
        data[4] % 32 == 6 ==> unit_label(data[4]) == "SEI(6)"@,
        data[4] % 32 == 9 ==> unit_label(data[4]) == "AUD(9)"@,
        data.len() < 10 ==> unit_labels(data, 0, true) == unit_label(data[4]),
{
    assert(data.subrange(0, 4) =~= start_code());
    let label = unit_label(data[4]);
    let all = unit_labels(data, 0, true);
    assert(all =~= label + unit_labels(data, 5, false));
    assert(all.subrange(0, label.len() as int) =~= label);
    reveal_strlit("(");
    reveal_strlit(")");
    reveal_strlit("SPS");
    reveal_strlit("PPS");
    reveal_strlit("IDR");
    reveal_strlit("Non-IDR");
    reveal_strlit("SEI");
    reveal_strlit("AUD");
    reveal_strlit("SPS(7)");
    reveal_strlit("PPS(8)");
    reveal_strlit("IDR(5)");
    reveal_strlit("Non-IDR(1)");
    reveal_strlit("SEI(6)");
    reveal_strlit("AUD(9)");
    let kind = data[4] % 32;
    if kind == 7 {
        assert(label =~= "SPS(7)"@);
    } else if kind == 8 {
        assert(label =~= "PPS(8)"@);
    } else if kind == 5 {
        assert(label =~= "IDR(5)"@);
    } else if kind == 1 {
        assert(label =~= "Non-IDR(1)"@);
    } else if kind == 6 {
        assert(label =~= "SEI(6)"@);
    } else if kind == 9 {
        assert(label =~= "AUD(9)"@);
    }
    if data.len() < 10 {
        assert(all =~= label);
    }
}

} // verus!
