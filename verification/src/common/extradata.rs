//! Decoder configuration records: the parameter sets that a stream announces
//! before its first packet.
use crate::common::framing::{
    annex_b, annex_b_units, be16, copy_range, is_annex_b, parse_annex_b, read_be16, views,
    FramingFormat,
};
use crate::common::nal_utils::{is_parameter_set, parameter_set};
use crate::common::VideoCodec;
use vstd::prelude::*;

verus! {

/// Parsed extradata containing NAL units and framing format information.
pub struct ParsedExtraData {
    /// The NAL units extracted from the configuration record (VPS, SPS, PPS).
    pub nals: Vec<Vec<u8>>,
    /// The framing format used for the subsequent video packets in this stream.
    pub framing_format: FramingFormat,
}

/// What extradata says: its parameter sets, and the size of the length
/// prefixes in the packets that follow.
pub ghost struct Extradata {
    pub units: Seq<Seq<u8>>,
    pub length_size: int,
}

impl ParsedExtraData {
    /// The value agrees with what the extradata says.
    pub open spec fn says(self, extradata: Extradata) -> bool {
        &&& views(self.nals@) == extradata.units
        &&& self.framing_format is Avcc
        &&& self.framing_format->length_size == extradata.length_size
    }
}

/// The units of a list that are parameter sets, in order.
pub open spec fn parameter_sets(units: Seq<Seq<u8>>, codec: VideoCodec) -> Seq<Seq<u8>>
    decreases units.len(),
{
    if units.len() == 0 {
        seq![]
    } else if parameter_set(units.last(), codec) {
        parameter_sets(units.drop_last(), codec).push(units.last())
    } else {
        parameter_sets(units.drop_last(), codec)
    }
}

/// `count` units from `offset` on, each behind a 16-bit length, and the
/// position after the last; nothing where the data ends before that.
pub open spec fn unit_list(data: Seq<u8>, offset: int, count: int) -> Option<(Seq<Seq<u8>>, int)>
    decreases count,
{
    if count <= 0 {
        Some((seq![], offset))
    } else {
        match unit_list(data, offset, count - 1) {
            None => None,
            Some((units, at)) => if at + 2 > data.len() || at + 2 + be16(data, at) > data.len() {
                None
            } else {
                Some(
                    (
                        units.push(data.subrange(at + 2, at + 2 + be16(data, at))),
                        at + 2 + be16(data, at),
                    ),
                )
            },
        }
    }
}

/// An AVCDecoderConfigurationRecord: a list of SPS and, where the record goes
/// on, a list of PPS.
pub open spec fn avc_record(data: Seq<u8>) -> Option<Extradata> {
    if data.len() < 7 || data[0] != 1 {
        None
    } else {
        let length_size = data[4] as int % 4 + 1;
        match unit_list(data, 6, data[5] as int % 32) {
            None => None,
            Some((sps, at)) => if at >= data.len() {
                Some(Extradata { units: sps, length_size })
            } else {
                match unit_list(data, at + 1, data[at] as int) {
                    None => None,
                    Some((pps, end)) => Some(Extradata { units: sps + pps, length_size }),
                }
            },
        }
    }
}

/// `count` arrays of units from `offset` on; only VPS, SPS and PPS arrays
/// are kept.
pub open spec fn hevc_arrays(data: Seq<u8>, offset: int, count: int) -> Option<
    (Seq<Seq<u8>>, int),
>
    decreases count,
{
    if count <= 0 {
        Some((seq![], offset))
    } else {
        match hevc_arrays(data, offset, count - 1) {
            None => None,
            Some((units, at)) => if at + 3 > data.len() {
                None
            } else {
                match unit_list(data, at + 3, be16(data, at + 1)) {
                    None => None,
                    Some((array, end)) => if 32 <= data[at] % 64 <= 34 {
                        Some((units + array, end))
                    } else {
                        Some((units, end))
                    },
                }
            },
        }
    }
}

/// An HEVCDecoderConfigurationRecord.
pub open spec fn hevc_record(data: Seq<u8>) -> Option<Extradata> {
    if data.len() < 23 || data[0] != 1 {
        None
    } else {
        match hevc_arrays(data, 23, data[22] as int) {
            None => None,
            Some((units, end)) => Some(Extradata { units, length_size: data[21] as int % 4 + 1 }),
        }
    }
}

/// What extradata says. Annex-B extradata counts if it holds a parameter
/// set; its packets are then taken to have four-byte length prefixes.
pub open spec fn extradata_of(data: Seq<u8>, codec: VideoCodec) -> Option<Extradata> {
    let announced = parameter_sets(annex_b_units(data), codec);
    if annex_b(data) && announced.len() > 0 {
        Some(Extradata { units: announced, length_size: 4 })
    } else {
        match codec {
            VideoCodec::H264 => avc_record(data),
            VideoCodec::H265 => hevc_record(data),
        }
    }
}

/// Keeps the parameter sets of a list of units.
fn keep_parameter_sets(nals: Vec<Vec<u8>>, codec: VideoCodec) -> (r: Vec<Vec<u8>>)
    ensures
        views(r@) == parameter_sets(views(nals@), codec),
{
    let mut kept: Vec<Vec<u8>> = Vec::new();
    let mut i: usize = 0;
    let ghost units = views(nals@);
    assert(views(kept@) =~= seq![]);
    while i < nals.len()
        invariant
            i <= nals@.len(),
            units == views(nals@),
            views(kept@) == parameter_sets(units.take(i as int), codec),
        decreases nals@.len() - i,
    {
        let ghost before = kept@;
        assert(units.take(i + 1).drop_last() =~= units.take(i as int));
        assert(units.take(i + 1).last() == nals@[i as int]@);
        if is_parameter_set(nals[i].as_slice(), &codec) {
            let nal = copy_range(nals[i].as_slice(), 0, nals[i].len());
            assert(nal@ =~= nals@[i as int]@);
            kept.push(nal);
            assert(views(kept@) =~= views(before).push(nal@));
        }
        i += 1;
    }
    assert(units.take(i as int) =~= units);
    kept
}

/// Appends `count` length-prefixed units from `offset` on to `nals`.
fn read_unit_list(data: &[u8], offset: usize, count: usize, nals: &mut Vec<Vec<u8>>) -> (r: Option<
    usize,
>)
    requires
        offset <= data@.len(),
    ensures
        match r {
            None => unit_list(data@, offset as int, count as int) is None,
            Some(end) => {
                &&& offset <= end <= data@.len()
                &&& unit_list(data@, offset as int, count as int) matches Some((units, at))
                &&& at == end
                &&& views(final(nals)@) == views(old(nals)@) + units
            },
        },
{
    let mut at: usize = offset;
    let mut i: usize = 0;
    assert(views(nals@) + Seq::<Seq<u8>>::empty() =~= views(nals@));
    while i < count
        invariant
            i <= count,
            offset <= at <= data@.len(),
            unit_list(data@, offset as int, i as int) matches Some((units, end)) && end == at
                && views(nals@) == views(old(nals)@) + units,
        decreases count - i,
    {
        let ghost units = unit_list(data@, offset as int, i as int).unwrap().0;
        let ghost before = nals@;
        if data.len() - at < 2 {
            proof {
                lemma_unit_list_cut(data@, offset as int, i + 1, count as int);
            }
            return None;
        }
        let len: usize = read_be16(data, at) as usize;
        at += 2;
        if len > data.len() - at {
            proof {
                lemma_unit_list_cut(data@, offset as int, i + 1, count as int);
            }
            return None;
        }
        let nal = copy_range(data, at, at + len);
        nals.push(nal);
        at += len;
        i += 1;
        proof {
            assert(views(nals@) =~= views(before).push(nal@));
            assert(views(nals@) =~= views(old(nals)@) + units.push(nal@));
        }
    }
    Some(at)
}

/// A list that is cut off stays cut off when more units are asked for.
proof fn lemma_unit_list_cut(data: Seq<u8>, offset: int, shorter: int, longer: int)
    requires
        shorter <= longer,
        unit_list(data, offset, shorter) is None,
    ensures
        unit_list(data, offset, longer) is None,
    decreases longer - shorter,
{
    if shorter < longer {
        lemma_unit_list_cut(data, offset, shorter, longer - 1);
    }
}

/// Arrays that are cut off stay cut off when more are asked for.
proof fn lemma_hevc_arrays_cut(data: Seq<u8>, offset: int, shorter: int, longer: int)
    requires
        shorter <= longer,
        hevc_arrays(data, offset, shorter) is None,
    ensures
        hevc_arrays(data, offset, longer) is None,
    decreases longer - shorter,
{
    if shorter < longer {
        lemma_hevc_arrays_cut(data, offset, shorter, longer - 1);
    }
}

/// The parameter sets of Annex-B extradata, if it holds any.
fn parse_annex_b_extradata(extradata: &[u8], codec: VideoCodec) -> (r: Option<ParsedExtraData>)
    ensures
        match r {
            Some(p) => {
                &&& annex_b(extradata@)
                &&& parameter_sets(annex_b_units(extradata@), codec).len() > 0
                &&& p.says(
                    Extradata {
                        units: parameter_sets(annex_b_units(extradata@), codec),
                        length_size: 4,
                    },
                )
            },
            None => !annex_b(extradata@) || parameter_sets(
                annex_b_units(extradata@),
                codec,
            ).len() == 0,
        },
{
    if !is_annex_b(extradata) {
        return None;
    }
    let param_nals = keep_parameter_sets(parse_annex_b(extradata), codec);
    if param_nals.len() == 0 {
        assert(views(param_nals@).len() == 0);
        return None;
    }
    assert(views(param_nals@).len() > 0);
    // Annex-B extradata does not tell how packets are framed; length prefixes
    // of four bytes are what demuxers mostly hand out.
    Some(ParsedExtraData { nals: param_nals, framing_format: FramingFormat::Avcc { length_size: 4 } })
}

/// Parses H.264 extradata (supports both AVCC and Annex-B formats).
pub fn parse_h264_extradata(extradata: &[u8]) -> (r: Option<ParsedExtraData>)
    ensures
        match r {
            Some(p) => extradata_of(extradata@, VideoCodec::H264) matches Some(e) && p.says(e),
            None => extradata_of(extradata@, VideoCodec::H264) is None,
        },
{
    // Annex-B first (common from RTSP).
    if let Some(parsed) = parse_annex_b_extradata(extradata, VideoCodec::H264) {
        return Some(parsed);
    }
    // AVCDecoderConfigurationRecord.
    if extradata.len() < 7 || extradata[0] != 1 {
        return None;
    }
    let length_size: usize = (extradata[4] % 4 + 1) as usize;
    let num_sps: usize = (extradata[5] % 32) as usize;
    let mut nals: Vec<Vec<u8>> = Vec::new();
    let ghost start = nals@;
    assert(views(start) =~= seq![]);
    let offset: usize = match read_unit_list(extradata, 6, num_sps, &mut nals) {
        None => return None,
        Some(end) => end,
    };
    let ghost sps = nals@;
    assert(views(sps) =~= unit_list(extradata@, 6, num_sps as int).unwrap().0);
    if offset < extradata.len() {
        let num_pps: usize = extradata[offset] as usize;
        if read_unit_list(extradata, offset + 1, num_pps, &mut nals).is_none() {
            return None;
        }
    }
    Some(ParsedExtraData { nals, framing_format: FramingFormat::Avcc { length_size } })
}

/// Parses H.265 extradata (supports both HVCC and Annex-B formats).
pub fn parse_h265_extradata(extradata: &[u8]) -> (r: Option<ParsedExtraData>)
    ensures
        match r {
            Some(p) => extradata_of(extradata@, VideoCodec::H265) matches Some(e) && p.says(e),
            None => extradata_of(extradata@, VideoCodec::H265) is None,
        },
{
    // Annex-B first (common from RTSP).
    if let Some(parsed) = parse_annex_b_extradata(extradata, VideoCodec::H265) {
        return Some(parsed);
    }
    // HEVCDecoderConfigurationRecord.
    if extradata.len() < 23 || extradata[0] != 1 {
        return None;
    }
    let length_size: usize = (extradata[21] % 4 + 1) as usize;
    let num_arrays: usize = extradata[22] as usize;
    let mut offset: usize = 23;
    let mut nals: Vec<Vec<u8>> = Vec::new();
    let mut i: usize = 0;
    assert(views(nals@) =~= seq![]);
    while i < num_arrays
        invariant
            i <= num_arrays,
            num_arrays == extradata@[22],
            extradata@[0] == 1,
            !annex_b(extradata@) || parameter_sets(
                annex_b_units(extradata@),
                VideoCodec::H265,
            ).len() == 0,
            23 <= offset <= extradata@.len(),
            hevc_arrays(extradata@, 23, i as int) matches Some((units, end)) && end == offset
                && views(nals@) == units,
        decreases num_arrays - i,
    {
        let ghost before = nals@;
        if extradata.len() - offset < 3 {
            proof {
                lemma_hevc_arrays_cut(extradata@, 23, i + 1, num_arrays as int);
            }
            return None;
        }
        let nal_type: u8 = extradata[offset] % 64;
        let num_nalus: usize = read_be16(extradata, offset + 1) as usize;
        let mut array: Vec<Vec<u8>> = Vec::new();
        assert(views(array@) =~= seq![]);
        offset = match read_unit_list(extradata, offset + 3, num_nalus, &mut array) {
            None => {
                proof {
                    lemma_hevc_arrays_cut(extradata@, 23, i + 1, num_arrays as int);
                }
                return None;
            },
            Some(end) => end,
        };
        let ghost read = array@;
        if nal_type == 32 || nal_type == 33 || nal_type == 34 {
            nals.append(&mut array);
            assert(views(nals@) =~= views(before) + views(read));
        }
        i += 1;
    }
    Some(ParsedExtraData { nals, framing_format: FramingFormat::Avcc { length_size } })
}

/// Parses extradata of either codec.
pub fn parse_extradata(extradata: &[u8], codec: &VideoCodec) -> (r: Option<ParsedExtraData>)
    ensures
        match r {
            Some(p) => extradata_of(extradata@, *codec) matches Some(e) && p.says(e),
            None => extradata_of(extradata@, *codec) is None,
        },
{
    match codec {
        VideoCodec::H264 => parse_h264_extradata(extradata),
        VideoCodec::H265 => parse_h265_extradata(extradata),
    }
}

/// Every unit that `parameter_sets` keeps is a parameter set.
pub proof fn lemma_only_parameter_sets(units: Seq<Seq<u8>>, codec: VideoCodec)
    ensures
        forall|i: int|
            0 <= i < parameter_sets(units, codec).len() ==> parameter_set(
                #[trigger] parameter_sets(units, codec)[i],
                codec,
            ),
    decreases units.len(),
{
    if units.len() > 0 {
        let earlier = parameter_sets(units.drop_last(), codec);
        lemma_only_parameter_sets(units.drop_last(), codec);
        assert forall|i: int| 0 <= i < parameter_sets(units, codec).len() implies parameter_set(
            #[trigger] parameter_sets(units, codec)[i],
            codec,
        ) by {
            if i < earlier.len() {
                assert(parameter_set(earlier[i], codec));
            }
        }
    }
}

/// Extradata announces length prefixes of one to four bytes.
pub proof fn lemma_extradata_length_size(data: Seq<u8>, codec: VideoCodec)
    requires
        extradata_of(data, codec) is Some,
    ensures
        1 <= extradata_of(data, codec)->0.length_size <= 4,
{
}

/// A unit that a decoder is configured from: by its type number an SPS (7) or a
/// PPS (8) of H.264; a VPS (32), an SPS (33) or a PPS (34) of H.265.
pub open spec fn configures_decoder(nal: Seq<u8>, codec: VideoCodec) -> bool {
    match codec {
        VideoCodec::H264 => nal.len() > 0 && (nal[0] % 32 == 7 || nal[0] % 32 == 8),
        VideoCodec::H265 => nal.len() > 1 && (nal[0] / 2 % 64 == 32 || nal[0] / 2 % 64 == 33
            || nal[0] / 2 % 64 == 34),
    }
}

/// All parameter sets of a list are kept and nothing else is, in the order and
/// as often as they occur.
pub proof fn lemma_parameter_sets_complete(units: Seq<Seq<u8>>, codec: VideoCodec)
    ensures
        parameter_sets(units, codec) == units.filter(
            |nal: Seq<u8>| configures_decoder(nal, codec),
        ),
    decreases units.len(),
{
    reveal(Seq::filter);
    if units.len() > 0 {
        lemma_parameter_sets_complete(units.drop_last(), codec);
    }
}

/// Extradata that begins with a start code and holds a parameter set can be
/// read: it announces all its parameter sets, and lengths of four bytes.
pub proof fn lemma_announced_sets_are_read(data: Seq<u8>, codec: VideoCodec, i: int)
    requires
        data.len() >= 4,
        data[0] == 0 && data[1] == 0 && (data[2] == 1 || data[2] == 0 && data[3] == 1),
        0 <= i < annex_b_units(data).len(),
        configures_decoder(annex_b_units(data)[i], codec),
    ensures
        extradata_of(data, codec) is Some,
        extradata_of(data, codec)->0.units == annex_b_units(data).filter(
            |nal: Seq<u8>| configures_decoder(nal, codec),
        ),
        extradata_of(data, codec)->0.units.contains(annex_b_units(data)[i]),
        extradata_of(data, codec)->0.length_size == 4,
{
    let units = annex_b_units(data);
    let counts = |nal: Seq<u8>| configures_decoder(nal, codec);
    lemma_parameter_sets_complete(units, codec);
    assert(counts(units[i]));
    units.lemma_filter_contains(counts, i);
    assert(units.filter(counts).contains(units[i]));
}

/// Units as a configuration record lists them: each behind its length in two
/// bytes.
pub open spec fn listed(units: Seq<Seq<u8>>) -> Seq<u8>
    decreases units.len(),
{
    if units.len() == 0 {
        seq![]
    } else {
        listed(units.drop_last()) + seq![
            (units.last().len() / 256) as u8,
            (units.last().len() % 256) as u8,
        ] + units.last()
    }
}

/// The lengths of all units of a list can be written in two bytes.
pub open spec fn listable(units: Seq<Seq<u8>>) -> bool {
    forall|i: int| 0 <= i < units.len() ==> (#[trigger] units[i]).len() < 0x1_0000
}

/// A list is read as the units that it was made of.
proof fn lemma_list_read(data: Seq<u8>, offset: int, units: Seq<Seq<u8>>)
    requires
        listable(units),
        0 <= offset,
        offset + listed(units).len() <= data.len(),
        data.subrange(offset, offset + listed(units).len()) == listed(units),
    ensures
        unit_list(data, offset, units.len() as int) == Some(
            (units, offset + listed(units).len() as int),
        ),
    decreases units.len(),
{
    if units.len() == 0 {
        assert(units =~= seq![]);
    } else {
        let earlier = units.drop_last();
        let last = units.last();
        let all = listed(units);
        let before = listed(earlier);
        assert(forall|i: int| 0 <= i < earlier.len() ==> earlier[i] == units[i]);
        assert(units[units.len() - 1].len() < 0x1_0000);
        assert(data.subrange(offset, offset + before.len()) =~= before) by {
            assert forall|i: int| 0 <= i < before.len() implies data.subrange(
                offset,
                offset + before.len(),
            )[i] == before[i] by {
                assert(data.subrange(offset, offset + all.len())[i] == all[i]);
            }
        }
        lemma_list_read(data, offset, earlier);
        let at = offset + before.len() as int;
        let b = before.len() as int;
        assert(data[at] == data.subrange(offset, offset + all.len())[b]);
        assert(data[at + 1] == data.subrange(offset, offset + all.len())[b + 1]);
        assert(all[b] == (last.len() / 256) as u8 && all[b + 1] == (last.len() % 256) as u8);
        assert(be16(data, at) == last.len());
        assert(data.subrange(at + 2, at + 2 + last.len()) =~= last) by {
            assert forall|i: int| 0 <= i < last.len() implies data.subrange(
                at + 2,
                at + 2 + last.len(),
            )[i] == last[i] by {
                assert(data.subrange(offset, offset + all.len())[b + 2 + i] == all[b + 2 + i]);
            }
        }
        assert(earlier.push(last) =~= units);
    }
}

/// An AVC configuration record announces its SPS and its PPS, all of them and in
/// their order, and the size of the lengths that follow, whatever its profile
/// is and whatever stands behind it.
pub proof fn lemma_avc_record_read(
    profile: Seq<u8>,
    sizes: u8,
    counts: u8,
    sps: Seq<Seq<u8>>,
    pps: Seq<Seq<u8>>,
    extension: Seq<u8>,
)
    requires
        profile.len() == 3,
        listable(sps) && listable(pps),
        counts % 32 == sps.len(),
        pps.len() < 256,
    ensures
        extradata_of(
            seq![1u8] + profile + seq![sizes, counts] + listed(sps) + seq![pps.len() as u8]
                + listed(pps) + extension,
            VideoCodec::H264,
        ) == Some(Extradata { units: sps + pps, length_size: sizes as int % 4 + 1 }),
{
    let head = seq![1u8] + profile + seq![sizes, counts];
    let data = head + listed(sps) + seq![pps.len() as u8] + listed(pps) + extension;
    let s = listed(sps).len() as int;
    let p = listed(pps).len() as int;
    assert(data[0] == 1 && data[4] == sizes && data[5] == counts);
    assert(data.subrange(6, 6 + s) =~= listed(sps));
    lemma_list_read(data, 6, sps);
    assert(data[6 + s] == pps.len());
    assert(data.subrange(7 + s, 7 + s + p) =~= listed(pps));
    lemma_list_read(data, 7 + s, pps);
}

/// What is read of a list does not depend on what stands behind it.
proof fn lemma_list_of_prefix(data: Seq<u8>, kept: int, offset: int, count: int)
    requires
        0 <= offset <= kept <= data.len(),
        unit_list(data.take(kept), offset, count) is Some,
    ensures
        unit_list(data, offset, count) == unit_list(data.take(kept), offset, count),
        offset <= unit_list(data, offset, count).unwrap().1 <= kept,
    decreases count,
{
    if count > 0 {
        lemma_list_of_prefix(data, kept, offset, count - 1);
        let at = unit_list(data, offset, count - 1).unwrap().1;
        let short = data.take(kept);
        assert(short[at] == data[at] && short[at + 1] == data[at + 1]);
        let end = at + 2 + be16(data, at);
        assert(short.subrange(at + 2, end) =~= data.subrange(at + 2, end));
    }
}

/// An AVC configuration record that is cut off within its list of SPS is
/// refused.
pub proof fn lemma_cut_off_record_refused(
    profile: Seq<u8>,
    sizes: u8,
    counts: u8,
    sps: Seq<Seq<u8>>,
    kept: int,
)
    requires
        profile.len() == 3,
        listable(sps),
        counts % 32 == sps.len(),
        0 <= kept < 6 + listed(sps).len(),
    ensures
        extradata_of(
            (seq![1u8] + profile + seq![sizes, counts] + listed(sps)).take(kept),
            VideoCodec::H264,
        ) is None,
{
    let whole = seq![1u8] + profile + seq![sizes, counts] + listed(sps);
    let data = whole.take(kept);
    assert(whole.subrange(6, 6 + listed(sps).len() as int) =~= listed(sps));
    lemma_list_read(whole, 6, sps);
    if kept >= 7 {
        assert(data[0] == 1 && data[5] == counts);
        if unit_list(data, 6, sps.len() as int) is Some {
            lemma_list_of_prefix(whole, kept, 6, sps.len() as int);
        }
    } else if data.len() >= 4 {
        assert(data[0] == 1);
    }
}

/// The arrays of an HEVC configuration record, each with the byte that holds
/// its type.
pub open spec fn array_bytes(arrays: Seq<(u8, Seq<Seq<u8>>)>) -> Seq<u8>
    decreases arrays.len(),
{
    if arrays.len() == 0 {
        seq![]
    } else {
        let (kind, units) = arrays.last();
        array_bytes(arrays.drop_last()) + seq![
            kind,
            (units.len() / 256) as u8,
            (units.len() % 256) as u8,
        ] + listed(units)
    }
}

/// The units of those arrays that hold VPS (32), SPS (33) or PPS (34).
pub open spec fn configuring_units(arrays: Seq<(u8, Seq<Seq<u8>>)>) -> Seq<Seq<u8>>
    decreases arrays.len(),
{
    if arrays.len() == 0 {
        seq![]
    } else {
        let (kind, units) = arrays.last();
        let earlier = configuring_units(arrays.drop_last());
        if kind % 64 == 32 || kind % 64 == 33 || kind % 64 == 34 {
            earlier + units
        } else {
            earlier
        }
    }
}

/// All arrays can be written.
pub open spec fn arrays_listable(arrays: Seq<(u8, Seq<Seq<u8>>)>) -> bool {
    forall|i: int|
        0 <= i < arrays.len() ==> listable((#[trigger] arrays[i]).1) && arrays[i].1.len()
            < 0x1_0000
}

/// The arrays are read as what they were made of.
proof fn lemma_arrays_read(data: Seq<u8>, offset: int, arrays: Seq<(u8, Seq<Seq<u8>>)>)
    requires
        arrays_listable(arrays),
        0 <= offset,
        offset + array_bytes(arrays).len() <= data.len(),
        data.subrange(offset, offset + array_bytes(arrays).len()) == array_bytes(arrays),
    ensures
        hevc_arrays(data, offset, arrays.len() as int) == Some(
            (configuring_units(arrays), offset + array_bytes(arrays).len() as int),
        ),
    decreases arrays.len(),
{
    if arrays.len() > 0 {
        let earlier = arrays.drop_last();
        let (kind, units) = arrays.last();
        let all = array_bytes(arrays);
        let before = array_bytes(earlier);
        let b = before.len() as int;
        let at = offset + b;
        assert(arrays[arrays.len() - 1] == arrays.last());
        assert(forall|i: int| 0 <= i < earlier.len() ==> earlier[i] == arrays[i]);
        assert(data.subrange(offset, at) =~= before) by {
            assert forall|i: int| 0 <= i < b implies data.subrange(offset, at)[i]
                == before[i] by {
                assert(data.subrange(offset, offset + all.len())[i] == all[i]);
            }
        }
        lemma_arrays_read(data, offset, earlier);
        assert(data[at] == data.subrange(offset, offset + all.len())[b]);
        assert(data[at + 1] == data.subrange(offset, offset + all.len())[b + 1]);
        assert(data[at + 2] == data.subrange(offset, offset + all.len())[b + 2]);
        assert(all[b] == kind && all[b + 1] == (units.len() / 256) as u8 && all[b + 2] == (
        units.len() % 256) as u8);
        assert(be16(data, at + 1) == units.len());
        let n = listed(units).len() as int;
        assert(data.subrange(at + 3, at + 3 + n) =~= listed(units)) by {
            assert forall|i: int| 0 <= i < n implies data.subrange(at + 3, at + 3 + n)[i]
                == listed(units)[i] by {
                assert(data.subrange(offset, offset + all.len())[b + 3 + i] == all[b + 3 + i]);
            }
        }
        lemma_list_read(data, at + 3, units);
    }
}

/// An HEVC configuration record announces the VPS, SPS and PPS of its arrays,
/// all of them and in their order, and the size of the lengths that follow,
/// whatever else stands in it and behind it.
pub proof fn lemma_hevc_record_read(
    general: Seq<u8>,
    sizes: u8,
    arrays: Seq<(u8, Seq<Seq<u8>>)>,
    extension: Seq<u8>,
)
    requires
        general.len() == 20,
        arrays_listable(arrays),
        arrays.len() < 256,
    ensures
        extradata_of(
            seq![1u8] + general + seq![sizes, arrays.len() as u8] + array_bytes(arrays)
                + extension,
            VideoCodec::H265,
        ) == Some(
            Extradata { units: configuring_units(arrays), length_size: sizes as int % 4 + 1 },
        ),
{
    let head = seq![1u8] + general + seq![sizes, arrays.len() as u8];
    let data = head + array_bytes(arrays) + extension;
    assert(data[0] == 1 && data[21] == sizes && data[22] == arrays.len());
    assert(data.subrange(23, 23 + array_bytes(arrays).len() as int) =~= array_bytes(arrays));
    lemma_arrays_read(data, 23, arrays);
}

} // verus!
