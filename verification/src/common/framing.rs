//! NAL unit framing: start codes (Annex-B) and length prefixes (AVCC/HVCC).
use vstd::prelude::*;

verus! {

/// Framing format for video NAL units.
#[derive(Debug, Clone, Copy, PartialEq, Eq, Structural)]
pub enum FramingFormat {
    /// Used for MP4/MKV/MOV and AVCC/HVCC streams.
    /// The length_size is the number of bytes used for the NAL unit length prefix.
    Avcc { length_size: usize },
    /// Used for MPEG-TS, RTSP, and raw bitstreams using start codes (00 00 01).
    AnnexB,
}

/// The contents of a list of NAL units.
pub open spec fn views(nals: Seq<Vec<u8>>) -> Seq<Seq<u8>> {
    nals.map_values(|nal: Vec<u8>| nal@)
}

/// A big-endian 16-bit number at position `i`.
pub open spec fn be16(data: Seq<u8>, i: int) -> int {
    data[i] * 256 + data[i + 1]
}

/// A big-endian 32-bit number at position `i`.
pub open spec fn be32(data: Seq<u8>, i: int) -> int {
    data[i] * 0x100_0000 + data[i + 1] * 0x1_0000 + data[i + 2] * 0x100 + data[i + 3]
}

/// Reads a big-endian 16-bit number.
pub fn read_be16(data: &[u8], i: usize) -> (r: u16)
    requires
        i + 2 <= data@.len(),
    ensures
        r == be16(data@, i as int),
{
    data[i] as u16 * 256 + data[i + 1] as u16
}

/// Reads a big-endian 32-bit number.
pub fn read_be32(data: &[u8], i: usize) -> (r: u32)
    requires
        i + 4 <= data@.len(),
    ensures
        r == be32(data@, i as int),
{
    data[i] as u32 * 0x100_0000 + data[i + 1] as u32 * 0x1_0000 + data[i + 2] as u32 * 0x100
        + data[i + 3] as u32
}

/// Copies the bytes from `start` up to `end` out of `data`.
pub fn copy_range(data: &[u8], start: usize, end: usize) -> (r: Vec<u8>)
    requires
        start <= end <= data@.len(),
    ensures
        r@ == data@.subrange(start as int, end as int),
{
    let mut out: Vec<u8> = Vec::new();
    out.extend_from_slice(&data[start..end]);
    out
}

/// The bytes 00 00 01 stand at position `p`.
pub open spec fn start_code_at(data: Seq<u8>, p: int) -> bool {
    0 <= p && p + 3 <= data.len() && data[p] == 0 && data[p + 1] == 0 && data[p + 2] == 1
}

/// The first position from `from` on at which a start code stands.
pub open spec fn next_start_code(data: Seq<u8>, from: int) -> Option<int>
    decreases data.len() - from,
{
    if from + 3 > data.len() {
        None
    } else if start_code_at(data, from) {
        Some(from)
    } else {
        next_start_code(data, from + 1)
    }
}

/// `next_start_code` is the least position with a start code, if there is one.
pub proof fn lemma_next_start_code(data: Seq<u8>, from: int)
    requires
        0 <= from,
    ensures
        next_start_code(data, from) matches Some(p) ==> from <= p && start_code_at(data, p) && (
        forall|q: int| from <= q < p ==> !start_code_at(data, q)),
        next_start_code(data, from) is None ==> (forall|q: int|
            from <= q ==> !start_code_at(data, q)),
    decreases data.len() - from,
{
    if from + 3 <= data.len() && !start_code_at(data, from) {
        lemma_next_start_code(data, from + 1);
    }
}

/// A position with a start code and none before it is the next one.
proof fn lemma_next_start_code_is(data: Seq<u8>, from: int, p: int)
    requires
        0 <= from <= p,
        start_code_at(data, p),
        forall|q: int| from <= q < p ==> !start_code_at(data, q),
    ensures
        next_start_code(data, from) == Some(p),
{
    lemma_next_start_code(data, from);
    match next_start_code(data, from) {
        Some(q) => {
            if q < p {
                assert(!start_code_at(data, q));
            }
        },
        None => {
            assert(!start_code_at(data, p));
        },
    }
}

/// Where the unit before the start code at `p` ends: a zero byte directly
/// before the code belongs to the code (00 00 00 01).
pub open spec fn unit_end(data: Seq<u8>, p: int) -> int {
    if p >= 1 && data[p - 1] == 0 {
        p - 1
    } else {
        p
    }
}

/// A unit as a list of one, or of none where the unit is empty.
pub open spec fn if_non_empty(unit: Seq<u8>) -> Seq<Seq<u8>> {
    if unit.len() == 0 {
        seq![]
    } else {
        seq![unit]
    }
}

/// The non-empty units of `data` from the unit that begins at `start` on.
pub open spec fn annex_b_units_from(data: Seq<u8>, start: int) -> Seq<Seq<u8>>
    decreases data.len() - start,
{
    match next_start_code(data, start) {
        None => if_non_empty(data.subrange(start, data.len() as int)),
        Some(p) => if start <= p && p + 3 <= data.len() {
            if_non_empty(data.subrange(start, unit_end(data, p))) + annex_b_units_from(data, p + 3)
        } else {
            seq![]
        },
    }
}

/// The non-empty units of an Annex-B stream. What stands before the first
/// start code is no unit.
pub open spec fn annex_b_units(data: Seq<u8>) -> Seq<Seq<u8>> {
    match next_start_code(data, 0) {
        None => seq![],
        Some(p) => annex_b_units_from(data, p + 3),
    }
}

/// Data that starts with a start code of three or four bytes.
pub open spec fn annex_b(data: Seq<u8>) -> bool {
    start_code_at(data, 0) || (data.len() >= 1 && data[0] == 0 && start_code_at(data, 1))
}

/// Checks if data is in Annex-B format (starts with start code).
pub fn is_annex_b(data: &[u8]) -> (r: bool)
    ensures
        r == annex_b(data@),
{
    if data.len() < 3 {
        return false;
    }
    (data[0] == 0 && data[1] == 0 && data[2] == 1) || (data.len() >= 4 && data[0] == 0 && data[1]
        == 0 && data[2] == 0 && data[3] == 1)
}

/// Finds the first start code from `from` on.
fn find_start_code(data: &[u8], from: usize) -> (r: Option<usize>)
    requires
        from <= data@.len(),
    ensures
        match r {
            Some(p) => next_start_code(data@, from as int) == Some(p as int),
            None => next_start_code(data@, from as int) is None,
        },
{
    let mut i: usize = from;
    while data.len() - i >= 3
        invariant
            from <= i <= data@.len(),
            next_start_code(data@, from as int) == next_start_code(data@, i as int),
        decreases data@.len() - i,
    {
        if data[i] == 0 && data[i + 1] == 0 && data[i + 2] == 1 {
            return Some(i);
        }
        i += 1;
    }
    None
}

proof fn lemma_views_push(nals: Seq<Vec<u8>>, nal: Vec<u8>)
    ensures
        views(nals.push(nal)) == views(nals).push(nal@),
{
    assert(views(nals.push(nal)) =~= views(nals).push(nal@));
}

/// Parses NAL units from Annex-B formatted data (with start codes).
pub fn parse_annex_b(data: &[u8]) -> (r: Vec<Vec<u8>>)
    ensures
        views(r@) == annex_b_units(data@),
{
    let mut nal_units: Vec<Vec<u8>> = Vec::new();
    assert(views(nal_units@) =~= seq![]);
    let mut start: usize = match find_start_code(data, 0) {
        None => return nal_units,
        Some(p) => {
            proof {
                lemma_next_start_code(data@, 0);
            }
            assert(p + 3 <= data.len());
            p + 3
        },
    };
    loop
        invariant
            3 <= start <= data@.len(),
            data@[start - 1] == 1,
            annex_b_units(data@) == views(nal_units@) + annex_b_units_from(data@, start as int),
        decreases data@.len() - start,
    {
        let ghost before = nal_units@;
        proof {
            lemma_next_start_code(data@, start as int);
        }
        match find_start_code(data, start) {
            None => {
                if start < data.len() {
                    let nal = copy_range(data, start, data.len());
                    nal_units.push(nal);
                    proof {
                        lemma_views_push(before, nal);
                    }
                }
                assert(views(nal_units@) =~= annex_b_units(data@));
                return nal_units;
            },
            Some(p) => {
                let end: usize = if data[p - 1] == 0 {
                    p - 1
                } else {
                    p
                };
                if start < end {
                    let nal = copy_range(data, start, end);
                    nal_units.push(nal);
                    proof {
                        lemma_views_push(before, nal);
                    }
                }
                assert(views(nal_units@) =~= views(before) + if_non_empty(
                    data@.subrange(start as int, unit_end(data@, p as int)),
                ));
                assert(annex_b_units(data@) =~= views(nal_units@) + annex_b_units_from(
                    data@,
                    p + 3,
                ));
                start = p + 3;
            },
        }
    }
}

/// The number in a length prefix of `length_size` bytes.
pub open spec fn length_prefix(data: Seq<u8>, length_size: int) -> int {
    if length_size == 4 {
        be32(data, 0)
    } else if length_size == 2 {
        be16(data, 0)
    } else {
        data[0] as int
    }
}

/// The units of a length-prefixed stream, up to the first one that is cut
/// off. Prefixes have 1, 2 or 4 bytes; with any other size no unit is read.
pub open spec fn avcc_units(data: Seq<u8>, length_size: int) -> Seq<Seq<u8>>
    decreases data.len(),
{
    if (length_size != 1 && length_size != 2 && length_size != 4) || data.len() < length_size {
        seq![]
    } else {
        let end = length_size + length_prefix(data, length_size);
        if end > data.len() {
            seq![]
        } else {
            seq![data.subrange(length_size, end)] + avcc_units(data.skip(end), length_size)
        }
    }
}

/// Parses NAL units from AVCC/HVCC formatted data (with length prefixes).
pub fn parse_avcc(data: &[u8], length_size: &usize) -> (r: Vec<Vec<u8>>)
    ensures
        views(r@) == avcc_units(data@, *length_size as int),
{
    let size: usize = *length_size;
    let mut nal_units: Vec<Vec<u8>> = Vec::new();
    let mut offset: usize = 0;
    assert(views(nal_units@) =~= seq![]);
    assert(data@.skip(0) =~= data@);
    loop
        invariant_except_break
            offset <= data@.len(),
            avcc_units(data@, size as int) == views(nal_units@) + avcc_units(
                data@.skip(offset as int),
                size as int,
            ),
        ensures
            avcc_units(data@, size as int) == views(nal_units@),
        decreases data@.len() - offset,
    {
        let ghost rest = data@.skip(offset as int);
        let ghost before = nal_units@;
        if size > data.len() - offset {
            assert(views(nal_units@) =~= avcc_units(data@, size as int));
            break;
        }
        let nal_length: usize = match size {
            4 => read_be32(data, offset) as usize,
            2 => read_be16(data, offset) as usize,
            1 => data[offset] as usize,
            _ => {
                assert(views(nal_units@) =~= avcc_units(data@, size as int));
                break;
            },
        };
        assert(nal_length == length_prefix(rest, size as int));
        offset += size;
        if nal_length > data.len() - offset {
            assert(views(nal_units@) =~= avcc_units(data@, size as int));
            break;
        }
        let nal = copy_range(data, offset, offset + nal_length);
        nal_units.push(nal);
        offset += nal_length;
        proof {
            lemma_views_push(before, nal);
            assert(rest.subrange(size as int, size + nal_length) =~= nal@);
            assert(rest.skip(size + nal_length) =~= data@.skip(offset as int));
            assert(views(nal_units@) + avcc_units(data@.skip(offset as int), size as int) =~= views(
                before,
            ) + avcc_units(rest, size as int));
        }
    }
    nal_units
}

/// The units of `data` in the given framing.
pub open spec fn framed_units(data: Seq<u8>, format: FramingFormat) -> Seq<Seq<u8>> {
    match format {
        FramingFormat::AnnexB => annex_b_units(data),
        FramingFormat::Avcc { length_size } => avcc_units(data, length_size as int),
    }
}

/// Parses NAL units based on the framing format.
pub fn parse_nal_units_with_length(data: &[u8], framing_fmt: &FramingFormat) -> (r: Vec<Vec<u8>>)
    ensures
        views(r@) == framed_units(data@, *framing_fmt),
{
    match framing_fmt {
        FramingFormat::AnnexB => parse_annex_b(data),
        FramingFormat::Avcc { length_size } => parse_avcc(data, length_size),
    }
}

/// The units of a packet: start codes at its front show Annex-B, whatever
/// framing the stream was announced with.
pub open spec fn detected_units(data: Seq<u8>, format: FramingFormat) -> Seq<Seq<u8>> {
    if annex_b(data) {
        annex_b_units(data)
    } else {
        framed_units(data, format)
    }
}

/// Parses NAL units from packet data, detecting Annex-B from the data itself
/// and falling back to the framing that the stream was announced with.
pub fn parse_detected_units(data: &[u8], framing_fmt: &FramingFormat) -> (r: Vec<Vec<u8>>)
    ensures
        views(r@) == detected_units(data@, *framing_fmt),
{
    if is_annex_b(data) {
        parse_annex_b(data)
    } else {
        parse_nal_units_with_length(data, framing_fmt)
    }
}

/// The four-byte start code.
pub open spec fn start_code() -> Seq<u8> {
    seq![0, 0, 0, 1]
}

/// The Annex-B stream of a list of units: each non-empty one behind a
/// four-byte start code.
pub open spec fn annex_b_stream(nals: Seq<Seq<u8>>) -> Seq<u8>
    decreases nals.len(),
{
    if nals.len() == 0 {
        seq![]
    } else if nals[0].len() == 0 {
        annex_b_stream(nals.drop_first())
    } else {
        start_code() + nals[0] + annex_b_stream(nals.drop_first())
    }
}

/// The non-empty units of a list, in order.
pub open spec fn non_empty_units(nals: Seq<Seq<u8>>) -> Seq<Seq<u8>>
    decreases nals.len(),
{
    if nals.len() == 0 {
        seq![]
    } else {
        if_non_empty(nals[0]) + non_empty_units(nals.drop_first())
    }
}

/// Appends a four-byte start code.
fn push_start_code(out: &mut Vec<u8>)
    ensures
        final(out)@ == old(out)@ + start_code(),
{
    out.push(0x00);
    out.push(0x00);
    out.push(0x00);
    out.push(0x01);
    assert(out@ =~= old(out)@ + start_code());
}

/// Builds Annex-B formatted data from NAL units (adds start codes).
pub fn build_annex_b(nal_units: &[Vec<u8>]) -> (r: Vec<u8>)
    ensures
        r@ == annex_b_stream(views(nal_units@)),
{
    let mut out: Vec<u8> = Vec::new();
    let mut i: usize = 0;
    let ghost units = views(nal_units@);
    assert(units.skip(0) =~= units);
    assert(out@ + annex_b_stream(units) =~= annex_b_stream(units));
    while i < nal_units.len()
        invariant
            i <= nal_units@.len(),
            units == views(nal_units@),
            out@ + annex_b_stream(units.skip(i as int)) == annex_b_stream(units),
        decreases nal_units@.len() - i,
    {
        let ghost before = out@;
        let ghost rest = units.skip(i as int);
        assert(rest[0] == nal_units@[i as int]@);
        assert(rest.drop_first() =~= units.skip(i + 1));
        if nal_units[i].len() > 0 {
            push_start_code(&mut out);
            out.extend_from_slice(nal_units[i].as_slice());
            assert(out@ =~= before + start_code() + rest[0]);
            assert(out@ + annex_b_stream(units.skip(i + 1)) =~= before + annex_b_stream(rest));
        }
        i += 1;
    }
    assert(units.skip(i as int) =~= seq![]);
    assert(out@ =~= out@ + annex_b_stream(units.skip(i as int)));
    out
}

/// A unit that holds no start code.
pub open spec fn free_of_start_codes(unit: Seq<u8>) -> bool {
    forall|p: int| !start_code_at(unit, p)
}

/// Without non-empty units a stream is empty; else it begins with a start
/// code, the first of them and the stream of the rest.
proof fn lemma_stream_head(nals: Seq<Seq<u8>>) -> (k: int)
    requires
        forall|i: int| 0 <= i < nals.len() ==> free_of_start_codes(#[trigger] nals[i]),
    ensures
        0 <= k <= nals.len(),
        k == nals.len() ==> annex_b_stream(nals).len() == 0 && non_empty_units(nals).len() == 0,
        k < nals.len() ==> nals[k].len() > 0 && annex_b_stream(nals) == start_code() + nals[k]
            + annex_b_stream(nals.skip(k + 1)) && non_empty_units(nals) == seq![nals[k]]
            + non_empty_units(nals.skip(k + 1)),
    decreases nals.len(),
{
    if nals.len() == 0 {
        0
    } else if nals[0].len() > 0 {
        assert(nals.drop_first() =~= nals.skip(1));
        0
    } else {
        let rest = nals.drop_first();
        assert forall|i: int| 0 <= i < rest.len() implies free_of_start_codes(#[trigger] rest[i]) by {
            assert(rest[i] == nals[i + 1]);
        }
        let k = lemma_stream_head(rest);
        assert(non_empty_units(nals) =~= non_empty_units(rest));
        if k < rest.len() {
            assert(rest[k] == nals[k + 1]);
            assert(rest.skip(k + 1) =~= nals.skip(k + 2));
        }
        k + 1
    }
}

/// Reading on from the start of a unit gives that unit and the rest.
proof fn lemma_units_from_stream(data: Seq<u8>, start: int, nal: Seq<u8>, rest: Seq<Seq<u8>>)
    requires
        3 <= start <= data.len(),
        data[start - 1] == 1,
        nal.len() > 0,
        free_of_start_codes(nal),
        forall|i: int| 0 <= i < rest.len() ==> free_of_start_codes(#[trigger] rest[i]),
        data.skip(start) == nal + annex_b_stream(rest),
    ensures
        annex_b_units_from(data, start) == seq![nal] + non_empty_units(rest),
    decreases rest.len(),
{
    let end = start + nal.len();
    let k = lemma_stream_head(rest);
    assert(data.len() == start + data.skip(start).len());
    assert forall|i: int| start <= i < data.len() implies data[i] == #[trigger] data.skip(
        start,
    )[i - start] by {}
    assert forall|q: int| start <= q && q + 3 <= end implies !start_code_at(data, q) by {
        assert(!start_code_at(nal, q - start));
        assert(data[q] == data.skip(start)[q - start]);
        assert(data[q + 1] == data.skip(start)[q + 1 - start]);
        assert(data[q + 2] == data.skip(start)[q + 2 - start]);
    }
    assert(data.subrange(start, end) =~= nal) by {
        assert forall|i: int| 0 <= i < nal.len() implies data.subrange(start, end)[i] == nal[i] by {
            assert(data[start + i] == data.skip(start)[i]);
        }
    }
    if k == rest.len() {
        lemma_next_start_code(data, start);
        if let Some(p) = next_start_code(data, start) {
            assert(!start_code_at(data, p));
        }
        assert(annex_b_units_from(data, start) =~= seq![nal] + non_empty_units(rest));
    } else {
        let tail = annex_b_stream(rest);
        assert(forall|i: int|
            0 <= i < tail.len() ==> data.skip(start)[nal.len() + i] == #[trigger] tail[i]);
        assert(tail[0] == 0 && tail[1] == 0 && tail[2] == 0 && tail[3] == 1);
        assert(data[end] == data.skip(start)[nal.len() as int]);
        assert(data[end + 1] == data.skip(start)[nal.len() as int + 1]);
        assert(data[end + 2] == data.skip(start)[nal.len() as int + 2]);
        assert(data[end + 3] == data.skip(start)[nal.len() as int + 3]);
        assert(start_code_at(data, end + 1));
        assert forall|q: int| start <= q < end + 1 implies !start_code_at(data, q) by {
            if q + 3 > end {
                assert(end <= q + 2 <= end + 2);
                assert(data[q + 2] == 0);
            }
        }
        lemma_next_start_code_is(data, start, end + 1);
        assert(unit_end(data, end + 1) == end);
        let next = rest[k];
        let later = rest.skip(k + 1);
        assert forall|i: int| 0 <= i < later.len() implies free_of_start_codes(
            #[trigger] later[i],
        ) by {
            assert(later[i] == rest[k + 1 + i]);
        }
        assert(data.skip(end + 4) =~= next + annex_b_stream(later)) by {
            let s = next + annex_b_stream(later);
            assert(tail =~= start_code() + s);
            assert forall|i: int| 0 <= i < s.len() implies data.skip(end + 4)[i] == s[i] by {
                assert(tail[4 + i] == s[i]);
                assert(data.skip(start)[nal.len() + 4 + i] == tail[4 + i]);
            }
        }
        lemma_units_from_stream(data, end + 4, next, later);
        assert(annex_b_units_from(data, start) =~= seq![nal] + non_empty_units(rest));
    }
}

/// Parsing an Annex-B stream that was built from units gives those units
/// back, without the empty ones. The units may hold any bytes but a start
/// code.
pub proof fn lemma_annex_b_round_trip(nals: Seq<Seq<u8>>)
    requires
        forall|i: int| 0 <= i < nals.len() ==> free_of_start_codes(#[trigger] nals[i]),
    ensures
        annex_b_units(annex_b_stream(nals)) == non_empty_units(nals),
{
    let data = annex_b_stream(nals);
    let k = lemma_stream_head(nals);
    if k == nals.len() {
        assert(non_empty_units(nals) =~= annex_b_units(data));
    } else {
        let rest = nals.skip(k + 1);
        assert forall|i: int| 0 <= i < rest.len() implies free_of_start_codes(#[trigger] rest[i]) by {
            assert(rest[i] == nals[k + 1 + i]);
        }
        let s = nals[k] + annex_b_stream(rest);
        assert(data =~= start_code() + s);
        assert(data[0] == 0 && data[1] == 0 && data[2] == 0 && data[3] == 1);
        assert(!start_code_at(data, 0));
        assert(start_code_at(data, 1));
        lemma_next_start_code_is(data, 0, 1);
        assert(data.skip(4) =~= s);
        lemma_units_from_stream(data, 4, nals[k], rest);
    }
}

/// A stream built from at least one non-empty unit is recognised as Annex-B.
pub proof fn lemma_built_stream_is_annex_b(nals: Seq<Seq<u8>>)
    requires
        non_empty_units(nals).len() > 0,
    ensures
        annex_b(annex_b_stream(nals)),
    decreases nals.len(),
{
    if nals.len() > 0 {
        if nals[0].len() == 0 {
            assert(non_empty_units(nals) =~= non_empty_units(nals.drop_first()));
            lemma_built_stream_is_annex_b(nals.drop_first());
        } else {
            let data = annex_b_stream(nals);
            assert(data[0] == 0 && data[1] == 0 && data[2] == 0 && data[3] == 1);
        }
    }
}

/// A stream of units, each behind a start code of four bytes or, where `long`
/// does not say so, of three.
pub open spec fn coded_stream(nals: Seq<Seq<u8>>, long: Seq<bool>) -> Seq<u8>
    decreases nals.len(),
{
    if nals.len() == 0 {
        seq![]
    } else {
        (if long[0] {
            seq![0u8, 0u8, 0u8, 1u8]
        } else {
            seq![0u8, 0u8, 1u8]
        }) + nals[0] + coded_stream(nals.skip(1), long.skip(1))
    }
}

/// A unit as encoders make them: it holds no start code and does not end in a
/// zero byte.
pub open spec fn well_formed_unit(nal: Seq<u8>) -> bool {
    nal.len() > 0 && nal.last() != 0 && free_of_start_codes(nal)
}

/// Reading on from the start of a unit gives that unit and those behind it.
proof fn lemma_coded_units_from(
    data: Seq<u8>,
    start: int,
    nal: Seq<u8>,
    rest: Seq<Seq<u8>>,
    long: Seq<bool>,
)
    requires
        3 <= start <= data.len(),
        well_formed_unit(nal),
        rest.len() == long.len(),
        forall|i: int| 0 <= i < rest.len() ==> well_formed_unit(#[trigger] rest[i]),
        data.skip(start) == nal + coded_stream(rest, long),
    ensures
        annex_b_units_from(data, start) == seq![nal] + rest,
    decreases rest.len(),
{
    let tail = coded_stream(rest, long);
    let end = start + nal.len();
    assert(data.len() == start + data.skip(start).len());
    assert forall|i: int| start <= i < data.len() implies data[i] == #[trigger] data.skip(
        start,
    )[i - start] by {}
    assert forall|q: int| start <= q && q + 3 <= end implies !start_code_at(data, q) by {
        assert(!start_code_at(nal, q - start));
        assert(data[q] == data.skip(start)[q - start]);
        assert(data[q + 1] == data.skip(start)[q + 1 - start]);
        assert(data[q + 2] == data.skip(start)[q + 2 - start]);
    }
    assert(data.subrange(start, end) =~= nal) by {
        assert forall|i: int| 0 <= i < nal.len() implies data.subrange(start, end)[i] == nal[i] by {
            assert(data[start + i] == data.skip(start)[i]);
        }
    }
    assert(data[end - 1] == data.skip(start)[nal.len() - 1]);
    if rest.len() == 0 {
        lemma_next_start_code(data, start);
        if let Some(p) = next_start_code(data, start) {
            assert(!start_code_at(data, p));
        }
        assert(annex_b_units_from(data, start) =~= seq![nal] + rest);
    } else {
        let width: int = if long[0] {
            4
        } else {
            3
        };
        let code = end + width - 3;
        let s = rest[0] + coded_stream(rest.skip(1), long.skip(1));
        assert(tail.skip(width) =~= s);
        assert(forall|i: int|
            0 <= i < tail.len() ==> data.skip(start)[nal.len() + i] == #[trigger] tail[i]);
        assert(tail[0] == 0 && tail[1] == 0 && tail[width - 2] == 0 && tail[width - 1] == 1);
        assert(data[end] == data.skip(start)[nal.len() as int]);
        assert(data[end + 1] == data.skip(start)[nal.len() as int + 1]);
        assert(data[end + 2] == data.skip(start)[nal.len() as int + 2]);
        if long[0] {
            assert(data[end + 3] == data.skip(start)[nal.len() as int + 3]);
        }
        assert(start_code_at(data, code));
        assert forall|q: int| start <= q < code implies !start_code_at(data, q) by {
            if q + 3 > end {
                assert(data[q + 2] == 0);
            }
        }
        lemma_next_start_code_is(data, start, code);
        assert(unit_end(data, code) == end);
        assert(data.skip(code + 3) =~= s) by {
            assert forall|i: int| 0 <= i < s.len() implies data.skip(code + 3)[i] == s[i] by {
                assert(tail[width + i] == tail.skip(width)[i]);
                assert(data.skip(start)[nal.len() + width + i] == tail[width + i]);
            }
        }
        let later = rest.skip(1);
        assert forall|i: int| 0 <= i < later.len() implies well_formed_unit(
            #[trigger] later[i],
        ) by {
            assert(later[i] == rest[i + 1]);
        }
        lemma_coded_units_from(data, code + 3, rest[0], later, long.skip(1));
        assert(annex_b_units_from(data, start) =~= seq![nal] + rest);
    }
}

/// A stream with start codes of three and of four bytes, in any mixture, is
/// recognised as Annex-B and falls into its units.
pub proof fn lemma_coded_stream_read(nals: Seq<Seq<u8>>, long: Seq<bool>)
    requires
        nals.len() == long.len(),
        forall|i: int| 0 <= i < nals.len() ==> well_formed_unit(#[trigger] nals[i]),
    ensures
        annex_b_units(coded_stream(nals, long)) == nals,
        nals.len() > 0 ==> annex_b(coded_stream(nals, long)),
{
    let data = coded_stream(nals, long);
    if nals.len() == 0 {
        assert(annex_b_units(data) =~= nals);
    } else {
        let rest = nals.skip(1);
        let width: int = if long[0] {
            4
        } else {
            3
        };
        let s = nals[0] + coded_stream(rest, long.skip(1));
        assert(data.skip(width) =~= s);
        assert(data[0] == 0 && data[1] == 0 && data[width - 2] == 0 && data[width - 1] == 1);
        assert(start_code_at(data, width - 3));
        lemma_next_start_code_is(data, 0, width - 3);
        assert forall|i: int| 0 <= i < rest.len() implies well_formed_unit(#[trigger] rest[i]) by {
            assert(rest[i] == nals[i + 1]);
        }
        assert(well_formed_unit(nals[0]));
        lemma_coded_units_from(data, width, nals[0], rest, long.skip(1));
        assert(annex_b_units(data) =~= nals);
    }
}

/// What data is recognised as Annex-B by: a start code of three or four bytes
/// at its front.
pub proof fn lemma_recognised_by_front(data: Seq<u8>)
    ensures
        annex_b(data) <==> (data.len() >= 3 && data[0] == 0 && data[1] == 0 && data[2] == 1)
            || (data.len() >= 4 && data[0] == 0 && data[1] == 0 && data[2] == 0 && data[3] == 1),
{
}

/// A unit behind its length, in as many bytes as are asked for.
pub open spec fn with_length(nal: Seq<u8>, size: int) -> Seq<u8> {
    let n = nal.len() as int;
    (if size == 4 {
        seq![
            (n / 0x100_0000) as u8,
            (n / 0x1_0000 % 256) as u8,
            (n / 256 % 256) as u8,
            (n % 256) as u8,
        ]
    } else if size == 2 {
        seq![(n / 256) as u8, (n % 256) as u8]
    } else {
        seq![n as u8]
    }) + nal
}

/// A stream of units, each behind its length.
pub open spec fn length_stream(nals: Seq<Seq<u8>>, size: int) -> Seq<u8>
    decreases nals.len(),
{
    if nals.len() == 0 {
        seq![]
    } else {
        with_length(nals[0], size) + length_stream(nals.skip(1), size)
    }
}

/// The length of a unit can be written in so many bytes.
pub open spec fn length_fits(nal: Seq<u8>, size: int) -> bool {
    ||| size == 1 && nal.len() < 0x100
    ||| size == 2 && nal.len() < 0x1_0000
    ||| size == 4 && nal.len() < 0x1_0000_0000
}

/// What stands at the front of a unit behind its length, and where the unit
/// ends.
pub(crate) proof fn lemma_length_read(nal: Seq<u8>, size: int, more: Seq<u8>)
    requires
        length_fits(nal, size),
    ensures
        ({
            let data = with_length(nal, size) + more;
            let end = size + nal.len() as int;
            &&& with_length(nal, size).len() == end
            &&& length_prefix(data, size) == nal.len()
            &&& data.subrange(size, end) == nal
            &&& data.skip(end) == more
            &&& data.len() == end + more.len()
        }),
{
    let n = nal.len() as int;
    let data = with_length(nal, size) + more;
    let end = size + n;
    let first = with_length(nal, size);
    assert(first.len() == end);
    assert(data[0] == first[0]);
    if size == 4 {
        assert(data[1] == first[1] && data[2] == first[2] && data[3] == first[3]);
        assert(n / 0x100_0000 < 256);
        assert(data[0] == n / 0x100_0000 && data[1] == n / 0x1_0000 % 256 && data[2] == n / 256
            % 256 && data[3] == n % 256);
    } else if size == 2 {
        assert(data[1] == first[1]);
        assert(data[0] == n / 256 && data[1] == n % 256);
    }
    assert(length_prefix(data, size) == n);
    assert(data.subrange(size, end) =~= nal);
    assert(data.skip(end) =~= more);
}

/// A length-prefixed stream falls into its units, empty ones too, and what
/// stands behind them is read on.
pub proof fn lemma_length_stream_read(nals: Seq<Seq<u8>>, size: int, tail: Seq<u8>)
    requires
        forall|i: int| 0 <= i < nals.len() ==> length_fits(#[trigger] nals[i], size),
    ensures
        avcc_units(length_stream(nals, size) + tail, size) == nals + avcc_units(tail, size),
    decreases nals.len(),
{
    let data = length_stream(nals, size) + tail;
    if nals.len() == 0 {
        assert(data =~= tail);
        assert(nals + avcc_units(tail, size) =~= avcc_units(tail, size));
    } else {
        let rest = nals.skip(1);
        assert forall|i: int| 0 <= i < rest.len() implies length_fits(#[trigger] rest[i], size) by {
            assert(rest[i] == nals[i + 1]);
        }
        lemma_length_stream_read(rest, size, tail);
        let more = length_stream(rest, size) + tail;
        assert(length_fits(nals[0], size));
        assert(data =~= with_length(nals[0], size) + more);
        lemma_length_read(nals[0], size, more);
        assert(avcc_units(data, size) == seq![nals[0]] + avcc_units(more, size));
        assert(seq![nals[0]] + (rest + avcc_units(tail, size)) =~= nals + avcc_units(tail, size));
    }
}

/// A unit that is cut off, or whose length is, ends the reading; a stream of
/// lengths ends where its bytes do.
pub proof fn lemma_cut_off_unit_dropped(nal: Seq<u8>, size: int, kept: int)
    requires
        length_fits(nal, size),
        0 <= kept < with_length(nal, size).len(),
    ensures
        avcc_units(with_length(nal, size).take(kept), size).len() == 0,
{
    let whole = with_length(nal, size);
    let data = whole.take(kept);
    if kept >= size {
        assert(data[0] == whole[0]);
        if size == 2 || size == 4 {
            assert(data[1] == whole[1]);
        }
        if size == 4 {
            assert(data[2] == whole[2] && data[3] == whole[3]);
        }
        assert(length_prefix(data, size) == nal.len());
    }
}

/// Other sizes of lengths are not read.
pub proof fn lemma_other_sizes_not_read(data: Seq<u8>, size: int)
    requires
        size != 1 && size != 2 && size != 4,
    ensures
        avcc_units(data, size).len() == 0,
{
}

/// Packets that begin with a start code are read as Annex-B whatever framing
/// was announced, all others as it was announced.
pub proof fn lemma_framing_detected(nals: Seq<Seq<u8>>, long: Seq<bool>, size: usize, data: Seq<u8>)
    requires
        nals.len() == long.len(),
        nals.len() > 0,
        forall|i: int| 0 <= i < nals.len() ==> well_formed_unit(#[trigger] nals[i]),
    ensures
        detected_units(coded_stream(nals, long), FramingFormat::Avcc { length_size: size })
            == nals,
        detected_units(coded_stream(nals, long), FramingFormat::AnnexB) == nals,
        framed_units(coded_stream(nals, long), FramingFormat::AnnexB) == nals,
        framed_units(data, FramingFormat::Avcc { length_size: size }) == avcc_units(
            data,
            size as int,
        ),
        !(data.len() >= 3 && data[0] == 0 && data[1] == 0 && data[2] == 1) && !(data.len() >= 4
            && data[0] == 0 && data[1] == 0 && data[2] == 0 && data[3] == 1) ==> detected_units(
            data,
            FramingFormat::Avcc { length_size: size },
        ) == avcc_units(data, size as int),
{
    lemma_coded_stream_read(nals, long);
}

/// The streams of two lists, one behind the other, are the stream of both.
pub proof fn lemma_streams_join(a: Seq<Seq<u8>>, b: Seq<Seq<u8>>)
    ensures
        annex_b_stream(a) + annex_b_stream(b) == annex_b_stream(a + b),
    decreases a.len(),
{
    if a.len() == 0 {
        assert(a + b =~= b);
        assert(annex_b_stream(a) + annex_b_stream(b) =~= annex_b_stream(b));
    } else {
        lemma_streams_join(a.drop_first(), b);
        assert((a + b).drop_first() =~= a.drop_first() + b);
        assert(annex_b_stream(a) + annex_b_stream(b) =~= annex_b_stream(a + b));
    }
}

} // verus!
