//! Where recordings are kept, how they are named, and how they are found.
use crate::api::models::UnixTimestamp;
use crate::arithmetic::{to_i64_wrapping, wrap_i64};
use crate::domain::VideoSourceId;
use crate::text::{
    chars_of, decimal, decimal_text, hex_text, is_digit, lemma_decimal_digits,
    lemma_decimal_round_trip, lemma_hex_text_chars, lemma_hex_text_distinct, parse_decimal,
    parse_decimal_chars, spells,
};
use sha2::{Digest, Sha256};
use vstd::prelude::*;
use vstd::string::*;
use vstd::utf8::*;

verus! {

/// The directory of all recordings.
pub const DVR_BASE_DIR: &'static str = "dvr";

/// The size of a file that holds no video, only the header of its container.
pub const EMPTY_RECORDING_SIZE: u64 = 663;

/// The SHA-256 digest of some bytes.
pub uninterp spec fn sha256(data: Seq<u8>) -> Seq<u8>;

/// `Sha256::digest` computes a digest of 32 bytes, which depends on the data
/// alone.
#[verifier::external_body]
pub(crate) fn sha256_digest(data: &[u8]) -> (r: Vec<u8>)
    ensures
        r@ == sha256(data@),
        r@.len() == 32,
{
    Sha256::digest(data).to_vec()
}

/// `hex::encode` writes each byte as two lower-case hexadecimal digits.
#[verifier::external_body]
fn hex_encode(data: &[u8]) -> (r: String)
    ensures
        r@ == hex_text(data@),
{
    hex::encode(data)
}

/// The directory of the recordings of a stream whose name has the given
/// digest.
pub open spec fn dir_for_digest(digest: Seq<u8>) -> Seq<char> {
    DVR_BASE_DIR@ + "/"@ + hex_text(digest)
}

/// The directory of a stream's recordings, by the digest of its name.
pub fn get_digest_dvr_dir(digest: &[u8]) -> (r: String)
    ensures
        r@ == dir_for_digest(digest@),
{
    let mut dir = String::new();
    dir.append(DVR_BASE_DIR);
    dir.append("/");
    let name = hex_encode(digest);
    dir.append(name.as_str());
    assert(dir@ =~= dir_for_digest(digest@));
    dir
}

/// The directory of a stream's recordings. Its name is derived from the
/// stream's by a hash, so that a stream can have any name.
pub fn get_stream_dvr_dir(stream_id: &VideoSourceId) -> (r: String)
    ensures
        r@ == dir_for_digest(sha256(encode_utf8(stream_id@))),
        r@.len() == 68,
{
    let digest = sha256_digest(stream_id.as_str().as_bytes());
    proof {
        lemma_hex_text_chars(digest@);
        reveal_strlit("dvr");
        reveal_strlit("/");
    }
    get_digest_dvr_dir(digest.as_slice())
}

/// Behind `dvr/` the directory of a stream holds hexadecimal digits only,
/// whatever the stream is called: no separator and no dot.
pub proof fn lemma_dir_is_safe(digest: Seq<u8>)
    ensures
        dir_for_digest(digest).len() == 4 + 2 * digest.len(),
        dir_for_digest(digest).take(4) == "dvr/"@,
        forall|i: int|
            4 <= i < dir_for_digest(digest).len() ==> crate::text::is_hex_char(
                #[trigger] dir_for_digest(digest)[i],
            ),
{
    let dir = dir_for_digest(digest);
    lemma_hex_text_chars(digest);
    reveal_strlit("dvr");
    reveal_strlit("/");
    reveal_strlit("dvr/");
    assert(dir.take(4) =~= "dvr/"@);
    assert forall|i: int| 4 <= i < dir.len() implies crate::text::is_hex_char(
        #[trigger] dir[i],
    ) by {
        assert(dir[i] == hex_text(digest)[i - 4]);
    }
}

/// The name of a recording that goes on.
pub open spec fn active_name(start_time: UnixTimestamp) -> Seq<char> {
    decimal(start_time as nat) + "_latest.mp4"@
}

/// The name of a recording that has ended.
pub open spec fn finished_name(start_time: UnixTimestamp, end_time: UnixTimestamp) -> Seq<char> {
    decimal(start_time as nat) + "_"@ + decimal(end_time as nat) + ".mp4"@
}

pub fn generate_active_recording_filename(start_time: UnixTimestamp) -> (r: String)
    ensures
        r@ == active_name(start_time),
{
    let mut name = decimal_text(start_time);
    name.append("_latest.mp4");
    name
}

pub fn generate_finished_recording_filename(
    start_time: UnixTimestamp,
    end_time: UnixTimestamp,
) -> (r: String)
    ensures
        r@ == finished_name(start_time, end_time),
{
    let mut name = decimal_text(start_time);
    name.append("_");
    let end = decimal_text(end_time);
    name.append(end.as_str());
    name.append(".mp4");
    name
}

/// Where the first underscore of a text stands, its length without one.
pub open spec fn underscore(s: Seq<char>) -> int
    decreases s.len(),
{
    if s.len() == 0 || s[0] == '_' {
        0
    } else {
        1 + underscore(s.skip(1))
    }
}

/// What the name of a file says, if it is that of a recording: when the
/// recording began, and when it ended. The name is two parts with an
/// underscore between them and `.mp4` behind them. The first part is a
/// number; a second part that is none, such as `latest`, gives no end.
pub open spec fn recording_name(name: Seq<char>) -> Option<(u64, Option<u64>)> {
    let stem = name.take(name.len() - 4);
    let k = underscore(stem);
    let end = stem.skip(k + 1);
    if name.len() >= 4 && name.skip(name.len() - 4) == ".mp4"@ && k < stem.len() && underscore(end)
        == end.len() {
        match parse_decimal(stem.take(k)) {
            Some(start) => Some((start, parse_decimal(end))),
            None => None,
        }
    } else {
        None
    }
}

/// The first underscore, by what stands before it.
proof fn lemma_underscore(s: Seq<char>, k: int)
    requires
        0 <= k <= s.len(),
        forall|i: int| 0 <= i < k ==> #[trigger] s[i] != '_',
        k < s.len() ==> s[k] == '_',
    ensures
        underscore(s) == k,
    decreases k,
{
    if k > 0 {
        assert(s[0] != '_');
        assert forall|i: int| 0 <= i < k - 1 implies #[trigger] s.skip(1)[i] != '_' by {
            assert(s[i + 1] != '_');
        }
        lemma_underscore(s.skip(1), k - 1);
    }
}

/// Where the first underscore from `from` on and before `to` stands.
fn find_underscore(chars: &[char], from: usize, to: usize) -> (r: usize)
    requires
        from <= to <= chars@.len(),
    ensures
        from <= r <= to,
        r - from == underscore(chars@.subrange(from as int, to as int)),
{
    let mut i: usize = from;
    while i < to && chars[i] != '_'
        invariant
            from <= i <= to <= chars@.len(),
            forall|j: int| from <= j < i ==> #[trigger] chars@[j] != '_',
        decreases to - i,
    {
        i += 1;
    }
    proof {
        lemma_underscore(chars@.subrange(from as int, to as int), i - from);
    }
    i
}

/// A part of a list of characters.
fn part(chars: &[char], from: usize, to: usize) -> (r: Vec<char>)
    requires
        from <= to <= chars@.len(),
    ensures
        r@ == chars@.subrange(from as int, to as int),
{
    let mut copy: Vec<char> = Vec::new();
    let mut i: usize = from;
    while i < to
        invariant
            from <= i <= to <= chars@.len(),
            copy@ == chars@.subrange(from as int, i as int),
        decreases to - i,
    {
        copy.push(chars[i]);
        i += 1;
        assert(copy@ =~= chars@.subrange(from as int, i as int));
    }
    copy
}

/// What the name of a file says, if it is that of a recording.
pub fn parse_recording_filename(name: &str) -> (r: Option<(u64, Option<u64>)>)
    ensures
        r == recording_name(name@),
{
    let chars = chars_of(name);
    let all = chars.as_slice();
    if all.len() < 4 {
        return None;
    }
    let stem_len: usize = all.len() - 4;
    let extension = part(all, stem_len, all.len());
    assert(extension@ =~= name@.skip(name@.len() - 4));
    if !spells(extension.as_slice(), ".mp4") {
        return None;
    }
    let ghost stem = name@.take(name@.len() - 4);
    assert(all@.subrange(0, stem_len as int) =~= stem);
    let k: usize = find_underscore(all, 0, stem_len);
    if k == stem_len {
        return None;
    }
    assert(all@.subrange(k + 1, stem_len as int) =~= stem.skip(k + 1));
    if find_underscore(all, k + 1, stem_len) != stem_len {
        return None;
    }
    let first = part(all, 0, k);
    assert(first@ =~= stem.take(k as int));
    match parse_decimal_chars(first.as_slice()) {
        None => None,
        Some(start) => {
            let second = part(all, k + 1, stem_len);
            Some((start, parse_decimal_chars(second.as_slice())))
        },
    }
}

/// `latest` is no number.
proof fn lemma_latest_is_no_number()
    ensures
        parse_decimal("latest"@) is None,
        underscore("latest"@) == 6,
        "latest"@.len() == 6,
{
    let s = "latest"@;
    reveal_strlit("latest");
    assert(!is_digit(s[0]));
    lemma_underscore(s, 6);
}

/// The name of a recording that goes on tells when it began, and no end.
pub proof fn lemma_active_name_round_trip(start_time: UnixTimestamp)
    ensures
        recording_name(active_name(start_time)) == Some((start_time, None::<u64>)),
{
    let name = active_name(start_time);
    let digits = decimal(start_time as nat);
    let k = digits.len() as int;
    lemma_decimal_digits(start_time as nat);
    lemma_decimal_round_trip(start_time);
    lemma_latest_is_no_number();
    reveal_strlit("_latest.mp4");
    reveal_strlit("latest");
    reveal_strlit(".mp4");
    let stem = name.take(name.len() - 4);
    assert(name.skip(name.len() - 4) =~= ".mp4"@);
    assert forall|i: int| 0 <= i < k implies #[trigger] stem[i] != '_' by {
        assert(stem[i] == digits[i]);
        assert(is_digit(digits[i]));
    }
    lemma_underscore(stem, k);
    assert(stem.take(k) =~= digits);
    assert(stem.skip(k + 1) =~= "latest"@);
}

/// The name of a recording that has ended tells when it began and ended.
pub proof fn lemma_finished_name_round_trip(start_time: UnixTimestamp, end_time: UnixTimestamp)
    ensures
        recording_name(finished_name(start_time, end_time)) == Some((start_time, Some(end_time))),
{
    let name = finished_name(start_time, end_time);
    let digits = decimal(start_time as nat);
    let end = decimal(end_time as nat);
    let k = digits.len() as int;
    lemma_decimal_digits(start_time as nat);
    lemma_decimal_digits(end_time as nat);
    lemma_decimal_round_trip(start_time);
    lemma_decimal_round_trip(end_time);
    reveal_strlit("_");
    reveal_strlit(".mp4");
    let stem = name.take(name.len() - 4);
    assert(name.skip(name.len() - 4) =~= ".mp4"@);
    assert forall|i: int| 0 <= i < k implies #[trigger] stem[i] != '_' by {
        assert(stem[i] == digits[i]);
        assert(is_digit(digits[i]));
    }
    lemma_underscore(stem, k);
    assert(stem.take(k) =~= digits);
    assert(stem.skip(k + 1) =~= end);
    assert forall|i: int| 0 <= i < end.len() implies #[trigger] end[i] != '_' by {
        assert(is_digit(end[i]));
    }
    lemma_underscore(end, end.len() as int);
}

/// A recording.
#[derive(Debug, Clone)]
pub struct RecordingMetadata {
    pub path: String,
    pub start_time: UnixTimestamp,
    /// Missing while the recording goes on.
    pub end_time: Option<u64>,
}

impl RecordingMetadata {
    /// The recording holds a point in time.
    pub open spec fn holds(self, epoch: u64) -> bool {
        self.start_time <= epoch && match self.end_time {
            Some(end) => epoch <= end,
            None => true,
        }
    }

    /// Checks if the recording holds a point in time.
    pub fn contains(&self, epoch: u64) -> (r: bool)
        ensures
            r == self.holds(epoch),
    {
        self.start_time <= epoch && match self.end_time {
            Some(end) => epoch <= end,
            None => true,
        }
    }

    /// A copy of the metadata.
    pub fn copied(&self) -> (r: Self)
        ensures
            r == *self,
    {
        RecordingMetadata {
            path: self.path.clone(),
            start_time: self.start_time,
            end_time: self.end_time,
        }
    }
}

/// An entry of a directory.
#[derive(Debug, Clone)]
pub struct FoundFile {
    pub path: String,
    pub name: String,
    pub is_file: bool,
    pub size: u64,
}

impl FoundFile {
    /// The recording that an entry is, if it is one with any video in it.
    pub open spec fn as_recording(self) -> Option<RecordingMetadata> {
        match recording_name(self.name@) {
            Some((start_time, end_time)) => if self.is_file && self.size > EMPTY_RECORDING_SIZE {
                Some(RecordingMetadata { path: self.path, start_time, end_time })
            } else {
                None
            },
            None => None,
        }
    }

    /// The recording that an entry is.
    pub fn recording(&self) -> (r: Option<RecordingMetadata>)
        ensures
            r == self.as_recording(),
    {
        if !self.is_file {
            return None;
        }
        match parse_recording_filename(self.name.as_str()) {
            Some((start_time, end_time)) => if self.size > EMPTY_RECORDING_SIZE {
                Some(RecordingMetadata { path: self.path.clone(), start_time, end_time })
            } else {
                None
            },
            None => None,
        }
    }
}

/// The recordings among some entries, in the entries' order.
pub open spec fn recordings_among(entries: Seq<FoundFile>) -> Seq<RecordingMetadata>
    decreases entries.len(),
{
    if entries.len() == 0 {
        seq![]
    } else {
        match entries.last().as_recording() {
            Some(recording) => recordings_among(entries.drop_last()).push(recording),
            None => recordings_among(entries.drop_last()),
        }
    }
}

/// The recordings that began at a given time.
pub open spec fn begun_at(recordings: Seq<RecordingMetadata>, t: UnixTimestamp) -> Seq<
    RecordingMetadata,
> {
    recordings.filter(|r: RecordingMetadata| r.start_time == t)
}

/// Recordings in the order in which they began.
pub open spec fn in_order(recordings: Seq<RecordingMetadata>) -> bool {
    forall|i: int, j: int|
        0 <= i <= j < recordings.len() ==> (#[trigger] recordings[i]).start_time <= (
        #[trigger] recordings[j]).start_time
}

/// The first list is the second in order; recordings that began at the same
/// time stay in the order that they had.
pub open spec fn ordered(
    recordings: Seq<RecordingMetadata>,
    unordered: Seq<RecordingMetadata>,
) -> bool {
    &&& in_order(recordings)
    &&& forall|t: UnixTimestamp| #[trigger] begun_at(recordings, t) == begun_at(unordered, t)
}

/// A recording put behind those that began no later keeps the order.
proof fn lemma_insert_in_order(
    recordings: Seq<RecordingMetadata>,
    unordered: Seq<RecordingMetadata>,
    at: int,
    recording: RecordingMetadata,
)
    requires
        ordered(recordings, unordered),
        0 <= at <= recordings.len(),
        forall|i: int|
            0 <= i < at ==> (#[trigger] recordings[i]).start_time <= recording.start_time,
        forall|i: int|
            at <= i < recordings.len() ==> recording.start_time < (
            #[trigger] recordings[i]).start_time,
    ensures
        ordered(recordings.insert(at, recording), unordered.push(recording)),
{
    let before = recordings.take(at);
    let after = recordings.skip(at);
    let longer = recordings.insert(at, recording);
    assert(longer =~= before + seq![recording] + after);
    assert(recordings =~= before + after);
    assert(unordered.push(recording) =~= unordered + seq![recording]);
    assert forall|t: UnixTimestamp| #[trigger] begun_at(longer, t) == begun_at(
        unordered.push(recording),
        t,
    ) by {
        let p = |r: RecordingMetadata| r.start_time == t;
        Seq::filter_distributes_over_add(before + seq![recording], after, p);
        Seq::filter_distributes_over_add(before, seq![recording], p);
        Seq::filter_distributes_over_add(before, after, p);
        Seq::filter_distributes_over_add(unordered, seq![recording], p);
        assert(begun_at(recordings, t) == begun_at(unordered, t));
        if t == recording.start_time {
            lemma_none_begun(after, t);
            assert(before.filter(p) + after.filter(p) =~= before.filter(p));
            assert(before.filter(p) + seq![recording].filter(p) + after.filter(p) =~= before.filter(
                p,
            ) + seq![recording].filter(p));
        } else {
            lemma_none_begun(seq![recording], t);
            assert(before.filter(p) + seq![recording].filter(p) + after.filter(p) =~= before.filter(
                p,
            ) + after.filter(p));
            assert(unordered.filter(p) + seq![recording].filter(p) =~= unordered.filter(p));
        }
    }
    assert forall|i: int, j: int| 0 <= i <= j < longer.len() implies (
    #[trigger] longer[i]).start_time <= (#[trigger] longer[j]).start_time by {
        let a = if i < at { i } else { i - 1 };
        let b = if j < at { j } else { j - 1 };
        if i != at && j != at {
            assert(recordings[a].start_time <= recordings[b].start_time);
        } else if i == at && j != at {
            assert(recording.start_time < recordings[b].start_time);
        } else if i != at {
            assert(recordings[a].start_time <= recording.start_time);
        }
    }
}

/// No recording of a list began at a time that none has.
proof fn lemma_none_begun(recordings: Seq<RecordingMetadata>, t: UnixTimestamp)
    requires
        forall|i: int| 0 <= i < recordings.len() ==> (#[trigger] recordings[i]).start_time != t,
    ensures
        begun_at(recordings, t) == Seq::<RecordingMetadata>::empty(),
    decreases recordings.len(),
{
    reveal(Seq::filter);
    if recordings.len() > 0 {
        assert forall|i: int| 0 <= i < recordings.drop_last().len() implies (
        #[trigger] recordings.drop_last()[i]).start_time != t by {
            assert(recordings[i].start_time != t);
        }
        lemma_none_begun(recordings.drop_last(), t);
        assert(recordings[recordings.len() - 1].start_time != t);
    }
}

/// The recordings among the entries of a stream's directory, in order.
pub fn list_recordings_for_stream_id(entries: &[FoundFile]) -> (r: Vec<RecordingMetadata>)
    ensures
        ordered(r@, recordings_among(entries@)),
{
    let mut recordings: Vec<RecordingMetadata> = Vec::new();
    let mut i: usize = 0;
    assert(entries@.take(0) =~= seq![]);
    while i < entries.len()
        invariant
            i <= entries@.len(),
            ordered(recordings@, recordings_among(entries@.take(i as int))),
        decreases entries@.len() - i,
    {
        assert(entries@.take(i + 1).drop_last() =~= entries@.take(i as int));
        if let Some(recording) = entries[i].recording() {
            let mut at: usize = recordings.len();
            while at > 0 && recordings[at - 1].start_time > recording.start_time
                invariant
                    at <= recordings@.len(),
                    forall|j: int|
                        at <= j < recordings@.len() ==> recording.start_time < (
                        #[trigger] recordings@[j]).start_time,
                decreases at,
            {
                at -= 1;
            }
            proof {
                let unordered = recordings_among(entries@.take(i as int));
                assert forall|j: int| 0 <= j < at implies (
                #[trigger] recordings@[j]).start_time <= recording.start_time by {
                    assert(recordings@[j].start_time <= recordings@[at - 1].start_time);
                }
                lemma_insert_in_order(recordings@, unordered, at as int, recording);
            }
            recordings.insert(at, recording);
        }
        i += 1;
    }
    assert(entries@.take(i as int) =~= entries@);
    recordings
}

/// A recording, and for one that begins later the milliseconds until then.
pub type FindNextRecRes = Option<(RecordingMetadata, Option<i64>)>;

/// The first recording of a list that has a property.
pub open spec fn first_with(
    recordings: Seq<RecordingMetadata>,
    i: int,
    property: spec_fn(RecordingMetadata) -> bool,
) -> bool {
    &&& 0 <= i < recordings.len()
    &&& property(recordings[i])
    &&& forall|j: int| 0 <= j < i ==> !property(#[trigger] recordings[j])
}

/// None of a list has a property.
pub open spec fn none_with(
    recordings: Seq<RecordingMetadata>,
    property: spec_fn(RecordingMetadata) -> bool,
) -> bool {
    forall|j: int| 0 <= j < recordings.len() ==> !property(#[trigger] recordings[j])
}

/// Where the first recording stands that holds a point in time.
fn position_holding(recordings: &[RecordingMetadata], timestamp: u64) -> (r: Option<usize>)
    ensures
        match r {
            Some(i) => first_with(
                recordings@,
                i as int,
                |rec: RecordingMetadata| rec.holds(timestamp),
            ),
            None => none_with(recordings@, |rec: RecordingMetadata| rec.holds(timestamp)),
        },
{
    let mut i: usize = 0;
    while i < recordings.len()
        invariant
            i <= recordings@.len(),
            forall|j: int| 0 <= j < i ==> !(#[trigger] recordings@[j]).holds(timestamp),
        decreases recordings@.len() - i,
    {
        if recordings[i].contains(timestamp) {
            return Some(i);
        }
        i += 1;
    }
    None
}

/// The recording to play from a point in time on: the first that holds it,
/// else the first that begins after it.
pub fn find_next_recording(recordings: &[RecordingMetadata], timestamp: u64) -> (r: FindNextRecRes)
    ensures
        ({
            let holds = |rec: RecordingMetadata| rec.holds(timestamp);
            let later = |rec: RecordingMetadata| rec.start_time > timestamp;
            match r {
                Some((found, None)) => exists|i: int|
                    #[trigger] first_with(recordings@, i, holds) && recordings@[i] == found,
                Some((found, Some(ms))) => {
                    &&& none_with(recordings@, holds)
                    &&& exists|i: int|
                        #[trigger] first_with(recordings@, i, later) && recordings@[i] == found
                    &&& ms == wrap_i64(found.start_time - timestamp)
                },
                None => none_with(recordings@, holds) && none_with(recordings@, later),
            }
        }),
{
    let ghost holds = |rec: RecordingMetadata| rec.holds(timestamp);
    let ghost later = |rec: RecordingMetadata| rec.start_time > timestamp;
    if let Some(i) = position_holding(recordings, timestamp) {
        assert(first_with(recordings@, i as int, holds));
        return Some((recordings[i].copied(), None));
    }
    let mut i: usize = 0;
    while i < recordings.len()
        invariant
            i <= recordings@.len(),
            holds == (|rec: RecordingMetadata| rec.holds(timestamp)),
            later == (|rec: RecordingMetadata| rec.start_time > timestamp),
            none_with(recordings@, holds),
            forall|j: int| 0 <= j < i ==> !((#[trigger] recordings@[j]).start_time > timestamp),
        decreases recordings@.len() - i,
    {
        if recordings[i].start_time > timestamp {
            let ms: i64 = to_i64_wrapping(recordings[i].start_time as i128 - timestamp as i128);
            assert(first_with(recordings@, i as int, later));
            return Some((recordings[i].copied(), Some(ms)));
        }
        i += 1;
    }
    None
}

/// Finds the recording that contains the timestamp if it exists.
pub fn find_recording_for_timestamp(recordings: &[RecordingMetadata], timestamp: u64) -> (r: Option<
    RecordingMetadata,
>)
    ensures
        ({
            let holds = |rec: RecordingMetadata| rec.holds(timestamp);
            match r {
                Some(found) => exists|i: int|
                    #[trigger] first_with(recordings@, i, holds) && recordings@[i] == found,
                None => none_with(recordings@, holds),
            }
        }),
{
    match position_holding(recordings, timestamp) {
        Some(i) => {
            assert(first_with(
                recordings@,
                i as int,
                |rec: RecordingMetadata| rec.holds(timestamp),
            ));
            Some(recordings[i].copied())
        },
        None => None,
    }
}

/// In an ordered list the first recording that begins later is the next one
/// to begin.
pub proof fn lemma_next_is_nearest(recordings: Seq<RecordingMetadata>, i: int, timestamp: u64)
    requires
        in_order(recordings),
        first_with(recordings, i, |rec: RecordingMetadata| rec.start_time > timestamp),
    ensures
        forall|j: int|
            0 <= j < recordings.len() && (#[trigger] recordings[j]).start_time > timestamp
                ==> recordings[i].start_time <= recordings[j].start_time,
{
    let later = |rec: RecordingMetadata| rec.start_time > timestamp;
    assert forall|j: int|
        0 <= j < recordings.len() && (#[trigger] recordings[j]).start_time > timestamp implies
        recordings[i].start_time <= recordings[j].start_time by {
        if j < i {
            assert(!later(recordings[j]));
        }
    }
}

/// A recording holds the times from its start to its end, both included, and
/// while it goes on all times from its start.
pub proof fn lemma_held_times(recording: RecordingMetadata, time: u64)
    ensures
        recording.end_time matches Some(end) ==> (recording.holds(time) <==> recording.start_time
            <= time <= end),
        recording.end_time is None ==> (recording.holds(time) <==> recording.start_time <= time),
{
}

/// Every recording among some entries is among the recordings that are found.
proof fn lemma_recording_among(entries: Seq<FoundFile>, i: int)
    requires
        0 <= i < entries.len(),
        entries[i].as_recording() is Some,
    ensures
        recordings_among(entries).contains(entries[i].as_recording()->0),
    decreases entries.len(),
{
    let recording = entries[i].as_recording()->0;
    let earlier = entries.drop_last();
    let found = recordings_among(entries);
    if i < entries.len() - 1 {
        lemma_recording_among(earlier, i);
        let before = recordings_among(earlier);
        let j = choose|j: int| 0 <= j < before.len() && before[j] == recording;
        assert(found[j] == recording);
    } else {
        assert(found[found.len() - 1] == recording);
    }
}

/// Every recording that is found is an entry.
proof fn lemma_found_is_entry(entries: Seq<FoundFile>, k: int) -> (i: int)
    requires
        0 <= k < recordings_among(entries).len(),
    ensures
        0 <= i < entries.len(),
        entries[i].as_recording() == Some(recordings_among(entries)[k]),
    decreases entries.len(),
{
    let earlier = recordings_among(entries.drop_last());
    if k < earlier.len() {
        let i = lemma_found_is_entry(entries.drop_last(), k);
        i
    } else {
        entries.len() - 1
    }
}

/// A list that is another one in order holds what that one holds.
proof fn lemma_ordered_holds_same(
    list: Seq<RecordingMetadata>,
    unordered: Seq<RecordingMetadata>,
    recording: RecordingMetadata,
)
    requires
        ordered(list, unordered),
        unordered.contains(recording) || list.contains(recording),
    ensures
        unordered.contains(recording) && list.contains(recording),
{
    let t = recording.start_time;
    let p = |r: RecordingMetadata| r.start_time == t;
    assert(begun_at(list, t) == begun_at(unordered, t));
    if unordered.contains(recording) {
        let j = choose|j: int| 0 <= j < unordered.len() && unordered[j] == recording;
        assert(p(unordered[j]));
        unordered.lemma_filter_contains(p, j);
        lemma_filtered_is_from(list, p, recording);
    } else {
        let j = choose|j: int| 0 <= j < list.len() && list[j] == recording;
        assert(p(list[j]));
        list.lemma_filter_contains(p, j);
        lemma_filtered_is_from(unordered, p, recording);
    }
}

/// What is filtered out of a list is in it.
proof fn lemma_filtered_is_from(
    list: Seq<RecordingMetadata>,
    p: spec_fn(RecordingMetadata) -> bool,
    recording: RecordingMetadata,
)
    requires
        list.filter(p).contains(recording),
    ensures
        list.contains(recording),
    decreases list.len(),
{
    reveal(Seq::filter);
    if list.len() > 0 {
        let earlier = list.drop_last();
        let kept = list.filter(p);
        let k = choose|k: int| 0 <= k < kept.len() && kept[k] == recording;
        if k < earlier.filter(p).len() {
            assert(earlier.filter(p)[k] == recording);
            lemma_filtered_is_from(earlier, p, recording);
            let j = choose|j: int| 0 <= j < earlier.len() && earlier[j] == recording;
            assert(list[j] == recording);
        } else {
            assert(list[list.len() - 1] == recording);
        }
    }
}

/// The list of a stream's recordings holds every file with video in it that has
/// the name of a recording, with the times that the name tells, and it is in
/// the order in which they began.
pub proof fn lemma_recordings_are_listed(
    list: Seq<RecordingMetadata>,
    entries: Seq<FoundFile>,
    i: int,
    start: UnixTimestamp,
    end: Option<u64>,
)
    requires
        ordered(list, recordings_among(entries)),
        0 <= i < entries.len(),
        entries[i].is_file,
        entries[i].size > 663,
        entries[i].name@ == (match end {
            Some(end) => finished_name(start, end),
            None => active_name(start),
        }),
    ensures
        exists|k: int|
            0 <= k < list.len() && (#[trigger] list[k]).path == entries[i].path && list[k].start_time
                == start && list[k].end_time == end,
        forall|a: int, b: int|
            0 <= a <= b < list.len() ==> (#[trigger] list[a]).start_time <= (
            #[trigger] list[b]).start_time,
{
    match end {
        Some(end) => lemma_finished_name_round_trip(start, end),
        None => lemma_active_name_round_trip(start),
    }
    let recording = entries[i].as_recording()->0;
    lemma_recording_among(entries, i);
    lemma_ordered_holds_same(list, recordings_among(entries), recording);
    let k = choose|k: int| 0 <= k < list.len() && list[k] == recording;
    assert(list[k].path == entries[i].path);
}

/// The list of a stream's recordings holds nothing else: each is a file with
/// video in it whose name tells its times.
pub proof fn lemma_only_recordings_are_listed(
    list: Seq<RecordingMetadata>,
    entries: Seq<FoundFile>,
    k: int,
) -> (i: int)
    requires
        ordered(list, recordings_among(entries)),
        0 <= k < list.len(),
    ensures
        0 <= i < entries.len(),
        entries[i].is_file,
        entries[i].size > 663,
        entries[i].path == list[k].path,
        recording_name(entries[i].name@) == Some((list[k].start_time, list[k].end_time)),
{
    let found = recordings_among(entries);
    lemma_ordered_holds_same(list, found, list[k]);
    let j = choose|j: int| 0 <= j < found.len() && found[j] == list[k];
    lemma_found_is_entry(entries, j)
}

/// The name of a recording ends in `.mp4` and has an underscore in it.
pub proof fn lemma_other_files_are_none(name: Seq<char>)
    ensures
        name.len() < 4 || name.skip(name.len() - 4) != seq!['.', 'm', 'p', '4']
            ==> recording_name(name) is None,
        (forall|i: int| 0 <= i < name.len() ==> #[trigger] name[i] != '_') ==> recording_name(name)
            is None,
{
    reveal_strlit(".mp4");
    assert(".mp4"@ =~= seq!['.', 'm', 'p', '4']);
    if name.len() >= 4 && (forall|i: int| 0 <= i < name.len() ==> #[trigger] name[i] != '_') {
        let stem = name.take(name.len() - 4);
        assert forall|i: int| 0 <= i < stem.len() implies #[trigger] stem[i] != '_' by {
            assert(name[i] != '_');
        }
        lemma_underscore(stem, stem.len() as int);
    }
}

/// The recording that is found for a point in time holds it, and no earlier one
/// of the list does; where none is found, none does.
pub proof fn lemma_found_recording_holds(recordings: Seq<RecordingMetadata>, i: int, time: u64)
    ensures
        first_with(recordings, i, |rec: RecordingMetadata| rec.holds(time)) ==> {
            &&& 0 <= i < recordings.len()
            &&& recordings[i].start_time <= time
            &&& recordings[i].end_time matches Some(end) ==> time <= end
            &&& forall|j: int|
                0 <= j < i ==> time < (#[trigger] recordings[j]).start_time || (
                recordings[j].end_time matches Some(end) && end < time)
        },
        none_with(recordings, |rec: RecordingMetadata| rec.holds(time)) ==> forall|j: int|
            0 <= j < recordings.len() ==> time < (#[trigger] recordings[j]).start_time || (
            recordings[j].end_time matches Some(end) && end < time),
        first_with(recordings, i, |rec: RecordingMetadata| rec.start_time > time) ==> 0 <= i
            < recordings.len() && recordings[i].start_time > time,
{
    let holds = |rec: RecordingMetadata| rec.holds(time);
    if first_with(recordings, i, holds) {
        assert forall|j: int| 0 <= j < i implies time < (#[trigger] recordings[j]).start_time || (
        recordings[j].end_time matches Some(end) && end < time) by {
            assert(!holds(recordings[j]));
        }
    }
    if none_with(recordings, holds) {
        assert forall|j: int| 0 <= j < recordings.len() implies time < (
        #[trigger] recordings[j]).start_time || (recordings[j].end_time matches Some(end) && end
            < time) by {
            assert(!holds(recordings[j]));
        }
    }
}

/// The directories of two digests differ.
pub proof fn lemma_dirs_distinct(a: Seq<u8>, b: Seq<u8>)
    requires
        dir_for_digest(a) == dir_for_digest(b),
    ensures
        a == b,
{
    reveal_strlit("dvr");
    reveal_strlit("/");
    assert(dir_for_digest(a).skip(4) =~= hex_text(a));
    assert(dir_for_digest(b).skip(4) =~= hex_text(b));
    lemma_hex_text_distinct(a, b);
}

} // verus!
