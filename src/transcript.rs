//! Transcript segments of a conversation document. They are stored as a
//! plain array of maps, as a zlib-compressed JSON array in a byte blob (the
//! legacy form), or as an encrypted string this layer does not read.
use vstd::prelude::*;
use std::io::Read;
use crate::json::{Json, JsonModel, member};
use crate::decimal::{int_text, i64_text};
use crate::fields::{tagged_field, string_field, bool_field, int_field, parse_string, parse_bool, parse_int};
use crate::query::opt_member;

verus! {

/// One stretch of speech. Start and end times keep the decimal text they
/// were stored with.
pub struct TranscriptSegment {
    pub text: String,
    pub speaker: String,
    pub speaker_id: i32,
    pub is_user: bool,
    pub start: String,
    pub end: String,
}

/// The content of a segment.
pub struct SegmentModel {
    pub text: Seq<char>,
    pub speaker: Seq<char>,
    pub speaker_id: i32,
    pub is_user: bool,
    pub start: Seq<char>,
    pub end: Seq<char>,
}

impl TranscriptSegment {
    pub open spec fn model(self) -> SegmentModel {
        SegmentModel {
            text: self.text@,
            speaker: self.speaker@,
            speaker_id: self.speaker_id,
            is_user: self.is_user,
            start: self.start@,
            end: self.end@,
        }
    }
}

/// The speaker of a segment that names none.
pub const DEFAULT_SPEAKER: &'static str = "SPEAKER_00";

/// How a conversation document stores its transcript.
#[derive(Debug, PartialEq)]
pub enum TranscriptBlob {
    /// An encrypted string, not read here.
    Encrypted,
    /// A compressed blob, as base64 text.
    Compressed(String),
    /// Neither: a plain array, or nothing.
    Plain,
}

/// How the transcript field of `fields` is stored.
pub open spec fn blob_kind(fields: JsonModel) -> Option<Option<Seq<char>>> {
    if tagged_field(fields, "transcript_segments"@, "stringValue"@) is Some {
        None
    } else {
        match tagged_field(fields, "transcript_segments"@, "bytesValue"@) {
            Some(JsonModel::Str(s)) => Some(Some(s)),
            _ => Some(None),
        }
    }
}

/// How the transcript of a conversation with `fields` is stored.
pub fn transcript_blob(fields: &Json) -> (r: TranscriptBlob)
    ensures
        match blob_kind(fields@) {
            None => r is Encrypted,
            Some(Some(s)) => r is Compressed && r->Compressed_0@ == s,
            Some(None) => r is Plain,
        },
{
    let t = fields.get("transcript_segments");
    match t {
        Some(v) => {
            if v.get("stringValue").is_some() {
                return TranscriptBlob::Encrypted;
            }
            match v.get("bytesValue") {
                Some(b) => match b.as_str() {
                    Some(s) => TranscriptBlob::Compressed(String::from_str(s)),
                    None => TranscriptBlob::Plain,
                },
                None => TranscriptBlob::Plain,
            }
        },
        None => TranscriptBlob::Plain,
    }
}

/// The bytes that base64 text stands for, in the standard alphabet with
/// padding.
pub uninterp spec fn base64_bytes(s: Seq<char>) -> Option<Seq<u8>>;

/// The UTF-8 text that a zlib stream inflates to.
pub uninterp spec fn inflated_text(b: Seq<u8>) -> Option<Seq<char>>;

/// Relies on `base64::engine::general_purpose::STANDARD.decode`.
#[verifier::external_body]
pub(crate) fn base64_decode(s: &str) -> (r: Option<Vec<u8>>)
    ensures
        match base64_bytes(s@) {
            Some(b) => r is Some && r->0@ == b,
            None => r is None,
        },
{
    match base64::Engine::decode(&base64::engine::general_purpose::STANDARD, s) {
        Ok(b) => Some(b),
        Err(_) => None,
    }
}

/// Relies on `flate2::read::ZlibDecoder` read to the end as a UTF-8 string.
#[verifier::external_body]
fn zlib_inflate(b: &[u8]) -> (r: Option<String>)
    ensures
        match inflated_text(b@) {
            Some(t) => r is Some && r->0@ == t,
            None => r is None,
        },
{
    let mut out = String::new();
    match flate2::read::ZlibDecoder::new(b).read_to_string(&mut out) {
        Ok(_) => Some(out),
        Err(_) => None,
    }
}

/// The JSON text inside a legacy transcript blob: base64 decoded, then
/// inflated.
pub open spec fn blob_text(b64: Seq<char>) -> Option<Seq<char>> {
    match base64_bytes(b64) {
        Some(b) => inflated_text(b),
        None => None,
    }
}

/// The JSON text inside a legacy transcript blob, if it can be read.
pub fn decompress_transcript_segments(b64: &str) -> (r: Option<String>)
    ensures
        match blob_text(b64@) {
            Some(t) => r is Some && r->0@ == t,
            None => r is None,
        },
{
    match base64_decode(b64) {
        Some(bytes) => zlib_inflate(bytes.as_slice()),
        None => None,
    }
}

/// The decimal text of a number, "0" where it is not a number.
pub open spec fn number_text(j: Option<JsonModel>) -> Seq<char> {
    match j {
        Some(JsonModel::Num(t)) => t,
        Some(JsonModel::Int(n)) => int_text(n as int),
        _ => "0"@,
    }
}

fn number_or_zero(j: Option<&Json>) -> (r: String)
    ensures
        r@ == number_text(crate::json::opt_model(j)),
{
    match j {
        Some(Json::Num(t)) => t.clone(),
        Some(Json::Int(n)) => i64_text(*n),
        _ => String::from_str("0"),
    }
}

/// The segment a legacy record stands for; records without a text are
/// skipped. A speaker id outside 32 bits reads as 0.
pub open spec fn record_segment(r: JsonModel) -> Option<SegmentModel> {
    match member(r, "text"@) {
        Some(JsonModel::Str(text)) => Some(
            SegmentModel {
                text,
                speaker: match member(r, "speaker"@) {
                    Some(JsonModel::Str(s)) => s,
                    _ => DEFAULT_SPEAKER@,
                },
                speaker_id: match member(r, "speaker_id"@) {
                    Some(JsonModel::Int(n)) => if i32::MIN <= n <= i32::MAX {
                        n as i32
                    } else {
                        0
                    },
                    _ => 0,
                },
                is_user: match member(r, "is_user"@) {
                    Some(JsonModel::Bool(b)) => b,
                    _ => false,
                },
                start: number_text(member(r, "start"@)),
                end: number_text(member(r, "end"@)),
            },
        ),
        _ => None,
    }
}

/// The segment a map item of the plain array stands for; items that are not
/// maps are skipped.
pub open spec fn item_segment(item: JsonModel) -> Option<SegmentModel> {
    match opt_member(member(item, "mapValue"@), "fields"@) {
        Some(f) => Some(
            SegmentModel {
                text: match string_field(f, "text"@) {
                    Some(s) => s,
                    None => Seq::empty(),
                },
                speaker: match string_field(f, "speaker"@) {
                    Some(s) => s,
                    None => DEFAULT_SPEAKER@,
                },
                speaker_id: match int_field(f, "speaker_id"@) {
                    Some(n) => n,
                    None => 0,
                },
                is_user: bool_field(f, "is_user"@) == Some(true),
                start: number_text(tagged_field(f, "start"@, "doubleValue"@)),
                end: number_text(tagged_field(f, "end"@, "doubleValue"@)),
            },
        ),
        None => None,
    }
}

/// The segments that `read` gives for the items of `xs`, in order, skipping
/// those it gives none for.
pub open spec fn segments_among(xs: Seq<JsonModel>, plain: bool) -> Seq<SegmentModel>
    decreases xs.len(),
{
    if xs.len() == 0 {
        Seq::empty()
    } else {
        let rest = segments_among(xs.drop_last(), plain);
        match if plain {
            item_segment(xs.last())
        } else {
            record_segment(xs.last())
        } {
            Some(s) => rest.push(s),
            None => rest,
        }
    }
}

fn record_to_segment(r: &Json) -> (s: Option<TranscriptSegment>)
    ensures
        match record_segment(r@) {
            Some(m) => s is Some && s->0.model() == m,
            None => s is None,
        },
{
    let text = match r.get("text") {
        Some(t) => match t.as_str() {
            Some(x) => String::from_str(x),
            None => return None,
        },
        None => return None,
    };
    let speaker = match r.get("speaker") {
        Some(t) => match t.as_str() {
            Some(x) => String::from_str(x),
            None => String::from_str(DEFAULT_SPEAKER),
        },
        None => String::from_str(DEFAULT_SPEAKER),
    };
    let speaker_id: i32 = match r.get("speaker_id") {
        Some(Json::Int(n)) => if -2147483648 <= *n && *n <= 2147483647 {
            *n as i32
        } else {
            0
        },
        _ => 0,
    };
    let is_user = match r.get("is_user") {
        Some(Json::Bool(b)) => *b,
        _ => false,
    };
    proof {
        reveal_strlit("0");
    }
    Some(TranscriptSegment {
        text,
        speaker,
        speaker_id,
        is_user,
        start: number_or_zero(r.get("start")),
        end: number_or_zero(r.get("end")),
    })
}

fn item_to_segment(item: &Json) -> (s: Option<TranscriptSegment>)
    ensures
        match item_segment(item@) {
            Some(m) => s is Some && s->0.model() == m,
            None => s is None,
        },
{
    let f = match item.get("mapValue") {
        Some(m) => match m.get("fields") {
            Some(f) => f,
            None => return None,
        },
        None => return None,
    };
    let text = match parse_string(f, "text") {
        Some(s) => s,
        None => String::new(),
    };
    let speaker = match parse_string(f, "speaker") {
        Some(s) => s,
        None => String::from_str(DEFAULT_SPEAKER),
    };
    let speaker_id = match parse_int(f, "speaker_id") {
        Some(n) => n,
        None => 0,
    };
    let is_user = match parse_bool(f, "is_user") {
        Ok(b) => b,
        Err(_) => false,
    };
    let start = match f.get("start") {
        Some(v) => number_or_zero(v.get("doubleValue")),
        None => number_or_zero(None),
    };
    let end = match f.get("end") {
        Some(v) => number_or_zero(v.get("doubleValue")),
        None => number_or_zero(None),
    };
    proof {
        reveal_strlit("");
    }
    Some(TranscriptSegment { text, speaker, speaker_id, is_user, start, end })
}

fn collect_segments(xs: &Vec<Json>, plain: bool) -> (r: Vec<TranscriptSegment>)
    ensures
        r@.map_values(|s: TranscriptSegment| s.model()) == segments_among(
            Seq::new(xs@.len(), |i: int| xs@[i]@),
            plain,
        ),
{
    let ghost xm = Seq::new(xs@.len(), |i: int| xs@[i]@);
    let mut out: Vec<TranscriptSegment> = Vec::new();
    let mut i: usize = 0;
    assert(xm.subrange(0, 0) =~= Seq::<JsonModel>::empty());
    assert(out@.map_values(|s: TranscriptSegment| s.model()) =~= Seq::<SegmentModel>::empty());
    while i < xs.len()
        invariant
            i <= xs@.len(),
            xm == Seq::new(xs@.len(), |i: int| xs@[i]@),
            out@.map_values(|s: TranscriptSegment| s.model()) == segments_among(
                xm.subrange(0, i as int),
                plain,
            ),
        decreases xs@.len() - i,
    {
        proof {
            assert(xm.subrange(0, i + 1).drop_last() =~= xm.subrange(0, i as int));
            assert(xm.subrange(0, i + 1).last() == xs@[i as int]@);
        }
        let ghost before = out@.map_values(|s: TranscriptSegment| s.model());
        let seg = if plain {
            item_to_segment(&xs[i])
        } else {
            record_to_segment(&xs[i])
        };
        match seg {
            Some(s) => {
                let ghost m = s.model();
                out.push(s);
                assert(out@.map_values(|s: TranscriptSegment| s.model()) =~= before.push(m));
            },
            None => {},
        }
        i += 1;
    }
    assert(xm.subrange(0, xs@.len() as int) =~= xm);
    out
}

/// The segments of a legacy blob's decoded JSON: one per record with a
/// text; nothing unless it is an array.
pub fn segments_from_records(records: &Json) -> (r: Vec<TranscriptSegment>)
    ensures
        r@.map_values(|s: TranscriptSegment| s.model()) == match records@ {
            JsonModel::Arr(xs) => segments_among(xs, false),
            _ => Seq::empty(),
        },
{
    if let Json::Arr(xs) = records {
        let r = collect_segments(xs, false);
        assert(records@->Arr_0 =~= Seq::new(xs@.len(), |i: int| xs@[i]@));
        r
    } else {
        let r: Vec<TranscriptSegment> = Vec::new();
        assert(r@.map_values(|s: TranscriptSegment| s.model()) =~= Seq::<SegmentModel>::empty());
        r
    }
}

/// The items of the plain transcript array of `fields`, if it has one.
pub open spec fn plain_items(fields: JsonModel) -> Option<Seq<JsonModel>> {
    match opt_member(tagged_field(fields, "transcript_segments"@, "arrayValue"@), "values"@) {
        Some(JsonModel::Arr(xs)) => Some(xs),
        _ => None,
    }
}

/// The segments of the plain transcript array of `fields`: one per map item.
pub fn plain_transcript_segments(fields: &Json) -> (r: Vec<TranscriptSegment>)
    ensures
        r@.map_values(|s: TranscriptSegment| s.model()) == match plain_items(fields@) {
            Some(xs) => segments_among(xs, true),
            None => Seq::empty(),
        },
{
    let empty: Vec<TranscriptSegment> = Vec::new();
    assert(empty@.map_values(|s: TranscriptSegment| s.model()) =~= Seq::<SegmentModel>::empty());
    let v = match fields.get("transcript_segments") {
        Some(t) => match t.get("arrayValue") {
            Some(a) => match a.get("values") {
                Some(v) => v,
                None => return empty,
            },
            None => return empty,
        },
        None => return empty,
    };
    if let Json::Arr(xs) = v {
        let r = collect_segments(xs, true);
        assert(v@->Arr_0 =~= Seq::new(xs@.len(), |i: int| xs@[i]@));
        r
    } else {
        empty
    }
}

/// The transcript of a conversation with `fields`. An encrypted transcript
/// reads as empty. A compressed one is read from `decoded`, the JSON that
/// its inflated text parses to, and is empty where that could not be had.
/// Otherwise the plain array is read.
pub fn parse_transcript_segments(fields: &Json, decoded: Option<&Json>) -> (r: Vec<TranscriptSegment>)
    ensures
        r@.map_values(|s: TranscriptSegment| s.model()) == match blob_kind(fields@) {
            None => Seq::empty(),
            Some(Some(_)) => match decoded {
                Some(d) => match d@ {
                    JsonModel::Arr(xs) => segments_among(xs, false),
                    _ => Seq::empty(),
                },
                None => Seq::empty(),
            },
            Some(None) => match plain_items(fields@) {
                Some(xs) => segments_among(xs, true),
                None => Seq::empty(),
            },
        },
{
    let empty: Vec<TranscriptSegment> = Vec::new();
    assert(empty@.map_values(|s: TranscriptSegment| s.model()) =~= Seq::<SegmentModel>::empty());
    match transcript_blob(fields) {
        TranscriptBlob::Encrypted => empty,
        TranscriptBlob::Compressed(_) => match decoded {
            Some(d) => segments_from_records(d),
            None => empty,
        },
        TranscriptBlob::Plain => plain_transcript_segments(fields),
    }
}

} // verus!
