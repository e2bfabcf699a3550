//! Conversation records: reading and writing the document, and the results
//! that apps attach to a conversation. The source, status and category keep
//! the text they are stored with.
use vstd::prelude::*;
use crate::json::{Json, JsonModel, member, entries_model, object, push_member};
use crate::value::{TypedValue, ValueModel, encode, encode_model, tag, tagged};
use crate::fields::{
    DecodeError, opt_text, string_field, bool_field, timestamp_field, parse_string, parse_bool,
    parse_timestamp_optional,
};
use crate::query::opt_member;
use crate::records::{last_segment, name_text, text_or, last_path_segment};
use crate::transcript::{TranscriptSegment, SegmentModel, parse_transcript_segments, segments_among, blob_kind, plain_items};
use crate::writes::{time_entry, text_entry, flag_entry, opt_text_entry, member_names};
use crate::time::{Timestamp, timestamp_text};

verus! {

/// What an app produced for a conversation.
pub struct AppResult {
    pub app_id: Option<String>,
    pub content: String,
}

/// The content of an app result.
pub struct AppResultModel {
    pub app_id: Option<Seq<char>>,
    pub content: Seq<char>,
}

impl AppResult {
    pub open spec fn model(self) -> AppResultModel {
        AppResultModel { app_id: opt_text(self.app_id), content: self.content@ }
    }
}

/// The contents of a run of app results.
pub open spec fn result_models(s: Seq<AppResult>) -> Seq<AppResultModel> {
    s.map_values(|r: AppResult| r.model())
}

/// The results of `s` that did not come from `app_id`, in order.
pub open spec fn without_app(s: Seq<AppResultModel>, app_id: Seq<char>) -> Seq<AppResultModel>
    decreases s.len(),
{
    if s.len() == 0 {
        Seq::empty()
    } else {
        let rest = without_app(s.drop_last(), app_id);
        if s.last().app_id == Some(app_id) {
            rest
        } else {
            rest.push(s.last())
        }
    }
}

/// The results of a conversation once app `app_id` has produced `content`:
/// the earlier results of other apps, in order, then the new one.
pub fn merge_app_result(current: Vec<AppResult>, app_id: &str, content: &str) -> (r: Vec<AppResult>)
    ensures
        result_models(r@) == without_app(result_models(current@), app_id@).push(
            AppResultModel { app_id: Some(app_id@), content: content@ },
        ),
{
    let ghost all = result_models(current@);
    let mut rest = current;
    let n = rest.len();
    let mut out: Vec<AppResult> = Vec::new();
    let mut i: usize = 0;
    assert(all.subrange(0, 0) =~= Seq::<AppResultModel>::empty());
    assert(result_models(out@) =~= Seq::<AppResultModel>::empty());
    while rest.len() > 0
        invariant
            n == all.len(),
            i + rest@.len() == n,
            result_models(rest@) == all.subrange(i as int, n as int),
            result_models(out@) == without_app(all.subrange(0, i as int), app_id@),
        decreases rest@.len(),
    {
        let ghost before = rest@;
        let x = rest.remove(0);
        proof {
            assert(x.model() == all[i as int]) by {
                assert(result_models(before)[0] == all.subrange(i as int, n as int)[0]);
            }
            assert forall|k: int| 0 <= k < rest@.len() implies #[trigger] rest@[k].model() == all[i + 1 + k] by {
                assert(rest@[k] == before[k + 1]);
                assert(result_models(before)[k + 1] == all.subrange(i as int, n as int)[k + 1]);
            }
            assert(result_models(rest@) =~= all.subrange(i + 1, n as int));
            assert(all.subrange(0, i + 1).drop_last() =~= all.subrange(0, i as int));
            assert(all.subrange(0, i + 1).last() == all[i as int]);
        }
        let same = match &x.app_id {
            Some(a) => crate::json::str_eq(a.as_str(), app_id),
            None => false,
        };
        if !same {
            let ghost xm = x.model();
            let ghost o = result_models(out@);
            out.push(x);
            assert(result_models(out@) =~= o.push(xm));
        }
        i += 1;
    }
    assert(all.subrange(0, n as int) =~= all);
    let ghost o = result_models(out@);
    out.push(AppResult { app_id: Some(String::from_str(app_id)), content: String::from_str(content) });
    assert(result_models(out@) =~= o.push(AppResultModel { app_id: Some(app_id@), content: content@ }));
    out
}

/// The stored value of one app result; an absent app id is written empty.
pub open spec fn app_result_value(m: AppResultModel) -> ValueModel {
    ValueModel::Object(
        seq![
            ("app_id"@, ValueModel::Str(text_or(m.app_id, Seq::empty()))),
            ("content"@, ValueModel::Str(m.content)),
        ],
    )
}

/// The stored value of a run of app results.
pub open spec fn app_results_value(s: Seq<AppResultModel>) -> ValueModel {
    ValueModel::Array(Seq::new(s.len(), |i: int| app_result_value(s[i])))
}

fn app_results_to_value(results: &Vec<AppResult>) -> (r: TypedValue)
    ensures
        r@ == app_results_value(result_models(results@)),
{
    let mut vals: Vec<TypedValue> = Vec::new();
    let mut i: usize = 0;
    while i < results.len()
        invariant
            i <= results@.len(),
            vals@.len() == i,
            forall|k: int| 0 <= k < i ==> (#[trigger] vals@[k])@ == app_result_value(results@[k].model()),
        decreases results@.len() - i,
    {
        let x = &results[i];
        let id = match &x.app_id {
            Some(a) => a.clone(),
            None => String::new(),
        };
        let mut es: Vec<(String, TypedValue)> = Vec::new();
        es.push((String::from_str("app_id"), TypedValue::Str(id)));
        es.push((String::from_str("content"), TypedValue::Str(x.content.clone())));
        let v = TypedValue::Object(es);
        proof {
            reveal_strlit("");
            assert(es@[0].1@ == ValueModel::Str(text_or(x.model().app_id, Seq::empty())));
            assert(es@[1].1@ == ValueModel::Str(x.content@));
            assert(v@->Object_0 =~= app_result_value(x.model())->Object_0);
        }
        vals.push(v);
        i += 1;
    }
    let r = TypedValue::Array(vals);
    assert(r@->Array_0 =~= app_results_value(result_models(results@))->Array_0);
    r
}

/// The update that replaces a conversation's app results: the body and its
/// one-path mask.
pub fn apps_results_update(results: &Vec<AppResult>) -> (r: (Vec<String>, Json))
    ensures
        r.1@ == tagged(
            "fields"@,
            JsonModel::Obj(seq![("apps_results"@, encode_model(app_results_value(result_models(results@))))]),
        ),
        r.0@.map_values(|p: String| p@) == seq!["apps_results"@],
{
    let v = app_results_to_value(results);
    let mut es: Vec<(String, Json)> = Vec::new();
    let ghost m0 = entries_model(es@);
    push_member(&mut es, "apps_results", encode(&v));
    assert(m0 =~= Seq::<(Seq<char>, JsonModel)>::empty());
    assert(entries_model(es@) =~= seq![("apps_results"@, encode_model(app_results_value(result_models(results@))))]);
    let mut paths: Vec<String> = Vec::new();
    paths.push(String::from_str("apps_results"));
    assert(paths@.map_values(|p: String| p@) =~= seq!["apps_results"@]);
    (paths, tag("fields", object(es)))
}

/// The result that a map item of `apps_results` stands for; other items are
/// skipped.
pub open spec fn result_of(item: JsonModel) -> Option<AppResultModel> {
    match opt_member(member(item, "mapValue"@), "fields"@) {
        Some(f) => Some(
            AppResultModel {
                app_id: string_field(f, "app_id"@),
                content: text_or(string_field(f, "content"@), Seq::empty()),
            },
        ),
        None => None,
    }
}

/// The results among the items `xs`, in order.
pub open spec fn results_among(xs: Seq<JsonModel>) -> Seq<AppResultModel>
    decreases xs.len(),
{
    if xs.len() == 0 {
        Seq::empty()
    } else {
        let rest = results_among(xs.drop_last());
        match result_of(xs.last()) {
            Some(m) => rest.push(m),
            None => rest,
        }
    }
}

/// The app results stored in fields `f`.
pub open spec fn results_field(f: JsonModel) -> Seq<AppResultModel> {
    match opt_member(opt_member(member(f, "apps_results"@), "arrayValue"@), "values"@) {
        Some(JsonModel::Arr(xs)) => results_among(xs),
        _ => Seq::empty(),
    }
}

fn result_from(item: &Json) -> (r: Option<AppResult>)
    ensures
        match result_of(item@) {
            Some(m) => r is Some && r->0.model() == m,
            None => r is None,
        },
{
    let f = match item.get("mapValue") {
        Some(m) => match m.get("fields") {
            Some(f) => f,
            None => return None,
        },
        None => return None,
    };
    let content = match parse_string(f, "content") {
        Some(c) => c,
        None => String::new(),
    };
    proof {
        reveal_strlit("");
    }
    Some(AppResult { app_id: parse_string(f, "app_id"), content })
}

/// The app results stored in `fields`, in order; items that are not maps
/// are skipped.
pub fn parse_apps_results(fields: &Json) -> (r: Vec<AppResult>)
    ensures
        result_models(r@) == results_field(fields@),
{
    let empty: Vec<AppResult> = Vec::new();
    assert(result_models(empty@) =~= Seq::<AppResultModel>::empty());
    let v = match fields.get("apps_results") {
        Some(t) => match t.get("arrayValue") {
            Some(a) => match a.get("values") {
                Some(v) => v,
                None => return empty,
            },
            None => return empty,
        },
        None => return empty,
    };
    let xs = if let Json::Arr(xs) = v {
        xs
    } else {
        return empty;
    };
    let ghost xm = Seq::new(xs@.len(), |i: int| xs@[i]@);
    assert(v@->Arr_0 =~= xm);
    let mut out: Vec<AppResult> = Vec::new();
    let mut i: usize = 0;
    assert(xm.subrange(0, 0) =~= Seq::<JsonModel>::empty());
    assert(result_models(out@) =~= Seq::<AppResultModel>::empty());
    while i < xs.len()
        invariant
            i <= xs@.len(),
            xm == Seq::new(xs@.len(), |i: int| xs@[i]@),
            result_models(out@) == results_among(xm.subrange(0, i as int)),
        decreases xs@.len() - i,
    {
        proof {
            assert(xm.subrange(0, i + 1).drop_last() =~= xm.subrange(0, i as int));
            assert(xm.subrange(0, i + 1).last() == xs@[i as int]@);
        }
        let ghost before = result_models(out@);
        match result_from(&xs[i]) {
            Some(x) => {
                let ghost m = x.model();
                out.push(x);
                assert(result_models(out@) =~= before.push(m));
            },
            None => {},
        }
        i += 1;
    }
    assert(xm.subrange(0, xs@.len() as int) =~= xm);
    out
}

/// The summary the processing of a conversation produced.
pub struct Structured {
    pub title: String,
    pub overview: String,
    pub emoji: String,
    pub category: String,
}

/// A conversation as stored.
pub struct Conversation {
    pub id: String,
    pub created_at: Timestamp,
    pub started_at: Timestamp,
    pub finished_at: Timestamp,
    pub source: Option<String>,
    pub language: String,
    pub status: Option<String>,
    pub discarded: bool,
    pub structured: Structured,
    pub transcript_segments: Vec<TranscriptSegment>,
    pub apps_results: Vec<AppResult>,
}

/// The fields of the `structured` map of `f`, if it has one.
pub open spec fn structured_fields(f: JsonModel) -> Option<JsonModel> {
    opt_member(opt_member(member(f, "structured"@), "mapValue"@), "fields"@)
}

/// The summary read from fields `f`: each part from the `structured` map,
/// empty where absent, and category "other" where absent.
pub open spec fn structured_read(r: Structured, f: JsonModel) -> bool {
    match structured_fields(f) {
        Some(s) => {
            &&& r.title@ == text_or(string_field(s, "title"@), Seq::empty())
            &&& r.overview@ == text_or(string_field(s, "overview"@), Seq::empty())
            &&& r.emoji@ == text_or(string_field(s, "emoji"@), Seq::empty())
            &&& r.category@ == text_or(string_field(s, "category"@), "other"@)
        },
        None => r.title@ == Seq::<char>::empty() && r.overview@ == Seq::<char>::empty() && r.emoji@
            == Seq::<char>::empty() && r.category@ == "other"@,
    }
}

fn text_or_default(f: &Json, key: &str, default: &str) -> (r: String)
    ensures
        r@ == text_or(string_field(f@, key@), default@),
{
    match parse_string(f, key) {
        Some(s) => s,
        None => String::from_str(default),
    }
}

fn parse_structured(fields: &Json) -> (r: Structured)
    ensures
        structured_read(r, fields@),
{
    proof {
        reveal_strlit("");
    }
    let none = Structured {
        title: String::new(),
        overview: String::new(),
        emoji: String::new(),
        category: String::from_str("other"),
    };
    let a = match fields.get("structured") {
        Some(a) => a,
        None => return none,
    };
    let m = match a.get("mapValue") {
        Some(m) => m,
        None => return none,
    };
    let sf = match m.get("fields") {
        Some(sf) => sf,
        None => return none,
    };
    assert(structured_fields(fields@) == Some(sf@));
    let r = Structured {
        title: text_or_default(sf, "title", ""),
        overview: text_or_default(sf, "overview", ""),
        emoji: text_or_default(sf, "emoji", ""),
        category: text_or_default(sf, "category", "other"),
    };
    proof {
        reveal_strlit("");
        assert(""@ == Seq::<char>::empty());
        assert(r.title@ == text_or(string_field(sf@, "title"@), Seq::empty()));
        assert(r.category@ == text_or(string_field(sf@, "category"@), "other"@));
    }
    r
}

/// A conversation read from document `doc` with fields `f`: a missing
/// creation time reads as `now`, missing start and finish times as the
/// creation time, and the transcript as `parse_transcript_segments` reads it
/// with `decoded`.
pub open spec fn conversation_read(r: Conversation, doc: JsonModel, f: JsonModel, now: Timestamp, decoded: Option<JsonModel>) -> bool {
    &&& r.id@ == last_segment(name_text(doc))
    &&& r.created_at == (match timestamp_field(f, "created_at"@) {
        Some(t) => t,
        None => now,
    })
    &&& r.started_at == (match timestamp_field(f, "started_at"@) {
        Some(t) => t,
        None => r.created_at,
    })
    &&& r.finished_at == (match timestamp_field(f, "finished_at"@) {
        Some(t) => t,
        None => r.created_at,
    })
    &&& opt_text(r.source) == string_field(f, "source"@)
    &&& r.language@ == text_or(string_field(f, "language"@), Seq::empty())
    &&& opt_text(r.status) == string_field(f, "status"@)
    &&& r.discarded == (bool_field(f, "discarded"@) == Some(true))
    &&& structured_read(r.structured, f)
    &&& r.transcript_segments@.map_values(|s: TranscriptSegment| s.model()) == match blob_kind(f) {
        None => Seq::empty(),
        Some(Some(_)) => match decoded {
            Some(JsonModel::Arr(xs)) => segments_among(xs, false),
            _ => Seq::empty(),
        },
        Some(None) => match plain_items(f) {
            Some(xs) => segments_among(xs, true),
            None => Seq::empty(),
        },
    }
    &&& result_models(r.apps_results@) == results_field(f)
}

/// The model of an optional JSON reference.
pub open spec fn decoded_model(d: Option<&Json>) -> Option<JsonModel> {
    match d {
        Some(j) => Some(j@),
        None => None,
    }
}

/// Reads a stored conversation; only a document without fields is an
/// error. `decoded_transcript` is the JSON that a compressed transcript's
/// text parses to, where one was read.
pub fn parse_conversation(doc: &Json, now: Timestamp, decoded_transcript: Option<&Json>) -> (r: Result<Conversation, DecodeError>)
    ensures
        match member(doc@, "fields"@) {
            None => r == Err::<Conversation, DecodeError>(DecodeError::MissingFields),
            Some(f) => r is Ok && conversation_read(r->Ok_0, doc@, f, now, decoded_model(decoded_transcript)),
        },
{
    let f = match doc.get("fields") {
        Some(f) => f,
        None => return Err(DecodeError::MissingFields),
    };
    let id = match doc.get("name") {
        Some(n) => match n.as_str() {
            Some(s) => last_path_segment(s),
            None => String::new(),
        },
        None => String::new(),
    };
    let created_at = match parse_timestamp_optional(f, "created_at") {
        Some(t) => t,
        None => now,
    };
    let started_at = match parse_timestamp_optional(f, "started_at") {
        Some(t) => t,
        None => created_at,
    };
    let finished_at = match parse_timestamp_optional(f, "finished_at") {
        Some(t) => t,
        None => created_at,
    };
    let segments = parse_transcript_segments(f, decoded_transcript);
    let r = Conversation {
        id,
        created_at,
        started_at,
        finished_at,
        source: parse_string(f, "source"),
        language: text_or_default(f, "language", ""),
        status: parse_string(f, "status"),
        discarded: match parse_bool(f, "discarded") {
            Ok(b) => b,
            Err(_) => false,
        },
        structured: parse_structured(f),
        transcript_segments: segments,
        apps_results: parse_apps_results(f),
    };
    proof {
        reveal_strlit("");
        assert(last_segment(Seq::<char>::empty()) == Seq::<char>::empty());
        let fm = f@;
        assert(r.id@ == last_segment(name_text(doc@)));
        assert(structured_read(r.structured, fm));
        assert(result_models(r.apps_results@) == results_field(fm));
        assert(r.transcript_segments@.map_values(|s: TranscriptSegment| s.model()) == match blob_kind(fm) {
            None => Seq::empty(),
            Some(Some(_)) => match decoded_model(decoded_transcript) {
                Some(JsonModel::Arr(xs)) => segments_among(xs, false),
                _ => Seq::empty(),
            },
            Some(None) => match plain_items(fm) {
                Some(xs) => segments_among(xs, true),
                None => Seq::empty(),
            },
        });
        assert(r.created_at == (match timestamp_field(fm, "created_at"@) {
            Some(t) => t,
            None => now,
        }));
        assert(r.language@ == text_or(string_field(fm, "language"@), Seq::empty()));
        assert(opt_text(r.source) == string_field(fm, "source"@));
        assert(r.discarded == (bool_field(fm, "discarded"@) == Some(true)));
        assert(conversation_read(r, doc@, fm, now, decoded_model(decoded_transcript)));
    }
    Ok(r)
}

/// The stored value of a transcript segment; its times are doubles.
pub open spec fn segment_value(m: SegmentModel) -> ValueModel {
    ValueModel::Object(
        seq![
            ("text"@, ValueModel::Str(m.text)),
            ("speaker"@, ValueModel::Str(m.speaker)),
            ("speaker_id"@, ValueModel::Int(m.speaker_id as i64)),
            ("is_user"@, ValueModel::Bool(m.is_user)),
            ("start"@, ValueModel::Double(m.start)),
            ("end"@, ValueModel::Double(m.end)),
        ],
    )
}

/// The stored value of a summary.
pub open spec fn structured_value(s: Structured) -> ValueModel {
    ValueModel::Object(
        seq![
            ("title"@, ValueModel::Str(s.title@)),
            ("overview"@, ValueModel::Str(s.overview@)),
            ("emoji"@, ValueModel::Str(s.emoji@)),
            ("category"@, ValueModel::Str(s.category@)),
        ],
    )
}

/// The members written for a conversation.
pub open spec fn conversation_fields(c: Conversation) -> Seq<(Seq<char>, JsonModel)> {
    seq![
        time_entry("created_at"@, c.created_at),
        time_entry("started_at"@, c.started_at),
        time_entry("finished_at"@, c.finished_at),
    ] + opt_text_entry("source"@, opt_text(c.source)) + seq![text_entry("language"@, c.language@)]
        + opt_text_entry("status"@, opt_text(c.status)) + seq![
        flag_entry("discarded"@, c.discarded),
        ("structured"@, encode_model(structured_value(c.structured))),
        (
            "transcript_segments"@,
            encode_model(
                ValueModel::Array(
                    Seq::new(
                        c.transcript_segments@.len(),
                        |i: int| segment_value(c.transcript_segments@[i].model()),
                    ),
                ),
            ),
        ),
    ]
}

fn segment_to_value(s: &TranscriptSegment) -> (r: TypedValue)
    ensures
        r@ == segment_value(s.model()),
{
    let mut es: Vec<(String, TypedValue)> = Vec::new();
    es.push((String::from_str("text"), TypedValue::Str(s.text.clone())));
    es.push((String::from_str("speaker"), TypedValue::Str(s.speaker.clone())));
    es.push((String::from_str("speaker_id"), TypedValue::Int(s.speaker_id as i64)));
    es.push((String::from_str("is_user"), TypedValue::Bool(s.is_user)));
    es.push((String::from_str("start"), TypedValue::Double(s.start.clone())));
    es.push((String::from_str("end"), TypedValue::Double(s.end.clone())));
    let r = TypedValue::Object(es);
    assert(es@[0].1@ == ValueModel::Str(s.text@));
    assert(es@[1].1@ == ValueModel::Str(s.speaker@));
    assert(es@[2].1@ == ValueModel::Int(s.speaker_id as i64));
    assert(es@[3].1@ == ValueModel::Bool(s.is_user));
    assert(es@[4].1@ == ValueModel::Double(s.start@));
    assert(es@[5].1@ == ValueModel::Double(s.end@));
    assert(r@->Object_0 =~= segment_value(s.model())->Object_0);
    r
}

fn push_opt_string(es: &mut Vec<(String, Json)>, key: &str, o: &Option<String>)
    ensures
        entries_model(final(es)@) == entries_model(old(es)@) + opt_text_entry(key@, opt_text(*o)),
{
    match o {
        Some(s) => {
            push_member(es, key, tag("stringValue", Json::Str(s.clone())));
            assert(entries_model(old(es)@).push(text_entry(key@, s@)) =~= entries_model(old(es)@)
                + opt_text_entry(key@, opt_text(*o)));
        },
        None => {
            assert(entries_model(old(es)@) =~= entries_model(old(es)@) + opt_text_entry(key@, opt_text(*o)));
        },
    }
}

/// The body written for a conversation: `{"fields": {..}}`.
pub fn conversation_document(c: &Conversation) -> (r: Json)
    requires
        c.created_at.wf(),
        c.started_at.wf(),
        c.finished_at.wf(),
    ensures
        r@ == tagged("fields"@, JsonModel::Obj(conversation_fields(*c))),
{
    let mut segs: Vec<TypedValue> = Vec::new();
    let mut i: usize = 0;
    while i < c.transcript_segments.len()
        invariant
            i <= c.transcript_segments@.len(),
            segs@.len() == i,
            forall|k: int| 0 <= k < i ==> (#[trigger] segs@[k])@ == segment_value(c.transcript_segments@[k].model()),
        decreases c.transcript_segments@.len() - i,
    {
        segs.push(segment_to_value(&c.transcript_segments[i]));
        i += 1;
    }
    let segs = TypedValue::Array(segs);
    assert(segs@->Array_0 =~= Seq::new(
        c.transcript_segments@.len(),
        |i: int| segment_value(c.transcript_segments@[i].model()),
    ));
    let mut st: Vec<(String, TypedValue)> = Vec::new();
    st.push((String::from_str("title"), TypedValue::Str(c.structured.title.clone())));
    st.push((String::from_str("overview"), TypedValue::Str(c.structured.overview.clone())));
    st.push((String::from_str("emoji"), TypedValue::Str(c.structured.emoji.clone())));
    st.push((String::from_str("category"), TypedValue::Str(c.structured.category.clone())));
    assert(st@[0].1@ == ValueModel::Str(c.structured.title@));
    assert(st@[1].1@ == ValueModel::Str(c.structured.overview@));
    assert(st@[2].1@ == ValueModel::Str(c.structured.emoji@));
    assert(st@[3].1@ == ValueModel::Str(c.structured.category@));
    let st = TypedValue::Object(st);
    assert(st@->Object_0 =~= structured_value(c.structured)->Object_0);
    let mut es: Vec<(String, Json)> = Vec::new();
    let ghost m0 = entries_model(es@);
    push_member(&mut es, "created_at", tag("timestampValue", Json::Str(timestamp_text(&c.created_at))));
    push_member(&mut es, "started_at", tag("timestampValue", Json::Str(timestamp_text(&c.started_at))));
    push_member(&mut es, "finished_at", tag("timestampValue", Json::Str(timestamp_text(&c.finished_at))));
    push_opt_string(&mut es, "source", &c.source);
    push_member(&mut es, "language", tag("stringValue", Json::Str(c.language.clone())));
    push_opt_string(&mut es, "status", &c.status);
    push_member(&mut es, "discarded", tag("booleanValue", Json::Bool(c.discarded)));
    push_member(&mut es, "structured", encode(&st));
    push_member(&mut es, "transcript_segments", encode(&segs));
    proof {
        assert(m0 =~= Seq::<(Seq<char>, JsonModel)>::empty());
        assert(entries_model(es@) =~= conversation_fields(*c));
    }
    tag("fields", object(es))
}

} // verus!
