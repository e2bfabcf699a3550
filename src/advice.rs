//! Advice given to the user while they work, kept per user.
use vstd::prelude::*;
use crate::json::{Json, JsonModel, member, entries_model, object, push_member};
use crate::value::{TypedValue, ValueModel, tag, tagged};
use crate::query::{FieldFilter, FieldOp, Order, Direction, QuerySpec};
use crate::fields::{
    DecodeError, opt_text, string_field, bool_field, double_field, timestamp_field, parse_string, parse_bool,
    parse_double_text, parse_timestamp_optional,
};
use crate::records::{last_segment, name_text, text_or, last_path_segment, typed_entry};
use crate::writes::{text_entry, flag_entry, time_entry, opt_text_entry, opt_str};
use crate::time::{Timestamp, timestamp_text};

verus! {

/// A user's advice entries.
pub const ADVICE_SUBCOLLECTION: &'static str = "advice";

/// The confidence of advice that states none.
pub const DEFAULT_CONFIDENCE: &'static str = "0.5";

/// What a piece of advice is about.
#[derive(Debug, Clone, Copy, PartialEq, Eq, Structural)]
pub enum AdviceCategory {
    Productivity,
    Health,
    Communication,
    Learning,
    Other,
}

/// The wire name of a category.
pub open spec fn advice_category_name(c: AdviceCategory) -> Seq<char> {
    match c {
        AdviceCategory::Productivity => "productivity"@,
        AdviceCategory::Health => "health"@,
        AdviceCategory::Communication => "communication"@,
        AdviceCategory::Learning => "learning"@,
        AdviceCategory::Other => "other"@,
    }
}

/// The category a wire name stands for; any other name stands for `Other`.
pub open spec fn advice_category_named(s: Seq<char>) -> AdviceCategory {
    if s == "productivity"@ {
        AdviceCategory::Productivity
    } else if s == "health"@ {
        AdviceCategory::Health
    } else if s == "communication"@ {
        AdviceCategory::Communication
    } else if s == "learning"@ {
        AdviceCategory::Learning
    } else {
        AdviceCategory::Other
    }
}

/// The wire name of a category.
pub fn advice_category_wire_name(c: AdviceCategory) -> (r: &'static str)
    ensures
        r@ == advice_category_name(c),
{
    match c {
        AdviceCategory::Productivity => "productivity",
        AdviceCategory::Health => "health",
        AdviceCategory::Communication => "communication",
        AdviceCategory::Learning => "learning",
        AdviceCategory::Other => "other",
    }
}

/// The category named `s`; `Other` for any name outside the vocabulary.
pub fn advice_category_from_name(s: &str) -> (r: AdviceCategory)
    ensures
        r == advice_category_named(s@),
{
    if crate::json::str_eq(s, "productivity") {
        AdviceCategory::Productivity
    } else if crate::json::str_eq(s, "health") {
        AdviceCategory::Health
    } else if crate::json::str_eq(s, "communication") {
        AdviceCategory::Communication
    } else if crate::json::str_eq(s, "learning") {
        AdviceCategory::Learning
    } else {
        AdviceCategory::Other
    }
}

/// Advice as stored. The confidence keeps its decimal text.
pub struct AdviceDB {
    pub id: String,
    pub content: String,
    pub category: AdviceCategory,
    pub reasoning: Option<String>,
    pub source_app: Option<String>,
    pub confidence: String,
    pub context_summary: Option<String>,
    pub current_activity: Option<String>,
    pub created_at: Timestamp,
    pub updated_at: Option<Timestamp>,
    pub is_read: bool,
    pub is_dismissed: bool,
}

/// Advice read from document `doc` with fields `f`, with `now` for a
/// missing creation time.
pub open spec fn advice_read(r: AdviceDB, doc: JsonModel, f: JsonModel, now: Timestamp) -> bool {
    &&& r.id@ == last_segment(name_text(doc))
    &&& r.content@ == text_or(string_field(f, "content"@), Seq::empty())
    &&& r.category == advice_category_named(text_or(string_field(f, "category"@), "other"@))
    &&& opt_text(r.reasoning) == string_field(f, "reasoning"@)
    &&& opt_text(r.source_app) == string_field(f, "source_app"@)
    &&& r.confidence@ == text_or(double_field(f, "confidence"@), DEFAULT_CONFIDENCE@)
    &&& opt_text(r.context_summary) == string_field(f, "context_summary"@)
    &&& opt_text(r.current_activity) == string_field(f, "current_activity"@)
    &&& r.created_at == (match timestamp_field(f, "created_at"@) {
        Some(t) => t,
        None => now,
    })
    &&& r.updated_at == timestamp_field(f, "updated_at"@)
    &&& r.is_read == (bool_field(f, "is_read"@) == Some(true))
    &&& r.is_dismissed == (bool_field(f, "is_dismissed"@) == Some(true))
}

/// Reads stored advice; only a document without fields is an error.
pub fn parse_advice(doc: &Json, now: Timestamp) -> (r: Result<AdviceDB, DecodeError>)
    ensures
        match member(doc@, "fields"@) {
            None => r == Err::<AdviceDB, DecodeError>(DecodeError::MissingFields),
            Some(f) => r is Ok && advice_read(r->Ok_0, doc@, f, now),
        },
{
    let f = match doc.get("fields") {
        Some(f) => f,
        None => return Err(DecodeError::MissingFields),
    };
    let id = match doc.get("name") {
        Some(n) => match n.as_str() {
            Some(s) => last_path_segment(s),
            None => String::new(),
        },
        None => String::new(),
    };
    let category = match parse_string(f, "category") {
        Some(s) => advice_category_from_name(s.as_str()),
        None => AdviceCategory::Other,
    };
    let r = AdviceDB {
        id,
        content: match parse_string(f, "content") {
            Some(s) => s,
            None => String::new(),
        },
        category,
        reasoning: parse_string(f, "reasoning"),
        source_app: parse_string(f, "source_app"),
        confidence: match parse_double_text(f, "confidence") {
            Some(t) => t,
            None => String::from_str(DEFAULT_CONFIDENCE),
        },
        context_summary: parse_string(f, "context_summary"),
        current_activity: parse_string(f, "current_activity"),
        created_at: match parse_timestamp_optional(f, "created_at") {
            Some(t) => t,
            None => now,
        },
        updated_at: parse_timestamp_optional(f, "updated_at"),
        is_read: match parse_bool(f, "is_read") {
            Ok(b) => b,
            Err(_) => false,
        },
        is_dismissed: match parse_bool(f, "is_dismissed") {
            Ok(b) => b,
            Err(_) => false,
        },
    };
    proof {
        reveal_strlit("");
        reveal_strlit("other");
        reveal_strlit("productivity");
        reveal_strlit("health");
        reveal_strlit("communication");
        reveal_strlit("learning");
        assert(last_segment(Seq::<char>::empty()) == Seq::<char>::empty());
        assert("other"@[0] != "productivity"@[0]);
        assert("other"@[0] != "health"@[0]);
        assert("other"@[0] != "communication"@[0]);
        assert("other"@[0] != "learning"@[0]);
        assert(advice_category_named("other"@) == AdviceCategory::Other);
        assert(advice_read(r, doc@, f@, now));
    }
    Ok(r)
}

/// A page of a user's advice, newest first: without dismissed entries
/// unless they are asked for, then of one category when one is given.
pub fn advice_query(limit: usize, offset: usize, category: Option<&str>, include_dismissed: bool) -> (r: QuerySpec)
    ensures
        r.collection@ == ADVICE_SUBCOLLECTION@,
        ({
            let d: int = if include_dismissed { 0 } else { 1 };
            &&& r.filters@.len() == d + (if category is Some { 1int } else { 0int })
            &&& !include_dismissed ==> (r.filters@[0].field@ == "is_dismissed"@ && r.filters@[0].op == FieldOp::Equal
                && r.filters@[0].value@ == ValueModel::Bool(false))
            &&& category is Some ==> (r.filters@[d].field@ == "category"@ && r.filters@[d].op == FieldOp::Equal
                && r.filters@[d].value@ == ValueModel::Str(category->0@))
        }),
        r.order_by@.len() == 1,
        r.order_by@[0].field@ == "created_at"@,
        r.order_by@[0].direction == Direction::Descending,
        r.limit == Some(limit),
        r.offset == Some(offset),
{
    let mut filters: Vec<FieldFilter> = Vec::new();
    if !include_dismissed {
        filters.push(
            FieldFilter { field: String::from_str("is_dismissed"), op: FieldOp::Equal, value: TypedValue::Bool(false) },
        );
    }
    match category {
        Some(c) => filters.push(
            FieldFilter {
                field: String::from_str("category"),
                op: FieldOp::Equal,
                value: TypedValue::Str(String::from_str(c)),
            },
        ),
        None => {},
    }
    QuerySpec {
        collection: String::from_str(ADVICE_SUBCOLLECTION),
        filters,
        order_by: vec![Order { field: String::from_str("created_at"), direction: Direction::Descending }],
        limit: Some(limit),
        offset: Some(offset),
    }
}

/// The members written for new advice at `now`: unread, not dismissed, of
/// category `Other` and confidence 0.5 unless given, with the optional
/// parts that are given.
pub open spec fn advice_fields(
    content: Seq<char>,
    category: Option<AdviceCategory>,
    reasoning: Option<Seq<char>>,
    source_app: Option<Seq<char>>,
    confidence: Option<Seq<char>>,
    context_summary: Option<Seq<char>>,
    current_activity: Option<Seq<char>>,
    now: Timestamp,
) -> Seq<(Seq<char>, JsonModel)> {
    seq![
        text_entry("content"@, content),
        text_entry(
            "category"@,
            advice_category_name(
                match category {
                    Some(c) => c,
                    None => AdviceCategory::Other,
                },
            ),
        ),
        typed_entry("confidence"@, "doubleValue"@, JsonModel::Num(text_or(confidence, DEFAULT_CONFIDENCE@))),
        flag_entry("is_read"@, false),
        flag_entry("is_dismissed"@, false),
        time_entry("created_at"@, now),
    ] + opt_text_entry("reasoning"@, reasoning) + opt_text_entry("source_app"@, source_app) + opt_text_entry(
        "context_summary"@,
        context_summary,
    ) + opt_text_entry("current_activity"@, current_activity)
}

fn push_opt(es: &mut Vec<(String, Json)>, key: &str, o: Option<&str>)
    ensures
        entries_model(final(es)@) == entries_model(old(es)@) + opt_text_entry(key@, opt_str(o)),
{
    match o {
        Some(s) => {
            push_member(es, key, tag("stringValue", Json::Str(String::from_str(s))));
            assert(entries_model(old(es)@).push(text_entry(key@, s@)) =~= entries_model(old(es)@)
                + opt_text_entry(key@, opt_str(o)));
        },
        None => {
            assert(entries_model(old(es)@) =~= entries_model(old(es)@) + opt_text_entry(key@, opt_str(o)));
        },
    }
}

/// The body written for new advice at `now`. The confidence is decimal text.
pub fn advice_document(
    content: &str,
    category: Option<AdviceCategory>,
    reasoning: Option<&str>,
    source_app: Option<&str>,
    confidence: Option<String>,
    context_summary: Option<&str>,
    current_activity: Option<&str>,
    now: &Timestamp,
) -> (r: Json)
    requires
        now.wf(),
    ensures
        r@ == tagged(
            "fields"@,
            JsonModel::Obj(
                advice_fields(
                    content@,
                    category,
                    opt_str(reasoning),
                    opt_str(source_app),
                    opt_text(confidence),
                    opt_str(context_summary),
                    opt_str(current_activity),
                    *now,
                ),
            ),
        ),
{
    let ghost conf = opt_text(confidence);
    let cat = match category {
        Some(c) => c,
        None => AdviceCategory::Other,
    };
    let conf_text = match confidence {
        Some(t) => t,
        None => String::from_str(DEFAULT_CONFIDENCE),
    };
    let mut es: Vec<(String, Json)> = Vec::new();
    let ghost m0 = entries_model(es@);
    push_member(&mut es, "content", tag("stringValue", Json::Str(String::from_str(content))));
    push_member(&mut es, "category", tag("stringValue", Json::Str(String::from_str(advice_category_wire_name(cat)))));
    push_member(&mut es, "confidence", tag("doubleValue", Json::Num(conf_text)));
    push_member(&mut es, "is_read", tag("booleanValue", Json::Bool(false)));
    push_member(&mut es, "is_dismissed", tag("booleanValue", Json::Bool(false)));
    push_member(&mut es, "created_at", tag("timestampValue", Json::Str(timestamp_text(now))));
    let ghost m1 = entries_model(es@);
    push_opt(&mut es, "reasoning", reasoning);
    push_opt(&mut es, "source_app", source_app);
    push_opt(&mut es, "context_summary", context_summary);
    push_opt(&mut es, "current_activity", current_activity);
    proof {
        assert(m0 =~= Seq::<(Seq<char>, JsonModel)>::empty());
        assert(entries_model(es@) =~= advice_fields(
            content@,
            category,
            opt_str(reasoning),
            opt_str(source_app),
            conf,
            opt_str(context_summary),
            opt_str(current_activity),
            *now,
        ));
    }
    tag("fields", object(es))
}

} // verus!
