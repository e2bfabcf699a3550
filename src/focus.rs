//! Focus sessions: one record per check of what the user is doing, listed
//! newest first, optionally for one calendar day.
use vstd::prelude::*;
use crate::json::{Json, JsonModel, member};
use crate::value::{TypedValue, ValueModel};
use crate::query::{FieldFilter, FieldOp, Order, Direction, QuerySpec};
use crate::fields::{DecodeError, opt_text, string_field, int_field, timestamp_field, parse_string, parse_int, parse_timestamp_optional};
use crate::records::{last_segment, text_or, last_path_segment};
use crate::time::{Timestamp, MIN_SECS, MAX_SECS, rfc3339_text, timestamp_text};

verus! {

/// A user's focus sessions.
pub const FOCUS_SESSIONS_SUBCOLLECTION: &'static str = "focus_sessions";

/// The calendar-date format of a day filter.
pub const DAY_FORMAT: &'static str = "%Y-%m-%d";

/// Whether the user was on task.
#[derive(Debug, Clone, Copy, PartialEq, Eq, Structural)]
pub enum FocusStatus {
    Focused,
    Distracted,
}

/// A focus session as stored.
pub struct FocusSessionDB {
    pub id: String,
    pub status: FocusStatus,
    pub app_or_site: String,
    pub description: String,
    pub message: Option<String>,
    pub created_at: Timestamp,
    pub duration_seconds: Option<i64>,
}

/// The status a wire name stands for: "focused", else distracted.
pub open spec fn status_named(s: Option<Seq<char>>) -> FocusStatus {
    if s == Some("focused"@) {
        FocusStatus::Focused
    } else {
        FocusStatus::Distracted
    }
}

/// A focus session read from a document named `name` with fields `f`.
pub open spec fn focus_read(r: FocusSessionDB, name: Seq<char>, f: JsonModel, now: Timestamp) -> bool {
    &&& r.id@ == last_segment(name)
    &&& r.status == status_named(string_field(f, "status"@))
    &&& r.app_or_site@ == text_or(string_field(f, "app_or_site"@), Seq::empty())
    &&& r.description@ == text_or(string_field(f, "description"@), Seq::empty())
    &&& opt_text(r.message) == string_field(f, "message"@)
    &&& r.created_at == (match timestamp_field(f, "created_at"@) {
        Some(t) => t,
        None => now,
    })
    &&& r.duration_seconds == (match int_field(f, "duration_seconds"@) {
        Some(n) => Some(n as i64),
        None => None,
    })
}

/// Reads a focus session. A document without a name or without fields is
/// an error; a missing creation time reads as `now`.
pub fn parse_focus_session(doc: &Json, now: Timestamp) -> (r: Result<FocusSessionDB, DecodeError>)
    ensures
        match (member(doc@, "name"@), member(doc@, "fields"@)) {
            (Some(JsonModel::Str(name)), Some(f)) => r is Ok && focus_read(r->Ok_0, name, f, now),
            (Some(JsonModel::Str(_)), None) => r == Err::<FocusSessionDB, DecodeError>(DecodeError::MissingFields),
            _ => r is Err && r->Err_0 is MissingField && r->Err_0->MissingField_0@ == "name"@,
        },
{
    let name = match doc.get("name") {
        Some(n) => match n.as_str() {
            Some(s) => s,
            None => return Err(DecodeError::MissingField(String::from_str("name"))),
        },
        None => return Err(DecodeError::MissingField(String::from_str("name"))),
    };
    let f = match doc.get("fields") {
        Some(f) => f,
        None => return Err(DecodeError::MissingFields),
    };
    let status = match parse_string(f, "status") {
        Some(s) => if crate::json::str_eq(s.as_str(), "focused") {
            FocusStatus::Focused
        } else {
            FocusStatus::Distracted
        },
        None => FocusStatus::Distracted,
    };
    let r = FocusSessionDB {
        id: last_path_segment(name),
        status,
        app_or_site: match parse_string(f, "app_or_site") {
            Some(s) => s,
            None => String::new(),
        },
        description: match parse_string(f, "description") {
            Some(s) => s,
            None => String::new(),
        },
        message: parse_string(f, "message"),
        created_at: match parse_timestamp_optional(f, "created_at") {
            Some(t) => t,
            None => now,
        },
        duration_seconds: match parse_int(f, "duration_seconds") {
            Some(n) => Some(n as i64),
            None => None,
        },
    };
    proof {
        reveal_strlit("");
        assert(focus_read(r, name@, f@, now));
    }
    Ok(r)
}

/// The second a calendar date written in `format` starts at, in UTC.
pub uninterp spec fn day_start_secs(date: Seq<char>, format: Seq<char>) -> Option<i64>;

/// Relies on `chrono::NaiveDate::parse_from_str`, read at midnight UTC as
/// seconds since the epoch.
#[verifier::external_body]
fn parse_day_start(date: &str, format: &str) -> (r: Option<i64>)
    ensures
        r == day_start_secs(date@, format@),
{
    match chrono::NaiveDate::parse_from_str(date, format) {
        Ok(d) => Some(d.and_time(chrono::NaiveTime::MIN).and_utc().timestamp()),
        Err(_) => None,
    }
}

/// The first and the last whole second of a day starting at `start`.
pub open spec fn day_of(start: i64) -> (Timestamp, Timestamp) {
    (Timestamp { secs: start, nanos: 0 }, Timestamp { secs: (start + 86399) as i64, nanos: 0 })
}

/// The bounds of the day that `date` (year-month-day) names, when it names
/// one in years 1 to 9999.
pub fn focus_day(date: &str) -> (r: Option<(Timestamp, Timestamp)>)
    ensures
        match day_start_secs(date@, DAY_FORMAT@) {
            Some(s) => if MIN_SECS <= s && s + 86399 <= MAX_SECS {
                r == Some(day_of(s))
            } else {
                r is None
            },
            None => r is None,
        },
        r is Some ==> (r->0).0.wf() && (r->0).1.wf(),
{
    match parse_day_start(date, DAY_FORMAT) {
        Some(s) => if MIN_SECS <= s && s <= MAX_SECS - 86399 {
            Some((Timestamp { secs: s, nanos: 0 }, Timestamp { secs: s + 86399, nanos: 0 }))
        } else {
            None
        },
        None => None,
    }
}

/// A page of focus sessions, newest first, created within `day` when it is
/// given: at or after its start, then at or before its end.
pub fn focus_sessions_query(limit: usize, offset: usize, day: Option<(Timestamp, Timestamp)>) -> (r: QuerySpec)
    requires
        day is Some ==> (day->0).0.wf() && (day->0).1.wf(),
    ensures
        r.collection@ == FOCUS_SESSIONS_SUBCOLLECTION@,
        match day {
            Some((a, b)) => {
                &&& r.filters@.len() == 2
                &&& r.filters@[0].field@ == "created_at"@
                &&& r.filters@[0].op == FieldOp::GreaterThanOrEqual
                &&& r.filters@[0].value@ == ValueModel::Timestamp(rfc3339_text(a.secs as int, a.nanos as int))
                &&& r.filters@[1].field@ == "created_at"@
                &&& r.filters@[1].op == FieldOp::LessThanOrEqual
                &&& r.filters@[1].value@ == ValueModel::Timestamp(rfc3339_text(b.secs as int, b.nanos as int))
            },
            None => r.filters@.len() == 0,
        },
        r.order_by@.len() == 1,
        r.order_by@[0].field@ == "created_at"@,
        r.order_by@[0].direction == Direction::Descending,
        r.limit == Some(limit),
        r.offset == Some(offset),
{
    let mut filters: Vec<FieldFilter> = Vec::new();
    match day {
        Some((a, b)) => {
            filters.push(
                FieldFilter {
                    field: String::from_str("created_at"),
                    op: FieldOp::GreaterThanOrEqual,
                    value: TypedValue::Timestamp(timestamp_text(&a)),
                },
            );
            filters.push(
                FieldFilter {
                    field: String::from_str("created_at"),
                    op: FieldOp::LessThanOrEqual,
                    value: TypedValue::Timestamp(timestamp_text(&b)),
                },
            );
        },
        None => {},
    }
    QuerySpec {
        collection: String::from_str(FOCUS_SESSIONS_SUBCOLLECTION),
        filters,
        order_by: vec![Order { field: String::from_str("created_at"), direction: Direction::Descending }],
        limit: Some(limit),
        offset: Some(offset),
    }
}

} // verus!
