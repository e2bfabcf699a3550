//! Domain records read from and written to stored documents.
use vstd::prelude::*;
use crate::json::{Json, JsonModel, member, entries_model, object, push_member};
use crate::fields::{
    DecodeError, opt_text, string_field, bool_field, timestamp_field, parse_string, parse_bool,
    parse_timestamp_optional,
};
use crate::value::{tag, tagged};
use crate::scoring::{MemoryCategory, calculate_scoring, scoring_text};
use crate::time::{Timestamp, rfc3339_text, timestamp_text};
use crate::ids::{content_id, document_id_from_seed};

verus! {

/// The collection of users.
pub const USERS_COLLECTION: &'static str = "users";

/// A user's memories.
pub const MEMORIES_SUBCOLLECTION: &'static str = "memories";

/// A user's action items.
pub const ACTION_ITEMS_SUBCOLLECTION: &'static str = "action_items";

/// A memory as extracted from a conversation.
pub struct Memory {
    pub content: String,
    pub category: MemoryCategory,
}

/// A memory as stored.
pub struct MemoryDB {
    pub id: String,
    pub uid: String,
    pub content: String,
    pub category: MemoryCategory,
    pub created_at: Timestamp,
    pub updated_at: Timestamp,
    pub conversation_id: Option<String>,
    pub reviewed: bool,
    pub user_review: Option<bool>,
    pub visibility: String,
    pub manually_added: bool,
    pub scoring: Option<String>,
}

/// An action item as stored.
pub struct ActionItemDB {
    pub id: String,
    pub description: String,
    pub completed: bool,
    pub created_at: Timestamp,
    pub updated_at: Option<Timestamp>,
    pub due_at: Option<Timestamp>,
    pub completed_at: Option<Timestamp>,
    pub conversation_id: Option<String>,
    pub source: Option<String>,
    pub priority: Option<String>,
    pub metadata: Option<String>,
    pub deleted: Option<bool>,
    pub deleted_by: Option<String>,
    pub deleted_at: Option<Timestamp>,
    pub deleted_reason: Option<String>,
    pub kept_task_id: Option<String>,
}

/// The wire name of a memory category.
pub open spec fn category_name(c: MemoryCategory) -> Seq<char> {
    match c {
        MemoryCategory::Interesting => "interesting"@,
        MemoryCategory::System => "system"@,
        MemoryCategory::Manual => "manual"@,
    }
}

/// The category a wire name stands for; an unknown name stands for
/// `Interesting`.
pub open spec fn category_named(s: Seq<char>) -> MemoryCategory {
    if s == "system"@ {
        MemoryCategory::System
    } else if s == "manual"@ {
        MemoryCategory::Manual
    } else {
        MemoryCategory::Interesting
    }
}

/// The wire name of a memory category.
pub fn category_wire_name(c: MemoryCategory) -> (r: &'static str)
    ensures
        r@ == category_name(c),
{
    match c {
        MemoryCategory::Interesting => "interesting",
        MemoryCategory::System => "system",
        MemoryCategory::Manual => "manual",
    }
}

/// The category named `s`; `Interesting` for any name outside the vocabulary.
pub fn category_from_name(s: &str) -> (r: MemoryCategory)
    ensures
        r == category_named(s@),
{
    if crate::json::str_eq(s, "system") {
        MemoryCategory::System
    } else if crate::json::str_eq(s, "manual") {
        MemoryCategory::Manual
    } else {
        MemoryCategory::Interesting
    }
}

/// Reading back a category's wire name gives the category.
pub proof fn lemma_category_round_trip(c: MemoryCategory)
    ensures
        category_named(category_name(c)) == c,
{
    reveal_strlit("interesting");
    reveal_strlit("system");
    reveal_strlit("manual");
    assert("interesting"@[0] != "system"@[0]);
    assert("interesting"@[0] != "manual"@[0]);
    assert("system"@[0] != "manual"@[0]);
}

/// What follows the last `/` of a document name: the document's id.
pub open spec fn last_segment(s: Seq<char>) -> Seq<char>
    decreases s.len(),
{
    if s.len() == 0 {
        s
    } else if s.last() == '/' {
        Seq::empty()
    } else {
        last_segment(s.drop_last()).push(s.last())
    }
}

/// The id at the end of a document name.
pub fn last_path_segment(name: &str) -> (r: String)
    ensures
        r@ == last_segment(name@),
{
    let n = name.unicode_len();
    let mut start: usize = 0;
    let mut i: usize = 0;
    while i < n
        invariant
            n == name@.len(),
            start <= i <= n,
            last_segment(name@.subrange(0, i as int)) == name@.subrange(start as int, i as int),
        decreases n - i,
    {
        proof {
            assert(name@.subrange(0, i + 1).drop_last() =~= name@.subrange(0, i as int));
        }
        if name.get_char(i) == '/' {
            start = i + 1;
            assert(name@.subrange(start as int, i + 1) =~= Seq::<char>::empty());
        } else {
            assert(name@.subrange(start as int, i + 1) =~= name@.subrange(start as int, i as int).push(
                name@[i as int],
            ));
        }
        i += 1;
    }
    assert(name@.subrange(0, n as int) =~= name@);
    String::from_str(name.substring_char(start, n))
}

/// The text of a document's `name`, or nothing.
pub open spec fn name_text(doc: JsonModel) -> Seq<char> {
    match member(doc, "name"@) {
        Some(JsonModel::Str(s)) => s,
        _ => Seq::empty(),
    }
}

/// `o`, or `d` when there is none.
pub open spec fn text_or(o: Option<Seq<char>>, d: Seq<char>) -> Seq<char> {
    match o {
        Some(s) => s,
        None => d,
    }
}

fn doc_id(doc: &Json) -> (r: String)
    ensures
        r@ == last_segment(name_text(doc@)),
{
    match doc.get("name") {
        Some(n) => match n.as_str() {
            Some(s) => last_path_segment(s),
            None => {
                assert(last_segment(Seq::<char>::empty()) == Seq::<char>::empty());
                String::new()
            },
        },
        None => {
            assert(last_segment(Seq::<char>::empty()) == Seq::<char>::empty());
            String::new()
        },
    }
}

fn string_or(fields: &Json, key: &str, default: &str) -> (r: String)
    ensures
        r@ == text_or(string_field(fields@, key@), default@),
{
    match parse_string(fields, key) {
        Some(s) => s,
        None => String::from_str(default),
    }
}

/// A stored memory read from document `doc` with fields `f`, where a
/// missing creation time reads as `now` and a missing update time as the
/// creation time.
pub open spec fn memory_read(r: MemoryDB, doc: JsonModel, f: JsonModel, now: Timestamp) -> bool {
    &&& r.id@ == last_segment(name_text(doc))
    &&& r.uid@ == Seq::<char>::empty()
    &&& r.content@ == text_or(string_field(f, "content"@), Seq::empty())
    &&& r.category == (match string_field(f, "category"@) {
        Some(s) => category_named(s),
        None => MemoryCategory::Interesting,
    })
    &&& r.created_at == (match timestamp_field(f, "created_at"@) {
        Some(t) => t,
        None => now,
    })
    &&& r.updated_at == (match timestamp_field(f, "updated_at"@) {
        Some(t) => t,
        None => r.created_at,
    })
    &&& opt_text(r.conversation_id) == string_field(f, "conversation_id"@)
    &&& r.reviewed == (bool_field(f, "reviewed"@) == Some(true))
    &&& r.user_review == bool_field(f, "user_review"@)
    &&& r.visibility@ == text_or(string_field(f, "visibility"@), "private"@)
    &&& r.manually_added == (bool_field(f, "manually_added"@) == Some(true))
    &&& opt_text(r.scoring) == string_field(f, "scoring"@)
}

/// Reads a stored memory; only a document without fields is an error. A
/// missing creation time reads as `now`, a missing update time as the
/// creation time, and any other absent or unreadable field takes its
/// default.
pub fn parse_memory(doc: &Json, now: Timestamp) -> (r: Result<MemoryDB, DecodeError>)
    ensures
        match member(doc@, "fields"@) {
            None => r == Err::<MemoryDB, DecodeError>(DecodeError::MissingFields),
            Some(f) => r is Ok && memory_read(r->Ok_0, doc@, f, now),
        },
{
    let fields = match doc.get("fields") {
        Some(f) => f,
        None => return Err(DecodeError::MissingFields),
    };
    let created_at = match parse_timestamp_optional(fields, "created_at") {
        Some(t) => t,
        None => now,
    };
    let updated_at = match parse_timestamp_optional(fields, "updated_at") {
        Some(t) => t,
        None => created_at,
    };
    let category = match parse_string(fields, "category") {
        Some(s) => category_from_name(s.as_str()),
        None => MemoryCategory::Interesting,
    };
    let reviewed = match parse_bool(fields, "reviewed") {
        Ok(b) => b,
        Err(_) => false,
    };
    let user_review = match parse_bool(fields, "user_review") {
        Ok(b) => Some(b),
        Err(_) => None,
    };
    let manually_added = match parse_bool(fields, "manually_added") {
        Ok(b) => b,
        Err(_) => false,
    };
    let r = MemoryDB {
        id: doc_id(doc),
        uid: String::new(),
        content: string_or(fields, "content", ""),
        category,
        created_at,
        updated_at,
        conversation_id: parse_string(fields, "conversation_id"),
        reviewed,
        user_review,
        visibility: string_or(fields, "visibility", "private"),
        manually_added,
        scoring: parse_string(fields, "scoring"),
    };
    proof {
        reveal_strlit("");
        let f = fields@;
        assert(r.content@ == text_or(string_field(f, "content"@), Seq::empty()));
        assert(memory_read(r, doc@, f, now));
    }
    Ok(r)
}

/// A stored action item read from document `doc` with fields `f`, where a
/// missing creation time reads as `now`.
pub open spec fn action_item_read(r: ActionItemDB, doc: JsonModel, f: JsonModel, now: Timestamp) -> bool {
    &&& r.id@ == last_segment(name_text(doc))
    &&& r.description@ == text_or(string_field(f, "description"@), Seq::empty())
    &&& r.completed == (bool_field(f, "completed"@) == Some(true))
    &&& r.created_at == (match timestamp_field(f, "created_at"@) {
        Some(t) => t,
        None => now,
    })
    &&& r.updated_at == timestamp_field(f, "updated_at"@)
    &&& r.due_at == timestamp_field(f, "due_at"@)
    &&& r.completed_at == timestamp_field(f, "completed_at"@)
    &&& opt_text(r.conversation_id) == string_field(f, "conversation_id"@)
    &&& opt_text(r.source) == string_field(f, "source"@)
    &&& opt_text(r.priority) == string_field(f, "priority"@)
    &&& opt_text(r.metadata) == string_field(f, "metadata"@)
    &&& r.deleted is None
    &&& r.deleted_by is None
    &&& r.deleted_at is None
    &&& r.deleted_reason is None
    &&& r.kept_task_id is None
}

/// Reads a stored action item; only a document without fields is an error.
/// A missing creation time reads as `now`; other absent times stay absent.
pub fn parse_action_item(doc: &Json, now: Timestamp) -> (r: Result<ActionItemDB, DecodeError>)
    ensures
        match member(doc@, "fields"@) {
            None => r == Err::<ActionItemDB, DecodeError>(DecodeError::MissingFields),
            Some(f) => r is Ok && action_item_read(r->Ok_0, doc@, f, now),
        },
{
    let fields = match doc.get("fields") {
        Some(f) => f,
        None => return Err(DecodeError::MissingFields),
    };
    let completed = match parse_bool(fields, "completed") {
        Ok(b) => b,
        Err(_) => false,
    };
    let created_at = match parse_timestamp_optional(fields, "created_at") {
        Some(t) => t,
        None => now,
    };
    proof {
        reveal_strlit("");
    }
    let r = ActionItemDB {
        id: doc_id(doc),
        description: string_or(fields, "description", ""),
        completed,
        created_at,
        updated_at: parse_timestamp_optional(fields, "updated_at"),
        due_at: parse_timestamp_optional(fields, "due_at"),
        completed_at: parse_timestamp_optional(fields, "completed_at"),
        conversation_id: parse_string(fields, "conversation_id"),
        source: parse_string(fields, "source"),
        priority: parse_string(fields, "priority"),
        metadata: parse_string(fields, "metadata"),
        deleted: None,
        deleted_by: None,
        deleted_at: None,
        deleted_reason: None,
        kept_task_id: None,
    };
    proof {
        let f = fields@;
        assert(r.id@ == last_segment(name_text(doc@)));
        assert(r.description@ == text_or(string_field(f, "description"@), Seq::empty()));
        assert(r.completed == (bool_field(f, "completed"@) == Some(true)));
        assert(r.updated_at == timestamp_field(f, "updated_at"@));
        assert(opt_text(r.conversation_id) == string_field(f, "conversation_id"@));
        assert(opt_text(r.metadata) == string_field(f, "metadata"@));
        assert(action_item_read(r, doc@, f, now));
    }
    Ok(r)
}

/// `{tag: {"stringValue": s}}`-style member `key` holding `payload` under `tag`.
pub open spec fn typed_entry(key: Seq<char>, tag: Seq<char>, payload: JsonModel) -> (Seq<char>, JsonModel) {
    (key, tagged(tag, payload))
}

/// The fields written for a memory extracted from conversation `conv` at
/// `now`.
pub open spec fn memory_fields(m: Memory, conv: Seq<char>, now: Timestamp) -> Seq<(Seq<char>, JsonModel)> {
    let at = rfc3339_text(now.secs as int, now.nanos as int);
    seq![
        typed_entry("content"@, "stringValue"@, JsonModel::Str(m.content@)),
        typed_entry("category"@, "stringValue"@, JsonModel::Str(category_name(m.category))),
        typed_entry("created_at"@, "timestampValue"@, JsonModel::Str(at)),
        typed_entry("updated_at"@, "timestampValue"@, JsonModel::Str(at)),
        typed_entry("conversation_id"@, "stringValue"@, JsonModel::Str(conv)),
        typed_entry("reviewed"@, "booleanValue"@, JsonModel::Bool(false)),
        typed_entry("visibility"@, "stringValue"@, JsonModel::Str("private"@)),
        typed_entry("manually_added"@, "booleanValue"@, JsonModel::Bool(false)),
        typed_entry("scoring"@, "stringValue"@, JsonModel::Str(scoring_text(m.category, now.secs as int, false))),
    ]
}

fn push_typed(es: &mut Vec<(String, Json)>, key: &str, tag_name: &str, payload: Json)
    ensures
        entries_model(final(es)@) == entries_model(old(es)@).push(typed_entry(key@, tag_name@, payload@)),
{
    push_member(es, key, tag(tag_name, payload));
}

/// The document written for a memory extracted from conversation
/// `conversation_id` at `now`: `{"fields": {..}}`, not reviewed, private and
/// not manually added, with its scoring string.
pub fn memory_document(memory: &Memory, conversation_id: &str, now: &Timestamp) -> (r: Json)
    requires
        now.wf(),
    ensures
        r@ == tagged("fields"@, JsonModel::Obj(memory_fields(*memory, conversation_id@, *now))),
{
    let at = timestamp_text(now);
    let mut es: Vec<(String, Json)> = Vec::new();
    let ghost m0 = entries_model(es@);
    push_typed(&mut es, "content", "stringValue", Json::Str(memory.content.clone()));
    push_typed(&mut es, "category", "stringValue", Json::Str(String::from_str(category_wire_name(memory.category))));
    push_typed(&mut es, "created_at", "timestampValue", Json::Str(at.clone()));
    push_typed(&mut es, "updated_at", "timestampValue", Json::Str(at));
    push_typed(&mut es, "conversation_id", "stringValue", Json::Str(String::from_str(conversation_id)));
    push_typed(&mut es, "reviewed", "booleanValue", Json::Bool(false));
    push_typed(&mut es, "visibility", "stringValue", Json::Str(String::from_str("private")));
    push_typed(&mut es, "manually_added", "booleanValue", Json::Bool(false));
    let scoring = calculate_scoring(&memory.category, now.secs, false);
    push_typed(&mut es, "scoring", "stringValue", Json::Str(scoring));
    assert(m0 =~= Seq::<(Seq<char>, JsonModel)>::empty());
    assert(entries_model(es@) =~= memory_fields(*memory, conversation_id@, *now));
    tag("fields", object(es))
}

/// The path of the document that holds a memory with `content` for `uid`:
/// `users/{uid}/memories/{content id}`.
pub open spec fn memory_path_of(uid: Seq<char>, content: Seq<char>) -> Seq<char> {
    USERS_COLLECTION@ + seq!['/'] + uid + seq!['/'] + MEMORIES_SUBCOLLECTION@ + seq!['/'] + content_id(content)
}

/// The path of the document that holds a memory with `content` for `uid`.
pub fn memory_path(uid: &str, content: &str) -> (r: String)
    ensures
        r@ == memory_path_of(uid@, content@),
{
    let id = document_id_from_seed(content);
    let mut p = String::from_str(USERS_COLLECTION);
    proof {
        reveal_strlit("/");
    }
    p.append("/");
    p.append(uid);
    p.append("/");
    p.append(MEMORIES_SUBCOLLECTION);
    p.append("/");
    p.append(id.as_str());
    p
}

/// A document store: each path holds one document, a map of field names to
/// wire values.
pub open spec fn entries_map(es: Seq<(Seq<char>, JsonModel)>) -> Map<Seq<char>, JsonModel>
    decreases es.len(),
{
    if es.len() == 0 {
        Map::empty()
    } else {
        entries_map(es.drop_last()).insert(es.last().0, es.last().1)
    }
}

/// The fields that a write body `{"fields": {..}}` sets.
pub open spec fn patch_fields(body: JsonModel) -> Map<Seq<char>, JsonModel> {
    match member(body, "fields"@) {
        Some(JsonModel::Obj(es)) => entries_map(es),
        _ => Map::empty(),
    }
}

/// A merge write of `body` at `path`: the document there is created if
/// absent, and the fields the body lists replace those it had.
pub open spec fn upsert(
    store: Map<Seq<char>, Map<Seq<char>, JsonModel>>,
    path: Seq<char>,
    body: JsonModel,
) -> Map<Seq<char>, Map<Seq<char>, JsonModel>> {
    let before = if store.contains_key(path) {
        store[path]
    } else {
        Map::empty()
    };
    store.insert(path, before.union_prefer_right(patch_fields(body)))
}

/// Writing the same body twice at one path leaves the store as one write
/// does: one document there, with the body's field values.
pub proof fn law_upsert_idempotent(
    store: Map<Seq<char>, Map<Seq<char>, JsonModel>>,
    path: Seq<char>,
    body: JsonModel,
)
    ensures
        upsert(upsert(store, path, body), path, body) == upsert(store, path, body),
        upsert(store, path, body).dom() == store.dom().insert(path),
        forall|k: Seq<char>| #[trigger] patch_fields(body).contains_key(k) ==> upsert(store, path, body)[path][k]
            == patch_fields(body)[k],
{
    let once = upsert(store, path, body);
    let d = once[path];
    assert(d.union_prefer_right(patch_fields(body)) =~= d);
    assert(upsert(once, path, body) =~= once);
    assert(once.dom() =~= store.dom().insert(path));
}

/// Two writes at one path leave one document there, in which every field
/// the second write lists has the second write's value.
pub proof fn law_upsert_last_write_wins(
    store: Map<Seq<char>, Map<Seq<char>, JsonModel>>,
    path: Seq<char>,
    first: JsonModel,
    second: JsonModel,
)
    ensures
        upsert(upsert(store, path, first), path, second).dom() == store.dom().insert(path),
        forall|k: Seq<char>| #[trigger] patch_fields(second).contains_key(k) ==> upsert(
            upsert(store, path, first),
            path,
            second,
        )[path][k] == patch_fields(second)[k],
{
    let twice = upsert(upsert(store, path, first), path, second);
    assert(twice.dom() =~= store.dom().insert(path));
}

/// Memories with equal content for one user are written at one path,
/// whichever conversation they came from.
pub proof fn law_memory_path_by_content(uid: Seq<char>, a: Memory, b: Memory)
    requires
        a.content@ == b.content@,
    ensures
        memory_path_of(uid, a.content@) == memory_path_of(uid, b.content@),
{
}

} // verus!
