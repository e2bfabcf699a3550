use omi_store::fields::{parse_bool, parse_int, parse_string, parse_string_array, parse_timestamp, DecodeError};
use omi_store::json::Json;
use omi_store::records::{
    category_from_name, last_path_segment, memory_document, memory_path, parse_action_item, parse_memory, Memory,
};
use omi_store::scoring::MemoryCategory;
use omi_store::store::{parse_action_items, parse_memories};
use omi_store::time::{parse_timestamp_text, timestamp_text, Timestamp};

fn s(x: &str) -> Json {
    Json::Str(x.to_string())
}

fn obj(entries: Vec<(&str, Json)>) -> Json {
    Json::Obj(entries.into_iter().map(|(k, v)| (k.to_string(), v)).collect())
}

fn tv(tag: &str, v: Json) -> Json {
    obj(vec![(tag, v)])
}

fn now() -> Timestamp {
    Timestamp { secs: 1_700_000_000, nanos: 0 }
}

fn action_doc(fields: Json) -> Json {
    obj(vec![("name", s("projects/p/databases/(default)/documents/users/u/action_items/item-1")), ("fields", fields)])
}

#[test]
fn missing_updated_at_reads_as_none() {
    let doc = action_doc(obj(vec![
        ("description", tv("stringValue", s("Buy milk"))),
        ("completed", tv("booleanValue", Json::Bool(true))),
        ("created_at", tv("timestampValue", s("2024-01-01T00:00:00Z"))),
    ]));
    let item = parse_action_item(&doc, now()).unwrap();
    assert_eq!(item.id, "item-1");
    assert_eq!(item.description, "Buy milk");
    assert!(item.completed);
    assert_eq!(item.created_at, Timestamp { secs: 1704067200, nanos: 0 });
    assert_eq!(item.updated_at, None);
    assert_eq!(item.due_at, None);
    assert_eq!(item.conversation_id, None);
}

#[test]
fn action_item_defaults() {
    let item = parse_action_item(&action_doc(obj(vec![])), now()).unwrap();
    assert_eq!(item.description, "");
    assert!(!item.completed);
    assert_eq!(item.created_at, now());
    assert!(matches!(parse_action_item(&obj(vec![("name", s("x"))]), now()), Err(DecodeError::MissingFields)));
}

#[test]
fn missing_memory_timestamps_are_soft() {
    let only_created = obj(vec![
        ("content", tv("stringValue", s("Likes tea"))),
        ("created_at", tv("timestampValue", s("2024-01-01T00:00:00Z"))),
    ]);
    let doc = obj(vec![("name", s("a/b/m1")), ("fields", only_created)]);
    let m = parse_memory(&doc, now()).unwrap();
    assert_eq!(m.created_at, Timestamp { secs: 1704067200, nanos: 0 });
    assert_eq!(m.updated_at, m.created_at);
    let doc = obj(vec![("name", s("a/b/m1")), ("fields", obj(vec![("content", tv("stringValue", s("x")))]))]);
    let m = parse_memory(&doc, now()).unwrap();
    assert_eq!(m.created_at, now());
    assert_eq!(m.updated_at, now());
    assert_eq!(parse_memory(&obj(vec![]), now()).err(), Some(DecodeError::MissingFields));
}

fn copy(j: &Json) -> Json {
    match j {
        Json::Null => Json::Null,
        Json::Bool(b) => Json::Bool(*b),
        Json::Int(n) => Json::Int(*n),
        Json::Num(t) => Json::Num(t.clone()),
        Json::Str(t) => Json::Str(t.clone()),
        Json::Arr(xs) => Json::Arr(xs.iter().map(copy).collect()),
        Json::Obj(es) => Json::Obj(es.iter().map(|(k, v)| (k.clone(), copy(v))).collect()),
    }
}

fn memory_doc(name: &str, extra: Vec<(&str, Json)>) -> Json {
    let mut fields = vec![
        ("content", tv("stringValue", s("Likes tea"))),
        ("created_at", tv("timestampValue", s("2024-01-01T00:00:00Z"))),
        ("updated_at", tv("timestampValue", s("2024-01-02T00:00:00Z"))),
    ];
    fields.extend(extra);
    obj(vec![("name", s(name)), ("fields", obj(fields))])
}

#[test]
fn memory_fields_and_defaults() {
    let m = parse_memory(&memory_doc("users/u/memories/m1", vec![("category", tv("stringValue", s("weird")))]), now()).unwrap();
    assert_eq!(m.id, "m1");
    assert_eq!(m.uid, "");
    assert_eq!(m.content, "Likes tea");
    assert_eq!(m.category, MemoryCategory::Interesting);
    assert_eq!(m.visibility, "private");
    assert!(!m.reviewed);
    assert_eq!(m.user_review, None);
    assert_eq!(m.updated_at, Timestamp { secs: 1704153600, nanos: 0 });
    let m = parse_memory(&memory_doc("m2", vec![("category", tv("stringValue", s("system")))]), now()).unwrap();
    assert_eq!(m.category, MemoryCategory::System);
    assert_eq!(category_from_name("manual"), MemoryCategory::Manual);
}

#[test]
fn lists_drop_unreadable_and_rejected() {
    let answer = Json::Arr(vec![
        obj(vec![("document", memory_doc("m1", vec![]))]),
        obj(vec![("readTime", s("2024-01-01T00:00:00Z"))]),
        obj(vec![("document", obj(vec![("name", s("bad"))]))]),
        obj(vec![("document", memory_doc("m3", vec![("user_review", tv("booleanValue", Json::Bool(false)))]))]),
        obj(vec![("document", memory_doc("m4", vec![("user_review", tv("booleanValue", Json::Bool(true)))]))]),
    ]);
    let ms = parse_memories(&answer, now());
    assert_eq!(ms.iter().map(|m| m.id.clone()).collect::<Vec<_>>(), vec!["m1".to_string(), "m4".to_string()]);
    let items = parse_action_items(
        &Json::Arr(vec![obj(vec![("document", action_doc(obj(vec![])))]), obj(vec![("document", obj(vec![]))])]),
        now(),
    );
    assert_eq!(items.len(), 1);
}

#[test]
fn field_readers() {
    let f = obj(vec![
        ("n", tv("integerValue", s("42"))),
        ("big", tv("integerValue", s("4294967296"))),
        ("b", tv("booleanValue", Json::Bool(true))),
        ("t", tv("stringValue", s("x"))),
        ("tags", tv("arrayValue", obj(vec![("values", Json::Arr(vec![tv("stringValue", s("a")), tv("integerValue", s("1")), tv("stringValue", s("b"))]))]))),
        ("when", tv("timestampValue", s("not a time"))),
    ]);
    assert_eq!(parse_int(&f, "n"), Some(42));
    assert_eq!(parse_int(&f, "big"), None);
    assert_eq!(parse_bool(&f, "b"), Ok(true));
    assert_eq!(parse_bool(&f, "t"), Err(DecodeError::MissingField("t".to_string())));
    assert_eq!(parse_string(&f, "t"), Some("x".to_string()));
    assert_eq!(parse_string(&f, "b"), None);
    assert_eq!(parse_string_array(&f, "tags"), vec!["a".to_string(), "b".to_string()]);
    assert!(parse_string_array(&f, "none").is_empty());
    assert_eq!(parse_timestamp(&f, "when"), Err(DecodeError::MissingField("when".to_string())));
}

#[test]
fn document_ids_come_after_the_last_slash() {
    assert_eq!(last_path_segment("a/b/c"), "c");
    assert_eq!(last_path_segment("plain"), "plain");
    assert_eq!(last_path_segment("trailing/"), "");
    assert_eq!(last_path_segment(""), "");
}

#[test]
fn timestamps_read_and_written_in_rfc3339() {
    assert_eq!(parse_timestamp_text("2024-01-01T00:00:00Z"), Some(Timestamp { secs: 1704067200, nanos: 0 }));
    assert_eq!(parse_timestamp_text("2024-01-01T01:00:00+01:00"), Some(Timestamp { secs: 1704067200, nanos: 0 }));
    assert_eq!(parse_timestamp_text("yesterday"), None);
    assert_eq!(timestamp_text(&Timestamp { secs: 1704067200, nanos: 0 }), "2024-01-01T00:00:00+00:00");
}

fn fields_of(doc: &Json) -> &Vec<(String, Json)> {
    match doc {
        Json::Obj(es) => match &es[0].1 {
            Json::Obj(fs) => fs,
            _ => panic!("fields"),
        },
        _ => panic!("document"),
    }
}

fn merge(store: &mut Vec<(String, Vec<(String, Json)>)>, path: &str, body: &Json) {
    let patch = fields_of(body);
    let pos = store.iter().position(|(p, _)| p == path);
    let idx = match pos {
        Some(i) => i,
        None => {
            store.push((path.to_string(), vec![]));
            store.len() - 1
        }
    };
    for (k, v) in patch {
        let doc = &mut store[idx].1;
        match doc.iter().position(|(dk, _)| dk == k) {
            Some(j) => doc[j].1 = copy(v),
            None => doc.push((k.clone(), copy(v))),
        }
    }
}

#[test]
fn same_content_from_two_sessions_is_one_document() {
    let memory = Memory { content: "Buy milk".to_string(), category: MemoryCategory::Interesting };
    let first = memory_document(&memory, "session-1", &now());
    let second = memory_document(&memory, "session-2", &Timestamp { secs: 1_700_000_100, nanos: 0 });
    let path_one = memory_path("u", &memory.content);
    let path_two = memory_path("u", &memory.content);
    assert_eq!(path_one, path_two);
    let mut store: Vec<(String, Vec<(String, Json)>)> = Vec::new();
    merge(&mut store, &path_one, &first);
    merge(&mut store, &path_two, &second);
    assert_eq!(store.len(), 1);
    let doc = &store[0].1;
    let conv = doc.iter().find(|(k, _)| k == "conversation_id").map(|(_, v)| copy(v));
    assert_eq!(conv, Some(tv("stringValue", s("session-2"))));
    let content = doc.iter().find(|(k, _)| k == "content").map(|(_, v)| copy(v));
    assert_eq!(content, Some(tv("stringValue", s("Buy milk"))));
}

#[test]
fn upserting_the_same_body_twice_changes_nothing() {
    let memory = Memory { content: "Likes tea".to_string(), category: MemoryCategory::System };
    let body = memory_document(&memory, "c", &now());
    let path = memory_path("u", &memory.content);
    let mut once: Vec<(String, Vec<(String, Json)>)> = Vec::new();
    merge(&mut once, &path, &body);
    let mut twice: Vec<(String, Vec<(String, Json)>)> = Vec::new();
    merge(&mut twice, &path, &body);
    merge(&mut twice, &path, &body);
    assert_eq!(once, twice);
    assert_eq!(twice.len(), 1);
}

#[test]
fn memory_document_fields() {
    let memory = Memory { content: "Likes tea".to_string(), category: MemoryCategory::System };
    let body = memory_document(&memory, "conv-9", &Timestamp { secs: 1704067200, nanos: 0 });
    let fields = fields_of(&body);
    let keys: Vec<&str> = fields.iter().map(|(k, _)| k.as_str()).collect();
    assert_eq!(
        keys,
        vec!["content", "category", "created_at", "updated_at", "conversation_id", "reviewed", "visibility", "manually_added", "scoring"]
    );
    assert_eq!(fields[1].1, tv("stringValue", s("system")));
    assert_eq!(fields[2].1, tv("timestampValue", s("2024-01-01T00:00:00+00:00")));
    assert_eq!(fields[8].1, tv("stringValue", s("00_999_1704067200")));
}

#[test]
fn written_timestamps_read_back_to_the_same_instant() {
    for t in [Timestamp { secs: 0, nanos: 0 }, Timestamp { secs: 1704067200, nanos: 123_456_789 }, Timestamp { secs: -62135596800, nanos: 0 }] {
        assert_eq!(parse_timestamp_text(&timestamp_text(&t)), Some(t));
    }
}
