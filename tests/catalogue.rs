use omi_store::advice::{advice_document, advice_query, parse_advice, AdviceCategory};
use omi_store::apps::{apps_query, document_ids, enabled_apps_query, parse_app_summary, rank_apps, AppSummary};
use omi_store::conversation::{apps_results_update, conversation_document, merge_app_result, parse_conversation, AppResult};
use omi_store::fields::DecodeError;
use omi_store::focus::{focus_day, focus_sessions_query, parse_focus_session, FocusStatus};
use omi_store::json::Json;
use omi_store::query::FieldOp;
use omi_store::store::result_documents;
use omi_store::time::Timestamp;
use omi_store::value::TypedValue;

fn s(x: &str) -> Json {
    Json::Str(x.to_string())
}

fn obj(entries: Vec<(&str, Json)>) -> Json {
    Json::Obj(entries.into_iter().map(|(k, v)| (k.to_string(), v)).collect())
}

fn tv(tag: &str, v: Json) -> Json {
    obj(vec![(tag, v)])
}

const NOW: Timestamp = Timestamp { secs: 1_700_000_000, nanos: 0 };

fn app(id: &str, installs: i32, caps: &[&str]) -> AppSummary {
    AppSummary {
        id: id.to_string(),
        name: id.to_string(),
        description: String::new(),
        image: String::new(),
        category: "other".to_string(),
        author: String::new(),
        capabilities: caps.iter().map(|c| c.to_string()).collect(),
        approved: true,
        private: false,
        installs,
        rating_avg: None,
        rating_count: 0,
        is_paid: false,
        price: None,
        enabled: false,
    }
}

#[test]
fn catalogue_query_filters() {
    let q = apps_query(Some("productivity"));
    assert_eq!(q.collection, "plugins_data");
    assert_eq!(q.filters.len(), 2);
    assert_eq!(q.filters[0].field, "approved");
    assert_eq!(q.filters[0].value, TypedValue::Bool(true));
    assert_eq!(q.filters[1].value, TypedValue::Str("productivity".to_string()));
    assert!(q.order_by.is_empty());
    assert_eq!(q.limit, None);
    assert_eq!(apps_query(None).filters.len(), 1);
    assert_eq!(enabled_apps_query().limit, Some(500));
}

#[test]
fn apps_ranked_by_installs_stably_and_paged() {
    let apps = vec![app("a", 5, &["chat"]), app("b", 9, &["memories"]), app("c", 5, &["chat"]), app("d", 7, &["chat"])];
    let ranked = rank_apps(apps, &vec!["c".to_string()], Some("chat"), 0, 10);
    let ids: Vec<&str> = ranked.iter().map(|a| a.id.as_str()).collect();
    assert_eq!(ids, vec!["d", "a", "c"]);
    assert!(ranked[2].enabled);
    assert!(!ranked[1].enabled);
    let apps = vec![app("a", 1, &[]), app("b", 3, &[]), app("c", 2, &[])];
    let page = rank_apps(apps, &vec![], None, 1, 1);
    assert_eq!(page.len(), 1);
    assert_eq!(page[0].id, "c");
    let apps = vec![app("a", 1, &[])];
    assert!(rank_apps(apps, &vec![], None, 5, 3).is_empty());
}

#[test]
fn app_summary_defaults() {
    let doc = obj(vec![
        ("name", s("plugins_data/app-1")),
        ("fields", obj(vec![
            ("installs", tv("integerValue", s("12"))),
            ("rating_avg", tv("doubleValue", Json::Num("4.5".to_string()))),
            ("capabilities", tv("arrayValue", obj(vec![("values", Json::Arr(vec![tv("stringValue", s("chat"))]))]))),
        ])),
    ]);
    let a = parse_app_summary(&doc).unwrap();
    assert_eq!(a.id, "app-1");
    assert_eq!(a.category, "other");
    assert_eq!(a.installs, 12);
    assert_eq!(a.rating_avg, Some("4.5".to_string()));
    assert_eq!(a.capabilities, vec!["chat".to_string()]);
    assert!(!a.enabled);
    assert!(matches!(parse_app_summary(&obj(vec![])), Err(DecodeError::MissingFields)));
}

#[test]
fn answer_documents_and_ids() {
    let answer = Json::Arr(vec![
        obj(vec![("document", obj(vec![("name", s("users/u/enabled_plugins/x"))]))]),
        obj(vec![("readTime", s("t"))]),
        obj(vec![("document", obj(vec![("fields", obj(vec![]))]))]),
        obj(vec![("document", obj(vec![("name", s("users/u/enabled_plugins/y"))]))]),
    ]);
    assert_eq!(result_documents(&answer).len(), 3);
    assert_eq!(document_ids(&answer), vec!["x".to_string(), "y".to_string()]);
}

#[test]
fn focus_day_bounds_and_query() {
    let (a, b) = focus_day("2024-01-01").unwrap();
    assert_eq!(a, Timestamp { secs: 1704067200, nanos: 0 });
    assert_eq!(b, Timestamp { secs: 1704067200 + 86399, nanos: 0 });
    assert_eq!(focus_day("01/01/2024"), None);
    let q = focus_sessions_query(10, 0, Some((a, b)));
    assert_eq!(q.filters.len(), 2);
    assert_eq!(q.filters[0].op, FieldOp::GreaterThanOrEqual);
    assert_eq!(q.filters[0].value, TypedValue::Timestamp("2024-01-01T00:00:00+00:00".to_string()));
    assert_eq!(q.filters[1].op, FieldOp::LessThanOrEqual);
    assert_eq!(q.filters[1].value, TypedValue::Timestamp("2024-01-01T23:59:59+00:00".to_string()));
    assert_eq!(q.order_by[0].field, "created_at");
    assert!(focus_sessions_query(10, 0, None).filters.is_empty());
}

#[test]
fn focus_session_reading() {
    let doc = obj(vec![
        ("name", s("users/u/focus_sessions/f1")),
        ("fields", obj(vec![("status", tv("stringValue", s("focused"))), ("duration_seconds", tv("integerValue", s("90")))])),
    ]);
    let f = parse_focus_session(&doc, NOW).unwrap();
    assert_eq!(f.id, "f1");
    assert_eq!(f.status, FocusStatus::Focused);
    assert_eq!(f.duration_seconds, Some(90));
    assert_eq!(f.created_at, NOW);
    let other = obj(vec![("name", s("f2")), ("fields", obj(vec![("status", tv("stringValue", s("elsewhere")))]))]);
    assert_eq!(parse_focus_session(&other, NOW).unwrap().status, FocusStatus::Distracted);
    assert!(matches!(parse_focus_session(&obj(vec![("fields", obj(vec![]))]), NOW), Err(DecodeError::MissingField(_))));
    assert!(matches!(parse_focus_session(&obj(vec![("name", s("x"))]), NOW), Err(DecodeError::MissingFields)));
}

#[test]
fn advice_reading_and_writing() {
    let doc = obj(vec![
        ("name", s("users/u/advice/a1")),
        ("fields", obj(vec![("content", tv("stringValue", s("Take a break"))), ("category", tv("stringValue", s("sleep")))])),
    ]);
    let a = parse_advice(&doc, NOW).unwrap();
    assert_eq!(a.id, "a1");
    assert_eq!(a.category, AdviceCategory::Other);
    assert_eq!(a.confidence, "0.5");
    assert!(!a.is_dismissed);
    let body = advice_document("Stretch", Some(AdviceCategory::Health), None, Some("Safari"), None, None, None, &NOW);
    let expected = tv(
        "fields",
        obj(vec![
            ("content", tv("stringValue", s("Stretch"))),
            ("category", tv("stringValue", s("health"))),
            ("confidence", tv("doubleValue", Json::Num("0.5".to_string()))),
            ("is_read", tv("booleanValue", Json::Bool(false))),
            ("is_dismissed", tv("booleanValue", Json::Bool(false))),
            ("created_at", tv("timestampValue", s("2023-11-14T22:13:20+00:00"))),
            ("source_app", tv("stringValue", s("Safari"))),
        ]),
    );
    assert_eq!(body, expected);
    let q = advice_query(20, 0, Some("health"), false);
    assert_eq!(q.filters.len(), 2);
    assert_eq!(q.filters[0].field, "is_dismissed");
    assert_eq!(q.filters[1].field, "category");
    assert!(advice_query(20, 0, None, true).filters.is_empty());
}

#[test]
fn app_results_replace_the_same_app() {
    let current = vec![
        AppResult { app_id: Some("x".to_string()), content: "old".to_string() },
        AppResult { app_id: None, content: "anon".to_string() },
        AppResult { app_id: Some("y".to_string()), content: "y1".to_string() },
    ];
    let merged = merge_app_result(current, "x", "new");
    let got: Vec<(Option<String>, String)> = merged.iter().map(|r| (r.app_id.clone(), r.content.clone())).collect();
    assert_eq!(
        got,
        vec![(None, "anon".to_string()), (Some("y".to_string()), "y1".to_string()), (Some("x".to_string()), "new".to_string())]
    );
    let (paths, body) = apps_results_update(&merged[..1].iter().map(|r| AppResult { app_id: r.app_id.clone(), content: r.content.clone() }).collect());
    assert_eq!(paths, vec!["apps_results"]);
    let expected = tv(
        "fields",
        obj(vec![(
            "apps_results",
            tv("arrayValue", obj(vec![("values", Json::Arr(vec![tv("mapValue", obj(vec![("fields", obj(vec![
                ("app_id", tv("stringValue", s(""))),
                ("content", tv("stringValue", s("anon"))),
            ]))]))]))])),
        )]),
    );
    assert_eq!(body, expected);
}

#[test]
fn conversation_reads_back_what_it_writes() {
    let doc = obj(vec![
        ("name", s("users/u/conversations/c1")),
        ("fields", obj(vec![
            ("created_at", tv("timestampValue", s("2024-01-01T00:00:00Z"))),
            ("status", tv("stringValue", s("completed"))),
            ("structured", tv("mapValue", obj(vec![("fields", obj(vec![("title", tv("stringValue", s("Shopping")))]))]))),
            ("apps_results", tv("arrayValue", obj(vec![("values", Json::Arr(vec![tv("mapValue", obj(vec![("fields", obj(vec![("app_id", tv("stringValue", s("x"))), ("content", tv("stringValue", s("r")))]))]))]))]))),
            ("transcript_segments", tv("arrayValue", obj(vec![("values", Json::Arr(vec![tv("mapValue", obj(vec![("fields", obj(vec![("text", tv("stringValue", s("hi")))]))]))]))]))),
        ])),
    ]);
    let c = parse_conversation(&doc, NOW, None).unwrap();
    assert_eq!(c.id, "c1");
    assert_eq!(c.started_at, c.created_at);
    assert_eq!(c.status, Some("completed".to_string()));
    assert_eq!(c.source, None);
    assert_eq!(c.structured.title, "Shopping");
    assert_eq!(c.structured.category, "other");
    assert_eq!(c.apps_results.len(), 1);
    assert_eq!(c.transcript_segments.len(), 1);
    let written = conversation_document(&c);
    let again = parse_conversation(&obj(vec![("name", s("c1")), ("fields", match written { Json::Obj(mut es) => es.remove(0).1, _ => panic!() })]), NOW, None).unwrap();
    assert_eq!(again.created_at, c.created_at);
    assert_eq!(again.status, c.status);
    assert_eq!(again.structured.title, "Shopping");
    assert_eq!(again.transcript_segments[0].text, "hi");
    assert_eq!(again.transcript_segments[0].start, "0");
    assert!(matches!(parse_conversation(&obj(vec![]), NOW, None), Err(DecodeError::MissingFields)));
}
