use omi_store::chat::{default_timezone, format_memories_context, MemorySummary};
use omi_store::config::{Config, ConfigWarning};
use omi_store::conversations::{
    contains_text, conversation_matches, default_statuses, matches_folded, parse_statuses, search_page_bounds,
};
use omi_store::email::{parse_email, EmailResponse};
use omi_store::json::Json;
use omi_store::time::Timestamp;
use omi_store::transcript::{
    decompress_transcript_segments, parse_transcript_segments, segments_from_records, transcript_blob,
    TranscriptBlob,
};

fn s(x: &str) -> Json {
    Json::Str(x.to_string())
}

fn obj(entries: Vec<(&str, Json)>) -> Json {
    Json::Obj(entries.into_iter().map(|(k, v)| (k.to_string(), v)).collect())
}

fn tv(tag: &str, v: Json) -> Json {
    obj(vec![(tag, v)])
}

const BLOB: &str = "eJyLrlYqSa0oUbJSUMpIzcnJV9JRUCouSE3MTi0CiQUHuDp6uwbFGxgiScRnpgDlDIECmcXxpcVglSVFpakgFSWJRSDDDPRMgbzUPJBCo1odhWpkQyuUwCIwe5MqU5VqYwERJSjY";

#[test]
fn legacy_blob_inflates_to_json_text() {
    let text = decompress_transcript_segments(BLOB).unwrap();
    assert!(text.starts_with("[{\"text\": \"hello\""));
    assert_eq!(decompress_transcript_segments("not base64!!"), None);
    assert_eq!(decompress_transcript_segments("aGVsbG8="), None);
}

#[test]
fn legacy_records_become_segments() {
    let records = Json::Arr(vec![
        obj(vec![
            ("text", s("hello")),
            ("speaker", s("SPEAKER_01")),
            ("speaker_id", Json::Int(1)),
            ("is_user", Json::Bool(true)),
            ("start", Json::Num("0.5".to_string())),
            ("end", Json::Int(2)),
        ]),
        obj(vec![("speaker", s("x"))]),
        obj(vec![("text", s("bye"))]),
    ]);
    let segs = segments_from_records(&records);
    assert_eq!(segs.len(), 2);
    assert_eq!(segs[0].text, "hello");
    assert_eq!(segs[0].speaker, "SPEAKER_01");
    assert_eq!(segs[0].speaker_id, 1);
    assert!(segs[0].is_user);
    assert_eq!(segs[0].start, "0.5");
    assert_eq!(segs[0].end, "2");
    assert_eq!(segs[1].speaker, "SPEAKER_00");
    assert_eq!(segs[1].start, "0");
    assert!(segments_from_records(&s("x")).is_empty());
}

#[test]
fn transcript_forms() {
    let encrypted = obj(vec![("transcript_segments", tv("stringValue", s("cipher")))]);
    assert_eq!(transcript_blob(&encrypted), TranscriptBlob::Encrypted);
    assert!(parse_transcript_segments(&encrypted, None).is_empty());
    let compressed = obj(vec![("transcript_segments", tv("bytesValue", s(BLOB)))]);
    assert_eq!(transcript_blob(&compressed), TranscriptBlob::Compressed(BLOB.to_string()));
    assert!(parse_transcript_segments(&compressed, None).is_empty());
    let decoded = Json::Arr(vec![obj(vec![("text", s("hi"))])]);
    assert_eq!(parse_transcript_segments(&compressed, Some(&decoded)).len(), 1);
    let plain = obj(vec![(
        "transcript_segments",
        tv(
            "arrayValue",
            obj(vec![(
                "values",
                Json::Arr(vec![
                    tv("mapValue", obj(vec![("fields", obj(vec![
                        ("text", tv("stringValue", s("one"))),
                        ("speaker_id", tv("integerValue", s("3"))),
                        ("start", tv("doubleValue", Json::Num("1.25".to_string()))),
                    ]))])),
                    tv("stringValue", s("skipped")),
                ]),
            )]),
        ),
    )]);
    assert_eq!(transcript_blob(&plain), TranscriptBlob::Plain);
    let segs = parse_transcript_segments(&plain, None);
    assert_eq!(segs.len(), 1);
    assert_eq!(segs[0].text, "one");
    assert_eq!(segs[0].speaker_id, 3);
    assert_eq!(segs[0].start, "1.25");
    assert_eq!(segs[0].end, "0");
    assert!(parse_transcript_segments(&obj(vec![]), None).is_empty());
}

#[test]
fn status_lists_split_and_trim() {
    assert_eq!(parse_statuses("processing, completed"), vec!["processing".to_string(), "completed".to_string()]);
    assert!(parse_statuses("").is_empty());
    assert_eq!(parse_statuses("a,,b"), vec!["a".to_string(), "".to_string(), "b".to_string()]);
    assert_eq!(default_statuses(), "processing,completed");
}

#[test]
fn search_matching_ignores_case() {
    assert!(conversation_matches("MILK", "Buy milk", ""));
    assert!(conversation_matches("plan", "x", "The Plan for today"));
    assert!(!conversation_matches("tea", "Buy milk", "coffee"));
    assert!(matches_folded("", "a", "b"));
    assert!(contains_text("abcabd", "abd"));
    assert!(!contains_text("ab", "abc"));
}

#[test]
fn search_page_arithmetic() {
    assert_eq!(search_page_bounds(25, 1, 10), (3, 0));
    assert_eq!(search_page_bounds(25, 3, 10), (3, 20));
    assert_eq!(search_page_bounds(0, 0, 10), (0, 0));
    assert_eq!(search_page_bounds(5, 2, 0), (4, 0));
}

#[test]
fn memories_context_block() {
    assert_eq!(format_memories_context(&[]), "");
    let ms = vec![
        MemorySummary { id: "1".to_string(), content: "Likes tea".to_string(), category: "interesting".to_string() },
        MemorySummary { id: "2".to_string(), content: "Lives in Oslo".to_string(), category: "system".to_string() },
    ];
    assert_eq!(
        format_memories_context(&ms),
        "<user_facts>\nFacts about the user:\n- Likes tea\n- Lives in Oslo\n</user_facts>"
    );
    let many: Vec<MemorySummary> = (0..40)
        .map(|i| MemorySummary { id: i.to_string(), content: format!("f{}", i), category: String::new() })
        .collect();
    let block = format_memories_context(&many);
    assert_eq!(block.matches("\n- ").count(), 30);
    assert!(block.contains("- f29\n"));
    assert!(!block.contains("- f30"));
    assert_eq!(default_timezone(), "UTC");
}

#[test]
fn email_document_defaults() {
    let doc = obj(vec![
        ("name", s("emails/e1")),
        ("fields", obj(vec![
            ("from", tv("stringValue", s("a@b.c"))),
            ("to", tv("arrayValue", obj(vec![("values", Json::Arr(vec![tv("stringValue", s("me@x.y"))]))]))),
            ("attachments", tv("arrayValue", obj(vec![("values", Json::Arr(vec![tv("mapValue", obj(vec![("fields", obj(vec![("size", tv("integerValue", s("12")))]))]))]))]))),
            ("received_at", tv("timestampValue", s("2024-01-01T00:00:00Z"))),
        ])),
    ]);
    let now = Timestamp { secs: 1, nanos: 0 };
    let e = parse_email(&doc, now).unwrap();
    assert_eq!(e.id, "e1");
    assert_eq!(e.from_email, "a@b.c");
    assert_eq!(e.to, vec!["me@x.y".to_string()]);
    assert_eq!(e.subject, "(no subject)");
    assert_eq!(e.attachments.len(), 1);
    assert_eq!(e.attachments[0].filename, "attachment");
    assert_eq!(e.attachments[0].content_type, "application/octet-stream");
    assert_eq!(e.attachments[0].size, 12);
    assert!(!e.read);
    let r = EmailResponse::from_stored(e);
    assert_eq!(r.received_at, "2024-01-01T00:00:00+00:00");
    let bare = parse_email(&obj(vec![("fields", obj(vec![]))]), now).unwrap();
    assert_eq!(bare.received_at, now);
    assert!(parse_email(&obj(vec![]), now).is_err());
}

#[test]
fn configuration_checks() {
    let c = Config {
        port: 8080,
        gemini_api_key: None,
        google_application_credentials: Some("creds.json".to_string()),
        firebase_project_id: None,
        firebase_api_key: None,
        base_api_url: None,
        apple_client_id: None,
        apple_team_id: None,
        apple_key_id: None,
        apple_private_key: None,
        google_client_id: None,
        google_client_secret: None,
    };
    assert_eq!(c.validate(), Ok(()));
    assert_eq!(c.warnings(), vec![ConfigWarning::NoModelKey]);
    assert_eq!(Config::port_from(Some("3000")), 3000);
    assert_eq!(Config::port_from(Some("70000")), 8080);
    assert_eq!(Config::port_from(Some("-1")), 8080);
    assert_eq!(Config::port_from(None), 8080);
}
