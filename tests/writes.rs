use omi_store::store::{email_filters, emails_query, parse_emails};
use omi_store::email::{
    email_document, inbound_email, EmailAttachment, InboundEmailDB, ResendAttachment, ResendEmailData,
    ResendWebhookPayload, WebhookOutcome,
};
use omi_store::json::Json;
use omi_store::message::{ChatSession, Message, MessageSender, MessageType};
use omi_store::time::Timestamp;
use omi_store::writes::{
    action_item_create_document, action_item_update, email_read_update, extracted_action_item_document,
    manual_memory_document, memory_content_update, memory_review_update, memory_visibility_update, update_mask,
};

fn s(x: &str) -> Json {
    Json::Str(x.to_string())
}

fn obj(entries: Vec<(&str, Json)>) -> Json {
    Json::Obj(entries.into_iter().map(|(k, v)| (k.to_string(), v)).collect())
}

fn tv(tag: &str, v: Json) -> Json {
    obj(vec![(tag, v)])
}

const T0: Timestamp = Timestamp { secs: 1704067200, nanos: 0 };
const T0_TEXT: &str = "2024-01-01T00:00:00+00:00";

#[test]
fn created_action_item_body() {
    let body = action_item_create_document("Buy milk", None, Some("manual"), None, None, &T0);
    let expected = tv(
        "fields",
        obj(vec![
            ("description", tv("stringValue", s("Buy milk"))),
            ("completed", tv("booleanValue", Json::Bool(false))),
            ("created_at", tv("timestampValue", s(T0_TEXT))),
            ("source", tv("stringValue", s("manual"))),
        ]),
    );
    assert_eq!(body, expected);
}

#[test]
fn extracted_action_item_body() {
    let body = extracted_action_item_document("Call mom", false, "conv-1", Some(T0), &T0);
    let expected = tv(
        "fields",
        obj(vec![
            ("description", tv("stringValue", s("Call mom"))),
            ("completed", tv("booleanValue", Json::Bool(false))),
            ("conversation_id", tv("stringValue", s("conv-1"))),
            ("created_at", tv("timestampValue", s(T0_TEXT))),
            ("due_at", tv("timestampValue", s(T0_TEXT))),
        ]),
    );
    assert_eq!(body, expected);
}

#[test]
fn completing_an_item_sets_its_completion_time() {
    let (paths, body) = action_item_update(Some(true), Some("new text"), None, &T0);
    assert_eq!(paths, vec!["updated_at", "completed", "completed_at", "description"]);
    let expected = tv(
        "fields",
        obj(vec![
            ("updated_at", tv("timestampValue", s(T0_TEXT))),
            ("completed", tv("booleanValue", Json::Bool(true))),
            ("completed_at", tv("timestampValue", s(T0_TEXT))),
            ("description", tv("stringValue", s("new text"))),
        ]),
    );
    assert_eq!(body, expected);
    let (paths, _) = action_item_update(Some(false), None, Some(T0), &T0);
    assert_eq!(paths, vec!["updated_at", "completed", "due_at"]);
    let (paths, _) = action_item_update(None, None, None, &T0);
    assert_eq!(paths, vec!["updated_at"]);
}

#[test]
fn update_mask_query_text() {
    let paths = vec!["updated_at".to_string(), "completed".to_string()];
    assert_eq!(update_mask(&paths), "updateMask.fieldPaths=updated_at&updateMask.fieldPaths=completed");
    assert_eq!(update_mask(&vec![]), "");
}

fn payload(event: &str, email_id: Option<&str>, subject: &str) -> ResendWebhookPayload {
    ResendWebhookPayload {
        event_type: event.to_string(),
        created_at: "2024-01-01T00:00:00Z".to_string(),
        data: ResendEmailData {
            email_id: email_id.map(|x| x.to_string()),
            id: Some("fallback-from-data".to_string()),
            from: "a@b.c".to_string(),
            to: vec!["me@x.y".to_string()],
            subject: subject.to_string(),
            text: Some("hi".to_string()),
            html: None,
            attachments: vec![
                ResendAttachment { filename: String::new(), content_type: "text/plain".to_string(), content: Some("aGk=".to_string()) },
                ResendAttachment { filename: "a.pdf".to_string(), content_type: String::new(), content: None },
            ],
        },
    }
}

#[test]
fn other_webhook_events_are_ignored() {
    match inbound_email(payload("email.sent", None, "x"), "gen".to_string(), T0) {
        WebhookOutcome::Ignored(w) => {
            assert_eq!(w.status, "ignored");
            assert_eq!(w.email_id, None);
            assert_eq!(w.event_type, Some("email.sent".to_string()));
        }
        WebhookOutcome::Store(_) => panic!("stored an ignored event"),
    }
}

#[test]
fn received_email_is_stored_with_defaults() {
    match inbound_email(payload("email.received", None, ""), "gen".to_string(), T0) {
        WebhookOutcome::Store(e) => {
            assert_eq!(e.id, "fallback-from-data");
            assert_eq!(e.subject, "(no subject)");
            assert_eq!(e.received_at, T0);
            assert!(!e.read);
            assert_eq!(e.attachments.len(), 2);
            assert_eq!(e.attachments[0].filename, "attachment");
            assert_eq!(e.attachments[0].size, 4);
            assert_eq!(e.attachments[1].content_type, "application/octet-stream");
            assert_eq!(e.attachments[1].size, 0);
        }
        WebhookOutcome::Ignored(_) => panic!("ignored a received email"),
    }
    match inbound_email(payload("email.received", Some("eid"), "Hello"), "gen".to_string(), T0) {
        WebhookOutcome::Store(e) => {
            assert_eq!(e.id, "eid");
            assert_eq!(e.subject, "Hello");
        }
        WebhookOutcome::Ignored(_) => panic!("ignored a received email"),
    }
}

#[test]
fn email_document_body() {
    let e = InboundEmailDB {
        id: "e1".to_string(),
        from_email: "a@b.c".to_string(),
        to: vec!["me@x.y".to_string()],
        subject: "S".to_string(),
        text: None,
        html: Some("<p>x</p>".to_string()),
        attachments: vec![EmailAttachment { filename: "f".to_string(), content_type: "t".to_string(), size: 7 }],
        received_at: T0,
        read: true,
    };
    let expected = tv(
        "fields",
        obj(vec![
            ("from", tv("stringValue", s("a@b.c"))),
            ("to", tv("arrayValue", obj(vec![("values", Json::Arr(vec![tv("stringValue", s("me@x.y"))]))]))),
            ("subject", tv("stringValue", s("S"))),
            ("received_at", tv("timestampValue", s(T0_TEXT))),
            ("read", tv("booleanValue", Json::Bool(true))),
            (
                "attachments",
                tv(
                    "arrayValue",
                    obj(vec![(
                        "values",
                        Json::Arr(vec![tv(
                            "mapValue",
                            obj(vec![(
                                "fields",
                                obj(vec![
                                    ("filename", tv("stringValue", s("f"))),
                                    ("content_type", tv("stringValue", s("t"))),
                                    ("size", tv("integerValue", s("7"))),
                                ]),
                            )]),
                        )]),
                    )]),
                ),
            ),
            ("html", tv("stringValue", s("<p>x</p>"))),
        ]),
    );
    assert_eq!(email_document(&e), expected);
}

#[test]
fn message_constructors() {
    let m = Message::human("m1".to_string(), "hello".to_string(), None, Some("s1".to_string()), T0);
    assert_eq!(m.sender, MessageSender::Human);
    assert_eq!(m.message_type, MessageType::Text);
    assert!(m.memories_id.is_empty());
    let a = Message::ai("m2".to_string(), "hi".to_string(), Some("app".to_string()), None, vec!["x".to_string()], T0);
    assert_eq!(a.sender, MessageSender::Ai);
    assert_eq!(a.memories_id, vec!["x".to_string()]);
    let c = ChatSession::new("c1".to_string(), None, T0);
    assert_eq!(c.id, "c1");
    assert!(c.message_ids.is_empty());
    assert_eq!(MessageSender::default(), MessageSender::Human);
    assert_eq!(MessageType::default(), MessageType::Text);
}

#[test]
fn email_listing_queries_and_answers() {
    let q = emails_query(20, 40);
    assert_eq!(q.collection, "emails");
    assert_eq!(q.order_by[0].field, "received_at");
    assert_eq!(q.limit, Some(20));
    assert_eq!(q.offset, Some(40));
    assert!(email_filters(false).is_empty());
    let unread = email_filters(true);
    assert_eq!(unread.len(), 1);
    assert_eq!(unread[0].field, "read");
    let answer = Json::Arr(vec![
        obj(vec![("document", obj(vec![("name", s("emails/e1")), ("fields", obj(vec![("subject", tv("stringValue", s("S")))]))]))]),
        obj(vec![("readTime", s("x"))]),
        obj(vec![("document", obj(vec![("name", s("emails/e2"))]))]),
    ]);
    let emails = parse_emails(&answer, T0);
    assert_eq!(emails.len(), 1);
    assert_eq!(emails[0].id, "e1");
    assert_eq!(emails[0].subject, "S");
}

#[test]
fn memory_updates_name_exactly_their_fields() {
    let (paths, body) = memory_content_update("new", &T0);
    assert_eq!(paths, vec!["content", "updated_at"]);
    assert_eq!(
        body,
        tv("fields", obj(vec![("content", tv("stringValue", s("new"))), ("updated_at", tv("timestampValue", s(T0_TEXT)))]))
    );
    let (paths, _) = memory_visibility_update("public", &T0);
    assert_eq!(paths, vec!["visibility", "updated_at"]);
    let (paths, body) = memory_review_update(false, &T0);
    assert_eq!(paths, vec!["reviewed", "user_review", "updated_at"]);
    assert_eq!(
        body,
        tv(
            "fields",
            obj(vec![
                ("reviewed", tv("booleanValue", Json::Bool(true))),
                ("user_review", tv("booleanValue", Json::Bool(false))),
                ("updated_at", tv("timestampValue", s(T0_TEXT))),
            ])
        )
    );
}

#[test]
fn manual_memory_body() {
    let body = manual_memory_document("Likes tea", "private", &T0);
    match &body {
        Json::Obj(top) => match &top[0].1 {
            Json::Obj(fields) => {
                assert_eq!(fields.len(), 9);
                assert_eq!(fields[1].1, tv("stringValue", s("manual")));
                assert_eq!(fields[7].1, tv("booleanValue", Json::Bool(true)));
                assert_eq!(fields[8].1, tv("stringValue", s("01_998_1704067200")));
            }
            _ => panic!("fields"),
        },
        _ => panic!("body"),
    }
}

#[test]
fn marking_an_email_writes_only_its_flag() {
    let (paths, body) = email_read_update(false);
    assert_eq!(paths, vec!["read"]);
    assert_eq!(body, tv("fields", obj(vec![("read", tv("booleanValue", Json::Bool(false)))])));
}
