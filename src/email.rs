//! Shapes of the email endpoints' requests and answers.
use vstd::prelude::*;
use crate::json::{Json, JsonModel, member};
use crate::fields::{
    DecodeError, opt_text, string_field, bool_field, tagged_field, timestamp_field, string_items,
    parse_string, parse_bool, parse_string_array, parse_timestamp_optional,
};
use crate::decimal::{parse_i64, parse_i64_text};
use crate::query::opt_member;
use crate::records::{last_segment, name_text, text_or};
use crate::time::{Timestamp, rfc3339_text, timestamp_text};
use crate::value::{TypedValue, ValueModel, encode, encode_model, tag, tagged};
use crate::json::{entries_model, object, push_member};
use crate::writes::{time_entry, opt_text_entry};

verus! {

/// Metadata of an email attachment.
pub struct EmailAttachment {
    pub filename: String,
    pub content_type: String,
    pub size: i64,
}

/// One email as answered to a client.
pub struct EmailResponse {
    pub id: String,
    pub from_email: String,
    pub to: Vec<String>,
    pub subject: String,
    pub text: Option<String>,
    pub html: Option<String>,
    pub received_at: String,
    pub read: bool,
}

/// A page of emails with the mailbox's totals.
pub struct EmailListResponse {
    pub emails: Vec<EmailResponse>,
    pub total: i64,
    pub unread: i64,
}

/// An inbound-mail webhook call.
pub struct ResendWebhookPayload {
    pub event_type: String,
    pub created_at: String,
    pub data: ResendEmailData,
}

/// The email an inbound-mail webhook carries.
pub struct ResendEmailData {
    pub email_id: Option<String>,
    pub id: Option<String>,
    pub from: String,
    pub to: Vec<String>,
    pub subject: String,
    pub text: Option<String>,
    pub html: Option<String>,
    pub attachments: Vec<ResendAttachment>,
}

/// An attachment of an inbound email.
pub struct ResendAttachment {
    pub filename: String,
    pub content_type: String,
    pub content: Option<String>,
}

/// The acknowledgement of a webhook call.
pub struct WebhookResponse {
    pub status: String,
    pub email_id: Option<String>,
    pub event_type: Option<String>,
}

/// The outcome of a change to one email.
pub struct EmailStatusResponse {
    pub status: String,
    pub read: Option<bool>,
    pub deleted: Option<String>,
}

/// Paging of an email listing.
pub struct GetEmailsQuery {
    pub limit: usize,
    pub offset: usize,
}

/// Marks an email read or unread.
pub struct MarkReadRequest {
    pub read: bool,
}

/// The page size of an email listing that names none.
pub fn default_limit() -> (r: usize)
    ensures
        r == 50,
{
    50
}

/// A mark request that says nothing marks the email read.
pub fn default_read() -> (r: bool)
    ensures
        r,
{
    true
}

/// An inbound email as stored.
pub struct InboundEmailDB {
    pub id: String,
    pub from_email: String,
    pub to: Vec<String>,
    pub subject: String,
    pub text: Option<String>,
    pub html: Option<String>,
    pub attachments: Vec<EmailAttachment>,
    pub received_at: Timestamp,
    pub read: bool,
}

/// The content of an attachment's metadata.
pub struct AttachmentModel {
    pub filename: Seq<char>,
    pub content_type: Seq<char>,
    pub size: i64,
}

impl EmailAttachment {
    pub open spec fn model(self) -> AttachmentModel {
        AttachmentModel { filename: self.filename@, content_type: self.content_type@, size: self.size }
    }
}

/// The attachment a map item stands for; items that are not maps are
/// skipped, and absent parts take their defaults.
pub open spec fn attachment_of(item: JsonModel) -> Option<AttachmentModel> {
    match opt_member(member(item, "mapValue"@), "fields"@) {
        Some(f) => Some(
            AttachmentModel {
                filename: text_or(string_field(f, "filename"@), "attachment"@),
                content_type: text_or(string_field(f, "content_type"@), "application/octet-stream"@),
                size: match tagged_field(f, "size"@, "integerValue"@) {
                    Some(JsonModel::Str(t)) => match parse_i64_text(t) {
                        Some(n) => n,
                        None => 0,
                    },
                    _ => 0,
                },
            },
        ),
        None => None,
    }
}

/// The attachments among the items `xs`, in order.
pub open spec fn attachments_among(xs: Seq<JsonModel>) -> Seq<AttachmentModel>
    decreases xs.len(),
{
    if xs.len() == 0 {
        Seq::empty()
    } else {
        let rest = attachments_among(xs.drop_last());
        match attachment_of(xs.last()) {
            Some(a) => rest.push(a),
            None => rest,
        }
    }
}

/// The attachments of the `attachments` array of `f`.
pub open spec fn attachments_field(f: JsonModel) -> Seq<AttachmentModel> {
    match opt_member(tagged_field(f, "attachments"@, "arrayValue"@), "values"@) {
        Some(JsonModel::Arr(xs)) => attachments_among(xs),
        _ => Seq::empty(),
    }
}

fn attachment_from(item: &Json) -> (r: Option<EmailAttachment>)
    ensures
        match attachment_of(item@) {
            Some(a) => r is Some && r->0.model() == a,
            None => r is None,
        },
{
    let f = match item.get("mapValue") {
        Some(m) => match m.get("fields") {
            Some(f) => f,
            None => return None,
        },
        None => return None,
    };
    let filename = match parse_string(f, "filename") {
        Some(s) => s,
        None => String::from_str("attachment"),
    };
    let content_type = match parse_string(f, "content_type") {
        Some(s) => s,
        None => String::from_str("application/octet-stream"),
    };
    let size: i64 = match f.get("size") {
        Some(v) => match v.get("integerValue") {
            Some(t) => match t.as_str() {
                Some(x) => match parse_i64(x) {
                    Some(n) => n,
                    None => 0,
                },
                None => 0,
            },
            None => 0,
        },
        None => 0,
    };
    Some(EmailAttachment { filename, content_type, size })
}

fn parse_attachments(f: &Json) -> (r: Vec<EmailAttachment>)
    ensures
        r@.map_values(|a: EmailAttachment| a.model()) == attachments_field(f@),
{
    let empty: Vec<EmailAttachment> = Vec::new();
    assert(empty@.map_values(|a: EmailAttachment| a.model()) =~= Seq::<AttachmentModel>::empty());
    let v = match f.get("attachments") {
        Some(t) => match t.get("arrayValue") {
            Some(a) => match a.get("values") {
                Some(v) => v,
                None => return empty,
            },
            None => return empty,
        },
        None => return empty,
    };
    let xs = if let Json::Arr(xs) = v {
        xs
    } else {
        return empty;
    };
    let ghost xm = Seq::new(xs@.len(), |i: int| xs@[i]@);
    assert(v@->Arr_0 =~= xm);
    let mut out: Vec<EmailAttachment> = Vec::new();
    let mut i: usize = 0;
    assert(xm.subrange(0, 0) =~= Seq::<JsonModel>::empty());
    assert(out@.map_values(|a: EmailAttachment| a.model()) =~= Seq::<AttachmentModel>::empty());
    while i < xs.len()
        invariant
            i <= xs@.len(),
            xm == Seq::new(xs@.len(), |i: int| xs@[i]@),
            out@.map_values(|a: EmailAttachment| a.model()) == attachments_among(xm.subrange(0, i as int)),
        decreases xs@.len() - i,
    {
        proof {
            assert(xm.subrange(0, i + 1).drop_last() =~= xm.subrange(0, i as int));
            assert(xm.subrange(0, i + 1).last() == xs@[i as int]@);
        }
        let ghost before = out@.map_values(|a: EmailAttachment| a.model());
        match attachment_from(&xs[i]) {
            Some(a) => {
                let ghost m = a.model();
                out.push(a);
                assert(out@.map_values(|a: EmailAttachment| a.model()) =~= before.push(m));
            },
            None => {},
        }
        i += 1;
    }
    assert(xm.subrange(0, xs@.len() as int) =~= xm);
    out
}

/// An inbound email read from document `doc` with fields `f`, where a
/// missing receipt time reads as `now`.
pub open spec fn email_read(r: InboundEmailDB, doc: JsonModel, f: JsonModel, now: Timestamp) -> bool {
    &&& r.id@ == last_segment(name_text(doc))
    &&& r.from_email@ == text_or(string_field(f, "from"@), Seq::empty())
    &&& r.to@.map_values(|s: String| s@) == string_items(f, "to"@)
    &&& r.subject@ == text_or(string_field(f, "subject"@), "(no subject)"@)
    &&& opt_text(r.text) == string_field(f, "text"@)
    &&& opt_text(r.html) == string_field(f, "html"@)
    &&& r.attachments@.map_values(|a: EmailAttachment| a.model()) == attachments_field(f)
    &&& r.received_at == (match timestamp_field(f, "received_at"@) {
        Some(t) => t,
        None => now,
    })
    &&& r.read == (bool_field(f, "read"@) == Some(true))
}

/// Reads a stored inbound email; only a document without fields is an
/// error. Absent parts take their defaults; a missing receipt time reads as
/// `now`.
pub fn parse_email(doc: &Json, now: Timestamp) -> (r: Result<InboundEmailDB, DecodeError>)
    ensures
        match member(doc@, "fields"@) {
            None => r == Err::<InboundEmailDB, DecodeError>(DecodeError::MissingFields),
            Some(f) => r is Ok && email_read(r->Ok_0, doc@, f, now),
        },
{
    let fields = match doc.get("fields") {
        Some(f) => f,
        None => return Err(DecodeError::MissingFields),
    };
    let id = match doc.get("name") {
        Some(n) => match n.as_str() {
            Some(s) => crate::records::last_path_segment(s),
            None => String::new(),
        },
        None => String::new(),
    };
    let from_email = match parse_string(fields, "from") {
        Some(s) => s,
        None => String::new(),
    };
    let subject = match parse_string(fields, "subject") {
        Some(s) => s,
        None => String::from_str("(no subject)"),
    };
    let received_at = match parse_timestamp_optional(fields, "received_at") {
        Some(t) => t,
        None => now,
    };
    let read = match parse_bool(fields, "read") {
        Ok(b) => b,
        Err(_) => false,
    };
    let r = InboundEmailDB {
        id,
        from_email,
        to: parse_string_array(fields, "to"),
        subject,
        text: parse_string(fields, "text"),
        html: parse_string(fields, "html"),
        attachments: parse_attachments(fields),
        received_at,
        read,
    };
    proof {
        reveal_strlit("");
        assert(last_segment(Seq::<char>::empty()) == Seq::<char>::empty());
        assert(email_read(r, doc@, fields@, now));
    }
    Ok(r)
}

impl EmailResponse {
    /// The answer for a stored email, with its receipt time in RFC 3339.
    pub fn from_stored(email: InboundEmailDB) -> (r: EmailResponse)
        requires
            email.received_at.wf(),
        ensures
            r.id@ == email.id@,
            r.from_email@ == email.from_email@,
            r.to@ == email.to@,
            r.subject@ == email.subject@,
            opt_text(r.text) == opt_text(email.text),
            opt_text(r.html) == opt_text(email.html),
            r.received_at@ == rfc3339_text(email.received_at.secs as int, email.received_at.nanos as int),
            r.read == email.read,
    {
        let received_at = timestamp_text(&email.received_at);
        EmailResponse {
            id: email.id,
            from_email: email.from_email,
            to: email.to,
            subject: email.subject,
            text: email.text,
            html: email.html,
            received_at,
            read: email.read,
        }
    }
}

/// The collection of inbound emails.
pub const EMAILS_COLLECTION: &'static str = "emails";

/// The stored value of an attachment's metadata.
pub open spec fn attachment_value(a: AttachmentModel) -> ValueModel {
    ValueModel::Object(
        seq![
            ("filename"@, ValueModel::Str(a.filename)),
            ("content_type"@, ValueModel::Str(a.content_type)),
            ("size"@, ValueModel::Int(a.size)),
        ],
    )
}

/// The members written for an inbound email.
pub open spec fn email_fields(e: InboundEmailDB) -> Seq<(Seq<char>, JsonModel)> {
    seq![
        ("from"@, encode_model(ValueModel::Str(e.from_email@))),
        ("to"@, encode_model(ValueModel::Array(Seq::new(e.to@.len(), |i: int| ValueModel::Str(e.to@[i]@))))),
        ("subject"@, encode_model(ValueModel::Str(e.subject@))),
        time_entry("received_at"@, e.received_at),
        ("read"@, encode_model(ValueModel::Bool(e.read))),
        (
            "attachments"@,
            encode_model(
                ValueModel::Array(
                    Seq::new(e.attachments@.len(), |i: int| attachment_value(e.attachments@[i].model())),
                ),
            ),
        ),
    ] + opt_text_entry("text"@, opt_text(e.text)) + opt_text_entry("html"@, opt_text(e.html))
}

fn attachment_to_value(a: &EmailAttachment) -> (r: TypedValue)
    ensures
        r@ == attachment_value(a.model()),
{
    let mut es: Vec<(String, TypedValue)> = Vec::new();
    es.push((String::from_str("filename"), TypedValue::Str(a.filename.clone())));
    es.push((String::from_str("content_type"), TypedValue::Str(a.content_type.clone())));
    es.push((String::from_str("size"), TypedValue::Int(a.size)));
    let r = TypedValue::Object(es);
    assert(es@[0].1@ == ValueModel::Str(a.filename@));
    assert(es@[1].1@ == ValueModel::Str(a.content_type@));
    assert(es@[2].1@ == ValueModel::Int(a.size));
    assert(r@->Object_0 =~= attachment_value(a.model())->Object_0);
    r
}

fn push_opt_string(es: &mut Vec<(String, Json)>, key: &str, o: &Option<String>)
    ensures
        entries_model(final(es)@) == entries_model(old(es)@) + opt_text_entry(key@, opt_text(*o)),
{
    match o {
        Some(s) => {
            push_member(es, key, tag("stringValue", Json::Str(s.clone())));
            assert(entries_model(old(es)@).push((key@, tagged("stringValue"@, JsonModel::Str(s@))))
                =~= entries_model(old(es)@) + opt_text_entry(key@, opt_text(*o)));
        },
        None => {
            assert(entries_model(old(es)@) =~= entries_model(old(es)@) + opt_text_entry(key@, opt_text(*o)));
        },
    }
}

/// The body written for an inbound email: `{"fields": {..}}`.
pub fn email_document(email: &InboundEmailDB) -> (r: Json)
    requires
        email.received_at.wf(),
    ensures
        r@ == tagged("fields"@, JsonModel::Obj(email_fields(*email))),
{
    let mut to: Vec<TypedValue> = Vec::new();
    let mut i: usize = 0;
    while i < email.to.len()
        invariant
            i <= email.to@.len(),
            to@.len() == i,
            forall|k: int| 0 <= k < i ==> (#[trigger] to@[k])@ == ValueModel::Str(email.to@[k]@),
        decreases email.to@.len() - i,
    {
        to.push(TypedValue::Str(email.to[i].clone()));
        i += 1;
    }
    let to = TypedValue::Array(to);
    assert(to@->Array_0 =~= Seq::new(email.to@.len(), |i: int| ValueModel::Str(email.to@[i]@)));
    let mut atts: Vec<TypedValue> = Vec::new();
    let mut j: usize = 0;
    while j < email.attachments.len()
        invariant
            j <= email.attachments@.len(),
            atts@.len() == j,
            forall|k: int| 0 <= k < j ==> (#[trigger] atts@[k])@ == attachment_value(email.attachments@[k].model()),
        decreases email.attachments@.len() - j,
    {
        atts.push(attachment_to_value(&email.attachments[j]));
        j += 1;
    }
    let atts = TypedValue::Array(atts);
    assert(atts@->Array_0 =~= Seq::new(
        email.attachments@.len(),
        |i: int| attachment_value(email.attachments@[i].model()),
    ));
    let mut es: Vec<(String, Json)> = Vec::new();
    let ghost m0 = entries_model(es@);
    push_member(&mut es, "from", encode(&TypedValue::Str(email.from_email.clone())));
    push_member(&mut es, "to", encode(&to));
    push_member(&mut es, "subject", encode(&TypedValue::Str(email.subject.clone())));
    push_member(&mut es, "received_at", tag("timestampValue", Json::Str(timestamp_text(&email.received_at))));
    push_member(&mut es, "read", encode(&TypedValue::Bool(email.read)));
    push_member(&mut es, "attachments", encode(&atts));
    let ghost m1 = entries_model(es@);
    push_opt_string(&mut es, "text", &email.text);
    push_opt_string(&mut es, "html", &email.html);
    proof {
        assert(m0 =~= Seq::<(Seq<char>, JsonModel)>::empty());
        assert(entries_model(es@) =~= email_fields(*email));
    }
    tag("fields", object(es))
}

/// What an inbound-mail webhook call leads to.
pub enum WebhookOutcome {
    /// An event other than a received email: answer, store nothing.
    Ignored(WebhookResponse),
    /// Store this email, then answer with its id.
    Store(InboundEmailDB),
}

/// The attachment metadata for an attachment of an inbound email: defaults
/// for an empty name or type, and the byte length of its content.
pub open spec fn attachment_from_webhook(a: ResendAttachment) -> AttachmentModel {
    AttachmentModel {
        filename: if a.filename@.len() == 0 {
            "attachment"@
        } else {
            a.filename@
        },
        content_type: if a.content_type@.len() == 0 {
            "application/octet-stream"@
        } else {
            a.content_type@
        },
        size: match a.content {
            Some(c) => {
                let n = vstd::utf8::encode_utf8(c@).len() as usize;
                if n <= i64::MAX {
                    n as i64
                } else {
                    0
                }
            },
            None => 0,
        },
    }
}

/// The handling of an inbound-mail webhook call received at `now`. Only
/// `email.received` events are stored; the email keeps the event's email id,
/// else its id, else `fallback_id`, and an empty subject becomes
/// "(no subject)".
pub fn inbound_email(payload: ResendWebhookPayload, fallback_id: String, now: Timestamp) -> (r: WebhookOutcome)
    ensures
        payload.event_type@ != "email.received"@ ==> (r matches WebhookOutcome::Ignored(w) && w.status@
            == "ignored"@ && w.email_id is None && opt_text(w.event_type) == Some(payload.event_type@)),
        payload.event_type@ == "email.received"@ ==> (r matches WebhookOutcome::Store(e) && {
            &&& e.id@ == (match payload.data.email_id {
                Some(i) => i@,
                None => match payload.data.id {
                    Some(i) => i@,
                    None => fallback_id@,
                },
            })
            &&& e.from_email@ == payload.data.from@
            &&& e.to@ == payload.data.to@
            &&& e.subject@ == (if payload.data.subject@.len() == 0 {
                "(no subject)"@
            } else {
                payload.data.subject@
            })
            &&& opt_text(e.text) == opt_text(payload.data.text)
            &&& opt_text(e.html) == opt_text(payload.data.html)
            &&& e.attachments@.len() == payload.data.attachments@.len()
            &&& forall|i: int|
                0 <= i < e.attachments@.len() ==> #[trigger] e.attachments@[i].model() == attachment_from_webhook(
                    payload.data.attachments@[i],
                )
            &&& e.received_at == now
            &&& !e.read
        }),
{
    if !crate::json::str_eq(payload.event_type.as_str(), "email.received") {
        return WebhookOutcome::Ignored(
            WebhookResponse {
                status: String::from_str("ignored"),
                email_id: None,
                event_type: Some(payload.event_type),
            },
        );
    }
    let data = payload.data;
    let id = match data.email_id {
        Some(i) => i,
        None => match data.id {
            Some(i) => i,
            None => fallback_id,
        },
    };
    let mut attachments: Vec<EmailAttachment> = Vec::new();
    let mut i: usize = 0;
    while i < data.attachments.len()
        invariant
            i <= data.attachments@.len(),
            attachments@.len() == i,
            forall|k: int|
                0 <= k < i ==> #[trigger] attachments@[k].model() == attachment_from_webhook(data.attachments@[k]),
        decreases data.attachments@.len() - i,
    {
        let a = &data.attachments[i];
        let filename = if a.filename.as_str().unicode_len() == 0 {
            String::from_str("attachment")
        } else {
            a.filename.clone()
        };
        let content_type = if a.content_type.as_str().unicode_len() == 0 {
            String::from_str("application/octet-stream")
        } else {
            a.content_type.clone()
        };
        let size: i64 = match &a.content {
            Some(c) => {
                let n = c.as_str().len();
                if n as u64 > 9223372036854775807u64 {
                    0
                } else {
                    n as i64
                }
            },
            None => 0,
        };
        attachments.push(EmailAttachment { filename, content_type, size });
        i += 1;
    }
    let subject = if data.subject.as_str().unicode_len() == 0 {
        String::from_str("(no subject)")
    } else {
        data.subject
    };
    WebhookOutcome::Store(
        InboundEmailDB {
            id,
            from_email: data.from,
            to: data.to,
            subject,
            text: data.text,
            html: data.html,
            attachments,
            received_at: now,
            read: false,
        },
    )
}

} // verus!
