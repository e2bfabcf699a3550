//! Write bodies for action items: creation, the items extracted from a
//! conversation, and partial updates with their field masks.
use vstd::prelude::*;
use crate::json::{Json, JsonModel, entries_model, object};
use crate::value::{tag, tagged};
use crate::records::typed_entry;
use crate::time::{Timestamp, rfc3339_text, timestamp_text};

verus! {

/// A timestamp member.
pub open spec fn time_entry(key: Seq<char>, t: Timestamp) -> (Seq<char>, JsonModel) {
    typed_entry(key, "timestampValue"@, JsonModel::Str(rfc3339_text(t.secs as int, t.nanos as int)))
}

/// A string member.
pub open spec fn text_entry(key: Seq<char>, s: Seq<char>) -> (Seq<char>, JsonModel) {
    typed_entry(key, "stringValue"@, JsonModel::Str(s))
}

/// A boolean member.
pub open spec fn flag_entry(key: Seq<char>, b: bool) -> (Seq<char>, JsonModel) {
    typed_entry(key, "booleanValue"@, JsonModel::Bool(b))
}

/// One member when `o` holds a string, none otherwise.
pub open spec fn opt_text_entry(key: Seq<char>, o: Option<Seq<char>>) -> Seq<(Seq<char>, JsonModel)> {
    match o {
        Some(s) => seq![text_entry(key, s)],
        None => Seq::empty(),
    }
}

/// One member when `o` holds an instant, none otherwise.
pub open spec fn opt_time_entry(key: Seq<char>, o: Option<Timestamp>) -> Seq<(Seq<char>, JsonModel)> {
    match o {
        Some(t) => seq![time_entry(key, t)],
        None => Seq::empty(),
    }
}

/// The content of an optional string slice.
pub open spec fn opt_str(o: Option<&str>) -> Option<Seq<char>> {
    match o {
        Some(s) => Some(s@),
        None => None,
    }
}

/// An instant that may be written, when there is one.
pub open spec fn writable(o: Option<Timestamp>) -> bool {
    o is Some ==> o->0.wf()
}

fn push_entry(es: &mut Vec<(String, Json)>, key: &str, tag_name: &str, payload: Json)
    ensures
        entries_model(final(es)@) == entries_model(old(es)@).push(typed_entry(key@, tag_name@, payload@)),
{
    crate::json::push_member(es, key, tag(tag_name, payload));
}

fn push_time(es: &mut Vec<(String, Json)>, key: &str, t: &Timestamp)
    requires
        t.wf(),
    ensures
        entries_model(final(es)@) == entries_model(old(es)@).push(time_entry(key@, *t)),
{
    push_entry(es, key, "timestampValue", Json::Str(timestamp_text(t)));
}

fn push_opt_text(es: &mut Vec<(String, Json)>, key: &str, o: Option<&str>)
    ensures
        entries_model(final(es)@) == entries_model(old(es)@) + opt_text_entry(key@, opt_str(o)),
{
    match o {
        Some(s) => {
            push_entry(es, key, "stringValue", Json::Str(String::from_str(s)));
            assert(entries_model(old(es)@).push(text_entry(key@, s@)) =~= entries_model(old(es)@)
                + opt_text_entry(key@, opt_str(o)));
        },
        None => {
            assert(entries_model(old(es)@) =~= entries_model(old(es)@) + opt_text_entry(key@, opt_str(o)));
        },
    }
}

fn push_opt_time(es: &mut Vec<(String, Json)>, key: &str, o: Option<Timestamp>)
    requires
        writable(o),
    ensures
        entries_model(final(es)@) == entries_model(old(es)@) + opt_time_entry(key@, o),
{
    match o {
        Some(t) => {
            push_time(es, key, &t);
            assert(entries_model(old(es)@).push(time_entry(key@, t)) =~= entries_model(old(es)@)
                + opt_time_entry(key@, o));
        },
        None => {
            assert(entries_model(old(es)@) =~= entries_model(old(es)@) + opt_time_entry(key@, o));
        },
    }
}

/// The members written for a new action item created at `now`: not
/// completed, with the optional parts that are given.
pub open spec fn created_item_fields(
    description: Seq<char>,
    due_at: Option<Timestamp>,
    source: Option<Seq<char>>,
    priority: Option<Seq<char>>,
    metadata: Option<Seq<char>>,
    now: Timestamp,
) -> Seq<(Seq<char>, JsonModel)> {
    seq![
        text_entry("description"@, description),
        flag_entry("completed"@, false),
        time_entry("created_at"@, now),
    ] + opt_time_entry("due_at"@, due_at) + opt_text_entry("source"@, source) + opt_text_entry(
        "priority"@,
        priority,
    ) + opt_text_entry("metadata"@, metadata)
}

/// The body written for a new action item created at `now`.
pub fn action_item_create_document(
    description: &str,
    due_at: Option<Timestamp>,
    source: Option<&str>,
    priority: Option<&str>,
    metadata: Option<&str>,
    now: &Timestamp,
) -> (r: Json)
    requires
        now.wf(),
        writable(due_at),
    ensures
        r@ == tagged(
            "fields"@,
            JsonModel::Obj(
                created_item_fields(description@, due_at, opt_str(source), opt_str(priority), opt_str(metadata), *now),
            ),
        ),
{
    let mut es: Vec<(String, Json)> = Vec::new();
    let ghost m0 = entries_model(es@);
    push_entry(&mut es, "description", "stringValue", Json::Str(String::from_str(description)));
    push_entry(&mut es, "completed", "booleanValue", Json::Bool(false));
    push_time(&mut es, "created_at", now);
    let ghost m1 = entries_model(es@);
    push_opt_time(&mut es, "due_at", due_at);
    push_opt_text(&mut es, "source", source);
    push_opt_text(&mut es, "priority", priority);
    push_opt_text(&mut es, "metadata", metadata);
    proof {
        assert(m0 =~= Seq::<(Seq<char>, JsonModel)>::empty());
        assert(m1 =~= seq![
            text_entry("description"@, description@),
            flag_entry("completed"@, false),
            time_entry("created_at"@, *now),
        ]);
        assert(entries_model(es@) =~= created_item_fields(
            description@,
            due_at,
            opt_str(source),
            opt_str(priority),
            opt_str(metadata),
            *now,
        ));
    }
    tag("fields", object(es))
}

/// The members written for an action item extracted from conversation
/// `conversation_id` at `now`.
pub open spec fn extracted_item_fields(
    description: Seq<char>,
    completed: bool,
    conversation_id: Seq<char>,
    due_at: Option<Timestamp>,
    now: Timestamp,
) -> Seq<(Seq<char>, JsonModel)> {
    seq![
        text_entry("description"@, description),
        flag_entry("completed"@, completed),
        text_entry("conversation_id"@, conversation_id),
        time_entry("created_at"@, now),
    ] + opt_time_entry("due_at"@, due_at)
}

/// The body written for an action item extracted from a conversation.
pub fn extracted_action_item_document(
    description: &str,
    completed: bool,
    conversation_id: &str,
    due_at: Option<Timestamp>,
    now: &Timestamp,
) -> (r: Json)
    requires
        now.wf(),
        writable(due_at),
    ensures
        r@ == tagged(
            "fields"@,
            JsonModel::Obj(extracted_item_fields(description@, completed, conversation_id@, due_at, *now)),
        ),
{
    let mut es: Vec<(String, Json)> = Vec::new();
    let ghost m0 = entries_model(es@);
    push_entry(&mut es, "description", "stringValue", Json::Str(String::from_str(description)));
    push_entry(&mut es, "completed", "booleanValue", Json::Bool(completed));
    push_entry(&mut es, "conversation_id", "stringValue", Json::Str(String::from_str(conversation_id)));
    push_time(&mut es, "created_at", now);
    let ghost m1 = entries_model(es@);
    push_opt_time(&mut es, "due_at", due_at);
    proof {
        assert(m0 =~= Seq::<(Seq<char>, JsonModel)>::empty());
        assert(m1 =~= seq![
            text_entry("description"@, description@),
            flag_entry("completed"@, completed),
            text_entry("conversation_id"@, conversation_id@),
            time_entry("created_at"@, *now),
        ]);
        assert(entries_model(es@) =~= extracted_item_fields(description@, completed, conversation_id@, due_at, *now));
    }
    tag("fields", object(es))
}

/// The members an update at `now` writes: the update time always; the
/// completion flag when given, with the completion time when it completes
/// the item; the description and the due time when given.
pub open spec fn update_fields(
    completed: Option<bool>,
    description: Option<Seq<char>>,
    due_at: Option<Timestamp>,
    now: Timestamp,
) -> Seq<(Seq<char>, JsonModel)> {
    let c = match completed {
        Some(b) => if b {
            seq![flag_entry("completed"@, b), time_entry("completed_at"@, now)]
        } else {
            seq![flag_entry("completed"@, b)]
        },
        None => Seq::empty(),
    };
    seq![time_entry("updated_at"@, now)] + c + opt_text_entry("description"@, description)
        + opt_time_entry("due_at"@, due_at)
}

/// The names of the members, in order.
pub open spec fn member_names(es: Seq<(Seq<char>, JsonModel)>) -> Seq<Seq<char>> {
    es.map_values(|e: (Seq<char>, JsonModel)| e.0)
}

/// A partial update: the paths of the members of `es`, in order, and the
/// body holding them.
fn finish_patch(es: Vec<(String, Json)>) -> (r: (Vec<String>, Json))
    ensures
        r.1@ == tagged("fields"@, JsonModel::Obj(entries_model(es@))),
        r.0@.map_values(|p: String| p@) == member_names(entries_model(es@)),
{
    let ghost fm = entries_model(es@);
    let mut paths: Vec<String> = Vec::new();
    let mut i: usize = 0;
    assert(fm.subrange(0, 0) =~= Seq::<(Seq<char>, JsonModel)>::empty());
    assert(paths@.map_values(|p: String| p@) =~= member_names(fm.subrange(0, 0)));
    while i < es.len()
        invariant
            i <= es@.len(),
            entries_model(es@) == fm,
            paths@.map_values(|p: String| p@) == member_names(fm.subrange(0, i as int)),
        decreases es@.len() - i,
    {
        let ghost before = paths@.map_values(|p: String| p@);
        paths.push(es[i].0.clone());
        proof {
            assert(fm[i as int].0 == es@[i as int].0@);
            assert(member_names(fm.subrange(0, i + 1)) =~= member_names(fm.subrange(0, i as int)).push(
                fm[i as int].0,
            ));
            assert(paths@.map_values(|p: String| p@) =~= before.push(es@[i as int].0@));
        }
        i += 1;
    }
    assert(fm.subrange(0, es@.len() as int) =~= fm);
    (paths, tag("fields", object(es)))
}

/// A partial update of an action item: the body, and the paths of the
/// fields it writes, which are exactly the members of the body.
pub fn action_item_update(
    completed: Option<bool>,
    description: Option<&str>,
    due_at: Option<Timestamp>,
    now: &Timestamp,
) -> (r: (Vec<String>, Json))
    requires
        now.wf(),
        writable(due_at),
    ensures
        r.1@ == tagged("fields"@, JsonModel::Obj(update_fields(completed, opt_str(description), due_at, *now))),
        r.0@.map_values(|p: String| p@) == member_names(update_fields(completed, opt_str(description), due_at, *now)),
{
    let mut es: Vec<(String, Json)> = Vec::new();
    let ghost m0 = entries_model(es@);
    push_time(&mut es, "updated_at", now);
    let ghost m1 = entries_model(es@);
    match completed {
        Some(b) => {
            push_entry(&mut es, "completed", "booleanValue", Json::Bool(b));
            if b {
                push_time(&mut es, "completed_at", now);
            }
        },
        None => {},
    }
    let ghost m2 = entries_model(es@);
    push_opt_text(&mut es, "description", description);
    push_opt_time(&mut es, "due_at", due_at);
    let ghost fm = update_fields(completed, opt_str(description), due_at, *now);
    proof {
        assert(m0 =~= Seq::<(Seq<char>, JsonModel)>::empty());
        assert(m1 =~= seq![time_entry("updated_at"@, *now)]);
        let c = match completed {
            Some(b) => if b {
                seq![flag_entry("completed"@, b), time_entry("completed_at"@, *now)]
            } else {
                seq![flag_entry("completed"@, b)]
            },
            None => Seq::<(Seq<char>, JsonModel)>::empty(),
        };
        assert(m2 =~= m1 + c);
        assert(entries_model(es@) =~= fm);
    }
    finish_patch(es)
}

/// The query text `updateMask.fieldPaths=p` for each path, joined by `&`.
pub open spec fn mask_query(paths: Seq<Seq<char>>) -> Seq<char>
    decreases paths.len(),
{
    if paths.len() == 0 {
        Seq::empty()
    } else if paths.len() == 1 {
        "updateMask.fieldPaths="@ + paths[0]
    } else {
        mask_query(paths.drop_last()) + "&"@ + "updateMask.fieldPaths="@ + paths.last()
    }
}

/// The update-mask query text for `paths`.
pub fn update_mask(paths: &Vec<String>) -> (r: String)
    ensures
        r@ == mask_query(paths@.map_values(|p: String| p@)),
{
    let ghost pm = paths@.map_values(|p: String| p@);
    let mut out = String::new();
    let mut i: usize = 0;
    assert(pm.subrange(0, 0) =~= Seq::<Seq<char>>::empty());
    while i < paths.len()
        invariant
            i <= paths@.len(),
            pm == paths@.map_values(|p: String| p@),
            out@ == mask_query(pm.subrange(0, i as int)),
        decreases paths@.len() - i,
    {
        let ghost before = out@;
        if i > 0 {
            out.append("&");
        }
        out.append("updateMask.fieldPaths=");
        out.append(paths[i].as_str());
        proof {
            let next = pm.subrange(0, i + 1);
            assert(next.drop_last() =~= pm.subrange(0, i as int));
            assert(next.last() == paths@[i as int]@);
            if i == 0 {
                assert(before == Seq::<char>::empty());
                assert(out@ =~= "updateMask.fieldPaths="@ + next[0]);
            } else {
                assert(out@ =~= before + "&"@ + "updateMask.fieldPaths="@ + next.last());
            }
        }
        i += 1;
    }
    assert(pm.subrange(0, paths@.len() as int) =~= pm);
    out
}

/// An update of a memory's content at `now`: the content and the update time.
pub fn memory_content_update(content: &str, now: &Timestamp) -> (r: (Vec<String>, Json))
    requires
        now.wf(),
    ensures
        r.1@ == tagged("fields"@, JsonModel::Obj(seq![text_entry("content"@, content@), time_entry("updated_at"@, *now)])),
        r.0@.map_values(|p: String| p@) == seq!["content"@, "updated_at"@],
{
    let mut es: Vec<(String, Json)> = Vec::new();
    let ghost m0 = entries_model(es@);
    push_entry(&mut es, "content", "stringValue", Json::Str(String::from_str(content)));
    push_time(&mut es, "updated_at", now);
    proof {
        assert(m0 =~= Seq::<(Seq<char>, JsonModel)>::empty());
        assert(entries_model(es@) =~= seq![text_entry("content"@, content@), time_entry("updated_at"@, *now)]);
        assert(member_names(entries_model(es@)) =~= seq!["content"@, "updated_at"@]);
    }
    finish_patch(es)
}

/// An update of a memory's visibility at `now`: the visibility and the
/// update time.
pub fn memory_visibility_update(visibility: &str, now: &Timestamp) -> (r: (Vec<String>, Json))
    requires
        now.wf(),
    ensures
        r.1@ == tagged(
            "fields"@,
            JsonModel::Obj(seq![text_entry("visibility"@, visibility@), time_entry("updated_at"@, *now)]),
        ),
        r.0@.map_values(|p: String| p@) == seq!["visibility"@, "updated_at"@],
{
    let mut es: Vec<(String, Json)> = Vec::new();
    let ghost m0 = entries_model(es@);
    push_entry(&mut es, "visibility", "stringValue", Json::Str(String::from_str(visibility)));
    push_time(&mut es, "updated_at", now);
    proof {
        assert(m0 =~= Seq::<(Seq<char>, JsonModel)>::empty());
        assert(entries_model(es@) =~= seq![text_entry("visibility"@, visibility@), time_entry("updated_at"@, *now)]);
        assert(member_names(entries_model(es@)) =~= seq!["visibility"@, "updated_at"@]);
    }
    finish_patch(es)
}

/// A user's review of a memory at `now`: reviewed, the verdict, and the
/// update time.
pub fn memory_review_update(value: bool, now: &Timestamp) -> (r: (Vec<String>, Json))
    requires
        now.wf(),
    ensures
        r.1@ == tagged(
            "fields"@,
            JsonModel::Obj(
                seq![flag_entry("reviewed"@, true), flag_entry("user_review"@, value), time_entry("updated_at"@, *now)],
            ),
        ),
        r.0@.map_values(|p: String| p@) == seq!["reviewed"@, "user_review"@, "updated_at"@],
{
    let mut es: Vec<(String, Json)> = Vec::new();
    let ghost m0 = entries_model(es@);
    push_entry(&mut es, "reviewed", "booleanValue", Json::Bool(true));
    push_entry(&mut es, "user_review", "booleanValue", Json::Bool(value));
    push_time(&mut es, "updated_at", now);
    proof {
        assert(m0 =~= Seq::<(Seq<char>, JsonModel)>::empty());
        assert(entries_model(es@) =~= seq![
            flag_entry("reviewed"@, true),
            flag_entry("user_review"@, value),
            time_entry("updated_at"@, *now),
        ]);
        assert(member_names(entries_model(es@)) =~= seq!["reviewed"@, "user_review"@, "updated_at"@]);
    }
    finish_patch(es)
}

/// The members written for a memory the user adds by hand at `now`:
/// category manual, reviewed and approved, manually added, with its scoring.
pub open spec fn manual_memory_fields(content: Seq<char>, visibility: Seq<char>, now: Timestamp) -> Seq<(Seq<char>, JsonModel)> {
    seq![
        text_entry("content"@, content),
        text_entry("category"@, "manual"@),
        time_entry("created_at"@, now),
        time_entry("updated_at"@, now),
        flag_entry("reviewed"@, true),
        flag_entry("user_review"@, true),
        text_entry("visibility"@, visibility),
        flag_entry("manually_added"@, true),
        text_entry("scoring"@, crate::scoring::scoring_text(crate::scoring::MemoryCategory::Manual, now.secs as int, true)),
    ]
}

/// The body written for a memory the user adds by hand at `now`.
pub fn manual_memory_document(content: &str, visibility: &str, now: &Timestamp) -> (r: Json)
    requires
        now.wf(),
    ensures
        r@ == tagged("fields"@, JsonModel::Obj(manual_memory_fields(content@, visibility@, *now))),
{
    let scoring = crate::scoring::calculate_scoring(&crate::scoring::MemoryCategory::Manual, now.secs, true);
    let mut es: Vec<(String, Json)> = Vec::new();
    let ghost m0 = entries_model(es@);
    push_entry(&mut es, "content", "stringValue", Json::Str(String::from_str(content)));
    push_entry(&mut es, "category", "stringValue", Json::Str(String::from_str("manual")));
    push_time(&mut es, "created_at", now);
    push_time(&mut es, "updated_at", now);
    push_entry(&mut es, "reviewed", "booleanValue", Json::Bool(true));
    push_entry(&mut es, "user_review", "booleanValue", Json::Bool(true));
    push_entry(&mut es, "visibility", "stringValue", Json::Str(String::from_str(visibility)));
    push_entry(&mut es, "manually_added", "booleanValue", Json::Bool(true));
    push_entry(&mut es, "scoring", "stringValue", Json::Str(scoring));
    proof {
        assert(m0 =~= Seq::<(Seq<char>, JsonModel)>::empty());
        assert(entries_model(es@) =~= manual_memory_fields(content@, visibility@, *now));
    }
    tag("fields", object(es))
}

/// Marking an email read or unread: the flag alone.
pub fn email_read_update(read: bool) -> (r: (Vec<String>, Json))
    ensures
        r.1@ == tagged("fields"@, JsonModel::Obj(seq![flag_entry("read"@, read)])),
        r.0@.map_values(|p: String| p@) == seq!["read"@],
{
    let mut es: Vec<(String, Json)> = Vec::new();
    let ghost m0 = entries_model(es@);
    push_entry(&mut es, "read", "booleanValue", Json::Bool(read));
    proof {
        assert(m0 =~= Seq::<(Seq<char>, JsonModel)>::empty());
        assert(entries_model(es@) =~= seq![flag_entry("read"@, read)]);
        assert(member_names(entries_model(es@)) =~= seq!["read"@]);
    }
    finish_patch(es)
}

} // verus!
