//! The queries each collection is read with, and the reading of query
//! answers: a document that cannot be read is left out of a list rather than
//! failing it.
use vstd::prelude::*;
use crate::json::{Json, JsonModel, member};
use crate::value::{TypedValue, ValueModel};
use crate::query::{FieldFilter, FieldOp, Order, Direction, QuerySpec};
use crate::records::{
    ActionItemDB, MemoryDB, action_item_read, memory_read, parse_action_item, parse_memory,
    MEMORIES_SUBCOLLECTION, ACTION_ITEMS_SUBCOLLECTION,
};
use crate::time::Timestamp;
use crate::email::{InboundEmailDB, EMAILS_COLLECTION, email_read, parse_email};

verus! {

/// A user's conversations.
pub const CONVERSATIONS_SUBCOLLECTION: &'static str = "conversations";

/// The filters of a conversation listing: not discarded unless discarded
/// ones are included, and one of `statuses` when any are given.
pub open spec fn conversation_filters_ok(r: Seq<FieldFilter>, include_discarded: bool, statuses: Seq<String>) -> bool {
    let d: int = if include_discarded { 0 } else { 1 };
    let s: int = if statuses.len() == 0 { 0 } else { 1 };
    &&& r.len() == d + s
    &&& !include_discarded ==> (r[0].field@ == "discarded"@ && r[0].op == FieldOp::Equal && r[0].value@
        == ValueModel::Bool(false))
    &&& statuses.len() > 0 ==> (r[d].field@ == "status"@ && r[d].op == FieldOp::In && r[d].value@
        == ValueModel::Array(Seq::new(statuses.len(), |i: int| ValueModel::Str(statuses[i]@))))
}

fn field_filter(field: &str, op: FieldOp, value: TypedValue) -> (r: FieldFilter)
    ensures
        r.field@ == field@,
        r.op == op,
        r.value == value,
{
    FieldFilter { field: String::from_str(field), op, value }
}

/// The filters of a conversation listing.
pub fn conversation_filters(include_discarded: bool, statuses: &Vec<String>) -> (r: Vec<FieldFilter>)
    ensures
        conversation_filters_ok(r@, include_discarded, statuses@),
{
    let mut r: Vec<FieldFilter> = Vec::new();
    if !include_discarded {
        r.push(field_filter("discarded", FieldOp::Equal, TypedValue::Bool(false)));
    }
    if statuses.len() > 0 {
        let mut vals: Vec<TypedValue> = Vec::new();
        let mut i: usize = 0;
        while i < statuses.len()
            invariant
                i <= statuses@.len(),
                vals@.len() == i,
                forall|k: int| 0 <= k < i ==> (#[trigger] vals@[k])@ == ValueModel::Str(statuses@[k]@),
            decreases statuses@.len() - i,
        {
            vals.push(TypedValue::Str(statuses[i].clone()));
            i += 1;
        }
        let arr = TypedValue::Array(vals);
        assert(arr@->Array_0 =~= Seq::new(statuses@.len(), |i: int| ValueModel::Str(statuses@[i]@)));
        r.push(field_filter("status", FieldOp::In, arr));
    }
    r
}

fn order(field: &str, direction: Direction) -> (r: Order)
    ensures
        r.field@ == field@,
        r.direction == direction,
{
    Order { field: String::from_str(field), direction }
}

/// A page of a user's conversations, newest first.
pub fn conversations_query(limit: usize, offset: usize, include_discarded: bool, statuses: &Vec<String>) -> (r: QuerySpec)
    ensures
        r.collection@ == CONVERSATIONS_SUBCOLLECTION@,
        conversation_filters_ok(r.filters@, include_discarded, statuses@),
        r.order_by@.len() == 1,
        r.order_by@[0].field@ == "created_at"@,
        r.order_by@[0].direction == Direction::Descending,
        r.limit == Some(limit),
        r.offset == Some(offset),
{
    QuerySpec {
        collection: String::from_str(CONVERSATIONS_SUBCOLLECTION),
        filters: conversation_filters(include_discarded, statuses),
        order_by: vec![order("created_at", Direction::Descending)],
        limit: Some(limit),
        offset: Some(offset),
    }
}

/// A page of a user's action items, newest first, of one completion state
/// when `completed` names one.
pub fn action_items_query(limit: usize, offset: usize, completed: Option<bool>) -> (r: QuerySpec)
    ensures
        r.collection@ == ACTION_ITEMS_SUBCOLLECTION@,
        match completed {
            Some(c) => r.filters@.len() == 1 && r.filters@[0].field@ == "completed"@ && r.filters@[0].op
                == FieldOp::Equal && r.filters@[0].value@ == ValueModel::Bool(c),
            None => r.filters@.len() == 0,
        },
        r.order_by@.len() == 1,
        r.order_by@[0].field@ == "created_at"@,
        r.order_by@[0].direction == Direction::Descending,
        r.limit == Some(limit),
        r.offset == Some(offset),
{
    let mut filters: Vec<FieldFilter> = Vec::new();
    match completed {
        Some(c) => filters.push(field_filter("completed", FieldOp::Equal, TypedValue::Bool(c))),
        None => {},
    }
    QuerySpec {
        collection: String::from_str(ACTION_ITEMS_SUBCOLLECTION),
        filters,
        order_by: vec![order("created_at", Direction::Descending)],
        limit: Some(limit),
        offset: Some(offset),
    }
}

/// A user's memories, highest scoring first, then newest first.
pub fn memories_query(limit: usize) -> (r: QuerySpec)
    ensures
        r.collection@ == MEMORIES_SUBCOLLECTION@,
        r.filters@.len() == 0,
        r.order_by@.len() == 2,
        r.order_by@[0].field@ == "scoring"@,
        r.order_by@[0].direction == Direction::Descending,
        r.order_by@[1].field@ == "created_at"@,
        r.order_by@[1].direction == Direction::Descending,
        r.limit == Some(limit),
        r.offset is None,
{
    QuerySpec {
        collection: String::from_str(MEMORIES_SUBCOLLECTION),
        filters: Vec::new(),
        order_by: vec![order("scoring", Direction::Descending), order("created_at", Direction::Descending)],
        limit: Some(limit),
        offset: None,
    }
}

/// The documents of a query answer `[{"document": ..}, ..]`, in order;
/// entries without one are skipped.
pub open spec fn answer_documents(results: JsonModel) -> Seq<JsonModel> {
    match results {
        JsonModel::Arr(xs) => documents_among(xs),
        _ => Seq::empty(),
    }
}

pub open spec fn documents_among(xs: Seq<JsonModel>) -> Seq<JsonModel>
    decreases xs.len(),
{
    if xs.len() == 0 {
        Seq::empty()
    } else {
        let rest = documents_among(xs.drop_last());
        match member(xs.last(), "document"@) {
            Some(d) => rest.push(d),
            None => rest,
        }
    }
}

/// Document `d` reads as a memory that the user has not rejected.
pub open spec fn memory_kept(d: JsonModel) -> bool {
    let f = member(d, "fields"@);
    &&& f is Some
    &&& crate::fields::bool_field(f->0, "user_review"@) != Some(false)
}

/// `r` holds the memories read from the kept documents among `ds`, in order,
/// each read with `now` for a missing creation time.
pub open spec fn read_memories(r: Seq<MemoryDB>, ds: Seq<JsonModel>, now: Timestamp) -> bool
    decreases ds.len(),
{
    if ds.len() == 0 {
        r.len() == 0
    } else {
        let d = ds.last();
        if memory_kept(d) {
            r.len() > 0 && memory_read(r.last(), d, member(d, "fields"@)->0, now) && read_memories(
                r.drop_last(),
                ds.drop_last(),
                now,
            )
        } else {
            read_memories(r, ds.drop_last(), now)
        }
    }
}

/// The memories of a query answer, in order; documents without fields and
/// memories the user rejected are left out.
pub fn parse_memories(results: &Json, now: Timestamp) -> (r: Vec<MemoryDB>)
    ensures
        read_memories(r@, answer_documents(results@), now),
{
    let xs = if let Json::Arr(xs) = results {
        xs
    } else {
        return Vec::new();
    };
    let ghost xm = Seq::new(xs@.len(), |i: int| xs@[i]@);
    assert(results@->Arr_0 =~= xm);
    let mut out: Vec<MemoryDB> = Vec::new();
    let mut i: usize = 0;
    assert(xm.subrange(0, 0) =~= Seq::<JsonModel>::empty());
    while i < xs.len()
        invariant
            i <= xs@.len(),
            xm == Seq::new(xs@.len(), |i: int| xs@[i]@),
            read_memories(out@, documents_among(xm.subrange(0, i as int)), now),
        decreases xs@.len() - i,
    {
        proof {
            assert(xm.subrange(0, i + 1).drop_last() =~= xm.subrange(0, i as int));
            assert(xm.subrange(0, i + 1).last() == xs@[i as int]@);
        }
        let ghost before = out@;
        match xs[i].get("document") {
            Some(d) => {
                let ghost ds = documents_among(xm.subrange(0, i + 1));
                assert(ds.drop_last() == documents_among(xm.subrange(0, i as int)));
                match parse_memory(d, now) {
                    Ok(m) => {
                        let keep = match m.user_review {
                            Some(false) => false,
                            _ => true,
                        };
                        if keep {
                            out.push(m);
                            assert(out@.drop_last() =~= before);
                        }
                    },
                    Err(_) => {},
                }
            },
            None => {},
        }
        i += 1;
    }
    assert(xm.subrange(0, xs@.len() as int) =~= xm);
    out
}

/// The action items among the documents `ds` that have fields, each read
/// with `now` for a missing creation time.
pub open spec fn read_action_items(r: Seq<ActionItemDB>, ds: Seq<JsonModel>, now: Timestamp) -> bool
    decreases ds.len(),
{
    if ds.len() == 0 {
        r.len() == 0
    } else {
        let d = ds.last();
        match member(d, "fields"@) {
            Some(f) => r.len() > 0 && action_item_read(r.last(), d, f, now) && read_action_items(
                r.drop_last(),
                ds.drop_last(),
                now,
            ),
            None => read_action_items(r, ds.drop_last(), now),
        }
    }
}

/// The action items of a query answer, in order; documents without fields
/// are left out.
pub fn parse_action_items(results: &Json, now: Timestamp) -> (r: Vec<ActionItemDB>)
    ensures
        read_action_items(r@, answer_documents(results@), now),
{
    let xs = if let Json::Arr(xs) = results {
        xs
    } else {
        return Vec::new();
    };
    let ghost xm = Seq::new(xs@.len(), |i: int| xs@[i]@);
    assert(results@->Arr_0 =~= xm);
    let mut out: Vec<ActionItemDB> = Vec::new();
    let mut i: usize = 0;
    assert(xm.subrange(0, 0) =~= Seq::<JsonModel>::empty());
    while i < xs.len()
        invariant
            i <= xs@.len(),
            xm == Seq::new(xs@.len(), |i: int| xs@[i]@),
            read_action_items(out@, documents_among(xm.subrange(0, i as int)), now),
        decreases xs@.len() - i,
    {
        proof {
            assert(xm.subrange(0, i + 1).drop_last() =~= xm.subrange(0, i as int));
            assert(xm.subrange(0, i + 1).last() == xs@[i as int]@);
        }
        let ghost before = out@;
        match xs[i].get("document") {
            Some(d) => {
                let ghost ds = documents_among(xm.subrange(0, i + 1));
                assert(ds.drop_last() == documents_among(xm.subrange(0, i as int)));
                match parse_action_item(d, now) {
                    Ok(item) => {
                        out.push(item);
                        assert(out@.drop_last() =~= before);
                    },
                    Err(_) => {},
                }
            },
            None => {},
        }
        i += 1;
    }
    assert(xm.subrange(0, xs@.len() as int) =~= xm);
    out
}

/// A page of inbound emails, newest first.
pub fn emails_query(limit: usize, offset: usize) -> (r: QuerySpec)
    ensures
        r.collection@ == EMAILS_COLLECTION@,
        r.filters@.len() == 0,
        r.order_by@.len() == 1,
        r.order_by@[0].field@ == "received_at"@,
        r.order_by@[0].direction == Direction::Descending,
        r.limit == Some(limit),
        r.offset == Some(offset),
{
    QuerySpec {
        collection: String::from_str(EMAILS_COLLECTION),
        filters: Vec::new(),
        order_by: vec![order("received_at", Direction::Descending)],
        limit: Some(limit),
        offset: Some(offset),
    }
}

/// The filters that select unread emails, or all emails.
pub fn email_filters(unread_only: bool) -> (r: Vec<FieldFilter>)
    ensures
        unread_only ==> (r@.len() == 1 && r@[0].field@ == "read"@ && r@[0].op == FieldOp::Equal && r@[0].value@
            == ValueModel::Bool(false)),
        !unread_only ==> r@.len() == 0,
{
    let mut r: Vec<FieldFilter> = Vec::new();
    if unread_only {
        r.push(field_filter("read", FieldOp::Equal, TypedValue::Bool(false)));
    }
    r
}

/// `r` holds the emails read from the documents with fields among `ds`, in
/// order, each read with `now` for a missing receipt time.
pub open spec fn read_emails(r: Seq<InboundEmailDB>, ds: Seq<JsonModel>, now: Timestamp) -> bool
    decreases ds.len(),
{
    if ds.len() == 0 {
        r.len() == 0
    } else {
        let d = ds.last();
        match member(d, "fields"@) {
            Some(f) => r.len() > 0 && email_read(r.last(), d, f, now) && read_emails(
                r.drop_last(),
                ds.drop_last(),
                now,
            ),
            None => read_emails(r, ds.drop_last(), now),
        }
    }
}

/// The emails of a query answer, in order; documents without fields are
/// left out.
pub fn parse_emails(results: &Json, now: Timestamp) -> (r: Vec<InboundEmailDB>)
    ensures
        read_emails(r@, answer_documents(results@), now),
{
    let xs = if let Json::Arr(xs) = results {
        xs
    } else {
        return Vec::new();
    };
    let ghost xm = Seq::new(xs@.len(), |i: int| xs@[i]@);
    assert(results@->Arr_0 =~= xm);
    let mut out: Vec<InboundEmailDB> = Vec::new();
    let mut i: usize = 0;
    assert(xm.subrange(0, 0) =~= Seq::<JsonModel>::empty());
    while i < xs.len()
        invariant
            i <= xs@.len(),
            xm == Seq::new(xs@.len(), |i: int| xs@[i]@),
            read_emails(out@, documents_among(xm.subrange(0, i as int)), now),
        decreases xs@.len() - i,
    {
        proof {
            assert(xm.subrange(0, i + 1).drop_last() =~= xm.subrange(0, i as int));
            assert(xm.subrange(0, i + 1).last() == xs@[i as int]@);
        }
        let ghost before = out@;
        match xs[i].get("document") {
            Some(d) => {
                let ghost ds = documents_among(xm.subrange(0, i + 1));
                assert(ds.drop_last() == documents_among(xm.subrange(0, i as int)));
                match parse_email(d, now) {
                    Ok(e) => {
                        out.push(e);
                        assert(out@.drop_last() =~= before);
                    },
                    Err(_) => {},
                }
            },
            None => {},
        }
        i += 1;
    }
    assert(xm.subrange(0, xs@.len() as int) =~= xm);
    out
}

/// The documents of a query answer, in order; entries without one are
/// skipped.
pub fn result_documents<'a>(results: &'a Json) -> (r: Vec<&'a Json>)
    ensures
        r@.map_values(|d: &Json| d@) == answer_documents(results@),
{
    let mut out: Vec<&'a Json> = Vec::new();
    assert(out@.map_values(|d: &Json| d@) =~= Seq::<JsonModel>::empty());
    let xs = if let Json::Arr(xs) = results {
        xs
    } else {
        return out;
    };
    let ghost xm = Seq::new(xs@.len(), |i: int| xs@[i]@);
    assert(results@->Arr_0 =~= xm);
    let mut i: usize = 0;
    assert(xm.subrange(0, 0) =~= Seq::<JsonModel>::empty());
    while i < xs.len()
        invariant
            i <= xs@.len(),
            xm == Seq::new(xs@.len(), |i: int| xs@[i]@),
            out@.map_values(|d: &Json| d@) == documents_among(xm.subrange(0, i as int)),
        decreases xs@.len() - i,
    {
        proof {
            assert(xm.subrange(0, i + 1).drop_last() =~= xm.subrange(0, i as int));
            assert(xm.subrange(0, i + 1).last() == xs@[i as int]@);
        }
        let ghost before = out@.map_values(|d: &Json| d@);
        match xs[i].get("document") {
            Some(d) => {
                out.push(d);
                assert(out@.map_values(|d: &Json| d@) =~= before.push(d@));
            },
            None => {},
        }
        i += 1;
    }
    assert(xm.subrange(0, xs@.len() as int) =~= xm);
    out
}

} // verus!
