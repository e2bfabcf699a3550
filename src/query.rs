//! Structured queries: filters, ordering and paging, as the document store's
//! query endpoints take them, and what comes back from a count query.
use vstd::prelude::*;
use crate::json::{Json, JsonModel, member, str_eq, entries_model, object, push_member};
use crate::value::{TypedValue, encode, encode_model, tag, tagged};
use crate::decimal::{parse_i64, parse_i64_text};

verus! {

/// A comparison a field filter makes.
#[derive(Debug, Clone, Copy, PartialEq, Eq, Structural)]
pub enum FieldOp {
    Equal,
    NotEqual,
    LessThan,
    LessThanOrEqual,
    GreaterThan,
    GreaterThanOrEqual,
    In,
    IsNull,
}

/// The order of results by one field.
#[derive(Debug, Clone, Copy, PartialEq, Eq, Structural)]
pub enum Direction {
    Ascending,
    Descending,
}

/// Why a query could not be built.
#[derive(Debug, PartialEq)]
pub enum QueryError {
    /// The operator name is not one of those supported.
    UnsupportedOperator(String),
    /// A membership test needs an array of candidates.
    InNeedsArray,
    /// A null test takes no operand.
    IsNullTakesNoValue,
}

/// One comparison of a field with a value.
pub struct FieldFilter {
    pub field: String,
    pub op: FieldOp,
    pub value: TypedValue,
}

/// Ordering by one field.
pub struct Order {
    pub field: String,
    pub direction: Direction,
}

/// A query on one collection.
pub struct QuerySpec {
    pub collection: String,
    pub filters: Vec<FieldFilter>,
    pub order_by: Vec<Order>,
    pub limit: Option<usize>,
    pub offset: Option<usize>,
}

/// The wire name of an operator.
pub open spec fn op_name(op: FieldOp) -> Seq<char> {
    match op {
        FieldOp::Equal => "EQUAL"@,
        FieldOp::NotEqual => "NOT_EQUAL"@,
        FieldOp::LessThan => "LESS_THAN"@,
        FieldOp::LessThanOrEqual => "LESS_THAN_OR_EQUAL"@,
        FieldOp::GreaterThan => "GREATER_THAN"@,
        FieldOp::GreaterThanOrEqual => "GREATER_THAN_OR_EQUAL"@,
        FieldOp::In => "IN"@,
        FieldOp::IsNull => "IS_NULL"@,
    }
}

/// The operator whose wire name is `name`.
pub open spec fn op_named(name: Seq<char>) -> Option<FieldOp> {
    if name == "EQUAL"@ {
        Some(FieldOp::Equal)
    } else if name == "NOT_EQUAL"@ {
        Some(FieldOp::NotEqual)
    } else if name == "LESS_THAN"@ {
        Some(FieldOp::LessThan)
    } else if name == "LESS_THAN_OR_EQUAL"@ {
        Some(FieldOp::LessThanOrEqual)
    } else if name == "GREATER_THAN"@ {
        Some(FieldOp::GreaterThan)
    } else if name == "GREATER_THAN_OR_EQUAL"@ {
        Some(FieldOp::GreaterThanOrEqual)
    } else if name == "IN"@ {
        Some(FieldOp::In)
    } else if name == "IS_NULL"@ {
        Some(FieldOp::IsNull)
    } else {
        None
    }
}

/// The wire name of an operator.
pub fn op_wire_name(op: FieldOp) -> (r: &'static str)
    ensures
        r@ == op_name(op),
{
    match op {
        FieldOp::Equal => "EQUAL",
        FieldOp::NotEqual => "NOT_EQUAL",
        FieldOp::LessThan => "LESS_THAN",
        FieldOp::LessThanOrEqual => "LESS_THAN_OR_EQUAL",
        FieldOp::GreaterThan => "GREATER_THAN",
        FieldOp::GreaterThanOrEqual => "GREATER_THAN_OR_EQUAL",
        FieldOp::In => "IN",
        FieldOp::IsNull => "IS_NULL",
    }
}

/// The operator with wire name `name`; any other name is refused.
pub fn parse_op(name: &str) -> (r: Result<FieldOp, QueryError>)
    ensures
        match op_named(name@) {
            Some(op) => r == Ok::<FieldOp, QueryError>(op),
            None => r is Err && r->Err_0 is UnsupportedOperator && r->Err_0->UnsupportedOperator_0@
                == name@,
        },
{
    if str_eq(name, "EQUAL") {
        Ok(FieldOp::Equal)
    } else if str_eq(name, "NOT_EQUAL") {
        Ok(FieldOp::NotEqual)
    } else if str_eq(name, "LESS_THAN") {
        Ok(FieldOp::LessThan)
    } else if str_eq(name, "LESS_THAN_OR_EQUAL") {
        Ok(FieldOp::LessThanOrEqual)
    } else if str_eq(name, "GREATER_THAN") {
        Ok(FieldOp::GreaterThan)
    } else if str_eq(name, "GREATER_THAN_OR_EQUAL") {
        Ok(FieldOp::GreaterThanOrEqual)
    } else if str_eq(name, "IN") {
        Ok(FieldOp::In)
    } else if str_eq(name, "IS_NULL") {
        Ok(FieldOp::IsNull)
    } else {
        Err(QueryError::UnsupportedOperator(String::from_str(name)))
    }
}

impl FieldFilter {
    /// A filter comparing `field` with `value` by `op`. A membership test
    /// needs an array operand and a null test a null one.
    pub fn new(field: String, op: FieldOp, value: TypedValue) -> (r: Result<FieldFilter, QueryError>)
        ensures
            op == FieldOp::In && !(value@ is Array) ==> r == Err::<FieldFilter, QueryError>(
                QueryError::InNeedsArray,
            ),
            op == FieldOp::IsNull && !(value@ is Null) ==> r == Err::<FieldFilter, QueryError>(
                QueryError::IsNullTakesNoValue,
            ),
            (op == FieldOp::In ==> value@ is Array) && (op == FieldOp::IsNull ==> value@ is Null) ==> (
            r is Ok && r->Ok_0.field@ == field@ && r->Ok_0.op == op && r->Ok_0.value@ == value@),
    {
        match op {
            FieldOp::In => {
                if let TypedValue::Array(_) = value {
                } else {
                    return Err(QueryError::InNeedsArray);
                }
            },
            FieldOp::IsNull => {
                if let TypedValue::Null = value {
                } else {
                    return Err(QueryError::IsNullTakesNoValue);
                }
            },
            _ => {},
        }
        Ok(FieldFilter { field, op, value })
    }
}

/// `{"fieldPath": field}`.
pub open spec fn field_ref(field: Seq<char>) -> JsonModel {
    tagged("fieldPath"@, JsonModel::Str(field))
}

/// The wire form of one filter: a unary filter for a null test, a field
/// filter otherwise.
pub open spec fn filter_json(f: FieldFilter) -> JsonModel {
    if f.op == FieldOp::IsNull {
        tagged(
            "unaryFilter"@,
            JsonModel::Obj(seq![("op"@, JsonModel::Str("IS_NULL"@)), ("field"@, field_ref(f.field@))]),
        )
    } else {
        tagged(
            "fieldFilter"@,
            JsonModel::Obj(
                seq![
                    ("field"@, field_ref(f.field@)),
                    ("op"@, JsonModel::Str(op_name(f.op))),
                    ("value"@, encode_model(f.value@)),
                ],
            ),
        )
    }
}

/// The wire forms of a run of filters, in order.
pub open spec fn filters_json(fs: Seq<FieldFilter>) -> Seq<JsonModel> {
    Seq::new(fs.len(), |i: int| filter_json(fs[i]))
}

/// The where-clause for a run of filters: none for no filter, the filter
/// itself for one, and an AND of all of them, in order, for more.
pub open spec fn where_json(fs: Seq<FieldFilter>) -> Option<JsonModel> {
    if fs.len() == 0 {
        None
    } else if fs.len() == 1 {
        Some(filter_json(fs[0]))
    } else {
        Some(
            tagged(
                "compositeFilter"@,
                JsonModel::Obj(
                    seq![("op"@, JsonModel::Str("AND"@)), ("filters"@, JsonModel::Arr(filters_json(fs)))],
                ),
            ),
        )
    }
}

fn obj2(k1: &str, v1: Json, k2: &str, v2: Json) -> (r: Json)
    ensures
        r@ == JsonModel::Obj(seq![(k1@, v1@), (k2@, v2@)]),
{
    let ghost m1 = v1@;
    let ghost m2 = v2@;
    let r = Json::Obj(vec![(String::from_str(k1), v1), (String::from_str(k2), v2)]);
    assert(r@->Obj_0 =~= seq![(k1@, m1), (k2@, m2)]);
    r
}

fn obj3(k1: &str, v1: Json, k2: &str, v2: Json, k3: &str, v3: Json) -> (r: Json)
    ensures
        r@ == JsonModel::Obj(seq![(k1@, v1@), (k2@, v2@), (k3@, v3@)]),
{
    let ghost m1 = v1@;
    let ghost m2 = v2@;
    let ghost m3 = v3@;
    let r = Json::Obj(
        vec![(String::from_str(k1), v1), (String::from_str(k2), v2), (String::from_str(k3), v3)],
    );
    assert(r@->Obj_0 =~= seq![(k1@, m1), (k2@, m2), (k3@, m3)]);
    r
}

fn field_ref_json(field: &String) -> (r: Json)
    ensures
        r@ == field_ref(field@),
{
    tag("fieldPath", Json::Str(field.clone()))
}

/// The wire form of one filter.
pub fn filter_to_json(f: &FieldFilter) -> (r: Json)
    ensures
        r@ == filter_json(*f),
{
    if f.op == FieldOp::IsNull {
        let body = obj2("op", Json::Str(String::from_str("IS_NULL")), "field", field_ref_json(&f.field));
        tag("unaryFilter", body)
    } else {
        let body = obj3(
            "field",
            field_ref_json(&f.field),
            "op",
            Json::Str(String::from_str(op_wire_name(f.op))),
            "value",
            encode(&f.value),
        );
        tag("fieldFilter", body)
    }
}

/// The where-clause for `filters`: none, the one filter, or an AND of all.
pub fn where_clause(filters: &Vec<FieldFilter>) -> (r: Option<Json>)
    ensures
        match r {
            Some(j) => where_json(filters@) == Some(j@),
            None => where_json(filters@) is None,
        },
{
    if filters.len() == 0 {
        return None;
    }
    if filters.len() == 1 {
        return Some(filter_to_json(&filters[0]));
    }
    let mut parts: Vec<Json> = Vec::new();
    let mut i: usize = 0;
    while i < filters.len()
        invariant
            i <= filters@.len(),
            parts@.len() == i,
            forall|k: int| 0 <= k < i ==> (#[trigger] parts@[k])@ == filter_json(filters@[k]),
        decreases filters@.len() - i,
    {
        parts.push(filter_to_json(&filters[i]));
        i += 1;
    }
    let arr = Json::Arr(parts);
    assert(arr@->Arr_0 =~= filters_json(filters@));
    let body = obj2("op", Json::Str(String::from_str("AND")), "filters", arr);
    Some(tag("compositeFilter", body))
}

/// The wire name of a direction.
pub open spec fn direction_name(d: Direction) -> Seq<char> {
    match d {
        Direction::Ascending => "ASCENDING"@,
        Direction::Descending => "DESCENDING"@,
    }
}

/// `{"field": {"fieldPath": f}, "direction": d}`.
pub open spec fn order_json(o: Order) -> JsonModel {
    JsonModel::Obj(seq![("field"@, field_ref(o.field@)), ("direction"@, JsonModel::Str(direction_name(o.direction)))])
}

/// `"from": [{"collectionId": c}]`.
pub open spec fn from_entry(collection: Seq<char>) -> (Seq<char>, JsonModel) {
    ("from"@, JsonModel::Arr(seq![tagged("collectionId"@, JsonModel::Str(collection))]))
}

/// The members of a query body: its source, its where-clause when there are
/// filters, its ordering when there is one, its limit when there is one, and
/// its offset when there is one.
pub open spec fn query_entries(q: QuerySpec) -> Seq<(Seq<char>, JsonModel)> {
    let w = match where_json(q.filters@) {
        Some(w) => seq![("where"@, w)],
        None => Seq::empty(),
    };
    let o = if q.order_by@.len() == 0 {
        Seq::empty()
    } else {
        seq![("orderBy"@, JsonModel::Arr(Seq::new(q.order_by@.len(), |i: int| order_json(q.order_by@[i]))))]
    };
    let l = match q.limit {
        Some(n) => seq![("limit"@, JsonModel::Int(n as i64))],
        None => Seq::empty(),
    };
    let off = match q.offset {
        Some(n) => seq![("offset"@, JsonModel::Int(n as i64))],
        None => Seq::empty(),
    };
    seq![from_entry(q.collection@)] + w + o + l + off
}

/// The request body of a query: `{"structuredQuery": {..}}`.
pub open spec fn query_json(q: QuerySpec) -> JsonModel {
    tagged("structuredQuery"@, JsonModel::Obj(query_entries(q)))
}

/// The request body of a count query over `collection` with `filters`.
pub open spec fn count_query_json(collection: Seq<char>, filters: Seq<FieldFilter>) -> JsonModel {
    let w = match where_json(filters) {
        Some(w) => seq![("where"@, w)],
        None => Seq::empty(),
    };
    tagged(
        "structuredAggregationQuery"@,
        JsonModel::Obj(
            seq![
                ("structuredQuery"@, JsonModel::Obj(seq![from_entry(collection)] + w)),
                (
                    "aggregations"@,
                    JsonModel::Arr(
                        seq![
                            JsonModel::Obj(
                                seq![("alias"@, JsonModel::Str("count"@)), ("count"@, JsonModel::Obj(Seq::empty()))],
                            ),
                        ],
                    ),
                ),
            ],
        ),
    )
}

fn push_from(es: &mut Vec<(String, Json)>, collection: &String)
    ensures
        entries_model(final(es)@) == entries_model(old(es)@).push(from_entry(collection@)),
{
    let src = tag("collectionId", Json::Str(collection.clone()));
    let ghost sm = src@;
    let arr = Json::Arr(vec![src]);
    assert(arr@->Arr_0 =~= seq![sm]);
    push_member(es, "from", arr);
}

fn push_where(es: &mut Vec<(String, Json)>, filters: &Vec<FieldFilter>)
    ensures
        entries_model(final(es)@) == entries_model(old(es)@) + match where_json(filters@) {
            Some(w) => seq![("where"@, w)],
            None => Seq::<(Seq<char>, JsonModel)>::empty(),
        },
{
    match where_clause(filters) {
        Some(w) => {
            push_member(es, "where", w);
            assert(entries_model(old(es)@).push(("where"@, w@)) =~= entries_model(old(es)@) + seq![("where"@, w@)]);
        },
        None => {
            assert(entries_model(old(es)@) =~= entries_model(old(es)@) + Seq::<(Seq<char>, JsonModel)>::empty());
        },
    }
}

fn order_to_json(o: &Order) -> (r: Json)
    ensures
        r@ == order_json(*o),
{
    let d = match o.direction {
        Direction::Ascending => "ASCENDING",
        Direction::Descending => "DESCENDING",
    };
    obj2("field", field_ref_json(&o.field), "direction", Json::Str(String::from_str(d)))
}

/// The request body of `q`.
pub fn structured_query(q: &QuerySpec) -> (r: Json)
    requires
        q.offset is Some ==> q.offset->0 <= i64::MAX,
        q.limit is Some ==> q.limit->0 <= i64::MAX,
    ensures
        r@ == query_json(*q),
{
    let mut es: Vec<(String, Json)> = Vec::new();
    push_from(&mut es, &q.collection);
    push_where(&mut es, &q.filters);
    let ghost m1 = entries_model(es@);
    if q.order_by.len() > 0 {
        let mut parts: Vec<Json> = Vec::new();
        let mut i: usize = 0;
        while i < q.order_by.len()
            invariant
                i <= q.order_by@.len(),
                parts@.len() == i,
                forall|k: int| 0 <= k < i ==> (#[trigger] parts@[k])@ == order_json(q.order_by@[k]),
            decreases q.order_by@.len() - i,
        {
            parts.push(order_to_json(&q.order_by[i]));
            i += 1;
        }
        let arr = Json::Arr(parts);
        assert(arr@->Arr_0 =~= Seq::new(q.order_by@.len(), |i: int| order_json(q.order_by@[i])));
        push_member(&mut es, "orderBy", arr);
    }
    let ghost m2 = entries_model(es@);
    match q.limit {
        Some(n) => push_member(&mut es, "limit", Json::Int(n as i64)),
        None => {},
    }
    let ghost m3 = entries_model(es@);
    match q.offset {
        Some(n) => push_member(&mut es, "offset", Json::Int(n as i64)),
        None => {},
    }
    let ghost m4 = entries_model(es@);
    let body = object(es);
    proof {
        let w = match where_json(q.filters@) {
            Some(w) => seq![("where"@, w)],
            None => Seq::<(Seq<char>, JsonModel)>::empty(),
        };
        assert(m1 =~= seq![from_entry(q.collection@)] + w);
        let o = if q.order_by@.len() == 0 {
            Seq::<(Seq<char>, JsonModel)>::empty()
        } else {
            seq![("orderBy"@, JsonModel::Arr(Seq::new(q.order_by@.len(), |i: int| order_json(q.order_by@[i]))))]
        };
        assert(m2 =~= m1 + o);
        let l = match q.limit {
            Some(n) => seq![("limit"@, JsonModel::Int(n as i64))],
            None => Seq::<(Seq<char>, JsonModel)>::empty(),
        };
        assert(m3 =~= m2 + l);
        let off = match q.offset {
            Some(n) => seq![("offset"@, JsonModel::Int(n as i64))],
            None => Seq::<(Seq<char>, JsonModel)>::empty(),
        };
        assert(m4 =~= m3 + off);
        assert(body@->Obj_0 =~= query_entries(*q));
    }
    tag("structuredQuery", body)
}

/// The request body of a count query over `collection` with `filters`.
pub fn count_query(collection: &String, filters: &Vec<FieldFilter>) -> (r: Json)
    ensures
        r@ == count_query_json(collection@, filters@),
{
    let mut es: Vec<(String, Json)> = Vec::new();
    push_from(&mut es, collection);
    push_where(&mut es, filters);
    let inner = object(es);
    let count = obj2("alias", Json::Str(String::from_str("count")), "count", object(Vec::new()));
    let ghost cm = count@;
    let aggs = Json::Arr(vec![count]);
    proof {
        assert(aggs@->Arr_0 =~= seq![cm]);
        assert(entries_model(Seq::<(String, Json)>::empty()) =~= Seq::<(Seq<char>, JsonModel)>::empty());
        let w = match where_json(filters@) {
            Some(w) => seq![("where"@, w)],
            None => Seq::<(Seq<char>, JsonModel)>::empty(),
        };
        assert(inner@->Obj_0 =~= seq![from_entry(collection@)] + w);
    }
    tag("structuredAggregationQuery", obj2("structuredQuery", inner, "aggregations", aggs))
}

/// The member `key` of an optional value.
pub open spec fn opt_member(o: Option<JsonModel>, key: Seq<char>) -> Option<JsonModel> {
    match o {
        Some(j) => member(j, key),
        None => None,
    }
}

/// The count in a count query's answer
/// `[{"result": {"aggregateFields": {"count": {"integerValue": "n"}}}}]`,
/// or 0 where the answer does not have that shape.
pub open spec fn count_of(results: JsonModel) -> i64 {
    let first = match results {
        JsonModel::Arr(xs) => if xs.len() > 0 {
            Some(xs[0])
        } else {
            None
        },
        _ => None,
    };
    let v = opt_member(
        opt_member(opt_member(opt_member(first, "result"@), "aggregateFields"@), "count"@),
        "integerValue"@,
    );
    match v {
        Some(JsonModel::Str(s)) => match parse_i64_text(s) {
            Some(n) => n,
            None => 0,
        },
        _ => 0,
    }
}

/// The count in a count query's answer; 0 where it cannot be read.
pub fn parse_count(results: &Json) -> (r: i64)
    ensures
        r == count_of(results@),
{
    let xs = if let Json::Arr(xs) = results {
        xs
    } else {
        return 0;
    };
    if xs.len() == 0 {
        return 0;
    }
    assert(results@->Arr_0[0] == xs@[0]@);
    let a = match xs[0].get("result") {
        Some(a) => a,
        None => return 0,
    };
    let b = match a.get("aggregateFields") {
        Some(b) => b,
        None => return 0,
    };
    let c = match b.get("count") {
        Some(c) => c,
        None => return 0,
    };
    let d = match c.get("integerValue") {
        Some(d) => d,
        None => return 0,
    };
    match d.as_str() {
        Some(s) => match parse_i64(s) {
            Some(n) => n,
            None => 0,
        },
        None => 0,
    }
}

/// How many results to ask for to learn whether more than `limit` exist.
pub fn fetch_limit(limit: usize) -> (r: usize)
    requires
        limit < usize::MAX,
    ensures
        r == limit + 1,
{
    limit + 1
}

/// The page that `limit` allows of `items`, and whether items were left out.
pub open spec fn page_of<T>(items: Seq<T>, limit: nat) -> (Seq<T>, bool) {
    if items.len() > limit {
        (items.subrange(0, limit as int), true)
    } else {
        (items, false)
    }
}

/// Cuts `items`, fetched with one more than `limit`, down to `limit` and says
/// whether any were cut.
pub fn paginate<T>(items: Vec<T>, limit: usize) -> (r: (Vec<T>, bool))
    ensures
        (r.0@, r.1) == page_of(items@, limit as nat),
{
    let mut items = items;
    let has_more = items.len() > limit;
    items.truncate(limit);
    (items, has_more)
}

/// With one item more than the limit a page holds `limit` items and says
/// more exist; with exactly `limit` items it holds them all and says none do.
pub proof fn law_pagination<T>(items: Seq<T>, limit: nat)
    ensures
        items.len() == limit + 1 ==> page_of(items, limit).0.len() == limit && page_of(items, limit).1,
        items.len() == limit ==> page_of(items, limit).0 == items && !page_of(items, limit).1,
{
}

/// No filter leaves the where-clause out, one filter stands in it alone, and
/// more are joined by one AND that holds exactly them, in the order given.
pub proof fn law_filter_composition(q: QuerySpec)
    ensures
        q.filters@.len() == 0 ==> lookup_where(q) is None,
        q.filters@.len() == 1 ==> lookup_where(q) == Some(filter_json(q.filters@[0])),
        q.filters@.len() >= 2 ==> lookup_where(q) == Some(
            tagged(
                "compositeFilter"@,
                JsonModel::Obj(
                    seq![("op"@, JsonModel::Str("AND"@)), ("filters"@, JsonModel::Arr(filters_json(q.filters@)))],
                ),
            ),
        ),
        q.filters@.len() >= 2 ==> filters_json(q.filters@).len() == q.filters@.len() && forall|i: int|
            0 <= i < q.filters@.len() ==> #[trigger] filters_json(q.filters@)[i] == filter_json(q.filters@[i]),
{
    reveal_strlit("where");
    reveal_strlit("from");
    reveal_strlit("orderBy");
    reveal_strlit("limit");
    reveal_strlit("offset");
    reveal_strlit("structuredQuery");
    assert("from"@[0] != "where"@[0]);
    assert("orderBy"@[0] != "where"@[0]);
    assert("limit"@[0] != "where"@[0]);
    assert("offset"@[0] != "where"@[0]);
    let es = query_entries(q);
    let w = match where_json(q.filters@) {
        Some(w) => seq![("where"@, w)],
        None => Seq::<(Seq<char>, JsonModel)>::empty(),
    };
    let o = if q.order_by@.len() == 0 {
        Seq::<(Seq<char>, JsonModel)>::empty()
    } else {
        seq![("orderBy"@, JsonModel::Arr(Seq::new(q.order_by@.len(), |i: int| order_json(q.order_by@[i]))))]
    };
    let l = match q.limit {
        Some(n) => seq![("limit"@, JsonModel::Int(n as i64))],
        None => Seq::<(Seq<char>, JsonModel)>::empty(),
    };
    let off = match q.offset {
        Some(n) => seq![("offset"@, JsonModel::Int(n as i64))],
        None => Seq::<(Seq<char>, JsonModel)>::empty(),
    };
    let rest = o + l + off;
    assert(es =~= seq![from_entry(q.collection@)] + (w + rest));
    assert(rest =~= o + l + off);
    assert forall|k: int| 0 <= k < rest.len() implies rest[k].0 != "where"@ by {
        if k < o.len() {
            assert(rest[k] == o[k]);
        } else if k < o.len() + l.len() {
            assert(rest[k] == l[k - o.len()]);
        } else {
            assert(rest[k] == off[k - o.len() - l.len()]);
        }
    }
    lemma_lookup_absent(rest, "where"@);
    assert((seq![from_entry(q.collection@)] + (w + rest)).drop_first() =~= w + rest);
    assert(member(query_json(q), "structuredQuery"@) == Some(JsonModel::Obj(es)));
    assert(crate::json::lookup(es, "where"@) == crate::json::lookup(w + rest, "where"@));
    if w.len() > 0 {
        assert((w + rest)[0] == w[0]);
        assert(crate::json::lookup(w + rest, "where"@) == Some(w[0].1));
    } else {
        assert(w + rest =~= rest);
    }
}

/// The where-clause a query's request body holds, if any.
pub open spec fn lookup_where(q: QuerySpec) -> Option<JsonModel> {
    opt_member(member(query_json(q), "structuredQuery"@), "where"@)
}

proof fn lemma_lookup_absent(es: Seq<(Seq<char>, JsonModel)>, key: Seq<char>)
    requires
        forall|k: int| 0 <= k < es.len() ==> es[k].0 != key,
    ensures
        crate::json::lookup(es, key) is None,
    decreases es.len(),
{
    if es.len() > 0 {
        assert(es[0].0 != key);
        lemma_lookup_absent(es.drop_first(), key);
    }
}

} // verus!
