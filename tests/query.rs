use omi_store::json::Json;
use omi_store::query::{
    count_query, fetch_limit, paginate, parse_count, parse_op, structured_query, where_clause, Direction,
    FieldFilter, FieldOp, Order, QueryError, QuerySpec,
};
use omi_store::store::{action_items_query, conversation_filters, conversations_query, memories_query};
use omi_store::value::TypedValue;

fn s(x: &str) -> Json {
    Json::Str(x.to_string())
}

fn obj(entries: Vec<(&str, Json)>) -> Json {
    Json::Obj(entries.into_iter().map(|(k, v)| (k.to_string(), v)).collect())
}

fn eq_filter(field: &str, b: bool) -> FieldFilter {
    FieldFilter::new(field.to_string(), FieldOp::Equal, TypedValue::Bool(b)).unwrap()
}

fn eq_filter_json(field: &str, b: bool) -> Json {
    obj(vec![(
        "fieldFilter",
        obj(vec![
            ("field", obj(vec![("fieldPath", s(field))])),
            ("op", s("EQUAL")),
            ("value", obj(vec![("booleanValue", Json::Bool(b))])),
        ]),
    )])
}

#[test]
fn no_filter_no_where_clause() {
    assert_eq!(where_clause(&vec![]), None);
}

#[test]
fn one_filter_stands_alone() {
    assert_eq!(where_clause(&vec![eq_filter("discarded", false)]), Some(eq_filter_json("discarded", false)));
}

#[test]
fn several_filters_join_in_one_and() {
    let w = where_clause(&vec![eq_filter("a", true), eq_filter("b", false), eq_filter("c", true)]);
    let expected = obj(vec![(
        "compositeFilter",
        obj(vec![
            ("op", s("AND")),
            ("filters", Json::Arr(vec![eq_filter_json("a", true), eq_filter_json("b", false), eq_filter_json("c", true)])),
        ]),
    )]);
    assert_eq!(w, Some(expected));
}

#[test]
fn null_test_is_a_unary_filter() {
    let f = FieldFilter::new("due_at".to_string(), FieldOp::IsNull, TypedValue::Null).unwrap();
    let expected = obj(vec![(
        "unaryFilter",
        obj(vec![("op", s("IS_NULL")), ("field", obj(vec![("fieldPath", s("due_at"))]))]),
    )]);
    assert_eq!(where_clause(&vec![f]), Some(expected));
}

#[test]
fn unsupported_operators_are_refused_at_construction() {
    assert_eq!(parse_op("GREATER_THAN").unwrap(), FieldOp::GreaterThan);
    assert_eq!(parse_op("OR"), Err(QueryError::UnsupportedOperator("OR".to_string())));
    assert_eq!(parse_op("ARRAY_CONTAINS"), Err(QueryError::UnsupportedOperator("ARRAY_CONTAINS".to_string())));
    assert!(matches!(FieldFilter::new("s".to_string(), FieldOp::In, TypedValue::Int(1)), Err(QueryError::InNeedsArray)));
    assert!(matches!(
        FieldFilter::new("s".to_string(), FieldOp::IsNull, TypedValue::Int(1)),
        Err(QueryError::IsNullTakesNoValue)
    ));
}

#[test]
fn structured_query_shape() {
    let q = QuerySpec {
        collection: "action_items".to_string(),
        filters: vec![eq_filter("completed", false)],
        order_by: vec![Order { field: "created_at".to_string(), direction: Direction::Descending }],
        limit: Some(11),
        offset: Some(0),
    };
    let expected = obj(vec![(
        "structuredQuery",
        obj(vec![
            ("from", Json::Arr(vec![obj(vec![("collectionId", s("action_items"))])])),
            ("where", eq_filter_json("completed", false)),
            (
                "orderBy",
                Json::Arr(vec![obj(vec![
                    ("field", obj(vec![("fieldPath", s("created_at"))])),
                    ("direction", s("DESCENDING")),
                ])]),
            ),
            ("limit", Json::Int(11)),
            ("offset", Json::Int(0)),
        ]),
    )]);
    assert_eq!(structured_query(&q), expected);
}

#[test]
fn pagination_with_one_extra_result_has_more() {
    assert_eq!(fetch_limit(10), 11);
    let (page, more) = paginate((0..11).collect::<Vec<i32>>(), 10);
    assert_eq!(page, (0..10).collect::<Vec<i32>>());
    assert!(more);
}

#[test]
fn pagination_with_exactly_limit_results_has_no_more() {
    let (page, more) = paginate((0..10).collect::<Vec<i32>>(), 10);
    assert_eq!(page.len(), 10);
    assert!(!more);
    let (page, more) = paginate(Vec::<i32>::new(), 0);
    assert!(page.is_empty());
    assert!(!more);
}

#[test]
fn count_answer_is_read_or_zero() {
    let answer = Json::Arr(vec![obj(vec![(
        "result",
        obj(vec![("aggregateFields", obj(vec![("count", obj(vec![("integerValue", s("123"))]))]))]),
    )])]);
    assert_eq!(parse_count(&answer), 123);
    assert_eq!(parse_count(&Json::Arr(vec![])), 0);
    assert_eq!(parse_count(&s("oops")), 0);
    let bad = Json::Arr(vec![obj(vec![(
        "result",
        obj(vec![("aggregateFields", obj(vec![("count", obj(vec![("integerValue", s("many"))]))]))]),
    )])]);
    assert_eq!(parse_count(&bad), 0);
}

#[test]
fn count_query_shape() {
    let q = count_query(&"conversations".to_string(), &vec![]);
    let expected = obj(vec![(
        "structuredAggregationQuery",
        obj(vec![
            ("structuredQuery", obj(vec![("from", Json::Arr(vec![obj(vec![("collectionId", s("conversations"))])]))])),
            ("aggregations", Json::Arr(vec![obj(vec![("alias", s("count")), ("count", obj(vec![]))])])),
        ]),
    )]);
    assert_eq!(q, expected);
}

#[test]
fn conversation_listing_filters() {
    assert!(conversation_filters(true, &vec![]).is_empty());
    let f = conversation_filters(false, &vec!["processing".to_string(), "completed".to_string()]);
    assert_eq!(f.len(), 2);
    assert_eq!(f[0].field, "discarded");
    assert_eq!(f[1].field, "status");
    assert_eq!(f[1].op, FieldOp::In);
    assert_eq!(
        f[1].value,
        TypedValue::Array(vec![TypedValue::Str("processing".to_string()), TypedValue::Str("completed".to_string())])
    );
    let q = conversations_query(25, 5, true, &vec![]);
    assert_eq!(q.collection, "conversations");
    assert_eq!(q.limit, Some(25));
    assert_eq!(q.offset, Some(5));
}

#[test]
fn collection_queries() {
    let a = action_items_query(11, 0, Some(true));
    assert_eq!(a.filters.len(), 1);
    assert_eq!(a.filters[0].value, TypedValue::Bool(true));
    assert!(action_items_query(11, 0, None).filters.is_empty());
    let m = memories_query(100);
    assert_eq!(m.order_by.len(), 2);
    assert_eq!(m.order_by[0].field, "scoring");
    assert_eq!(m.offset, None);
}
