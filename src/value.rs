//! The tagged-value wire codec: each field value travels as a one-member
//! object whose key names its type.
use vstd::prelude::*;
use crate::json::{Json, JsonModel, json_model, str_eq};
use crate::decimal::{int_text, parse_i64_text, i64_text, parse_i64};

verus! {

/// A field value of a stored document. Doubles keep their decimal text,
/// byte blobs their base64 text and timestamps their RFC 3339 text.
#[derive(Debug, PartialEq)]
pub enum TypedValue {
    Null,
    Bool(bool),
    Int(i64),
    Double(String),
    Str(String),
    Bytes(String),
    Timestamp(String),
    Array(Vec<TypedValue>),
    Object(Vec<(String, TypedValue)>),
}

/// The mathematical content of a [`TypedValue`].
pub enum ValueModel {
    Null,
    Bool(bool),
    Int(i64),
    Double(Seq<char>),
    Str(Seq<char>),
    Bytes(Seq<char>),
    Timestamp(Seq<char>),
    Array(Seq<ValueModel>),
    Object(Seq<(Seq<char>, ValueModel)>),
}

impl View for TypedValue {
    type V = ValueModel;

    open spec fn view(&self) -> ValueModel {
        value_model(*self)
    }
}

/// The mathematical content of a field value.
pub open spec fn value_model(v: TypedValue) -> ValueModel
    decreases v,
{
        match v {
            TypedValue::Null => ValueModel::Null,
            TypedValue::Bool(b) => ValueModel::Bool(b),
            TypedValue::Int(n) => ValueModel::Int(n),
            TypedValue::Double(t) => ValueModel::Double(t@),
            TypedValue::Str(s) => ValueModel::Str(s@),
            TypedValue::Bytes(s) => ValueModel::Bytes(s@),
            TypedValue::Timestamp(s) => ValueModel::Timestamp(s@),
            TypedValue::Array(xs) => ValueModel::Array(
                Seq::new(
                    xs@.len(),
                    |i: int|
                        if 0 <= i < xs@.len() {
                            value_model(xs@[i])
                        } else {
                            ValueModel::Null
                        },
                ),
            ),
            TypedValue::Object(es) => ValueModel::Object(
                Seq::new(
                    es@.len(),
                    |i: int|
                        if 0 <= i < es@.len() {
                            (es@[i].0@, value_model(es@[i].1))
                        } else {
                            (Seq::empty(), ValueModel::Null)
                        },
                ),
            ),
        }
}

/// A one-member object `{tag: payload}`.
pub open spec fn tagged(tag: Seq<char>, payload: JsonModel) -> JsonModel {
    JsonModel::Obj(seq![(tag, payload)])
}

/// The wire form of a value.
pub open spec fn encode_model(v: ValueModel) -> JsonModel
    decreases v,
{
    match v {
        ValueModel::Null => tagged("nullValue"@, JsonModel::Null),
        ValueModel::Bool(b) => tagged("booleanValue"@, JsonModel::Bool(b)),
        ValueModel::Int(n) => tagged("integerValue"@, JsonModel::Str(int_text(n as int))),
        ValueModel::Double(t) => tagged("doubleValue"@, JsonModel::Num(t)),
        ValueModel::Str(s) => tagged("stringValue"@, JsonModel::Str(s)),
        ValueModel::Bytes(s) => tagged("bytesValue"@, JsonModel::Str(s)),
        ValueModel::Timestamp(s) => tagged("timestampValue"@, JsonModel::Str(s)),
        ValueModel::Array(vs) => tagged(
            "arrayValue"@,
            tagged(
                "values"@,
                JsonModel::Arr(
                    Seq::new(
                        vs.len(),
                        |i: int|
                            if 0 <= i < vs.len() {
                                encode_model(vs[i])
                            } else {
                                JsonModel::Null
                            },
                    ),
                ),
            ),
        ),
        ValueModel::Object(es) => tagged(
            "mapValue"@,
            tagged(
                "fields"@,
                JsonModel::Obj(
                    Seq::new(
                        es.len(),
                        |i: int|
                            if 0 <= i < es.len() {
                                (es[i].0, encode_model(es[i].1))
                            } else {
                                (Seq::empty(), JsonModel::Null)
                            },
                    ),
                ),
            ),
        ),
    }
}

/// The value that a wire form stands for, if it is a well-formed one.
pub open spec fn decode_model(j: JsonModel) -> Option<ValueModel>
    decreases j,
{
    match j {
        JsonModel::Obj(es) => if es.len() != 1 {
            None
        } else {
            let tag = es[0].0;
            let p = es[0].1;
            if tag == "nullValue"@ {
                match p {
                    JsonModel::Null => Some(ValueModel::Null),
                    _ => None,
                }
            } else if tag == "booleanValue"@ {
                match p {
                    JsonModel::Bool(b) => Some(ValueModel::Bool(b)),
                    _ => None,
                }
            } else if tag == "integerValue"@ {
                match p {
                    JsonModel::Str(t) => match parse_i64_text(t) {
                        Some(n) => Some(ValueModel::Int(n)),
                        None => None,
                    },
                    _ => None,
                }
            } else if tag == "doubleValue"@ {
                match p {
                    JsonModel::Num(t) => Some(ValueModel::Double(t)),
                    JsonModel::Int(n) => Some(ValueModel::Double(int_text(n as int))),
                    _ => None,
                }
            } else if tag == "stringValue"@ {
                match p {
                    JsonModel::Str(s) => Some(ValueModel::Str(s)),
                    _ => None,
                }
            } else if tag == "bytesValue"@ {
                match p {
                    JsonModel::Str(s) => Some(ValueModel::Bytes(s)),
                    _ => None,
                }
            } else if tag == "timestampValue"@ {
                match p {
                    JsonModel::Str(s) => Some(ValueModel::Timestamp(s)),
                    _ => None,
                }
            } else if tag == "arrayValue"@ {
                match p {
                    JsonModel::Obj(inner) => if inner.len() == 0 {
                        Some(ValueModel::Array(Seq::empty()))
                    } else if inner.len() == 1 && inner[0].0 == "values"@ {
                        match inner[0].1 {
                            JsonModel::Arr(xs) => if forall|i: int|
                                0 <= i < xs.len() ==> decode_model(#[trigger] xs[i]) is Some {
                                Some(
                                    ValueModel::Array(
                                        Seq::new(
                                            xs.len(),
                                            |i: int|
                                                if 0 <= i < xs.len() {
                                                    decode_model(xs[i])->0
                                                } else {
                                                    ValueModel::Null
                                                },
                                        ),
                                    ),
                                )
                            } else {
                                None
                            },
                            _ => None,
                        }
                    } else {
                        None
                    },
                    _ => None,
                }
            } else if tag == "mapValue"@ {
                match p {
                    JsonModel::Obj(inner) => if inner.len() == 0 {
                        Some(ValueModel::Object(Seq::empty()))
                    } else if inner.len() == 1 && inner[0].0 == "fields"@ {
                        match inner[0].1 {
                            JsonModel::Obj(fs) => if forall|i: int|
                                0 <= i < fs.len() ==> decode_model((#[trigger] fs[i]).1) is Some {
                                Some(
                                    ValueModel::Object(
                                        Seq::new(
                                            fs.len(),
                                            |i: int|
                                                if 0 <= i < fs.len() {
                                                    (fs[i].0, decode_model(fs[i].1)->0)
                                                } else {
                                                    (Seq::empty(), ValueModel::Null)
                                                },
                                        ),
                                    ),
                                )
                            } else {
                                None
                            },
                            _ => None,
                        }
                    } else {
                        None
                    },
                    _ => None,
                }
            } else {
                None
            }
        },
        _ => None,
    }
}

proof fn lemma_tags_distinct()
    ensures
        "nullValue"@ != "booleanValue"@,
        "nullValue"@ != "integerValue"@,
        "nullValue"@ != "doubleValue"@,
        "nullValue"@ != "stringValue"@,
        "nullValue"@ != "bytesValue"@,
        "nullValue"@ != "timestampValue"@,
        "nullValue"@ != "arrayValue"@,
        "nullValue"@ != "mapValue"@,
        "booleanValue"@ != "integerValue"@,
        "booleanValue"@ != "doubleValue"@,
        "booleanValue"@ != "stringValue"@,
        "booleanValue"@ != "bytesValue"@,
        "booleanValue"@ != "timestampValue"@,
        "booleanValue"@ != "arrayValue"@,
        "booleanValue"@ != "mapValue"@,
        "integerValue"@ != "doubleValue"@,
        "integerValue"@ != "stringValue"@,
        "integerValue"@ != "bytesValue"@,
        "integerValue"@ != "timestampValue"@,
        "integerValue"@ != "arrayValue"@,
        "integerValue"@ != "mapValue"@,
        "doubleValue"@ != "stringValue"@,
        "doubleValue"@ != "bytesValue"@,
        "doubleValue"@ != "timestampValue"@,
        "doubleValue"@ != "arrayValue"@,
        "doubleValue"@ != "mapValue"@,
        "stringValue"@ != "bytesValue"@,
        "stringValue"@ != "timestampValue"@,
        "stringValue"@ != "arrayValue"@,
        "stringValue"@ != "mapValue"@,
        "bytesValue"@ != "timestampValue"@,
        "bytesValue"@ != "arrayValue"@,
        "bytesValue"@ != "mapValue"@,
        "timestampValue"@ != "arrayValue"@,
        "timestampValue"@ != "mapValue"@,
        "arrayValue"@ != "mapValue"@,
{
    reveal_strlit("nullValue");
    reveal_strlit("booleanValue");
    reveal_strlit("integerValue");
    reveal_strlit("doubleValue");
    reveal_strlit("stringValue");
    reveal_strlit("bytesValue");
    reveal_strlit("timestampValue");
    reveal_strlit("arrayValue");
    reveal_strlit("mapValue");
    assert("nullValue"@[0] != "booleanValue"@[0]);
    assert("nullValue"@[0] != "integerValue"@[0]);
    assert("nullValue"@[0] != "doubleValue"@[0]);
    assert("nullValue"@[0] != "stringValue"@[0]);
    assert("nullValue"@[0] != "bytesValue"@[0]);
    assert("nullValue"@[0] != "timestampValue"@[0]);
    assert("nullValue"@[0] != "arrayValue"@[0]);
    assert("nullValue"@[0] != "mapValue"@[0]);
    assert("booleanValue"@[0] != "integerValue"@[0]);
    assert("booleanValue"@[1] != "bytesValue"@[1]);
    assert("booleanValue"@[0] != "doubleValue"@[0]);
    assert("booleanValue"@[0] != "stringValue"@[0]);
    assert("booleanValue"@[0] != "timestampValue"@[0]);
    assert("booleanValue"@[0] != "arrayValue"@[0]);
    assert("booleanValue"@[0] != "mapValue"@[0]);
    assert("integerValue"@[0] != "doubleValue"@[0]);
    assert("integerValue"@[0] != "stringValue"@[0]);
    assert("integerValue"@[0] != "bytesValue"@[0]);
    assert("integerValue"@[0] != "timestampValue"@[0]);
    assert("integerValue"@[0] != "arrayValue"@[0]);
    assert("integerValue"@[0] != "mapValue"@[0]);
    assert("doubleValue"@[0] != "stringValue"@[0]);
    assert("doubleValue"@[0] != "bytesValue"@[0]);
    assert("doubleValue"@[0] != "timestampValue"@[0]);
    assert("doubleValue"@[0] != "arrayValue"@[0]);
    assert("doubleValue"@[0] != "mapValue"@[0]);
    assert("stringValue"@[0] != "bytesValue"@[0]);
    assert("stringValue"@[0] != "timestampValue"@[0]);
    assert("stringValue"@[0] != "arrayValue"@[0]);
    assert("stringValue"@[0] != "mapValue"@[0]);
    assert("bytesValue"@[0] != "timestampValue"@[0]);
    assert("bytesValue"@[0] != "arrayValue"@[0]);
    assert("bytesValue"@[0] != "mapValue"@[0]);
    assert("timestampValue"@[0] != "arrayValue"@[0]);
    assert("timestampValue"@[0] != "mapValue"@[0]);
    assert("arrayValue"@[0] != "mapValue"@[0]);
}

/// Decoding the wire form of a value gives the value back.
pub proof fn lemma_decode_encode(v: ValueModel)
    ensures
        decode_model(encode_model(v)) == Some(v),
    decreases v,
{
    lemma_tags_distinct();
    match v {
        ValueModel::Int(n) => {
            crate::decimal::lemma_int_text_round_trip(n as int);
            assert(parse_i64_text(int_text(n as int)) == Some(n));
        },
        ValueModel::Array(vs) => {
            let xs = Seq::new(
                vs.len(),
                |i: int|
                    if 0 <= i < vs.len() {
                        encode_model(vs[i])
                    } else {
                        JsonModel::Null
                    },
            );
            assert forall|i: int| 0 <= i < xs.len() implies #[trigger] decode_model(xs[i]) == Some(vs[i]) by {
                lemma_decode_encode(vs[i]);
            }
            let back = Seq::new(
                xs.len(),
                |i: int|
                    if 0 <= i < xs.len() {
                        decode_model(xs[i])->0
                    } else {
                        ValueModel::Null
                    },
            );
            assert(back =~= vs);
            let j = encode_model(v);
            assert(j->Obj_0[0].1->Obj_0[0].1->Arr_0 =~= xs);
            assert(j == tagged("arrayValue"@, tagged("values"@, JsonModel::Arr(xs))));
            let p = j->Obj_0[0].1;
            assert(p == tagged("values"@, JsonModel::Arr(xs)));
            assert(p->Obj_0.len() == 1);
            assert(p->Obj_0[0].1 == JsonModel::Arr(xs));
            assert(forall|i: int| 0 <= i < xs.len() ==> (#[trigger] decode_model(xs[i])) is Some);
            assert(decode_model(j)->0->Array_0 =~= vs);
        },
        ValueModel::Object(es) => {
            let fs = Seq::new(
                es.len(),
                |i: int|
                    if 0 <= i < es.len() {
                        (es[i].0, encode_model(es[i].1))
                    } else {
                        (Seq::empty(), JsonModel::Null)
                    },
            );
            assert forall|i: int| 0 <= i < fs.len() implies #[trigger] decode_model(fs[i].1) == Some(es[i].1) by {
                lemma_decode_encode(es[i].1);
            }
            let back = Seq::new(
                fs.len(),
                |i: int|
                    if 0 <= i < fs.len() {
                        (fs[i].0, decode_model(fs[i].1)->0)
                    } else {
                        (Seq::empty(), ValueModel::Null)
                    },
            );
            assert(back =~= es);
            let j = encode_model(v);
            assert(j->Obj_0[0].1->Obj_0[0].1->Obj_0 =~= fs);
            assert(j == tagged("mapValue"@, tagged("fields"@, JsonModel::Obj(fs))));
            let p = j->Obj_0[0].1;
            assert(p == tagged("fields"@, JsonModel::Obj(fs)));
            assert(p->Obj_0.len() == 1);
            assert(p->Obj_0[0].1 == JsonModel::Obj(fs));
            assert(forall|i: int| 0 <= i < fs.len() ==> (#[trigger] decode_model(fs[i].1)) is Some);
            assert(decode_model(j)->0->Object_0 =~= es);
        },
        _ => {},
    }
}

proof fn lemma_item_smaller(v: TypedValue, vs: Vec<TypedValue>, i: int)
    requires
        v == TypedValue::Array(vs),
        0 <= i < vs@.len(),
    ensures
        decreases_to!(v => vs@[i]),
{
    assert(decreases_to!(v => v->Array_0));
    assert(decreases_to!(v => vs));
    assert(decreases_to!(vs => vs@));
    assert(decreases_to!(vs@ => vs@[i]));
}

proof fn lemma_entry_smaller(v: TypedValue, es: Vec<(String, TypedValue)>, i: int)
    requires
        v == TypedValue::Object(es),
        0 <= i < es@.len(),
    ensures
        decreases_to!(v => es@[i].1),
{
    assert(decreases_to!(v => v->Object_0));
    assert(decreases_to!(v => es));
    assert(decreases_to!(es => es@));
    assert(decreases_to!(es@ => es@[i]));
    assert(decreases_to!(es@[i] => es@[i].1));
}

proof fn lemma_payload_smaller(j: Json, es: Vec<(String, Json)>, inner: Vec<(String, Json)>)
    requires
        j == Json::Obj(es),
        es@.len() > 0,
        es@[0].1 == Json::Obj(inner),
        inner@.len() > 0,
    ensures
        decreases_to!(j => inner@[0].1),
{
    assert(decreases_to!(j => j->Obj_0));
    assert(decreases_to!(j => es));
    assert(decreases_to!(es => es@));
    assert(decreases_to!(es@ => es@[0]));
    assert(decreases_to!(es@[0] => es@[0].1));
    assert(decreases_to!(es@[0].1 => es@[0].1->Obj_0));
    assert(decreases_to!(es@[0].1 => inner));
    assert(decreases_to!(inner => inner@));
    assert(decreases_to!(inner@ => inner@[0]));
    assert(decreases_to!(inner@[0] => inner@[0].1));
}

proof fn lemma_json_item_smaller(j: Json, xs: Vec<Json>, i: int)
    requires
        j == Json::Arr(xs),
        0 <= i < xs@.len(),
    ensures
        decreases_to!(j => xs@[i]),
{
    assert(decreases_to!(j => j->Arr_0));
    assert(decreases_to!(j => xs));
    assert(decreases_to!(xs => xs@));
    assert(decreases_to!(xs@ => xs@[i]));
}

proof fn lemma_json_entry_smaller(j: Json, fs: Vec<(String, Json)>, i: int)
    requires
        j == Json::Obj(fs),
        0 <= i < fs@.len(),
    ensures
        decreases_to!(j => fs@[i].1),
{
    assert(decreases_to!(j => j->Obj_0));
    assert(decreases_to!(j => fs));
    assert(decreases_to!(fs => fs@));
    assert(decreases_to!(fs@ => fs@[i]));
    assert(decreases_to!(fs@[i] => fs@[i].1));
}

proof fn lemma_bad_item(jm: JsonModel, xm: Seq<JsonModel>, i: int)
    requires
        jm is Obj,
        jm->Obj_0.len() == 1,
        jm->Obj_0[0].0 == "arrayValue"@,
        jm->Obj_0[0].1 is Obj,
        jm->Obj_0[0].1->Obj_0.len() == 1,
        jm->Obj_0[0].1->Obj_0[0] == ("values"@, JsonModel::Arr(xm)),
        0 <= i < xm.len(),
        decode_model(xm[i]) is None,
    ensures
        decode_model(jm) is None,
{
    lemma_tags_distinct();
    assert(xm[i] == xm[i]);
}

proof fn lemma_bad_field(jm: JsonModel, fm: Seq<(Seq<char>, JsonModel)>, i: int)
    requires
        jm is Obj,
        jm->Obj_0.len() == 1,
        jm->Obj_0[0].0 == "mapValue"@,
        jm->Obj_0[0].1 is Obj,
        jm->Obj_0[0].1->Obj_0.len() == 1,
        jm->Obj_0[0].1->Obj_0[0] == ("fields"@, JsonModel::Obj(fm)),
        0 <= i < fm.len(),
        decode_model(fm[i].1) is None,
    ensures
        decode_model(jm) is None,
{
    lemma_tags_distinct();
    assert(fm[i] == fm[i]);
}

/// The content of an optional value.
pub open spec fn opt_view(r: Option<TypedValue>) -> Option<ValueModel> {
    match r {
        Some(v) => Some(v@),
        None => None,
    }
}

pub(crate) fn tag(name: &str, payload: Json) -> (r: Json)
    ensures
        r@ == tagged(name@, payload@),
{
    let ghost pv = payload@;
    let r = Json::Obj(vec![(String::from_str(name), payload)]);
    proof {
        assert(r@->Obj_0 =~= seq![(name@, pv)]);
    }
    r
}

/// The wire form of `v`.
pub fn encode(v: &TypedValue) -> (r: Json)
    ensures
        r@ == encode_model(v@),
    decreases v,
{
    match v {
        TypedValue::Null => tag("nullValue", Json::Null),
        TypedValue::Bool(b) => tag("booleanValue", Json::Bool(*b)),
        TypedValue::Int(n) => tag("integerValue", Json::Str(i64_text(*n))),
        TypedValue::Double(t) => tag("doubleValue", Json::Num(t.clone())),
        TypedValue::Str(t) => tag("stringValue", Json::Str(t.clone())),
        TypedValue::Bytes(t) => tag("bytesValue", Json::Str(t.clone())),
        TypedValue::Timestamp(t) => tag("timestampValue", Json::Str(t.clone())),
        TypedValue::Array(vs) => {
            let mut out: Vec<Json> = Vec::new();
            let mut i: usize = 0;
            while i < vs.len()
                invariant
                    *v == TypedValue::Array(*vs),
                    i <= vs@.len(),
                    out@.len() == i,
                    forall|k: int| 0 <= k < i ==> (#[trigger] out@[k])@ == encode_model(vs@[k]@),
                decreases vs@.len() - i,
            {
                proof {
                    lemma_item_smaller(*v, *vs, i as int);
                }
                let e = encode(&vs[i]);
                out.push(e);
                i += 1;
            }
            let arr = Json::Arr(out);
            proof {
                assert(v@ is Array);
                assert(v@->Array_0.len() == vs@.len());
                assert(arr@->Arr_0.len() == vs@.len());
                assert(encode_model(v@)->Obj_0[0].1->Obj_0[0].1->Arr_0.len() == vs@.len());
                assert(arr@->Arr_0 =~= encode_model(v@)->Obj_0[0].1->Obj_0[0].1->Arr_0);
            }
            tag("arrayValue", tag("values", arr))
        },
        TypedValue::Object(es) => {
            let mut out: Vec<(String, Json)> = Vec::new();
            let mut i: usize = 0;
            while i < es.len()
                invariant
                    *v == TypedValue::Object(*es),
                    i <= es@.len(),
                    out@.len() == i,
                    forall|k: int|
                        0 <= k < i ==> (#[trigger] out@[k]).0@ == es@[k].0@ && out@[k].1@
                            == encode_model(es@[k].1@),
                decreases es@.len() - i,
            {
                proof {
                    lemma_entry_smaller(*v, *es, i as int);
                }
                let e = encode(&es[i].1);
                out.push((es[i].0.clone(), e));
                i += 1;
            }
            let obj = Json::Obj(out);
            proof {
                assert(obj@->Obj_0 =~= encode_model(v@)->Obj_0[0].1->Obj_0[0].1->Obj_0);
            }
            tag("mapValue", tag("fields", obj))
        },
    }
}

/// The value that `j` is the wire form of, if it is a well-formed one.
pub fn decode(j: &Json) -> (r: Option<TypedValue>)
    ensures
        opt_view(r) == decode_model(j@),
    decreases j, 1nat,
{
    if let Json::Obj(es) = j {
        decode_entry(j, es)
    } else {
        None
    }
}

fn decode_entry(j: &Json, es: &Vec<(String, Json)>) -> (r: Option<TypedValue>)
    requires
        *j == Json::Obj(*es),
    ensures
        opt_view(r) == decode_model(j@),
    decreases j, 0nat,
{
    if es.len() != 1 {
        return None;
    }
    let tag = es[0].0.as_str();
    let p = &es[0].1;
    assert(j@->Obj_0[0] == (tag@, p@));
    if str_eq(tag, "nullValue") {
        match p {
            Json::Null => Some(TypedValue::Null),
            _ => None,
        }
    } else if str_eq(tag, "booleanValue") {
        match p {
            Json::Bool(b) => Some(TypedValue::Bool(*b)),
            _ => None,
        }
    } else if str_eq(tag, "integerValue") {
        match p {
            Json::Str(t) => match parse_i64(t.as_str()) {
                Some(n) => Some(TypedValue::Int(n)),
                None => None,
            },
            _ => None,
        }
    } else if str_eq(tag, "doubleValue") {
        match p {
            Json::Num(t) => Some(TypedValue::Double(t.clone())),
            Json::Int(n) => Some(TypedValue::Double(i64_text(*n))),
            _ => None,
        }
    } else if str_eq(tag, "stringValue") {
        match p {
            Json::Str(t) => Some(TypedValue::Str(t.clone())),
            _ => None,
        }
    } else if str_eq(tag, "bytesValue") {
        match p {
            Json::Str(t) => Some(TypedValue::Bytes(t.clone())),
            _ => None,
        }
    } else if str_eq(tag, "timestampValue") {
        match p {
            Json::Str(t) => Some(TypedValue::Timestamp(t.clone())),
            _ => None,
        }
    } else if str_eq(tag, "arrayValue") {
        let inner = if let Json::Obj(inner) = p {
            inner
        } else {
            return None;
        };
        assert(*p == Json::Obj(*inner));
        if inner.len() == 0 {
            let r = Some(TypedValue::Array(Vec::new()));
            proof {
                assert(opt_view(r)->0->Array_0 =~= Seq::<ValueModel>::empty());
            }
            return r;
        }
        if inner.len() != 1 || !str_eq(inner[0].0.as_str(), "values") {
            return None;
        }
        assert(p@->Obj_0[0] == (inner@[0].0@, inner@[0].1@));
        let xs = if let Json::Arr(xs) = &inner[0].1 {
            xs
        } else {
            return None;
        };
        assert(inner@[0].1 == Json::Arr(*xs));
        let ghost xm = p@->Obj_0[0].1->Arr_0;
        assert(xm.len() == xs@.len());
        let mut out: Vec<TypedValue> = Vec::new();
        let mut i: usize = 0;
        while i < xs.len()
            invariant
                *j == Json::Obj(*es),
                es@.len() == 1,
                p == &es@[0].1,
                *p == Json::Obj(*inner),
                inner@.len() == 1,
                inner@[0].1 == Json::Arr(*xs),
                inner@[0].0@ == "values"@,
                tag@ == "arrayValue"@,
                tag@ == es@[0].0@,
                xm == p@->Obj_0[0].1->Arr_0,
                i <= xs@.len(),
                out@.len() == i,
                xm.len() == xs@.len(),
                forall|k: int| 0 <= k < xs@.len() ==> #[trigger] xm[k] == xs@[k]@,
                forall|k: int| 0 <= k < i ==> decode_model(#[trigger] xm[k]) == Some(out@[k]@),
            decreases xs@.len() - i,
        {
            proof {
                lemma_payload_smaller(*j, *es, *inner);
                lemma_json_item_smaller(inner@[0].1, *xs, i as int);
            }
            match decode(&xs[i]) {
                Some(d) => out.push(d),
                None => {
                    proof {
                        lemma_tags_distinct();
                        assert(decode_model(xm[i as int]) is None);
                        assert(j@->Obj_0[0].1 == p@);
                        assert(j@->Obj_0.len() == 1);
                        assert(j@->Obj_0[0].0 == "arrayValue"@);
                        assert(p@->Obj_0.len() == 1);
                        assert(p@->Obj_0[0].0 == "values"@);
                        assert(json_model(inner@[0].1) is Arr);
                        assert(p@->Obj_0[0].1 is Arr);
                        assert(p@->Obj_0[0].1->Arr_0 == xm);
                        lemma_bad_item(j@, xm, i as int);
                    }
                    return None;
                },
            }
            i += 1;
        }
        let r = Some(TypedValue::Array(out));
        proof {
            assert(forall|k: int| 0 <= k < xm.len() ==> (#[trigger] decode_model(xm[k])) is Some);
            assert(opt_view(r)->0->Array_0 =~= decode_model(j@)->0->Array_0);
        }
        r
    } else if str_eq(tag, "mapValue") {
        let inner = if let Json::Obj(inner) = p {
            inner
        } else {
            return None;
        };
        assert(*p == Json::Obj(*inner));
        if inner.len() == 0 {
            let r = Some(TypedValue::Object(Vec::new()));
            proof {
                assert(opt_view(r)->0->Object_0 =~= Seq::<(Seq<char>, ValueModel)>::empty());
            }
            return r;
        }
        if inner.len() != 1 || !str_eq(inner[0].0.as_str(), "fields") {
            return None;
        }
        assert(p@->Obj_0[0] == (inner@[0].0@, inner@[0].1@));
        let fs = if let Json::Obj(fs) = &inner[0].1 {
            fs
        } else {
            return None;
        };
        assert(inner@[0].1 == Json::Obj(*fs));
        let ghost fm = p@->Obj_0[0].1->Obj_0;
        assert(fm.len() == fs@.len());
        let mut out: Vec<(String, TypedValue)> = Vec::new();
        let mut i: usize = 0;
        while i < fs.len()
            invariant
                *j == Json::Obj(*es),
                es@.len() == 1,
                p == &es@[0].1,
                *p == Json::Obj(*inner),
                inner@.len() == 1,
                inner@[0].1 == Json::Obj(*fs),
                inner@[0].0@ == "fields"@,
                tag@ == "mapValue"@,
                tag@ == es@[0].0@,
                fm == p@->Obj_0[0].1->Obj_0,
                i <= fs@.len(),
                out@.len() == i,
                fm.len() == fs@.len(),
                forall|k: int| 0 <= k < fs@.len() ==> #[trigger] fm[k] == (fs@[k].0@, fs@[k].1@),
                forall|k: int|
                    0 <= k < i ==> decode_model(#[trigger] fm[k].1) == Some(out@[k].1@)
                        && out@[k].0@ == fm[k].0,
            decreases fs@.len() - i,
        {
            proof {
                lemma_payload_smaller(*j, *es, *inner);
                lemma_json_entry_smaller(inner@[0].1, *fs, i as int);
            }
            match decode(&fs[i].1) {
                Some(d) => out.push((fs[i].0.clone(), d)),
                None => {
                    proof {
                        lemma_tags_distinct();
                        assert(decode_model(fm[i as int].1) is None);
                        assert(j@->Obj_0[0].1 == p@);
                        assert(j@->Obj_0.len() == 1);
                        assert(j@->Obj_0[0].0 == "mapValue"@);
                        assert(p@->Obj_0.len() == 1);
                        assert(p@->Obj_0[0].0 == "fields"@);
                        assert(json_model(inner@[0].1) is Obj);
                        assert(p@->Obj_0[0].1 is Obj);
                        assert(p@->Obj_0[0].1->Obj_0 == fm);
                        lemma_bad_field(j@, fm, i as int);
                    }
                    return None;
                },
            }
            i += 1;
        }
        let r = Some(TypedValue::Object(out));
        proof {
            assert(forall|k: int| 0 <= k < fm.len() ==> (#[trigger] decode_model(fm[k].1)) is Some);
            assert(opt_view(r)->0->Object_0 =~= decode_model(j@)->0->Object_0);
        }
        r
    } else {
        None
    }
}

} // verus!
