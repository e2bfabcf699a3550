//! A JSON tree as the library sees it on the wire.
use vstd::prelude::*;

verus! {

/// A JSON value. Numbers that are not 64-bit integers are carried as their
/// decimal text, so that no floating-point value passes through the library.
#[derive(Debug, PartialEq)]
pub enum Json {
    Null,
    Bool(bool),
    Int(i64),
    Num(String),
    Str(String),
    Arr(Vec<Json>),
    Obj(Vec<(String, Json)>),
}

/// A JSON tree with sequences in place of vectors and strings.
pub enum JsonModel {
    Null,
    Bool(bool),
    Int(i64),
    Num(Seq<char>),
    Str(Seq<char>),
    Arr(Seq<JsonModel>),
    Obj(Seq<(Seq<char>, JsonModel)>),
}

impl View for Json {
    type V = JsonModel;

    open spec fn view(&self) -> JsonModel {
        json_model(*self)
    }
}

/// The mathematical content of a JSON tree.
pub open spec fn json_model(j: Json) -> JsonModel
    decreases j,
{
        match j {
            Json::Null => JsonModel::Null,
            Json::Bool(b) => JsonModel::Bool(b),
            Json::Int(n) => JsonModel::Int(n),
            Json::Num(t) => JsonModel::Num(t@),
            Json::Str(s) => JsonModel::Str(s@),
            Json::Arr(xs) => JsonModel::Arr(
                Seq::new(
                    xs@.len(),
                    |i: int|
                        if 0 <= i < xs@.len() {
                            json_model(xs@[i])
                        } else {
                            JsonModel::Null
                        },
                ),
            ),
            Json::Obj(es) => JsonModel::Obj(
                Seq::new(
                    es@.len(),
                    |i: int|
                        if 0 <= i < es@.len() {
                            (es@[i].0@, json_model(es@[i].1))
                        } else {
                            (Seq::empty(), JsonModel::Null)
                        },
                ),
            ),
        }
}

/// The value bound to `key` by the first entry that names it.
pub open spec fn lookup(entries: Seq<(Seq<char>, JsonModel)>, key: Seq<char>) -> Option<JsonModel>
    decreases entries.len(),
{
    if entries.len() == 0 {
        None
    } else if entries[0].0 == key {
        Some(entries[0].1)
    } else {
        lookup(entries.drop_first(), key)
    }
}

/// The member `key` of `j`, when `j` is an object that has one.
pub open spec fn member(j: JsonModel, key: Seq<char>) -> Option<JsonModel> {
    match j {
        JsonModel::Obj(entries) => lookup(entries, key),
        _ => None,
    }
}

/// The content of an optional reference to a JSON tree.
pub open spec fn opt_model(r: Option<&Json>) -> Option<JsonModel> {
    match r {
        Some(v) => Some(json_model(*v)),
        None => None,
    }
}

/// The content of a run of object members.
pub open spec fn entries_model(es: Seq<(String, Json)>) -> Seq<(Seq<char>, JsonModel)> {
    Seq::new(es.len(), |i: int| (es[i].0@, json_model(es[i].1)))
}

/// An object with the members `es`, in order.
pub fn object(es: Vec<(String, Json)>) -> (r: Json)
    ensures
        r@ == JsonModel::Obj(entries_model(es@)),
{
    let r = Json::Obj(es);
    assert(r@->Obj_0 =~= entries_model(es@));
    r
}

/// Appends the member `key: v`.
pub fn push_member(es: &mut Vec<(String, Json)>, key: &str, v: Json)
    ensures
        entries_model(final(es)@) == entries_model(old(es)@).push((key@, v@)),
{
    let ghost vm = v@;
    es.push((String::from_str(key), v));
    assert(entries_model(es@) =~= entries_model(old(es)@).push((key@, vm)));
}

/// Character-wise equality of two string slices.
pub fn str_eq(a: &str, b: &str) -> (r: bool)
    ensures
        r == (a@ == b@),
{
    let n = a.unicode_len();
    if n != b.unicode_len() {
        return false;
    }
    let mut i: usize = 0;
    while i < n
        invariant
            n == a@.len(),
            n == b@.len(),
            i <= n,
            forall|k: int| 0 <= k < i ==> a@[k] == b@[k],
        decreases n - i,
    {
        if a.get_char(i) != b.get_char(i) {
            return false;
        }
        i += 1;
    }
    assert(a@ =~= b@);
    true
}

proof fn lemma_lookup_suffix(entries: Seq<(Seq<char>, JsonModel)>, key: Seq<char>, i: int)
    requires
        0 <= i < entries.len(),
    ensures
        lookup(entries.subrange(i, entries.len() as int), key) == if entries[i].0 == key {
            Some(entries[i].1)
        } else {
            lookup(entries.subrange(i + 1, entries.len() as int), key)
        },
{
    let s = entries.subrange(i, entries.len() as int);
    assert(s.drop_first() =~= entries.subrange(i + 1, entries.len() as int));
}

/// The value bound to `key` among `entries`, first entry first.
pub fn find_entry<'a>(entries: &'a Vec<(String, Json)>, key: &str) -> (r: Option<&'a Json>)
    ensures
        opt_model(r) == lookup(json_model(Json::Obj(*entries))->Obj_0, key@),
{
    let ghost m = json_model(Json::Obj(*entries))->Obj_0;
    let mut i: usize = 0;
    assert(m.subrange(0, m.len() as int) =~= m);
    while i < entries.len()
        invariant
            m == json_model(Json::Obj(*entries))->Obj_0,
            m.len() == entries@.len(),
            i <= entries@.len(),
            lookup(m, key@) == lookup(m.subrange(i as int, m.len() as int), key@),
        decreases entries@.len() - i,
    {
        proof {
            lemma_lookup_suffix(m, key@, i as int);
        }
        if str_eq(entries[i].0.as_str(), key) {
            return Some(&entries[i].1);
        }
        i += 1;
    }
    None
}

impl Json {
    /// The member `key` of this value, when it is an object that has one.
    pub fn get(&self, key: &str) -> (r: Option<&Json>)
        ensures
            opt_model(r) == member(self@, key@),
    {
        match self {
            Json::Obj(entries) => find_entry(entries, key),
            _ => None,
        }
    }

    /// The text of this value, when it is a string.
    pub fn as_str(&self) -> (r: Option<&str>)
        ensures
            match self@ {
                JsonModel::Str(s) => r is Some && r->0@ == s,
                _ => r is None,
            },
    {
        match self {
            Json::Str(s) => Some(s.as_str()),
            _ => None,
        }
    }
}

} // verus!
