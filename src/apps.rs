//! The app catalogue. Approved apps are fetched without server-side
//! ordering, which would need a composite index; capability filtering,
//! ordering by installs and paging happen in memory.
use vstd::prelude::*;
use crate::json::{Json, JsonModel, member};
use crate::value::{TypedValue, ValueModel};
use crate::query::{FieldFilter, FieldOp, QuerySpec};
use crate::fields::{
    DecodeError, opt_text, string_field, bool_field, int_field, double_field, string_items, parse_string,
    parse_bool, parse_int, parse_double_text, parse_string_array, listed, is_listed,
};
use crate::records::{last_segment, name_text, text_or, last_path_segment};

verus! {

/// The collection of apps.
pub const APPS_COLLECTION: &'static str = "plugins_data";

/// An app as listed. Ratings and prices keep their decimal text.
pub struct AppSummary {
    pub id: String,
    pub name: String,
    pub description: String,
    pub image: String,
    pub category: String,
    pub author: String,
    pub capabilities: Vec<String>,
    pub approved: bool,
    pub private: bool,
    pub installs: i32,
    pub rating_avg: Option<String>,
    pub rating_count: i32,
    pub is_paid: bool,
    pub price: Option<String>,
    pub enabled: bool,
}

/// The content of an app summary.
pub struct AppModel {
    pub id: Seq<char>,
    pub name: Seq<char>,
    pub description: Seq<char>,
    pub image: Seq<char>,
    pub category: Seq<char>,
    pub author: Seq<char>,
    pub capabilities: Seq<Seq<char>>,
    pub approved: bool,
    pub private: bool,
    pub installs: i32,
    pub rating_avg: Option<Seq<char>>,
    pub rating_count: i32,
    pub is_paid: bool,
    pub price: Option<Seq<char>>,
    pub enabled: bool,
}

impl AppSummary {
    pub open spec fn model(self) -> AppModel {
        AppModel {
            id: self.id@,
            name: self.name@,
            description: self.description@,
            image: self.image@,
            category: self.category@,
            author: self.author@,
            capabilities: self.capabilities@.map_values(|c: String| c@),
            approved: self.approved,
            private: self.private,
            installs: self.installs,
            rating_avg: opt_text(self.rating_avg),
            rating_count: self.rating_count,
            is_paid: self.is_paid,
            price: opt_text(self.price),
            enabled: self.enabled,
        }
    }
}

/// The contents of a run of app summaries.
pub open spec fn app_models(s: Seq<AppSummary>) -> Seq<AppModel> {
    s.map_values(|a: AppSummary| a.model())
}

/// The summary that document `doc` with fields `f` reads as; not enabled.
pub open spec fn app_summary_of(doc: JsonModel, f: JsonModel) -> AppModel {
    AppModel {
        id: last_segment(name_text(doc)),
        name: text_or(string_field(f, "name"@), Seq::empty()),
        description: text_or(string_field(f, "description"@), Seq::empty()),
        image: text_or(string_field(f, "image"@), Seq::empty()),
        category: text_or(string_field(f, "category"@), "other"@),
        author: text_or(string_field(f, "author"@), Seq::empty()),
        capabilities: string_items(f, "capabilities"@),
        approved: bool_field(f, "approved"@) == Some(true),
        private: bool_field(f, "private"@) == Some(true),
        installs: match int_field(f, "installs"@) {
            Some(n) => n,
            None => 0,
        },
        rating_avg: double_field(f, "rating_avg"@),
        rating_count: match int_field(f, "rating_count"@) {
            Some(n) => n,
            None => 0,
        },
        is_paid: bool_field(f, "is_paid"@) == Some(true),
        price: double_field(f, "price"@),
        enabled: false,
    }
}

fn string_or(fields: &Json, key: &str, default: &str) -> (r: String)
    ensures
        r@ == text_or(string_field(fields@, key@), default@),
{
    match parse_string(fields, key) {
        Some(s) => s,
        None => String::from_str(default),
    }
}

/// Reads an app summary; only a document without fields is an error.
pub fn parse_app_summary(doc: &Json) -> (r: Result<AppSummary, DecodeError>)
    ensures
        match member(doc@, "fields"@) {
            None => r == Err::<AppSummary, DecodeError>(DecodeError::MissingFields),
            Some(f) => r is Ok && r->Ok_0.model() == app_summary_of(doc@, f),
        },
{
    let f = match doc.get("fields") {
        Some(f) => f,
        None => return Err(DecodeError::MissingFields),
    };
    let id = match doc.get("name") {
        Some(n) => match n.as_str() {
            Some(s) => last_path_segment(s),
            None => String::new(),
        },
        None => String::new(),
    };
    let capabilities = parse_string_array(f, "capabilities");
    let r = AppSummary {
        id,
        name: string_or(f, "name", ""),
        description: string_or(f, "description", ""),
        image: string_or(f, "image", ""),
        category: string_or(f, "category", "other"),
        author: string_or(f, "author", ""),
        capabilities,
        approved: match parse_bool(f, "approved") {
            Ok(b) => b,
            Err(_) => false,
        },
        private: match parse_bool(f, "private") {
            Ok(b) => b,
            Err(_) => false,
        },
        installs: match parse_int(f, "installs") {
            Some(n) => n,
            None => 0,
        },
        rating_avg: parse_double_text(f, "rating_avg"),
        rating_count: match parse_int(f, "rating_count") {
            Some(n) => n,
            None => 0,
        },
        is_paid: match parse_bool(f, "is_paid") {
            Ok(b) => b,
            Err(_) => false,
        },
        price: parse_double_text(f, "price"),
        enabled: false,
    };
    proof {
        reveal_strlit("");
        assert(last_segment(Seq::<char>::empty()) == Seq::<char>::empty());
        assert(r.model().capabilities =~= string_items(f@, "capabilities"@));
        let m = app_summary_of(doc@, f@);
        assert(r.model().id == m.id);
        assert(r.model().name == m.name);
        assert(r.model().category == m.category);
        assert(r.model().rating_avg == m.rating_avg);
        assert(r.model().installs == m.installs);
        assert(r.model().approved == m.approved);
        assert(r.model().description == m.description);
        assert(r.model().image == m.image);
        assert(r.model().author == m.author);
        assert(r.model().capabilities == m.capabilities);
        assert(r.model().private == m.private);
        assert(r.model().rating_count == m.rating_count);
        assert(r.model().is_paid == m.is_paid);
        assert(r.model().price == m.price);
        assert(r.model().enabled == m.enabled);
        assert(r.model() == m);
    }
    Ok(r)
}

/// The catalogue query: approved apps, of one category when one is given,
/// with no ordering, limit or offset.
pub fn apps_query(category: Option<&str>) -> (r: QuerySpec)
    ensures
        r.collection@ == APPS_COLLECTION@,
        r.filters@.len() == (if category is Some { 2int } else { 1int }),
        r.filters@[0].field@ == "approved"@,
        r.filters@[0].op == FieldOp::Equal,
        r.filters@[0].value@ == ValueModel::Bool(true),
        category is Some ==> (r.filters@[1].field@ == "category"@ && r.filters@[1].op == FieldOp::Equal
            && r.filters@[1].value@ == ValueModel::Str(category->0@)),
        r.order_by@.len() == 0,
        r.limit is None,
        r.offset is None,
{
    let mut filters: Vec<FieldFilter> = Vec::new();
    filters.push(FieldFilter { field: String::from_str("approved"), op: FieldOp::Equal, value: TypedValue::Bool(true) });
    match category {
        Some(c) => filters.push(
            FieldFilter { field: String::from_str("category"), op: FieldOp::Equal, value: TypedValue::Str(String::from_str(c)) },
        ),
        None => {},
    }
    QuerySpec { collection: String::from_str(APPS_COLLECTION), filters, order_by: Vec::new(), limit: None, offset: None }
}

/// An app is kept when it has the capability asked for, if any.
pub open spec fn has_capability(m: AppModel, capability: Option<Seq<char>>) -> bool {
    match capability {
        Some(c) => m.capabilities.contains(c),
        None => true,
    }
}

/// The apps kept by `capability`, in order, each marked enabled exactly when
/// its id is among `enabled_ids`.
pub open spec fn chosen_apps(ms: Seq<AppModel>, enabled_ids: Seq<String>, capability: Option<Seq<char>>) -> Seq<AppModel>
    decreases ms.len(),
{
    if ms.len() == 0 {
        Seq::empty()
    } else {
        let rest = chosen_apps(ms.drop_last(), enabled_ids, capability);
        let m = ms.last();
        if has_capability(m, capability) {
            rest.push(AppModel { enabled: listed(enabled_ids, m.id), ..m })
        } else {
            rest
        }
    }
}

/// `x` placed into `s` after every app with at least as many installs.
pub open spec fn insert_by_installs(s: Seq<AppModel>, x: AppModel) -> Seq<AppModel>
    decreases s.len(),
{
    if s.len() == 0 {
        seq![x]
    } else if s.last().installs >= x.installs {
        s.push(x)
    } else {
        insert_by_installs(s.drop_last(), x).push(s.last())
    }
}

/// `s` ordered by installs, most first; apps with equal installs keep their
/// order.
pub open spec fn by_installs(s: Seq<AppModel>) -> Seq<AppModel>
    decreases s.len(),
{
    if s.len() == 0 {
        Seq::empty()
    } else {
        insert_by_installs(by_installs(s.drop_last()), s.last())
    }
}

/// The items `[offset, offset + limit)` of `s`, cut to its length.
pub open spec fn window<T>(s: Seq<T>, offset: nat, limit: nat) -> Seq<T> {
    let start = if offset < s.len() { offset } else { s.len() };
    let end = if offset + limit < s.len() { offset + limit } else { s.len() };
    s.subrange(start as int, end as int)
}

proof fn lemma_insert_at(s: Seq<AppModel>, x: AppModel, k: int)
    requires
        0 <= k <= s.len(),
        forall|j: int| k <= j < s.len() ==> (#[trigger] s[j]).installs < x.installs,
        k > 0 ==> s[k - 1].installs >= x.installs,
    ensures
        insert_by_installs(s, x) == s.insert(k, x),
    decreases s.len(),
{
    if s.len() == 0 {
        assert(s.insert(k, x) =~= seq![x]);
    } else if k == s.len() {
        assert(s.insert(k, x) =~= s.push(x));
    } else {
        let t = s.drop_last();
        assert forall|j: int| k <= j < t.len() implies (#[trigger] t[j]).installs < x.installs by {
            assert(t[j] == s[j]);
        }
        lemma_insert_at(t, x, k);
        assert(t.insert(k, x).push(s.last()) =~= s.insert(k, x));
    }
}

fn insert_sorted(out: &mut Vec<AppSummary>, x: AppSummary)
    ensures
        app_models(final(out)@) == insert_by_installs(app_models(old(out)@), x.model()),
{
    let mut k: usize = out.len();
    while k > 0 && out[k - 1].installs < x.installs
        invariant
            k <= out@.len(),
            forall|j: int| k <= j < out@.len() ==> (#[trigger] out@[j]).installs < x.installs,
        decreases k,
    {
        k -= 1;
    }
    let ghost before = app_models(out@);
    proof {
        assert forall|j: int| k <= j < before.len() implies (#[trigger] before[j]).installs < x.model().installs by {
            assert(before[j] == out@[j].model());
        }
        if k > 0 {
            assert(before[k - 1] == out@[k - 1].model());
        }
        lemma_insert_at(before, x.model(), k as int);
    }
    let ghost xm = x.model();
    out.insert(k, x);
    assert(app_models(out@) =~= before.insert(k as int, xm));
}

/// The page `[offset, offset + limit)` of the apps that have `capability`
/// (all apps when none is given), ordered by installs with the most first
/// and ties kept in their fetched order, each marked enabled exactly when
/// its id is among `enabled_ids`.
pub fn rank_apps(
    apps: Vec<AppSummary>,
    enabled_ids: &Vec<String>,
    capability: Option<&str>,
    offset: usize,
    limit: usize,
) -> (r: Vec<AppSummary>)
    ensures
        app_models(r@) == window(
            by_installs(
                chosen_apps(
                    app_models(apps@),
                    enabled_ids@,
                    match capability {
                        Some(c) => Some(c@),
                        None => None,
                    },
                ),
            ),
            offset as nat,
            limit as nat,
        ),
{
    let ghost cap = match capability {
        Some(c) => Some(c@),
        None => None::<Seq<char>>,
    };
    let ghost all = app_models(apps@);
    let mut rest = apps;
    let mut sorted: Vec<AppSummary> = Vec::new();
    let mut i: usize = 0;
    let n = rest.len();
    assert(all.subrange(0, 0) =~= Seq::<AppModel>::empty());
    while rest.len() > 0
        invariant
            n == all.len(),
            cap == (match capability {
                Some(c) => Some(c@),
                None => None::<Seq<char>>,
            }),
            i + rest@.len() == n,
            app_models(rest@) == all.subrange(i as int, n as int),
            app_models(sorted@) == by_installs(chosen_apps(all.subrange(0, i as int), enabled_ids@, cap)),
        decreases rest@.len(),
    {
        let ghost rest_before = rest@;
        let mut a = rest.remove(0);
        proof {
            assert(a.model() == all[i as int]) by {
                assert(app_models(rest_before)[0] == all.subrange(i as int, n as int)[0]);
            }
            assert forall|k: int| 0 <= k < rest@.len() implies #[trigger] rest@[k].model() == all[i + 1 + k] by {
                assert(rest@[k] == rest_before[k + 1]);
                assert(app_models(rest_before)[k + 1] == all.subrange(i as int, n as int)[k + 1]);
            }
            assert(app_models(rest@) =~= all.subrange(i + 1, n as int));
            assert(all.subrange(0, i + 1).drop_last() =~= all.subrange(0, i as int));
            assert(all.subrange(0, i + 1).last() == all[i as int]);
        }
        let ghost prev = chosen_apps(all.subrange(0, i as int), enabled_ids@, cap);
        let ghost m0 = a.model();
        assert(m0 == all[i as int]);
        let ghost ms = all.subrange(0, i + 1);
        assert(ms.drop_last() =~= all.subrange(0, i as int));
        assert(ms.last() == m0);
        let keep = match capability {
            Some(c) => is_listed(&a.capabilities, c),
            None => true,
        };
        proof {
            if capability is Some {
                let c = capability->0@;
                assert(a.model().capabilities.contains(c) == listed(a.capabilities@, c)) by {
                    if listed(a.capabilities@, c) {
                        let w = choose|j: int| 0 <= j < a.capabilities@.len() && #[trigger] a.capabilities@[j]@ == c;
                        assert(a.model().capabilities[w] == c);
                    }
                    if a.model().capabilities.contains(c) {
                        let w = choose|j: int| 0 <= j < a.model().capabilities.len() && a.model().capabilities[j] == c;
                        assert(a.capabilities@[w]@ == c);
                    }
                }
            }
        }
        proof {
            if capability is Some {
                assert(cap == Some(capability->0@));
            } else {
                assert(cap is None);
            }
            assert(keep == has_capability(m0, cap));
        }
        if keep {
            a.enabled = is_listed(enabled_ids, a.id.as_str());
            proof {
                assert(a.model() == AppModel { enabled: listed(enabled_ids@, m0.id), ..m0 });
            }
            let ghost am = a.model();
            assert(has_capability(m0, cap));
            insert_sorted(&mut sorted, a);
            proof {
                let c = chosen_apps(all.subrange(0, i + 1), enabled_ids@, cap);
                assert(c == prev.push(am));
                assert(c.drop_last() =~= prev);
            }
        } else {
            assert(!has_capability(m0, cap));
            assert(chosen_apps(all.subrange(0, i + 1), enabled_ids@, cap) == prev);
        }
        i += 1;
    }
    assert(all.subrange(0, n as int) =~= all);
    let len = sorted.len();
    let start = if offset < len { offset } else { len };
    let end = if offset < len && limit <= len - offset { offset + limit } else { len };
    let ghost full = app_models(sorted@);
    sorted.truncate(end);
    let page = sorted.split_off(start);
    assert(app_models(page@) =~= window(full, offset as nat, limit as nat));
    page
}

/// The apps a user has enabled.
pub const ENABLED_APPS_SUBCOLLECTION: &'static str = "enabled_plugins";

/// The most enabled apps read for one user.
pub const MAX_ENABLED_APPS: usize = 500;

/// The query for the apps a user has enabled, up to the bound.
pub fn enabled_apps_query() -> (r: QuerySpec)
    ensures
        r.collection@ == ENABLED_APPS_SUBCOLLECTION@,
        r.filters@.len() == 0,
        r.order_by@.len() == 0,
        r.limit == Some(MAX_ENABLED_APPS),
        r.offset is None,
{
    QuerySpec {
        collection: String::from_str(ENABLED_APPS_SUBCOLLECTION),
        filters: Vec::new(),
        order_by: Vec::new(),
        limit: Some(MAX_ENABLED_APPS),
        offset: None,
    }
}

/// The ids of the named documents among `ds`, in order.
pub open spec fn ids_among(ds: Seq<JsonModel>) -> Seq<Seq<char>>
    decreases ds.len(),
{
    if ds.len() == 0 {
        Seq::empty()
    } else {
        let rest = ids_among(ds.drop_last());
        match member(ds.last(), "name"@) {
            Some(JsonModel::Str(n)) => rest.push(last_segment(n)),
            _ => rest,
        }
    }
}

/// The ids of the documents of a query answer, in order; documents without
/// a name are skipped.
pub fn document_ids(results: &Json) -> (r: Vec<String>)
    ensures
        r@.map_values(|s: String| s@) == ids_among(crate::store::answer_documents(results@)),
{
    let docs = crate::store::result_documents(results);
    let ghost dm = docs@.map_values(|d: &Json| d@);
    let mut out: Vec<String> = Vec::new();
    let mut i: usize = 0;
    assert(dm.subrange(0, 0) =~= Seq::<JsonModel>::empty());
    assert(out@.map_values(|s: String| s@) =~= Seq::<Seq<char>>::empty());
    while i < docs.len()
        invariant
            i <= docs@.len(),
            dm == docs@.map_values(|d: &Json| d@),
            out@.map_values(|s: String| s@) == ids_among(dm.subrange(0, i as int)),
        decreases docs@.len() - i,
    {
        proof {
            assert(dm.subrange(0, i + 1).drop_last() =~= dm.subrange(0, i as int));
            assert(dm.subrange(0, i + 1).last() == docs@[i as int]@);
        }
        let ghost before = out@.map_values(|s: String| s@);
        match docs[i].get("name") {
            Some(n) => match n.as_str() {
                Some(t) => {
                    out.push(last_path_segment(t));
                    assert(out@.map_values(|s: String| s@) =~= before.push(last_segment(t@)));
                },
                None => {},
            },
            None => {},
        }
        i += 1;
    }
    assert(dm.subrange(0, docs@.len() as int) =~= dm);
    out
}

} // verus!
