//! Shapes of the conversation endpoints' requests and answers, the status
//! list a listing filters on, and the in-memory search over a bounded fetch.
use vstd::prelude::*;

verus! {

/// Which conversations to list.
pub struct GetConversationsQuery {
    pub limit: usize,
    pub offset: usize,
    pub include_discarded: bool,
    pub statuses: String,
    pub starred: Option<bool>,
    pub folder_id: Option<String>,
    pub start_date: Option<String>,
    pub end_date: Option<String>,
}

/// Which conversations to count.
pub struct GetConversationsCountQuery {
    pub include_discarded: bool,
    pub statuses: String,
}

/// A number of conversations.
pub struct ConversationsCountResponse {
    pub count: i64,
}

/// Asks to run an app on a conversation again.
pub struct ReprocessRequest {
    pub app_id: String,
}

/// The outcome of running an app again.
pub struct ReprocessResponse {
    pub success: bool,
    pub message: String,
    pub content: Option<String>,
}

/// A search over conversation titles and overviews.
pub struct SearchConversationsRequest {
    pub query: String,
    pub page: usize,
    pub per_page: usize,
    pub include_discarded: bool,
}

/// A page of search results.
pub struct SearchConversationsResponse {
    pub items: Vec<crate::conversation::Conversation>,
    pub total_pages: usize,
    pub current_page: usize,
    pub per_page: usize,
}

/// Stars or unstars a conversation.
pub struct StarredParams {
    pub starred: bool,
}

/// The outcome of a change.
pub struct StatusResponse {
    pub status: String,
}

/// A new title for a conversation.
pub struct UpdateConversationRequest {
    pub title: Option<String>,
}

/// The page size of a conversation listing that names none.
pub fn default_limit() -> (r: usize)
    ensures
        r == 100,
{
    100
}

/// A listing that says nothing includes discarded conversations.
pub fn default_include_discarded() -> (r: bool)
    ensures
        r,
{
    true
}

/// The statuses a listing that names none filters on.
pub fn default_statuses() -> (r: String)
    ensures
        r@ == "processing,completed"@,
{
    String::from_str("processing,completed")
}

/// The page a search that names none answers.
pub fn default_page() -> (r: usize)
    ensures
        r == 1,
{
    1
}

/// The page size of a search that names none.
pub fn default_per_page() -> (r: usize)
    ensures
        r == 10,
{
    10
}

/// `s` without the white space at either end.
pub uninterp spec fn trimmed(s: Seq<char>) -> Seq<char>;

/// `s` in lower case.
pub uninterp spec fn lower_of(s: Seq<char>) -> Seq<char>;

/// Relies on `str::trim`: the result depends on the characters alone.
#[verifier::external_body]
fn trim(s: &str) -> (r: String)
    ensures
        r@ == trimmed(s@),
{
    s.trim().to_string()
}

/// Relies on `str::to_lowercase`: the result depends on the characters alone.
#[verifier::external_body]
fn lowercase(s: &str) -> (r: String)
    ensures
        r@ == lower_of(s@),
{
    s.to_lowercase()
}

/// The pieces of `s` between commas, in order; at least one.
pub open spec fn comma_pieces(s: Seq<char>) -> Seq<Seq<char>>
    decreases s.len(),
{
    if s.len() == 0 {
        seq![Seq::empty()]
    } else {
        let p = comma_pieces(s.drop_last());
        if s.last() == ',' {
            p.push(Seq::empty())
        } else {
            p.update(p.len() - 1, p.last().push(s.last()))
        }
    }
}

proof fn lemma_comma_pieces_nonempty(s: Seq<char>)
    ensures
        comma_pieces(s).len() >= 1,
    decreases s.len(),
{
    if s.len() > 0 {
        lemma_comma_pieces_nonempty(s.drop_last());
    }
}

/// The statuses a comma-separated list names, each trimmed; none for an
/// empty list.
pub open spec fn status_list(s: Seq<char>) -> Seq<Seq<char>> {
    if s.len() == 0 {
        Seq::empty()
    } else {
        comma_pieces(s).map_values(|p: Seq<char>| trimmed(p))
    }
}

/// The statuses that a comma-separated list names, each trimmed.
pub fn parse_statuses(s: &str) -> (r: Vec<String>)
    ensures
        r@.map_values(|t: String| t@) == status_list(s@),
{
    let n = s.unicode_len();
    if n == 0 {
        let r: Vec<String> = Vec::new();
        assert(r@.map_values(|t: String| t@) =~= Seq::<Seq<char>>::empty());
        return r;
    }
    let mut pieces: Vec<String> = Vec::new();
    let mut start: usize = 0;
    let mut i: usize = 0;
    assert(s@.subrange(0, 0) =~= Seq::<char>::empty());
    assert(pieces@.map_values(|t: String| t@) =~= Seq::<Seq<char>>::empty());
    assert(comma_pieces(s@.subrange(0, 0)) =~= pieces@.map_values(|t: String| t@).push(
        s@.subrange(0, 0),
    ));
    while i < n
        invariant
            n == s@.len(),
            start <= i <= n,
            comma_pieces(s@.subrange(0, i as int)) == pieces@.map_values(|t: String| t@).push(
                s@.subrange(start as int, i as int),
            ),
        decreases n - i,
    {
        proof {
            assert(s@.subrange(0, i + 1).drop_last() =~= s@.subrange(0, i as int));
            lemma_comma_pieces_nonempty(s@.subrange(0, i as int));
        }
        let ghost before = pieces@.map_values(|t: String| t@);
        if s.get_char(i) == ',' {
            let ghost piece = s@.subrange(start as int, i as int);
            pieces.push(String::from_str(s.substring_char(start, i)));
            start = i + 1;
            proof {
                assert(pieces@.map_values(|t: String| t@) =~= before.push(piece));
                assert(s@.subrange(start as int, i + 1) =~= Seq::<char>::empty());
            }
        } else {
            proof {
                assert(s@.subrange(start as int, i + 1) =~= s@.subrange(start as int, i as int).push(s@[i as int]));
                assert(before.push(s@.subrange(start as int, i as int)).update(
                    before.len() as int,
                    s@.subrange(start as int, i + 1),
                ) =~= before.push(s@.subrange(start as int, i + 1)));
            }
        }
        i += 1;
    }
    pieces.push(String::from_str(s.substring_char(start, n)));
    assert(s@.subrange(0, n as int) =~= s@);
    let ghost all = pieces@.map_values(|t: String| t@);
    assert(all == comma_pieces(s@));
    let mut out: Vec<String> = Vec::new();
    let mut k: usize = 0;
    while k < pieces.len()
        invariant
            k <= pieces@.len(),
            all == pieces@.map_values(|t: String| t@),
            out@.map_values(|t: String| t@) == all.subrange(0, k as int).map_values(|p: Seq<char>| trimmed(p)),
        decreases pieces@.len() - k,
    {
        let ghost before = out@.map_values(|t: String| t@);
        let t = trim(pieces[k].as_str());
        assert(t@ == trimmed(all[k as int]));
        out.push(t);
        proof {
            assert(all.subrange(0, k + 1).map_values(|p: Seq<char>| trimmed(p)) =~= all.subrange(
                0,
                k as int,
            ).map_values(|p: Seq<char>| trimmed(p)).push(trimmed(all[k as int])));
            assert(out@.map_values(|t: String| t@) =~= all.subrange(0, k + 1).map_values(
                |p: Seq<char>| trimmed(p),
            ));
        }
        k += 1;
    }
    assert(all.subrange(0, pieces@.len() as int) =~= all);
    out
}

/// `needle` occurs in `hay`.
pub open spec fn occurs_in(needle: Seq<char>, hay: Seq<char>) -> bool {
    exists|i: int| 0 <= i && i + needle.len() <= hay.len() && #[trigger] hay.subrange(i, i + needle.len()) == needle
}

fn occurs_at(needle: &str, nl: usize, hay: &str, hl: usize, i: usize) -> (r: bool)
    requires
        nl == needle@.len(),
        hl == hay@.len(),
        i + nl <= hl,
    ensures
        r == (hay@.subrange(i as int, i + nl) == needle@),
{
    let mut k: usize = 0;
    while k < nl
        invariant
            nl == needle@.len(),
            hl == hay@.len(),
            i + nl <= hl,
            k <= nl,
            forall|j: int| 0 <= j < k ==> hay@[i + j] == needle@[j],
        decreases nl - k,
    {
        if hay.get_char(i + k) != needle.get_char(k) {
            assert(hay@.subrange(i as int, i + nl)[k as int] != needle@[k as int]);
            return false;
        }
        k += 1;
    }
    assert(hay@.subrange(i as int, i + nl) =~= needle@);
    true
}

/// Whether `needle` occurs in `hay`.
pub fn contains_text(hay: &str, needle: &str) -> (r: bool)
    ensures
        r == occurs_in(needle@, hay@),
{
    let hl = hay.unicode_len();
    let nl = needle.unicode_len();
    if nl > hl {
        return false;
    }
    if nl == 0 {
        assert(hay@.subrange(0int, 0int + needle@.len()) =~= needle@);
        return true;
    }
    let mut i: usize = 0;
    while i <= hl - nl
        invariant
            hl == hay@.len(),
            nl == needle@.len(),
            1 <= nl <= hl,
            i <= hl - nl + 1,
            forall|j: int| 0 <= j < i ==> #[trigger] hay@.subrange(j, j + nl) != needle@,
        decreases hl - i,
    {
        if occurs_at(needle, nl, hay, hl, i) {
            return true;
        }
        i += 1;
    }
    false
}

/// Whether an already lower-cased query occurs in a lower-cased title or
/// overview.
pub fn matches_folded(query: &str, title: &str, overview: &str) -> (r: bool)
    ensures
        r == (occurs_in(query@, title@) || occurs_in(query@, overview@)),
{
    contains_text(title, query) || contains_text(overview, query)
}

/// Whether `query` occurs in the title or the overview, ignoring case.
pub fn conversation_matches(query: &str, title: &str, overview: &str) -> (r: bool)
    ensures
        r == (occurs_in(lower_of(query@), lower_of(title@)) || occurs_in(
            lower_of(query@),
            lower_of(overview@),
        )),
{
    let q = lowercase(query);
    let t = lowercase(title);
    let o = lowercase(overview);
    matches_folded(q.as_str(), t.as_str(), o.as_str())
}

/// The number of pages of `per_page` results that `total` results fill, and
/// the index of the first result of page `page` (pages count from 1; page 0
/// is page 1).
pub fn search_page_bounds(total: usize, page: usize, per_page: usize) -> (r: (usize, usize))
    requires
        total + per_page >= 1,
        total + per_page - 1 <= usize::MAX,
        (if page == 0 { 0 } else { page - 1 }) * per_page <= usize::MAX,
    ensures
        r.0 == (total + per_page - 1) / (if per_page == 0 { 1 } else { per_page as int }),
        r.1 == (if page == 0 { 0 } else { page - 1 }) * per_page,
{
    let pages = if per_page == 0 {
        total - 1
    } else {
        (total + (per_page - 1)) / per_page
    };
    let before: usize = if page == 0 { 0 } else { page - 1 };
    (pages, before * per_page)
}

} // verus!
