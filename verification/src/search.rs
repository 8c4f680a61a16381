//! Searching memory entries.
//!
//! - [`SearchQuery`] says what is searched for.
//! - [`SearchResult`] pairs a [`MemoryEntry`] with its scores.
//! - [`SearchEngine`] turns queries into requests and replies into ranked results: hybrid
//!   (semantic and keyword) and lexical search, with a cache for the former.

use vstd::hash_map::StringHashMap;
use vstd::prelude::*;
use vstd::string::StringExecFns;

use crate::api::{
    api_failure, decode_failure, reply_json, Method, Reply, Request, RequestView,
};
use crate::error::{MemoryError, Result};
use crate::json::{json_in, json_views, Json, JsonView, Number};
use crate::labels::{
    label_of_tier, label_of_type, label_of_user, tier_label, type_label, user_label,
};
use crate::models::{
    law_tier_names, law_type_names, EntryView, MemoryEntry, MemoryTier, MemoryType,
};
use crate::order::{is_ranking, key_values, picked, positions, rank};
use crate::schema::{body_reads, decodes_all, parse_body, MemoryMeta};
use crate::score::Score;
use crate::store::{member_text, text_or_empty};
use crate::text::{
    concat, copy_text, decimal, join, join_strings, lemma_cut_last, lemma_decimal_apart,
    lemma_decimal_digits, lemma_join_apart, lemma_join_part, number_text, optional_text, same,
    texts,
};

verus! {

// ---------------------------------------------------------------------------
// SearchQuery
// ---------------------------------------------------------------------------

/// A query for searching memory entries.
#[derive(Debug)]
pub struct SearchQuery {
    /// Natural language query text.
    pub query: String,
    /// Scope results to a specific user.
    pub user_id: Option<String>,
    /// Filter by memory types. Empty means all types.
    pub memory_types: Vec<MemoryType>,
    /// Filter by memory tiers. Empty means all tiers.
    pub tiers: Vec<MemoryTier>,
    /// Include archived (closed) issues in results.
    pub include_archived: bool,
    /// Maximum number of results to return.
    pub limit: usize,
}

/// What a [`SearchQuery`] holds.
#[verifier::ext_equal]
pub struct QueryView {
    pub query: Seq<char>,
    pub user_id: Option<Seq<char>>,
    pub memory_types: Seq<MemoryType>,
    pub tiers: Seq<MemoryTier>,
    pub include_archived: bool,
    pub limit: usize,
}

impl View for SearchQuery {
    type V = QueryView;

    open spec fn view(&self) -> QueryView {
        QueryView {
            query: self.query@,
            user_id: optional_text(self.user_id),
            memory_types: self.memory_types@,
            tiers: self.tiers@,
            include_archived: self.include_archived,
            limit: self.limit,
        }
    }
}

impl QueryView {
    /// The query for everything that is not archived, ten results at most.
    pub open spec fn plain() -> QueryView {
        QueryView {
            query: seq![],
            user_id: None,
            memory_types: seq![],
            tiers: seq![],
            include_archived: false,
            limit: 10,
        }
    }
}

impl Default for SearchQuery {
    /// The query for everything that is not archived, ten results at most.
    fn default() -> (r: SearchQuery)
        ensures
            r@ == QueryView::plain(),
    {
        let r = SearchQuery {
            query: String::new(),
            user_id: None,
            memory_types: Vec::new(),
            tiers: Vec::new(),
            include_archived: false,
            limit: 10,
        };
        assert(r@ =~= QueryView::plain());
        r
    }
}

impl SearchQuery {
    /// Sets the natural language query text.
    pub fn with_query(self, q: &str) -> (r: SearchQuery)
        ensures
            r@ == (QueryView { query: q@, ..self@ }),
    {
        SearchQuery { query: q.to_owned(), ..self }
    }

    /// Scopes the search to a specific user.
    pub fn with_user(self, id: &str) -> (r: SearchQuery)
        ensures
            r@ == (QueryView { user_id: Some(id@), ..self@ }),
    {
        SearchQuery { user_id: Some(id.to_owned()), ..self }
    }

    /// Filters by memory types.
    pub fn with_memory_types(self, types: Vec<MemoryType>) -> (r: SearchQuery)
        ensures
            r@ == (QueryView { memory_types: types@, ..self@ }),
    {
        SearchQuery { memory_types: types, ..self }
    }

    /// Filters by memory tiers.
    pub fn with_tiers(self, tiers: Vec<MemoryTier>) -> (r: SearchQuery)
        ensures
            r@ == (QueryView { tiers: tiers@, ..self@ }),
    {
        SearchQuery { tiers, ..self }
    }

    /// Includes archived (closed) issues in results.
    pub fn with_archived(self, archived: bool) -> (r: SearchQuery)
        ensures
            r@ == (QueryView { include_archived: archived, ..self@ }),
    {
        SearchQuery { include_archived: archived, ..self }
    }

    /// Sets the maximum number of results to return.
    pub fn with_limit(self, limit: usize) -> (r: SearchQuery)
        ensures
            r@ == (QueryView { limit, ..self@ }),
    {
        SearchQuery { limit, ..self }
    }
}

impl Clone for SearchQuery {
    fn clone(&self) -> (r: SearchQuery)
        ensures
            r@ == self@,
    {
        let mut memory_types: Vec<MemoryType> = Vec::new();
        let mut i: usize = 0;
        while i < self.memory_types.len()
            invariant
                i <= self.memory_types.len(),
                memory_types@ == self.memory_types@.take(i as int),
            decreases self.memory_types.len() - i,
        {
            memory_types.push(self.memory_types[i]);
            i += 1;
        }
        let mut tiers: Vec<MemoryTier> = Vec::new();
        let mut k: usize = 0;
        while k < self.tiers.len()
            invariant
                k <= self.tiers.len(),
                tiers@ == self.tiers@.take(k as int),
            decreases self.tiers.len() - k,
        {
            tiers.push(self.tiers[k]);
            k += 1;
        }
        let r = SearchQuery {
            query: self.query.clone(),
            user_id: copy_text(&self.user_id),
            memory_types,
            tiers,
            include_archived: self.include_archived,
            limit: self.limit,
        };
        assert(r@ =~= self@);
        r
    }
}

/// Whether two queries ask for the same.
fn same_query(a: &SearchQuery, b: &SearchQuery) -> (r: bool)
    ensures
        r == (a@ == b@),
{
    let users: bool = match (&a.user_id, &b.user_id) {
        (Some(u), Some(v)) => same(u.as_str(), v.as_str()),
        (None, None) => true,
        _ => false,
    };
    if !users || !same(a.query.as_str(), b.query.as_str()) || a.include_archived
        != b.include_archived || a.limit != b.limit || a.memory_types.len()
        != b.memory_types.len() || a.tiers.len() != b.tiers.len() {
        return false;
    }
    let mut i: usize = 0;
    while i < a.memory_types.len()
        invariant
            i <= a.memory_types.len() == b.memory_types.len(),
            forall|j: int| 0 <= j < i ==> a.memory_types@[j] == b.memory_types@[j],
        decreases a.memory_types.len() - i,
    {
        if a.memory_types[i] != b.memory_types[i] {
            assert(a@.memory_types[i as int] != b@.memory_types[i as int]);
            return false;
        }
        i += 1;
    }
    let mut k: usize = 0;
    while k < a.tiers.len()
        invariant
            k <= a.tiers.len() == b.tiers.len(),
            forall|j: int| 0 <= j < k ==> a.tiers@[j] == b.tiers@[j],
        decreases a.tiers.len() - k,
    {
        if a.tiers[k] != b.tiers[k] {
            assert(a@.tiers[k as int] != b@.tiers[k as int]);
            return false;
        }
        k += 1;
    }
    assert(a@ =~= b@);
    true
}

// ---------------------------------------------------------------------------
// SearchResult
// ---------------------------------------------------------------------------

/// A ranked search result.
#[derive(Debug)]
pub struct SearchResult {
    /// The memory entry.
    pub entry: MemoryEntry,
    /// Local combined relevance score.
    pub score: Score,
    /// Raw GitHub relevance score.
    pub gh_score: Score,
}

/// What a [`SearchResult`] holds.
#[verifier::ext_equal]
pub struct ResultView {
    pub entry: EntryView,
    pub score: Score,
    pub gh_score: Score,
}

impl View for SearchResult {
    type V = ResultView;

    open spec fn view(&self) -> ResultView {
        ResultView { entry: self.entry@, score: self.score, gh_score: self.gh_score }
    }
}

impl Clone for SearchResult {
    fn clone(&self) -> (r: SearchResult)
        ensures
            r@ == self@,
    {
        SearchResult { entry: self.entry.clone(), score: self.score, gh_score: self.gh_score }
    }
}

/// What the results hold.
pub open spec fn result_views(v: Seq<SearchResult>) -> Seq<ResultView> {
    Seq::new(v.len(), |i: int| v[i]@)
}

/// All results belong to a user.
pub open spec fn results_of(user_id: Seq<char>, v: Seq<ResultView>) -> bool {
    forall|i: int| 0 <= i < v.len() ==> (#[trigger] v[i]).entry.user_id == Some(user_id)
}

/// The results, copied.
pub(crate) fn copy_results(v: &Vec<SearchResult>) -> (r: Vec<SearchResult>)
    ensures
        result_views(r@) == result_views(v@),
{
    let mut r: Vec<SearchResult> = Vec::new();
    let mut i: usize = 0;
    while i < v.len()
        invariant
            i <= v.len(),
            r.len() == i,
            forall|j: int| 0 <= j < i ==> (#[trigger] r@[j])@ == v@[j]@,
        decreases v.len() - i,
    {
        r.push(v[i].clone());
        i += 1;
    }
    assert(result_views(r@) =~= result_views(v@));
    r
}

// ---------------------------------------------------------------------------
// Models
// ---------------------------------------------------------------------------

/// The parts of a GitHub search query, in order.
pub open spec fn query_parts(q: QueryView, repo: Seq<char>) -> Seq<Seq<char>> {
    let state = if q.include_archived {
        seq![]
    } else {
        seq!["state:open"@]
    };
    let user = match q.user_id {
        Some(u) => seq!["label:"@ + label_of_user(u)],
        None => seq![],
    };
    let types = Seq::new(
        q.memory_types.len(),
        |i: int| "label:"@ + label_of_type(q.memory_types[i]),
    );
    let tiers = Seq::new(q.tiers.len(), |i: int| "label:"@ + label_of_tier(q.tiers[i]));
    let words = if q.query.len() == 0 {
        seq![]
    } else {
        seq![q.query]
    };
    seq!["repo:"@ + repo] + state + user + types + tiers + words
}

/// The GitHub search query.
pub open spec fn gh_query(q: QueryView, repo: Seq<char>) -> Seq<char> {
    join(query_parts(q, repo), " "@)
}

/// `true` or `false`.
pub open spec fn bool_text(b: bool) -> Seq<char> {
    if b {
        "true"@
    } else {
        "false"@
    }
}

/// The user of a query, or an empty text.
pub open spec fn user_or_empty(q: QueryView) -> Seq<char> {
    match q.user_id {
        Some(u) => u,
        None => seq![],
    }
}

/// The key under which the results of a query are cached.
pub open spec fn key_text(q: QueryView) -> Seq<char> {
    let types = Seq::new(q.memory_types.len(), |i: int| q.memory_types[i].name());
    let tiers = Seq::new(q.tiers.len(), |i: int| q.tiers[i].name());
    q.query + "|"@ + user_or_empty(q) + "|"@ + join(types, ","@) + "|"@ + join(tiers, ","@) + "|"@ + bool_text(
        q.include_archived,
    ) + "|"@ + decimal(q.limit as nat)
}

/// How many results are asked for: twice the limit, at most 30.
pub open spec fn page_size(limit: int) -> int {
    if limit * 2 < 30 {
        limit * 2
    } else {
        30
    }
}

/// The search request of a query.
pub open spec fn search_ask(repo: Seq<char>, q: QueryView, hybrid: bool) -> RequestView {
    let always = seq![
        ("q"@, gh_query(q, repo)),
        ("per_page"@, decimal(page_size(q.limit as int) as nat)),
        ("sort"@, "best-match"@),
    ];
    RequestView {
        method: Method::Get,
        url: "https://api.github.com/search/issues"@,
        params: if hybrid {
            always.push(("search_type"@, "hybrid"@))
        } else {
            always
        },
        body: None,
    }
}

/// How many pages of results are asked for, where all that the limit allows are wanted.
pub open spec fn last_page(limit: int) -> int {
    if limit <= 30 {
        1
    } else {
        (limit + 29) / 30
    }
}

/// The request for a further page of the results of a lexical search.
pub open spec fn page_ask(repo: Seq<char>, q: QueryView, page: int) -> RequestView {
    let first = search_ask(repo, q, false);
    if page <= 1 {
        first
    } else {
        RequestView { params: first.params.push(("page"@, decimal(page as nat))), ..first }
    }
}

/// The call failed because the rate limit was hit; waiting `secs` seconds is suggested.
pub open spec fn rate_limited<T>(r: Result<T>, secs: u64) -> bool {
    match r {
        Err(MemoryError::RateLimit { retry_after_secs }) => retry_after_secs == secs,
        _ => false,
    }
}

/// The items in the body of a search reply.
pub open spec fn found_items(body: JsonView) -> Seq<JsonView> {
    match body.field("items"@) {
        Some(v) => match v.items() {
            Some(items) => items,
            None => seq![],
        },
        None => seq![],
    }
}

/// The number of the issue that an item describes.
pub open spec fn item_number(item: JsonView) -> Option<u64> {
    match item.field("number"@) {
        Some(v) => v.unsigned(),
        None => None,
    }
}

/// The relevance that GitHub gives an item.
pub open spec fn item_score(item: JsonView) -> Option<Number> {
    match item.field("score"@) {
        Some(v) => v.numeric(),
        None => None,
    }
}

/// The entries that were read from the items, each with the number of its issue and its
/// relevance. Items that could not be read are skipped.
pub open spec fn gathered(
    items: Seq<JsonView>,
    read: Seq<Result<MemoryEntry>>,
) -> Seq<(EntryView, Option<Number>)>
    decreases items.len(),
{
    if items.len() == 0 || read.len() == 0 {
        seq![]
    } else {
        let before = gathered(items.drop_last(), read.drop_last());
        match read.last() {
            Ok(e) => before.push(
                (
                    EntryView { issue_number: item_number(items.last()), ..e@ },
                    item_score(items.last()),
                ),
            ),
            Err(_) => before,
        }
    }
}

/// `read` is what comes of reading the items when `decode` reads the metadata.
pub open spec fn items_read<F: Fn(&str) -> Result<MemoryMeta>>(
    decode: F,
    items: Seq<JsonView>,
    read: Seq<Result<MemoryEntry>>,
) -> bool {
    &&& read.len() == items.len()
    &&& forall|i: int|
        0 <= i < items.len() ==> body_reads(
            decode,
            text_or_empty(items[i], "body"@),
            #[trigger] read[i],
        )
}

/// What the entries and their relevances hold.
pub open spec fn found_views(v: Seq<(MemoryEntry, Option<Number>)>) -> Seq<
    (EntryView, Option<Number>),
> {
    Seq::new(v.len(), |i: int| (v[i].0@, v[i].1))
}

/// The results are the entries that were found, with the scores that `rate` gives them.
pub open spec fn all_rated<G: Fn(&MemoryEntry, Option<Number>) -> (Score, Score)>(
    rate: G,
    found: Seq<(MemoryEntry, Option<Number>)>,
    results: Seq<ResultView>,
) -> bool {
    &&& results.len() == found.len()
    &&& forall|i: int|
        0 <= i < found.len() ==> (#[trigger] results[i]).entry == found[i].0@ && call_ensures(
            rate,
            (&found[i].0, found[i].1),
            (results[i].score, results[i].gh_score),
        )
}

/// `all` is what comes of reading the items when `decode` reads the metadata and `rate`
/// scores the entries.
pub open spec fn rated_from<
    F: Fn(&str) -> Result<MemoryMeta>,
    G: Fn(&MemoryEntry, Option<Number>) -> (Score, Score),
>(decode: F, rate: G, items: Seq<JsonView>, all: Seq<ResultView>) -> bool {
    exists|read: Seq<Result<MemoryEntry>>, found: Seq<(MemoryEntry, Option<Number>)>|
        {
            &&& #[trigger] items_read(decode, items, read)
            &&& found_views(found) == gathered(items, read)
            &&& #[trigger] all_rated(rate, found, all)
        }
}

/// The keys by which results are ranked.
pub open spec fn score_keys(v: Seq<ResultView>) -> Seq<int> {
    Seq::new(v.len(), |i: int| v[i].score.total_rank())
}

/// `top` holds the best `limit` of the results, the best first; of results with equal
/// scores those that stood first come first.
pub open spec fn is_top(all: Seq<ResultView>, limit: int, top: Seq<ResultView>) -> bool {
    exists|order: Seq<int>| #[trigger]
        is_ranking(score_keys(all), order) && top == picked(
            all,
            if order.len() <= limit {
                order
            } else {
                order.take(limit)
            },
        )
}

/// A query for a user searches only what carries the label of that user.
pub proof fn law_query_is_scoped(q: QueryView, repo: Seq<char>, user_id: Seq<char>)
    requires
        q.user_id == Some(user_id),
    ensures
        query_parts(q, repo).contains("label:"@ + label_of_user(user_id)),
{
    let at = if q.include_archived {
        1int
    } else {
        2int
    };
    assert(query_parts(q, repo)[at] == "label:"@ + label_of_user(user_id));
}

/// Two queries share a cache key only if they ask for the same: as long as the user of
/// neither holds a vertical bar, equal keys mean equal fields. (No user and a user with an
/// empty name are not told apart.)
pub proof fn law_key_tells_queries_apart(a: QueryView, b: QueryView)
    requires
        key_text(a) == key_text(b),
        !user_or_empty(a).contains('|'),
        !user_or_empty(b).contains('|'),
    ensures
        a.query == b.query,
        user_or_empty(a) == user_or_empty(b),
        a.memory_types == b.memory_types,
        a.tiers == b.tiers,
        a.include_archived == b.include_archived,
        a.limit == b.limit,
{
    let bar = seq!['|'];
    reveal_strlit("|");
    reveal_strlit(",");
    assert("|"@ =~= bar);
    assert(","@ =~= seq![',']);
    let (ta, tb) = (type_names(a), type_names(b));
    let (ra, rb) = (tier_names(a), tier_names(b));
    lemma_type_names(a);
    lemma_type_names(b);
    lemma_tier_names(a);
    lemma_tier_names(b);
    let (da, db) = (decimal(a.limit as nat), decimal(b.limit as nat));
    if da.contains('|') {
        lemma_decimal_digits(a.limit as nat, '|');
    }
    if db.contains('|') {
        lemma_decimal_digits(b.limit as nat, '|');
    }
    let (ba, bb) = (bool_text(a.include_archived), bool_text(b.include_archived));
    reveal_strlit("true");
    reveal_strlit("false");
    assert(!ba.contains('|') && !bb.contains('|'));
    let (ja, jb) = (join(ta, ","@), join(tb, ","@));
    let (ka, kb) = (join(ra, ","@), join(rb, ","@));
    let (ua, ub) = (user_or_empty(a), user_or_empty(b));
    let (a1, b1) = (a.query + bar + ua, b.query + bar + ub);
    let (a2, b2) = (a1 + bar + ja, b1 + bar + jb);
    let (a3, b3) = (a2 + bar + ka, b2 + bar + kb);
    let (a4, b4) = (a3 + bar + ba, b3 + bar + bb);
    lemma_cut_last(a4, da, b4, db, '|');
    lemma_cut_last(a3, ba, b3, bb, '|');
    lemma_cut_last(a2, ka, b2, kb, '|');
    lemma_cut_last(a1, ja, b1, jb, '|');
    lemma_cut_last(a.query, ua, b.query, ub, '|');
    lemma_join_apart(ta, tb, ',');
    lemma_join_apart(ra, rb, ',');
    assert forall|i: int| 0 <= i < a.memory_types.len() implies a.memory_types[i]
        == b.memory_types[i] by {
        assert(ta[i] == tb[i]);
        law_type_names(a.memory_types[i], b.memory_types[i]);
    }
    assert(a.memory_types =~= b.memory_types);
    assert forall|i: int| 0 <= i < a.tiers.len() implies a.tiers[i] == b.tiers[i] by {
        assert(ra[i] == rb[i]);
        law_tier_names(a.tiers[i], b.tiers[i]);
    }
    assert(a.tiers =~= b.tiers);
    lemma_decimal_apart(a.limit as nat, b.limit as nat);
    assert(ba[0] == bb[0]);
}

/// The names of the types that a query asks for.
spec fn type_names(q: QueryView) -> Seq<Seq<char>> {
    Seq::new(q.memory_types.len(), |i: int| q.memory_types[i].name())
}

/// The names of the tiers that a query asks for.
spec fn tier_names(q: QueryView) -> Seq<Seq<char>> {
    Seq::new(q.tiers.len(), |i: int| q.tiers[i].name())
}

proof fn lemma_type_names(q: QueryView)
    ensures
        forall|i: int|
            0 <= i < type_names(q).len() ==> !(#[trigger] type_names(q)[i]).contains(',')
                && type_names(q)[i].len() > 0,
        !join(type_names(q), ","@).contains('|'),
{
    reveal_strlit("episodic");
    reveal_strlit("semantic");
    reveal_strlit("procedural");
    reveal_strlit("working");
    reveal_strlit(",");
    assert forall|i: int| 0 <= i < type_names(q).len() implies !(
    #[trigger] type_names(q)[i]).contains('|') by {}
    lemma_join_part(type_names(q), ","@, '|');
}

proof fn lemma_tier_names(q: QueryView)
    ensures
        forall|i: int|
            0 <= i < tier_names(q).len() ==> !(#[trigger] tier_names(q)[i]).contains(',')
                && tier_names(q)[i].len() > 0,
        !join(tier_names(q), ","@).contains('|'),
{
    reveal_strlit("hot");
    reveal_strlit("warm");
    reveal_strlit("cold");
    reveal_strlit(",");
    assert forall|i: int| 0 <= i < tier_names(q).len() implies !(
    #[trigger] tier_names(q)[i]).contains('|') by {}
    lemma_join_part(tier_names(q), ","@, '|');
}

/// The best results are as many as asked for, or all; they fall by score, and none that was
/// left out has a better score than one that was kept.
pub proof fn law_top_results(all: Seq<ResultView>, limit: int, top: Seq<ResultView>)
    requires
        limit >= 0,
        is_top(all, limit, top),
    ensures
        top.len() == if all.len() <= limit {
            all.len() as int
        } else {
            limit
        },
        forall|i: int, j: int|
            0 <= i < j < top.len() ==> (#[trigger] top[i]).score.total_rank() >= (
            #[trigger] top[j]).score.total_rank(),
        forall|i: int| 0 <= i < top.len() ==> all.contains(#[trigger] top[i]),
        forall|k: int, i: int|
            0 <= k < all.len() && 0 <= i < top.len() && !top.contains(#[trigger] all[k])
                ==> all[k].score.total_rank() <= (#[trigger] top[i]).score.total_rank(),
{
    let order = choose|order: Seq<int>| #[trigger]
        is_ranking(score_keys(all), order) && top == picked(
            all,
            if order.len() <= limit {
                order
            } else {
                order.take(limit)
            },
        );
    assert forall|i: int| 0 <= i < top.len() implies all.contains(#[trigger] top[i]) by {
        assert(top[i] == all[order[i]]);
    }
    assert forall|i: int, j: int| 0 <= i < j < top.len() implies (
    #[trigger] top[i]).score.total_rank() >= (#[trigger] top[j]).score.total_rank() by {
        assert(top[i] == all[order[i]]);
        assert(top[j] == all[order[j]]);
    }
    assert forall|k: int, i: int|
        0 <= k < all.len() && 0 <= i < top.len() && !top.contains(
            #[trigger] all[k],
        ) implies all[k].score.total_rank() <= (#[trigger] top[i]).score.total_rank() by {
        assert(order.contains(k));
        let j = choose|j: int| 0 <= j < order.len() && order[j] == k;
        if j < top.len() {
            assert(top[j] == all[k]);
        }
        assert(top[i] == all[order[i]]);
    }
}

// ---------------------------------------------------------------------------
// The engine
// ---------------------------------------------------------------------------

/// How long the results of a hybrid search are kept, in nanoseconds: two minutes.
pub const CACHE_TTL: u64 = 120_000_000_000;

/// Results that were kept, and the query that they answer.
struct CacheEntry {
    query: SearchQuery,
    at: u64,
    results: Vec<SearchResult>,
}

/// What was kept of a search.
#[verifier::ext_equal]
pub struct KeptView {
    /// When the results were kept.
    pub at: u64,
    /// The results.
    pub results: Seq<ResultView>,
}

/// What was kept last for a query among what shares its key.
spec fn kept_in(shelf: Seq<CacheEntry>, q: QueryView) -> Option<KeptView>
    decreases shelf.len(),
{
    if shelf.len() == 0 {
        None
    } else if shelf.last().query@ == q {
        Some(KeptView { at: shelf.last().at, results: result_views(shelf.last().results@) })
    } else {
        kept_in(shelf.drop_last(), q)
    }
}

/// Copies what is kept for other queries than this one.
fn copy_others(shelf: &Vec<CacheEntry>, query: &SearchQuery) -> (r: Vec<CacheEntry>)
    ensures
        forall|q: QueryView| q != query@ ==> #[trigger] kept_in(r@, q) == kept_in(shelf@, q),
{
    let mut r: Vec<CacheEntry> = Vec::new();
    let mut i: usize = 0;
    while i < shelf.len()
        invariant
            i <= shelf.len(),
            forall|q: QueryView|
                q != query@ ==> #[trigger] kept_in(r@, q) == kept_in(shelf@.take(i as int), q),
        decreases shelf.len() - i,
    {
        let kept = &shelf[i];
        let ghost before = r@;
        assert(shelf@.take(i + 1).drop_last() =~= shelf@.take(i as int));
        if !same_query(&kept.query, query) {
            r.push(
                CacheEntry {
                    query: kept.query.clone(),
                    at: kept.at,
                    results: copy_results(&kept.results),
                },
            );
            assert(r@.drop_last() =~= before);
        }
        i += 1;
        assert forall|q: QueryView| q != query@ implies #[trigger] kept_in(r@, q) == kept_in(
            shelf@.take(i as int),
            q,
        ) by {
            assert(kept_in(before, q) == kept_in(shelf@.take(i - 1), q));
        }
    }
    assert(shelf@.take(i as int) =~= shelf@);
    r
}

/// Turns queries into requests, and replies into ranked results.
///
/// Hybrid search is semantic and keyword search in one; its results are kept for two
/// minutes to conserve the quota of ten requests a minute. Lexical search is keyword search
/// alone. Times are nanoseconds on a clock of the caller's that does not run backwards.
pub struct SearchEngine {
    repo: String,
    token: String,
    cache: StringHashMap<Vec<CacheEntry>>,
}

/// What a hybrid search calls for.
#[derive(Debug)]
pub enum SearchStep {
    /// The results are known.
    Cached(Vec<SearchResult>),
    /// The request must be sent, once the quota allows it.
    Ask(Request),
}

/// Results kept at `at` are still good at `now`.
pub open spec fn still_fresh(at: u64, now: u64) -> bool {
    now - at < CACHE_TTL
}

/// The results that can be answered with at once, of what was kept.
pub open spec fn answer_of(kept: Map<QueryView, KeptView>, q: QueryView, now: u64) -> Option<
    Seq<ResultView>,
> {
    if kept.contains_key(q) && still_fresh(kept[q].at, now) {
        Some(kept[q].results)
    } else {
        None
    }
}

/// What happens to what is kept.
pub enum CacheStep {
    /// The results of a query are kept.
    Keep(QueryView, KeptView),
    /// All is forgotten.
    Forget,
}

/// What is kept after these steps.
pub open spec fn after_steps(
    kept: Map<QueryView, KeptView>,
    steps: Seq<CacheStep>,
) -> Map<QueryView, KeptView>
    decreases steps.len(),
{
    if steps.len() == 0 {
        kept
    } else {
        let before = after_steps(kept, steps.drop_last());
        match steps.last() {
            CacheStep::Keep(q, k) => before.insert(q, k),
            CacheStep::Forget => Map::empty(),
        }
    }
}

/// The step keeps the results of another query than `q`.
pub open spec fn concerns_another(step: CacheStep, q: QueryView) -> bool {
    match step {
        CacheStep::Keep(p, _) => p != q,
        CacheStep::Forget => false,
    }
}

/// What was kept for a query is the answer to it for two minutes, and no longer, whatever
/// is kept for other queries meanwhile.
pub proof fn law_answer_lasts(
    kept: Map<QueryView, KeptView>,
    q: QueryView,
    own: KeptView,
    steps: Seq<CacheStep>,
    now: u64,
)
    requires
        forall|i: int| 0 <= i < steps.len() ==> concerns_another(#[trigger] steps[i], q),
    ensures
        now < own.at + CACHE_TTL ==> answer_of(after_steps(kept.insert(q, own), steps), q, now)
            == Some(own.results),
        now >= own.at + CACHE_TTL ==> answer_of(
            after_steps(kept.insert(q, own), steps),
            q,
            now,
        ) is None,
    decreases steps.len(),
{
    if steps.len() > 0 {
        let front = steps.drop_last();
        assert(concerns_another(steps[steps.len() - 1], q));
        assert forall|i: int| 0 <= i < front.len() implies concerns_another(
            #[trigger] front[i],
            q,
        ) by {
            assert(front[i] == steps[i]);
        }
        law_answer_lasts(kept, q, own, front, now);
    }
}

/// Every answer was kept for that very query less than two minutes ago, and since then
/// neither was anything else kept for it nor all forgotten.
pub proof fn law_answers_were_kept(steps: Seq<CacheStep>, q: QueryView, now: u64)
    requires
        answer_of(after_steps(Map::empty(), steps), q, now) is Some,
    ensures
        exists|i: int|
            {
                &&& 0 <= i < steps.len()
                &&& #[trigger] steps[i] matches CacheStep::Keep(p, k) && p == q && now < k.at
                    + CACHE_TTL && answer_of(after_steps(Map::empty(), steps), q, now) == Some(
                    k.results,
                )
                &&& forall|j: int| i < j < steps.len() ==> concerns_another(#[trigger] steps[j], q)
            },
    decreases steps.len(),
{
    let all = after_steps(Map::empty(), steps);
    if steps.len() > 0 {
        let n = steps.len() - 1;
        let front = steps.drop_last();
        assert(steps.last() == steps[n]);
        if concerns_another(steps[n], q) {
            assert(answer_of(after_steps(Map::empty(), front), q, now) == answer_of(all, q, now));
            law_answers_were_kept(front, q, now);
            let i = choose|i: int|
                {
                    &&& 0 <= i < front.len()
                    &&& #[trigger] front[i] matches CacheStep::Keep(p, k) && p == q && now < k.at
                        + CACHE_TTL && answer_of(after_steps(Map::empty(), front), q, now) == Some(
                        k.results,
                    )
                    &&& forall|j: int|
                        i < j < front.len() ==> concerns_another(#[trigger] front[j], q)
                };
            assert(steps[i] == front[i]);
            assert forall|j: int| i < j < steps.len() implies concerns_another(
                #[trigger] steps[j],
                q,
            ) by {
                if j < n {
                    assert(steps[j] == front[j]);
                }
            }
        } else {
            assert(steps[n] is Keep);
        }
    }
}

/// All that is kept for a user belongs to that user.
pub open spec fn all_private(kept: Map<QueryView, KeptView>) -> bool {
    forall|q: QueryView| #[trigger] kept.contains_key(q) ==> answers_own_user(q, kept[q].results)
}

/// If the query is for a user, all results belong to that user.
pub open spec fn answers_own_user(q: QueryView, results: Seq<ResultView>) -> bool {
    match q.user_id {
        Some(u) => results_of(u, results),
        None => true,
    }
}

/// As long as GitHub lists to a query for a user only entries of that user, all that is
/// kept for a user belongs to that user, whatever the steps.
pub proof fn law_all_kept_is_private(steps: Seq<CacheStep>)
    requires
        forall|i: int|
            0 <= i < steps.len() ==> match #[trigger] steps[i] {
                CacheStep::Keep(q, k) => answers_own_user(q, k.results),
                CacheStep::Forget => true,
            },
    ensures
        all_private(after_steps(Map::empty(), steps)),
    decreases steps.len(),
{
    if steps.len() > 0 {
        let front = steps.drop_last();
        assert(steps.last() == steps[steps.len() - 1]);
        assert forall|i: int| 0 <= i < front.len() implies match #[trigger] front[i] {
            CacheStep::Keep(q, k) => answers_own_user(q, k.results),
            CacheStep::Forget => true,
        } by {
            assert(front[i] == steps[i]);
        }
        law_all_kept_is_private(front);
    }
}

/// `r` is what comes of a search for `q` that was answered with `reply`, when `decode` reads
/// the metadata and `rate` scores the entries.
pub open spec fn searched<
    F: Fn(&str) -> Result<MemoryMeta>,
    G: Fn(&MemoryEntry, Option<Number>) -> (Score, Score),
>(q: QueryView, reply: Reply, decode: F, rate: G, r: Result<Vec<SearchResult>>) -> bool {
    if reply.status == 403 || reply.status == 429 {
        rate_limited(r, 60)
    } else if !reply.succeeded() {
        api_failure(r, reply.status, reply.text@)
    } else {
        match json_in(reply.text@) {
            None => decode_failure(r),
            Some(body) => r is Ok && exists|all: Seq<ResultView>|
                {
                    &&& #[trigger] rated_from(decode, rate, found_items(body), all)
                    &&& is_top(all, q.limit as int, result_views(r->Ok_0@))
                },
        }
    }
}

impl SearchEngine {
    /// `"owner/repo"` of the repository.
    pub closed spec fn repository(self) -> Seq<char> {
        self.repo@
    }

    /// The access token.
    pub closed spec fn secret(self) -> Seq<char> {
        self.token@
    }

    /// What was kept last for a query.
    closed spec fn kept_for(self, q: QueryView) -> Option<KeptView> {
        if self.cache@.contains_key(key_text(q)) {
            kept_in(self.cache@[key_text(q)]@, q)
        } else {
            None
        }
    }

    /// What was kept, by query.
    pub closed spec fn kept(self) -> Map<QueryView, KeptView> {
        Map::new(|q: QueryView| self.kept_for(q) is Some, |q: QueryView| self.kept_for(q)->0)
    }

    /// All that was kept for a user belongs to that user.
    pub open spec fn private(self) -> bool {
        all_private(self.kept())
    }

    /// The results that a hybrid search can answer with at once.
    pub open spec fn answer(self, q: QueryView, now: u64) -> Option<Seq<ResultView>> {
        answer_of(self.kept(), q, now)
    }

    /// An engine for the repository `repo`, with the access token `token`, and nothing kept.
    pub fn new(repo: &str, token: &str) -> (r: SearchEngine)
        ensures
            r.repository() == repo@,
            r.secret() == token@,
            r.kept() == Map::<QueryView, KeptView>::empty(),
            r.private(),
    {
        let r = SearchEngine {
            repo: repo.to_owned(),
            token: token.to_owned(),
            cache: StringHashMap::new(),
        };
        assert(r.kept() =~= Map::empty());
        r
    }

    /// The access token.
    pub fn token(&self) -> (r: &str)
        ensures
            r@ == self.secret(),
    {
        self.token.as_str()
    }

    /// Starts a hybrid search: results that were kept less than two minutes ago, or the
    /// request.
    pub fn hybrid_search(&self, query: &SearchQuery, now: u64) -> (r: SearchStep)
        ensures
            match self.answer(query@, now) {
                Some(results) => r matches SearchStep::Cached(v) && result_views(v@) == results,
                None => r matches SearchStep::Ask(ask) && ask@ == search_ask(
                    self.repository(),
                    query@,
                    true,
                ),
            },
    {
        let key = Self::cache_key(query);
        if let Some(shelf) = self.cache.get(key.as_str()) {
            let mut i: usize = shelf.len();
            assert(shelf@.take(i as int) =~= shelf@);
            while i > 0
                invariant
                    i <= shelf.len(),
                    self.kept_for(query@) == kept_in(shelf@, query@),
                    kept_in(shelf@, query@) == kept_in(shelf@.take(i as int), query@),
                decreases i,
            {
                i -= 1;
                assert(shelf@.take(i + 1).drop_last() =~= shelf@.take(i as int));
                let kept = &shelf[i];
                if same_query(&kept.query, query) {
                    if now.saturating_sub(kept.at) < CACHE_TTL {
                        return SearchStep::Cached(copy_results(&kept.results));
                    }
                    return SearchStep::Ask(self.search_request(query, true));
                }
            }
        }
        SearchStep::Ask(self.search_request(query, true))
    }

    /// Keeps the results of a query.
    pub fn keep_results(&mut self, query: &SearchQuery, results: &Vec<SearchResult>, now: u64)
        ensures
            final(self).repository() == old(self).repository(),
            final(self).secret() == old(self).secret(),
            final(self).kept() == old(self).kept().insert(
                query@,
                KeptView { at: now, results: result_views(results@) },
            ),
            old(self).private() && answers_own_user(query@, result_views(results@))
                ==> final(self).private(),
    {
        let ghost before = *self;
        let ghost own = KeptView { at: now, results: result_views(results@) };
        let key = Self::cache_key(query);
        let mut shelf: Vec<CacheEntry> = match self.cache.get(key.as_str()) {
            Some(shelf) => copy_others(shelf, query),
            None => Vec::new(),
        };
        let ghost others = shelf@;
        shelf.push(
            CacheEntry { query: query.clone(), at: now, results: copy_results(results) },
        );
        assert(shelf@.drop_last() =~= others);
        self.cache.insert(key, shelf);
        proof {
            assert forall|q: QueryView| #[trigger] self.kept_for(q) == if q == query@ {
                Some(own)
            } else {
                before.kept_for(q)
            } by {
                if q != query@ && key_text(q) == key_text(query@) {
                    assert(kept_in(shelf@, q) == kept_in(others, q));
                }
            }
            assert(self.kept() =~= before.kept().insert(query@, own));
        }
    }

    /// Ends a hybrid search: turns the reply into its results, and keeps them. What went
    /// wrong is not kept.
    ///
    /// # Errors
    ///
    /// Fails as [`SearchEngine::execute_search`] does.
    pub fn finish_hybrid<F, G>(
        &mut self,
        query: &SearchQuery,
        reply: &Reply,
        decode: F,
        rate: G,
        now: u64,
    ) -> (r: Result<Vec<SearchResult>>) where
        F: Fn(&str) -> Result<MemoryMeta>,
        G: Fn(&MemoryEntry, Option<Number>) -> (Score, Score),

        requires
            decodes_all(decode),
            forall|e: MemoryEntry, n: Option<Number>| call_requires(rate, (&e, n)),
        ensures
            searched(query@, *reply, decode, rate, r),
            final(self).repository() == old(self).repository(),
            final(self).secret() == old(self).secret(),
            match r {
                Ok(v) => final(self).kept() == old(self).kept().insert(
                    query@,
                    KeptView { at: now, results: result_views(v@) },
                ) && (old(self).private() && answers_own_user(query@, result_views(v@))
                    ==> final(self).private()),
                Err(_) => *final(self) == *old(self),
            },
    {
        match self.execute_search(query, reply, decode, rate) {
            Ok(results) => {
                self.keep_results(query, &results, now);
                Ok(results)
            },
            Err(e) => Err(e),
        }
    }

    /// The request of a lexical search.
    pub fn lexical_search(&self, query: &SearchQuery) -> (r: Request)
        ensures
            r@ == search_ask(self.repository(), query@, false),
    {
        self.search_request(query, false)
    }

    /// Forgets all results that were kept.
    pub fn invalidate_cache(&mut self)
        ensures
            final(self).repository() == old(self).repository(),
            final(self).secret() == old(self).secret(),
            final(self).kept() == Map::<QueryView, KeptView>::empty(),
            final(self).private(),
    {
        self.cache.clear();
        assert(self.kept() =~= Map::empty());
    }

    /// The request of a search.
    fn search_request(&self, query: &SearchQuery, hybrid: bool) -> (r: Request)
        ensures
            r@ == search_ask(self.repository(), query@, hybrid),
    {
        let per_page: u64 = if query.limit < 15 {
            (query.limit * 2) as u64
        } else {
            30
        };
        let mut params: Vec<(String, String)> = Vec::new();
        params.push(("q".to_owned(), Self::build_gh_query(query, self.repo.as_str())));
        params.push(("per_page".to_owned(), number_text(per_page)));
        params.push(("sort".to_owned(), "best-match".to_owned()));
        if hybrid {
            params.push(("search_type".to_owned(), "hybrid".to_owned()));
        }
        let r = Request {
            method: Method::Get,
            url: "https://api.github.com/search/issues".to_owned(),
            params,
            body: None,
        };
        assert(r@ =~= search_ask(self.repository(), query@, hybrid));
        r
    }

    /// The request for a page of the results of a lexical search.
    fn page_request(&self, query: &SearchQuery, page: u64) -> (r: Request)
        ensures
            r@ == page_ask(self.repository(), query@, page as int),
    {
        let mut r = self.search_request(query, false);
        let ghost first = r@;
        if page > 1 {
            r.params.push(("page".to_owned(), number_text(page)));
            assert(r@.params =~= first.params.push(("page"@, decimal(page as nat))));
        }
        r
    }

    /// The items that the reply to a search lists.
    ///
    /// # Errors
    ///
    /// - [`MemoryError::RateLimit`] if GitHub answers 403 or 429.
    /// - [`MemoryError::GithubApi`] if it answers with another status that is no success.
    /// - [`MemoryError::Http`] if the body is not JSON.
    pub fn listed_items(&self, reply: &Reply) -> (r: Result<Vec<Json>>)
        ensures
            if reply.status == 403 || reply.status == 429 {
                rate_limited(r, 60)
            } else if !reply.succeeded() {
                api_failure(r, reply.status, reply.text@)
            } else {
                match json_in(reply.text@) {
                    None => decode_failure(r),
                    Some(body) => r is Ok && json_views(r->Ok_0@) == found_items(body),
                }
            },
    {
        if reply.status == 403 || reply.status == 429 {
            return Err(MemoryError::RateLimit { retry_after_secs: 60 });
        }
        if !reply.is_success() {
            return Err(
                MemoryError::GithubApi { status: reply.status, message: reply.text.clone() },
            );
        }
        let body = match reply_json(reply) {
            Err(e) => return Err(e),
            Ok(j) => j,
        };
        Ok(Self::items_of(&body))
    }

    /// The items in the body of a reply to a search; none if it lists none.
    pub fn items_of(body: &Json) -> (r: Vec<Json>)
        ensures
            json_views(r@) == found_items(body@),
    {
        let mut r: Vec<Json> = Vec::new();
        if let Some(v) = body.get("items") {
            if let Some(items) = v.as_array() {
                let mut i: usize = 0;
                while i < items.len()
                    invariant
                        i <= items.len(),
                        r.len() == i,
                        forall|j: int| 0 <= j < i ==> (#[trigger] r@[j])@ == items@[j]@,
                    decreases items.len() - i,
                {
                    r.push(items[i].copy());
                    i += 1;
                }
                assert(json_views(r@) =~= json_views(items@));
            }
        }
        assert(json_views(r@) =~= found_items(body@));
        r
    }

    /// The entries that `decode` can read from the items, scored by `rate`.
    pub fn rate_items<F, G>(items: &Vec<Json>, decode: F, rate: G) -> (r: Vec<SearchResult>) where
        F: Fn(&str) -> Result<MemoryMeta>,
        G: Fn(&MemoryEntry, Option<Number>) -> (Score, Score),

        requires
            decodes_all(decode),
            forall|e: MemoryEntry, n: Option<Number>| call_requires(rate, (&e, n)),
        ensures
            rated_from(decode, rate, json_views(items@), result_views(r@)),
    {
        let found = Self::parse_search_items(items, decode);
        let ghost read = choose|read: Seq<Result<MemoryEntry>>| #[trigger]
            items_read(decode, json_views(items@), read) && found_views(found@) == gathered(
                json_views(items@),
                read,
            );
        let mut all: Vec<SearchResult> = Vec::new();
        let mut i: usize = 0;
        while i < found.len()
            invariant
                i <= found.len(),
                all.len() == i,
                forall|e: MemoryEntry, n: Option<Number>| call_requires(rate, (&e, n)),
                forall|j: int|
                    0 <= j < i ==> (#[trigger] all@[j])@.entry == found@[j].0@ && call_ensures(
                        rate,
                        (&found@[j].0, found@[j].1),
                        (all@[j]@.score, all@[j]@.gh_score),
                    ),
            decreases found.len() - i,
        {
            let (score, gh_score) = rate(&found[i].0, found[i].1);
            all.push(SearchResult { entry: found[i].0.clone(), score, gh_score });
            i += 1;
        }
        let ghost views = result_views(all@);
        proof {
            assert forall|j: int| 0 <= j < found@.len() implies (#[trigger] views[j]).entry
                == found@[j].0@ && call_ensures(
                rate,
                (&found@[j].0, found@[j].1),
                (views[j].score, views[j].gh_score),
            ) by {
                assert(views[j] == all@[j]@);
            }
            assert(all_rated(rate, found@, views));
            assert(items_read(decode, json_views(items@), read));
        }
        all
    }

    /// Turns the reply to a search into its results: the entries that `decode` can read,
    /// scored by `rate` and ranked.
    ///
    /// # Errors
    ///
    /// Fails as [`SearchEngine::listed_items`] does.
    pub fn execute_search<F, G>(
        &self,
        query: &SearchQuery,
        reply: &Reply,
        decode: F,
        rate: G,
    ) -> (r: Result<Vec<SearchResult>>) where
        F: Fn(&str) -> Result<MemoryMeta>,
        G: Fn(&MemoryEntry, Option<Number>) -> (Score, Score),

        requires
            decodes_all(decode),
            forall|e: MemoryEntry, n: Option<Number>| call_requires(rate, (&e, n)),
        ensures
            searched(query@, *reply, decode, rate, r),
    {
        let items = match self.listed_items(reply) {
            Err(e) => return Err(e),
            Ok(items) => items,
        };
        let all = Self::rate_items(&items, decode, rate);
        let top = Self::rank_results(&all, query.limit);
        assert(rated_from(decode, rate, json_views(items@), result_views(all@)));
        Ok(top)
    }

    /// The best `limit` of the results, the best first.
    pub fn rank_results(results: &Vec<SearchResult>, limit: usize) -> (r: Vec<SearchResult>)
        ensures
            is_top(result_views(results@), limit as int, result_views(r@)),
    {
        let ghost all = result_views(results@);
        let mut keys: Vec<i64> = Vec::new();
        let mut i: usize = 0;
        while i < results.len()
            invariant
                i <= results.len(),
                keys.len() == i,
                forall|j: int|
                    0 <= j < i ==> #[trigger] keys@[j] == results@[j].score.total_rank(),
            decreases results.len() - i,
        {
            keys.push(results[i].score.to_total_rank());
            i += 1;
        }
        assert(key_values(keys@) =~= score_keys(all));
        let order = rank(&keys);
        let ghost ranking = positions(order@);
        let n: usize = if order.len() <= limit {
            order.len()
        } else {
            limit
        };
        let mut top: Vec<SearchResult> = Vec::new();
        let mut k: usize = 0;
        while k < n
            invariant
                k <= n <= order.len(),
                top.len() == k,
                all == result_views(results@),
                ranking == positions(order@),
                is_ranking(score_keys(all), ranking),
                forall|j: int| 0 <= j < k ==> (#[trigger] top@[j])@ == all[ranking[j]],
            decreases n - k,
        {
            assert(0 <= ranking[k as int] < all.len());
            top.push(results[order[k]].clone());
            k += 1;
        }
        assert(result_views(top@) =~= picked(
            all,
            if ranking.len() <= limit {
                ranking
            } else {
                ranking.take(limit as int)
            },
        ));
        top
    }

    /// Builds the GitHub Issues search query string from a [`SearchQuery`].
    ///
    /// Format: `repo:{repo} [state:open] [label:user:{id}] [label:{type}...]
    /// [label:{tier}...] {query}`
    pub fn build_gh_query(q: &SearchQuery, repo: &str) -> (r: String)
        ensures
            r@ == gh_query(q@, repo@),
    {
        let mut parts: Vec<String> = Vec::new();
        parts.push(concat("repo:", repo));
        if !q.include_archived {
            parts.push("state:open".to_owned());
        }
        if let Some(user_id) = &q.user_id {
            parts.push(concat("label:", user_label(user_id.as_str()).as_str()));
        }
        let ghost front = texts(parts@);
        let ghost state = if q@.include_archived {
            seq![]
        } else {
            seq!["state:open"@]
        };
        let ghost user = match q@.user_id {
            Some(u) => seq!["label:"@ + label_of_user(u)],
            None => seq![],
        };
        assert(front =~= seq!["repo:"@ + repo@] + state + user);
        let ghost types = Seq::new(
            q@.memory_types.len(),
            |i: int| "label:"@ + label_of_type(q@.memory_types[i]),
        );
        let mut i: usize = 0;
        assert(texts(parts@) =~= front + types.take(0));
        while i < q.memory_types.len()
            invariant
                i <= q.memory_types.len(),
                types == Seq::new(
                    q@.memory_types.len(),
                    |i: int| "label:"@ + label_of_type(q@.memory_types[i]),
                ),
                texts(parts@) == front + types.take(i as int),
            decreases q.memory_types.len() - i,
        {
            let ghost before = parts@;
            parts.push(concat("label:", type_label(&q.memory_types[i])));
            i += 1;
            assert(texts(parts@) =~= texts(before).push(types[i - 1]));
            assert(types.take(i as int) =~= types.take(i - 1).push(types[i - 1]));
        }
        assert(types.take(i as int) =~= types);
        let ghost tiers = Seq::new(q@.tiers.len(), |i: int| "label:"@ + label_of_tier(q@.tiers[i]));
        let ghost middle = texts(parts@);
        let mut k: usize = 0;
        assert(texts(parts@) =~= middle + tiers.take(0));
        while k < q.tiers.len()
            invariant
                k <= q.tiers.len(),
                tiers == Seq::new(
                    q@.tiers.len(),
                    |i: int| "label:"@ + label_of_tier(q@.tiers[i]),
                ),
                texts(parts@) == middle + tiers.take(k as int),
            decreases q.tiers.len() - k,
        {
            let ghost before = parts@;
            parts.push(concat("label:", tier_label(&q.tiers[k])));
            k += 1;
            assert(texts(parts@) =~= texts(before).push(tiers[k - 1]));
            assert(tiers.take(k as int) =~= tiers.take(k - 1).push(tiers[k - 1]));
        }
        assert(tiers.take(k as int) =~= tiers);
        let ghost most = texts(parts@);
        assert(most == front + types + tiers);
        if !q.query.as_str().is_empty() {
            parts.push(q.query.clone());
            assert(texts(parts@) =~= most.push(q@.query));
        }
        assert(texts(parts@) =~= query_parts(q@, repo@));
        join_strings(&parts, " ")
    }

    /// Builds a stable cache key from all query fields.
    pub fn cache_key(q: &SearchQuery) -> (r: String)
        ensures
            r@ == key_text(q@),
    {
        let mut types: Vec<String> = Vec::new();
        let mut i: usize = 0;
        while i < q.memory_types.len()
            invariant
                i <= q.memory_types.len(),
                types.len() == i,
                forall|j: int| 0 <= j < i ==> (#[trigger] types@[j])@ == q.memory_types@[j].name(),
            decreases q.memory_types.len() - i,
        {
            types.push(q.memory_types[i].to_string());
            i += 1;
        }
        assert(texts(types@) =~= Seq::new(
            q@.memory_types.len(),
            |i: int| q@.memory_types[i].name(),
        ));
        let mut tiers: Vec<String> = Vec::new();
        let mut k: usize = 0;
        while k < q.tiers.len()
            invariant
                k <= q.tiers.len(),
                tiers.len() == k,
                forall|j: int| 0 <= j < k ==> (#[trigger] tiers@[j])@ == q.tiers@[j].name(),
            decreases q.tiers.len() - k,
        {
            tiers.push(q.tiers[k].to_string());
            k += 1;
        }
        assert(texts(tiers@) =~= Seq::new(q@.tiers.len(), |i: int| q@.tiers[i].name()));
        let mut key = q.query.clone();
        key.append("|");
        if let Some(user_id) = &q.user_id {
            key.append(user_id.as_str());
        }
        key.append("|");
        key.append(join_strings(&types, ",").as_str());
        key.append("|");
        key.append(join_strings(&tiers, ",").as_str());
        key.append("|");
        key.append(if q.include_archived { "true" } else { "false" });
        key.append("|");
        key.append(number_text(q.limit as u64).as_str());
        assert(key@ =~= key_text(q@));
        key
    }

    /// Reads the `items` array of a GitHub Issues search reply.
    ///
    /// Skips items that `decode` cannot read, so that one bad issue does not spoil the
    /// search.
    pub fn parse_search_items<F: Fn(&str) -> Result<MemoryMeta>>(items: &Vec<Json>, decode: F) -> (r:
        Vec<(MemoryEntry, Option<Number>)>)
        requires
            decodes_all(decode),
        ensures
            exists|read: Seq<Result<MemoryEntry>>| #[trigger]
                items_read(decode, json_views(items@), read) && found_views(r@) == gathered(
                    json_views(items@),
                    read,
                ),
    {
        let ghost views = json_views(items@);
        let ghost mut read: Seq<Result<MemoryEntry>> = seq![];
        let mut found: Vec<(MemoryEntry, Option<Number>)> = Vec::new();
        let mut i: usize = 0;
        assert(found_views(found@) =~= gathered(views.take(0), read));
        while i < items.len()
            invariant
                i <= items.len(),
                decodes_all(decode),
                views == json_views(items@),
                items_read(decode, views.take(i as int), read),
                found_views(found@) == gathered(views.take(i as int), read),
            decreases items.len() - i,
        {
            let item = &items[i];
            assert(views[i as int] == item@);
            let title = member_text(item, "title");
            let body = member_text(item, "body");
            let number: Option<u64> = match item.get("number") {
                Some(v) => v.as_u64(),
                None => None,
            };
            let score: Option<Number> = match item.get("score") {
                Some(v) => v.as_number(),
                None => None,
            };
            let outcome = parse_body(title.as_str(), body.as_str(), &decode);
            let ghost before = found@;
            let ghost more = read.push(outcome);
            proof {
                assert(more.drop_last() =~= read);
                assert(views.take(i + 1).drop_last() =~= views.take(i as int));
                assert forall|j: int| 0 <= j < views.take(i + 1).len() implies body_reads(
                    decode,
                    text_or_empty(views.take(i + 1)[j], "body"@),
                    #[trigger] more[j],
                ) by {
                    if j < i {
                        assert(more[j] == read[j]);
                        assert(views.take(i + 1)[j] == views.take(i as int)[j]);
                    }
                }
                read = more;
            }
            if let Ok(e) = outcome {
                let mut entry = e;
                entry.issue_number = number;
                found.push((entry, score));
                assert(found_views(found@) =~= found_views(before).push(
                    (
                        EntryView { issue_number: item_number(item@), ..e@ },
                        item_score(item@),
                    ),
                ));
            }
            i += 1;
        }
        assert(views.take(i as int) =~= views);
        found
    }
}

// ---------------------------------------------------------------------------
// Page by page
// ---------------------------------------------------------------------------

/// How far a search over several pages has come.
#[verifier::ext_equal]
pub struct GatherView {
    /// The query.
    pub query: QueryView,
    /// The next page.
    pub page: int,
    /// What the pages before it gave.
    pub found: Seq<ResultView>,
    /// Whether the next page is still to be asked for.
    pub more: bool,
}

impl GatherView {
    /// No page is asked for beyond the last that the limit allows.
    pub open spec fn sound(self) -> bool {
        self.more ==> 1 <= self.page <= last_page(self.query.limit as int)
    }

    /// A page listed `listed` items and gave `all`. It is the last one if it was not full,
    /// or if the limit allows no further one.
    pub open spec fn taken(self, listed: int, all: Seq<ResultView>) -> GatherView {
        GatherView {
            query: self.query,
            page: self.page + 1,
            found: self.found + all,
            more: listed >= page_size(self.query.limit as int) && self.page < last_page(
                self.query.limit as int,
            ),
        }
    }
}

/// A search over several pages ends only where a page was not full, or where the pages
/// together could list as many items as the limit allows.
pub proof fn law_gathering_ends(v: GatherView, listed: int, all: Seq<ResultView>)
    requires
        v.more,
        v.sound(),
    ensures
        v.taken(listed, all).sound(),
        !v.taken(listed, all).more ==> listed < page_size(v.query.limit as int) || v.page
            * page_size(v.query.limit as int) >= v.query.limit,
{
}

/// A lexical search for all that the limit of its query allows, page by page.
///
/// [`Gathering::next`] gives the next request; the items that its reply lists go to
/// [`Gathering::take`]. When there is no next request, [`Gathering::finish`] gives the
/// results.
pub struct Gathering {
    query: SearchQuery,
    page: u64,
    found: Vec<SearchResult>,
    more: bool,
}

impl View for Gathering {
    type V = GatherView;

    closed spec fn view(&self) -> GatherView {
        GatherView {
            query: self.query@,
            page: self.page as int,
            found: result_views(self.found@),
            more: self.more,
        }
    }
}

impl Gathering {
    /// Starts at the first page.
    pub fn new(query: SearchQuery) -> (r: Gathering)
        ensures
            r@ == (GatherView { query: query@, page: 1, found: seq![], more: true }),
            r@.sound(),
    {
        let r = Gathering { query, page: 1, found: Vec::new(), more: true };
        assert(r@.found =~= seq![]);
        r
    }

    /// The request for the next page; none if no page is left.
    pub fn next(&self, engine: &SearchEngine) -> (r: Option<Request>)
        ensures
            match r {
                Some(ask) => self@.more && ask@ == page_ask(
                    engine.repository(),
                    self@.query,
                    self@.page,
                ),
                None => !self@.more,
            },
    {
        if self.more {
            Some(engine.page_request(&self.query, self.page))
        } else {
            None
        }
    }

    /// Takes the items of a page: the entries that `decode` can read, scored by `rate`.
    pub fn take<F, G>(&mut self, items: &Vec<Json>, decode: F, rate: G) where
        F: Fn(&str) -> Result<MemoryMeta>,
        G: Fn(&MemoryEntry, Option<Number>) -> (Score, Score),

        requires
            old(self)@.more,
            old(self)@.sound(),
            decodes_all(decode),
            forall|e: MemoryEntry, n: Option<Number>| call_requires(rate, (&e, n)),
        ensures
            final(self)@.sound(),
            exists|all: Seq<ResultView>| #[trigger]
                rated_from(decode, rate, json_views(items@), all) && final(self)@ == old(
                    self,
                )@.taken(items@.len() as int, all),
    {
        let limit: usize = self.query.limit;
        let all = SearchEngine::rate_items(items, decode, rate);
        let ghost views = result_views(all@);
        let ghost before = result_views(self.found@);
        let mut i: usize = 0;
        while i < all.len()
            invariant
                i <= all.len(),
                views == result_views(all@),
                self.query == old(self).query,
                self.page == old(self).page,
                self.more == old(self).more,
                result_views(self.found@) == before + views.take(i as int),
            decreases all.len() - i,
        {
            let ghost was = self.found@;
            self.found.push(all[i].clone());
            i += 1;
            assert(result_views(self.found@) =~= result_views(was).push(views[i - 1]));
            assert(views.take(i as int) =~= views.take(i - 1).push(views[i - 1]));
        }
        assert(views.take(i as int) =~= views);
        let size: usize = if limit < 15 {
            limit * 2
        } else {
            30
        };
        let last: u64 = if limit <= 30 {
            1
        } else {
            ((limit - 1) / 30) as u64 + 1
        };
        assert(last == last_page(limit as int));
        self.more = items.len() >= size && self.page < last;
        self.page = self.page + 1;
        assert(rated_from(decode, rate, json_views(items@), views));
        assert(self@ =~= old(self)@.taken(items@.len() as int, views));
    }

    /// The results: the best of all pages, as many as the limit allows, the best first.
    pub fn finish(self) -> (r: Vec<SearchResult>)
        ensures
            is_top(self@.found, self@.query.limit as int, result_views(r@)),
    {
        SearchEngine::rank_results(&self.found, self.query.limit)
    }
}

} // verus!
