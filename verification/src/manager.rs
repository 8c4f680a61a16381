//! The high-level memory API: what to do with each request, and what to make of what
//! comes back.
//!
//! [`MemoryManager`] ties the store, the search engine and the consolidation engine
//! together. It decides; the caller sends the requests and hands the replies back.

use std::collections::HashSet;

use vstd::prelude::*;
use vstd::std_specs::hash::group_hash_axioms;
use vstd::string::StringExecFns;
use vstd::utf8::{encode_utf8, is_ascii_chars_encode_utf8};

use crate::api::{
    api_failure, decode_failure, items_in, plain_request, reply_items, send, Method, Reply,
    Request, RequestView,
};
use crate::consolidation::{default_config, ConsolidationConfig, ConsolidationEngine};
use crate::error::{MemoryError, Result};
use crate::json::{json_views, object, object_of, text, Json, JsonView};
use crate::labels::BOOTSTRAP_LABELS;
use crate::laws::recall::law_combined_is_complete;
use crate::models::{
    builds, entry_views, fresh_builder, fresh_id, freshly_built, id_text, is_random_id, newer,
    patched, refused, BuilderView, EntryView, MemoryEntry, MemoryPatch, MemoryTier, MemoryType,
};
use crate::order::{is_ranking, key_values, picked, positions, rank};
use crate::score::{Score, ONE};
use crate::search::{
    answers_own_user, item_number, result_views, results_of, KeptView, QueryView, ResultView,
    SearchEngine, SearchQuery, SearchResult,
};
use crate::store::{repo_url, GitHubIssuesStore};
use crate::text::{
    byte_len, concat, contains, decimal, first_chars, join, join_strings, lemma_bytes_append,
    lemma_contains_apart, number_text, prefix, same, texts,
};

verus! {

/// How long the hot tier is kept, in nanoseconds: five minutes.
pub const HOT_CACHE_TTL: u64 = 300_000_000_000;

/// The bit pattern of the score of hot-tier entries: two, which no search result reaches.
pub const HOT_SCORE: u32 = 0x4000_0000;

/// The reason with which cleared working memories are archived.
pub const CLEARED: &'static str = "Working memory cleared";

// ---------------------------------------------------------------------------
// Recall
// ---------------------------------------------------------------------------

/// An entry and its score.
#[derive(Debug)]
pub struct Scored {
    /// The entry.
    pub entry: MemoryEntry,
    /// The score by which it is ranked.
    pub score: Score,
}

/// What a [`Scored`] holds.
#[verifier::ext_equal]
pub struct ScoredView {
    pub entry: EntryView,
    pub score: Score,
}

impl View for Scored {
    type V = ScoredView;

    open spec fn view(&self) -> ScoredView {
        ScoredView { entry: self.entry@, score: self.score }
    }
}

/// What the entries and scores hold.
pub open spec fn scored_views(v: Seq<Scored>) -> Seq<ScoredView> {
    Seq::new(v.len(), |i: int| v[i]@)
}

/// The issue of one of the entries is `number`.
pub open spec fn has_number(entries: Seq<EntryView>, number: u64) -> bool {
    exists|i: int| 0 <= i < entries.len() && (#[trigger] entries[i]).issue_number == Some(number)
}

/// The hot-tier entries, all with the hot score.
pub open spec fn hot_scored(hot: Seq<EntryView>) -> Seq<ScoredView> {
    Seq::new(hot.len(), |i: int| ScoredView { entry: hot[i], score: Score { bits: HOT_SCORE } })
}

/// The results whose issue is none of the hot-tier entries.
pub open spec fn not_hot(hot: Seq<EntryView>, found: Seq<ResultView>) -> Seq<ScoredView>
    decreases found.len(),
{
    if found.len() == 0 {
        seq![]
    } else {
        let before = not_hot(hot, found.drop_last());
        let last = found.last();
        match last.entry.issue_number {
            Some(n) => if has_number(hot, n) {
                before
            } else {
                before.push(ScoredView { entry: last.entry, score: last.score })
            },
            None => before.push(ScoredView { entry: last.entry, score: last.score }),
        }
    }
}

/// The hot-tier entries and the results that are none of them.
pub open spec fn merged(hot: Seq<EntryView>, found: Seq<ResultView>) -> Seq<ScoredView> {
    hot_scored(hot) + not_hot(hot, found)
}

/// All scores are numbers.
pub open spec fn comparable(v: Seq<ScoredView>) -> bool {
    forall|i: int| 0 <= i < v.len() ==> !(#[trigger] v[i]).score.nan()
}

/// The keys by which scored entries are ranked. A score that is no number counts as equal to
/// all others; next to one, no two scores are told apart.
pub open spec fn scored_keys(v: Seq<ScoredView>) -> Seq<int> {
    if comparable(v) {
        Seq::new(v.len(), |i: int| v[i].score.rank())
    } else {
        Seq::new(v.len(), |i: int| 0int)
    }
}

/// `r` holds the entries of `all`, the best first; of entries with equal scores those that
/// stood first come first.
pub open spec fn is_ranked(all: Seq<ScoredView>, r: Seq<ScoredView>) -> bool {
    exists|order: Seq<int>| #[trigger]
        is_ranking(scored_keys(all), order) && r == picked(all, order)
}

/// No result carries the issue of a hot-tier entry a second time.
pub proof fn law_no_hot_duplicates(hot: Seq<EntryView>, found: Seq<ResultView>, i: int)
    requires
        0 <= i < not_hot(hot, found).len(),
    ensures
        match not_hot(hot, found)[i].entry.issue_number {
            Some(n) => !has_number(hot, n),
            None => true,
        },
    decreases found.len(),
{
    let before = not_hot(hot, found.drop_last());
    if i < before.len() {
        law_no_hot_duplicates(hot, found.drop_last(), i);
    }
}

/// As long as no result scores as high as the hot tier, the hot tier comes first, in its
/// order.
pub proof fn law_hot_first(hot: Seq<EntryView>, found: Seq<ResultView>, r: Seq<ScoredView>)
    requires
        is_ranked(merged(hot, found), r),
        forall|i: int|
            0 <= i < found.len() ==> (#[trigger] found[i]).score.rank() < (Score {
                bits: HOT_SCORE,
            }).rank(),
    ensures
        r.take(hot.len() as int) == hot_scored(hot),
{
    let all = merged(hot, found);
    let keys = scored_keys(all);
    let h = hot.len() as int;
    let order = choose|order: Seq<int>| #[trigger]
        is_ranking(scored_keys(all), order) && r == picked(all, order);
    if comparable(all) {
        assert forall|k: int| h <= k < all.len() implies #[trigger] keys[k] < keys[0] || h
            == 0 by {
            lemma_not_hot_from(hot, found, k - h);
        }
        lemma_front(keys, order, h, h);
    } else {
        lemma_front(keys, order, all.len() as int, h);
    }
    assert forall|i: int| 0 <= i < h implies r[i] == hot_scored(hot)[i] by {
        assert(order[i] == i);
    }
    assert(r.take(h) =~= hot_scored(hot));
}

proof fn lemma_not_hot_from(hot: Seq<EntryView>, found: Seq<ResultView>, i: int)
    requires
        0 <= i < not_hot(hot, found).len(),
    ensures
        exists|k: int|
            0 <= k < found.len() && (#[trigger] found[k]).score == not_hot(hot, found)[i].score
                && found[k].entry == not_hot(hot, found)[i].entry,
    decreases found.len(),
{
    let front = found.drop_last();
    let before = not_hot(hot, front);
    if i < before.len() {
        lemma_not_hot_from(hot, front, i);
        let k = choose|k: int|
            0 <= k < front.len() && (#[trigger] front[k]).score == before[i].score
                && front[k].entry == before[i].entry;
        assert(found[k] == front[k]);
    } else {
        assert(found[found.len() - 1] == found.last());
    }
}

/// Where the first `h` keys are equal and larger than all others, they are ranked first.
proof fn lemma_front(keys: Seq<int>, order: Seq<int>, h: int, n: int)
    requires
        is_ranking(keys, order),
        0 <= n <= h <= keys.len(),
        forall|k: int| 0 <= k < h ==> #[trigger] keys[k] == keys[0],
        forall|k: int| h <= k < keys.len() ==> #[trigger] keys[k] < keys[0] || h == 0,
    ensures
        forall|i: int| 0 <= i < n ==> order[i] == i,
    decreases n,
{
    if n > 0 {
        lemma_front(keys, order, h, n - 1);
        let j = n - 1;
        assert(order.contains(j));
        let p = choose|p: int| 0 <= p < order.len() && order[p] == j;
        if p < j {
            assert(order[p] == p);
        } else if p > j {
            let m = order[j];
            assert(crate::order::comes_before(keys, order[j], order[p]));
            assert(0 <= m < j);
            assert(order[m] == m);
            assert(crate::order::comes_before(keys, order[m], order[j]));
        }
    }
}

/// How a tier is called in a recalled context.
pub open spec fn tier_word(t: MemoryTier) -> Seq<char> {
    match t {
        MemoryTier::Hot => "working"@,
        MemoryTier::Warm => "warm"@,
        MemoryTier::Cold => "cold"@,
    }
}

/// The first line of the block of an entry whose score is written `score`.
pub open spec fn score_line(e: EntryView, score: Seq<char>) -> Seq<char> {
    "["@ + tier_word(e.tier()) + "] Score: "@ + score
}

/// The block of an entry whose score is written `score`.
pub open spec fn block_text(e: EntryView, score: Seq<char>) -> Seq<char> {
    score_line(e, score) + "\n"@ + e.content
}

/// The blocks of the entries.
pub open spec fn block_texts(v: Seq<ScoredView>, scores: Seq<Seq<char>>) -> Seq<Seq<char>> {
    Seq::new(v.len(), |i: int| block_text(v[i].entry, scores[i]))
}

/// The estimated number of tokens of a text: a quarter of its bytes.
pub open spec fn tokens(text: Seq<char>) -> int {
    encode_utf8(text).len() as int / 4
}

/// The bytes of the first `n` blocks.
pub open spec fn bytes_of(blocks: Seq<Seq<char>>, n: int) -> int
    decreases n,
{
    if n <= 0 {
        0
    } else {
        bytes_of(blocks, n - 1) + encode_utf8(blocks[n - 1]).len()
    }
}

/// The bytes of a context of the first `n` blocks: those of its heading, of the blocks, and
/// of the two line feeds between each two of them.
pub open spec fn context_bytes(blocks: Seq<Seq<char>>, n: int) -> int {
    19 + bytes_of(blocks, n) + 2 * (n - 1)
}

/// How many blocks are taken from the first `n` on: as many, one after the other, as the
/// context stays within the budget with, and the first in any case.
pub open spec fn fitting(blocks: Seq<Seq<char>>, budget: int, n: int) -> int
    decreases blocks.len() - n,
{
    if n >= blocks.len() {
        n
    } else if n > 0 && context_bytes(blocks, n + 1) / 4 > budget {
        n
    } else {
        fitting(blocks, budget, n + 1)
    }
}

/// The recalled context.
pub open spec fn context_text(blocks: Seq<Seq<char>>, budget: int) -> Seq<char> {
    if blocks.len() == 0 {
        seq![]
    } else {
        "## Memory Context\n\n"@ + join(blocks.take(fitting(blocks, budget, 0)), "\n\n"@)
    }
}

/// The context stays within the token budget whenever the heading and the first block do;
/// and it leaves out no block with which it would still have stayed within it.
pub proof fn law_budget(blocks: Seq<Seq<char>>, budget: int)
    requires
        blocks.len() > 0,
    ensures
        (19 + encode_utf8(blocks[0]).len()) / 4 <= budget ==> tokens(context_text(blocks, budget))
            <= budget,
        1 <= fitting(blocks, budget, 0) <= blocks.len(),
        encode_utf8(context_text(blocks, budget)).len() == context_bytes(
            blocks,
            fitting(blocks, budget, 0),
        ),
        fitting(blocks, budget, 0) < blocks.len() ==> context_bytes(
            blocks,
            fitting(blocks, budget, 0) + 1,
        ) / 4 > budget,
{
    lemma_fitting(blocks, budget, 1);
    let n = fitting(blocks, budget, 0);
    let head = "## Memory Context\n\n"@;
    let rest = join(blocks.take(n), "\n\n"@);
    reveal_strlit("## Memory Context\n\n");
    reveal_strlit("\n\n");
    lemma_bytes_append(head, rest);
    is_ascii_chars_encode_utf8(head);
    lemma_joined_bytes(blocks, n);
    assert(bytes_of(blocks, 1) == bytes_of(blocks, 0) + encode_utf8(blocks[0]).len());
}

proof fn lemma_fitting(blocks: Seq<Seq<char>>, budget: int, n: int)
    requires
        1 <= n <= blocks.len(),
        n == 1 || context_bytes(blocks, n) / 4 <= budget,
    ensures
        n <= fitting(blocks, budget, n) <= blocks.len(),
        fitting(blocks, budget, n) == 1 || context_bytes(blocks, fitting(blocks, budget, n)) / 4
            <= budget,
        fitting(blocks, budget, n) < blocks.len() ==> context_bytes(
            blocks,
            fitting(blocks, budget, n) + 1,
        ) / 4 > budget,
    decreases blocks.len() - n,
{
    if n < blocks.len() && context_bytes(blocks, n + 1) / 4 <= budget {
        lemma_fitting(blocks, budget, n + 1);
    }
}

proof fn lemma_joined_bytes(blocks: Seq<Seq<char>>, n: int)
    requires
        1 <= n <= blocks.len(),
    ensures
        encode_utf8(join(blocks.take(n), "\n\n"@)).len() == bytes_of(blocks, n) + 2 * (n - 1),
    decreases n,
{
    let sep = "\n\n"@;
    reveal_strlit("\n\n");
    is_ascii_chars_encode_utf8(sep);
    let front = blocks.take(n);
    if n == 1 {
        assert(join(front, sep) == blocks[0]);
        assert(bytes_of(blocks, 0) == 0);
    } else {
        assert(front.drop_last() =~= blocks.take(n - 1));
        lemma_joined_bytes(blocks, n - 1);
        let before = join(blocks.take(n - 1), sep);
        lemma_bytes_append(before, sep);
        lemma_bytes_append(before + sep, blocks[n - 1]);
    }
}

/// The issue numbers of the entries, as far as they have one.
pub open spec fn numbers(v: Seq<ScoredView>) -> Seq<u64>
    decreases v.len(),
{
    if v.len() == 0 {
        seq![]
    } else {
        let before = numbers(v.drop_last());
        match v.last().entry.issue_number {
            Some(n) => before.push(n),
            None => before,
        }
    }
}

/// The issues that a recall counts as accessed: those of the five best entries.
pub open spec fn accessed(v: Seq<ScoredView>) -> Seq<u64> {
    numbers(
        if v.len() <= 5 {
            v
        } else {
            v.take(5)
        },
    )
}

/// The event of an access.
pub open spec fn access_value(timestamp: Seq<char>) -> JsonView {
    JsonView::Object(
        seq![
            ("event"@, JsonView::Text("access"@)),
            ("timestamp"@, JsonView::Text(timestamp)),
        ],
    )
}

/// What a recall comes to.
#[derive(Debug)]
pub struct Recall {
    /// The formatted context.
    pub context: String,
    /// The issues on which the access is to be recorded.
    pub accessed: Vec<u64>,
}

/// The hot tier, or the query for it.
#[derive(Debug)]
pub enum HotStep {
    /// The entries are known.
    Cached(Vec<MemoryEntry>),
    /// The query must be carried out, as a lexical search page by page.
    Ask(SearchQuery),
}

/// `scores` are how `show` writes the scores.
pub open spec fn all_shown<F: Fn(Score) -> String>(
    show: F,
    ranked: Seq<ScoredView>,
    scores: Seq<Seq<char>>,
) -> bool {
    &&& scores.len() == ranked.len()
    &&& forall|i: int|
        0 <= i < ranked.len() ==> exists|s: String|
            s@ == #[trigger] scores[i] && call_ensures(show, (ranked[i].score,), s)
}

/// The entries, copied.
fn copy_entries(v: &Vec<MemoryEntry>) -> (r: Vec<MemoryEntry>)
    ensures
        entry_views(r@) == entry_views(v@),
{
    let mut r: Vec<MemoryEntry> = Vec::new();
    let mut i: usize = 0;
    while i < v.len()
        invariant
            i <= v.len(),
            r.len() == i,
            forall|j: int| 0 <= j < i ==> (#[trigger] r@[j])@ == v@[j]@,
        decreases v.len() - i,
    {
        r.push(v[i].clone());
        i += 1;
    }
    assert(entry_views(r@) =~= entry_views(v@));
    r
}

/// The issue numbers of the entries.
fn numbers_of(entries: &Vec<MemoryEntry>) -> (r: HashSet<u64>)
    ensures
        forall|n: u64| #[trigger] r@.contains(n) <==> has_number(entry_views(entries@), n),
{
    broadcast use group_hash_axioms;
    let ghost views = entry_views(entries@);
    let mut r: HashSet<u64> = HashSet::new();
    let mut i: usize = 0;
    while i < entries.len()
        invariant
            i <= entries.len(),
            views == entry_views(entries@),
            forall|n: u64| #[trigger]
                r@.contains(n) <==> exists|j: int|
                    0 <= j < i && (#[trigger] views[j]).issue_number == Some(n),
        decreases entries.len() - i,
    {
        let ghost before = r@;
        assert(views[i as int] == entries@[i as int]@);
        if let Some(n) = entries[i].issue_number {
            r.insert(n);
        }
        i += 1;
        proof {
            assert forall|n: u64| #[trigger]
                r@.contains(n) <==> exists|j: int|
                    0 <= j < i && (#[trigger] views[j]).issue_number == Some(n) by {
                if before.contains(n) {
                    let j = choose|j: int|
                        0 <= j < i - 1 && (#[trigger] views[j]).issue_number == Some(n);
                    assert(views[j].issue_number == Some(n));
                } else if r@.contains(n) {
                    assert(views[i - 1].issue_number == Some(n));
                }
            }
        }
    }
    r
}

// ---------------------------------------------------------------------------
// Working memory
// ---------------------------------------------------------------------------

/// What setting the working memory comes to.
#[derive(Debug)]
pub enum WorkingStep {
    /// The entry exists and is to be overwritten.
    Update(MemoryEntry),
    /// The entry is new and is to be created.
    Create(MemoryEntry),
}

/// The query for the working memory of a user.
pub open spec fn working_query(user_id: Seq<char>, limit: usize) -> QueryView {
    QueryView {
        user_id: Some(user_id),
        memory_types: seq![MemoryType::Working],
        limit,
        ..QueryView::plain()
    }
}

/// The issues of the results that are not known yet, each once, in order.
pub open spec fn new_issues(v: Seq<ResultView>, known: Set<u64>) -> Seq<u64>
    decreases v.len(),
{
    if v.len() == 0 {
        seq![]
    } else {
        let before = new_issues(v.drop_last(), known);
        match v.last().entry.issue_number {
            Some(n) => if known.contains(n) || before.contains(n) {
                before
            } else {
                before.push(n)
            },
            None => before,
        }
    }
}

/// No issue is archived twice, and none that was found is left: each is known already or
/// among the new ones, and the new ones were all found.
pub proof fn law_each_cleared_once(v: Seq<ResultView>, known: Set<u64>)
    ensures
        new_issues(v, known).no_duplicates(),
        forall|n: u64| #[trigger]
            new_issues(v, known).contains(n) ==> !known.contains(n) && exists|i: int|
                0 <= i < v.len() && (#[trigger] v[i]).entry.issue_number == Some(n),
        forall|i: int|
            0 <= i < v.len() && (#[trigger] v[i]).entry.issue_number is Some ==> known.contains(
                v[i].entry.issue_number->0,
            ) || new_issues(v, known).contains(v[i].entry.issue_number->0),
    decreases v.len(),
{
    if v.len() > 0 {
        let front = v.drop_last();
        let before = new_issues(front, known);
        let all = new_issues(v, known);
        law_each_cleared_once(front, known);
        assert forall|n: u64| #[trigger] all.contains(n) implies !known.contains(n) && exists|
            i: int,
        |
            0 <= i < v.len() && (#[trigger] v[i]).entry.issue_number == Some(n) by {
            if before.contains(n) {
                let i = choose|i: int|
                    0 <= i < front.len() && (#[trigger] front[i]).entry.issue_number == Some(n);
                assert(v[i] == front[i]);
            } else {
                let k = choose|k: int| 0 <= k < all.len() && all[k] == n;
                if k < before.len() {
                    assert(before[k] == n);
                }
                assert(v[v.len() - 1].entry.issue_number == Some(n));
            }
        }
        assert forall|i: int|
            0 <= i < v.len() && (#[trigger] v[i]).entry.issue_number is Some implies known.contains(
            v[i].entry.issue_number->0,
        ) || all.contains(v[i].entry.issue_number->0) by {
            let n = v[i].entry.issue_number->0;
            if i < front.len() {
                assert(front[i] == v[i]);
            }
            if before.contains(n) {
                let k = choose|k: int| 0 <= k < before.len() && before[k] == n;
                assert(all[k] == n);
            } else if i == front.len() && !known.contains(n) {
                assert(all[before.len() as int] == n);
            }
        }
    }
}

/// How far clearing the working memory of a user has come.
#[verifier::ext_equal]
pub struct ClearView {
    /// The user.
    pub user_id: Seq<char>,
    /// The issues that were archived.
    pub archived: Set<u64>,
    /// Whether a search has found none that was not archived before.
    pub done: bool,
}

impl ClearView {
    /// A search has found these results, and what is new among them is archived.
    pub open spec fn taken(self, v: Seq<ResultView>) -> ClearView {
        let fresh = new_issues(v, self.archived);
        ClearView {
            user_id: self.user_id,
            archived: self.archived.union(fresh.to_set()),
            done: fresh.len() == 0,
        }
    }
}

/// Clearing ends only when a search finds nothing but issues that are archived already.
pub proof fn law_all_cleared(c: ClearView, v: Seq<ResultView>)
    requires
        c.taken(v).done,
    ensures
        forall|i: int|
            0 <= i < v.len() && (#[trigger] v[i]).entry.issue_number is Some ==> c.taken(
                v,
            ).archived.contains(v[i].entry.issue_number->0),
{
    law_each_cleared_once(v, c.archived);
}

/// The clearing of the working memory of a user in progress.
///
/// A page of search results need not hold all entries. So the query that [`Clearing::next`]
/// gives is carried out again and again: what [`Clearing::take`] makes of its results is
/// archived, until nothing new is found.
pub struct Clearing {
    user_id: String,
    archived: HashSet<u64>,
    done: bool,
}

impl View for Clearing {
    type V = ClearView;

    closed spec fn view(&self) -> ClearView {
        ClearView { user_id: self.user_id@, archived: self.archived@, done: self.done }
    }
}

impl Clearing {
    /// The query for the working memories of the user; none if all are archived.
    pub fn next(&self) -> (r: Option<SearchQuery>)
        ensures
            match r {
                Some(q) => !self@.done && q@ == working_query(self@.user_id, 100),
                None => self@.done,
            },
    {
        if self.done {
            None
        } else {
            Some(MemoryManager::working_query(self.user_id.as_str(), 100))
        }
    }

    /// The issues among the results that are to be archived, for the reason [`CLEARED`].
    pub fn take(&mut self, results: &Vec<SearchResult>) -> (r: Vec<u64>)
        ensures
            r@ == new_issues(result_views(results@), old(self)@.archived),
            final(self)@ == old(self)@.taken(result_views(results@)),
    {
        broadcast use group_hash_axioms;
        let ghost known = self.archived@;
        let ghost all = result_views(results@);
        let mut r: Vec<u64> = Vec::new();
        let mut i: usize = 0;
        assert(r@.to_set() =~= Set::empty());
        assert(self.archived@ =~= known.union(r@.to_set()));
        while i < results.len()
            invariant
                i <= results.len(),
                all == result_views(results@),
                self.user_id == old(self).user_id,
                r@ == new_issues(all.take(i as int), known),
                self.archived@ == known.union(r@.to_set()),
            decreases results.len() - i,
        {
            broadcast use group_hash_axioms;
            let ghost before = r@;
            assert(all.take(i + 1).drop_last() =~= all.take(i as int));
            assert(all.take(i + 1).last() == results@[i as int]@);
            if let Some(n) = results[i].entry.issue_number {
                if !self.archived.contains(&n) {
                    self.archived.insert(n);
                    r.push(n);
                    assert(r@.to_set() =~= before.to_set().insert(n)) by {
                        assert forall|x: u64| #[trigger] r@.to_set().contains(x) <==> (x == n
                            || before.contains(x)) by {
                            if before.contains(x) {
                                let k = choose|k: int| 0 <= k < before.len() && before[k] == x;
                                assert(r@[k] == x);
                            }
                            if x == n {
                                assert(r@[before.len() as int] == x);
                            }
                            if r@.contains(x) && x != n {
                                let k = choose|k: int| 0 <= k < r@.len() && r@[k] == x;
                                assert(before[k] == x);
                            }
                        }
                    }
                    assert(self.archived@ =~= known.union(r@.to_set()));
                }
            }
            i += 1;
        }
        assert(all.take(i as int) =~= all);
        self.done = r.len() == 0;
        r
    }
}

// ---------------------------------------------------------------------------
// Sessions
// ---------------------------------------------------------------------------

/// The request that opens the milestone of a session.
pub open spec fn session_ask(
    repo: Seq<char>,
    session_id: Seq<char>,
    description: Seq<char>,
) -> RequestView {
    plain_request(
        Method::Post,
        repo_url(repo, "/milestones"@),
        Some(
            JsonView::Object(
                seq![
                    ("title"@, JsonView::Text("sess_"@ + session_id)),
                    ("description"@, JsonView::Text(description)),
                ],
            ),
        ),
    )
}

/// The request for the open milestones.
pub open spec fn milestones_ask(repo: Seq<char>) -> RequestView {
    RequestView {
        method: Method::Get,
        url: repo_url(repo, "/milestones"@),
        params: seq![("state"@, "open"@), ("per_page"@, "100"@)],
        body: None,
    }
}

/// The request that closes a milestone.
pub open spec fn close_milestone_ask(repo: Seq<char>, number: u64) -> RequestView {
    plain_request(
        Method::Patch,
        repo_url(repo, "/milestones/"@ + decimal(number as nat)),
        Some(JsonView::Object(seq![("state"@, JsonView::Text("closed"@))])),
    )
}

/// The number of the first milestone with this title.
pub open spec fn milestone_number(items: Seq<JsonView>, title: Seq<char>) -> Option<u64>
    decreases items.len(),
{
    if items.len() == 0 {
        None
    } else if items[0].text_field("title"@) == Some(title) {
        item_number(items[0])
    } else {
        milestone_number(items.skip(1), title)
    }
}

/// The summary that is made of a cluster where no summariser is given.
pub open spec fn stub_summary(contents: Seq<Seq<char>>) -> Seq<char> {
    let preview = if contents.len() > 0 {
        prefix(contents[0], 100)
    } else {
        seq![]
    };
    "Summary of "@ + decimal(contents.len()) + " memories: "@ + preview
}

/// The summary that is made of a cluster where no summariser is given.
pub fn default_summary(contents: &Vec<String>) -> (r: String)
    ensures
        r@ == stub_summary(texts(contents@)),
{
    let mut r = concat("Summary of ", number_text(contents.len() as u64).as_str());
    r.append(" memories: ");
    if contents.len() > 0 {
        r.append(first_chars(contents[0].as_str(), 100).as_str());
    }
    assert(r@ =~= stub_summary(texts(contents@)));
    r
}

/// Replaces a field by the new value, if there is one.
fn replace<T>(field: &mut T, new: Option<T>)
    ensures
        *final(field) == newer(new, *old(field)),
{
    if let Some(v) = new {
        *field = v;
    }
}

/// Replaces an optional field by the new value, if there is one.
fn replace_optional<T>(field: &mut Option<T>, new: Option<T>)
    ensures
        *final(field) == if new is Some {
            new
        } else {
            *old(field)
        },
{
    if new.is_some() {
        *field = new;
    }
}

/// Applies a partial update to an entry: each field for which the patch holds a value gets
/// that value, and each other field stays as it was.
pub fn apply_patch(entry: &mut MemoryEntry, patch: MemoryPatch)
    ensures
        final(entry)@ == patched(old(entry)@, patch),
        patch.content matches Some(v) ==> final(entry).content == v,
        patch.content is None ==> final(entry).content == old(entry).content,
        patch.memory_type matches Some(v) ==> final(entry).memory_type == v,
        patch.memory_type is None ==> final(entry).memory_type == old(entry).memory_type,
        patch.user_id matches Some(v) ==> final(entry).user_id == Some(v),
        patch.user_id is None ==> final(entry).user_id == old(entry).user_id,
        patch.agent_id matches Some(v) ==> final(entry).agent_id == Some(v),
        patch.agent_id is None ==> final(entry).agent_id == old(entry).agent_id,
        patch.session_id matches Some(v) ==> final(entry).session_id == Some(v),
        patch.session_id is None ==> final(entry).session_id == old(entry).session_id,
        patch.importance matches Some(v) ==> final(entry).importance == v,
        patch.importance is None ==> final(entry).importance == old(entry).importance,
        patch.confidence matches Some(v) ==> final(entry).confidence == v,
        patch.confidence is None ==> final(entry).confidence == old(entry).confidence,
        patch.access_count matches Some(v) ==> final(entry).access_count == v,
        patch.access_count is None ==> final(entry).access_count == old(entry).access_count,
        patch.last_accessed matches Some(v) ==> final(entry).last_accessed == Some(v),
        patch.last_accessed is None ==> final(entry).last_accessed == old(entry).last_accessed,
        patch.entities matches Some(v) ==> final(entry).entities == v,
        patch.entities is None ==> final(entry).entities == old(entry).entities,
        patch.tags matches Some(v) ==> final(entry).tags == v,
        patch.tags is None ==> final(entry).tags == old(entry).tags,
        patch.structured_data matches Some(v) ==> final(entry).structured_data == v,
        patch.structured_data is None ==> final(entry).structured_data == old(
            entry,
        ).structured_data,
        patch.supersedes matches Some(v) ==> final(entry).supersedes == v,
        patch.supersedes is None ==> final(entry).supersedes == old(entry).supersedes,
        patch.related_to matches Some(v) ==> final(entry).related_to == v,
        patch.related_to is None ==> final(entry).related_to == old(entry).related_to,
        final(entry).memory_id == old(entry).memory_id,
        final(entry).issue_number == old(entry).issue_number,
        final(entry).created_at == old(entry).created_at,
{
    replace(&mut entry.content, patch.content);
    replace(&mut entry.memory_type, patch.memory_type);
    replace_optional(&mut entry.user_id, patch.user_id);
    replace_optional(&mut entry.agent_id, patch.agent_id);
    replace_optional(&mut entry.session_id, patch.session_id);
    replace(&mut entry.importance, patch.importance);
    replace(&mut entry.confidence, patch.confidence);
    replace(&mut entry.access_count, patch.access_count);
    replace_optional(&mut entry.last_accessed, patch.last_accessed);
    replace(&mut entry.entities, patch.entities);
    replace(&mut entry.tags, patch.tags);
    replace(&mut entry.structured_data, patch.structured_data);
    replace(&mut entry.supersedes, patch.supersedes);
    replace(&mut entry.related_to, patch.related_to);
}

// ---------------------------------------------------------------------------
// The manager
// ---------------------------------------------------------------------------

/// What an entry is built from that is remembered.
pub open spec fn remembered(
    content: Seq<char>,
    memory_type: MemoryType,
    user_id: Seq<char>,
    importance: Score,
    entities: Seq<Seq<char>>,
    tags: Seq<Seq<char>>,
) -> BuilderView {
    BuilderView {
        user_id: Some(user_id),
        importance,
        entities,
        tags,
        ..fresh_builder(content, memory_type)
    }
}

/// What a new working memory is built from.
pub open spec fn new_working(content: Seq<char>, user_id: Seq<char>) -> BuilderView {
    BuilderView {
        user_id: Some(user_id),
        importance: Score { bits: ONE },
        ..fresh_builder(content, MemoryType::Working)
    }
}

/// The single entry point for agent code.
pub struct MemoryManager {
    /// The store.
    pub store: GitHubIssuesStore,
    /// The search engine.
    pub search: SearchEngine,
    /// The consolidation engine.
    pub consolidation: ConsolidationEngine,
    /// The hot tier of a user, unless nothing is kept.
    pub hot_cache: Option<HotTier>,
}

/// The hot tier of a user.
#[derive(Debug)]
pub struct HotTier {
    /// When it was kept.
    pub at: u64,
    /// Whose it is.
    pub user_id: String,
    /// What it holds.
    pub entries: Vec<MemoryEntry>,
}

/// What a [`HotTier`] holds.
#[verifier::ext_equal]
pub struct HotTierView {
    pub at: u64,
    pub user_id: Seq<char>,
    pub entries: Seq<EntryView>,
}

impl View for HotTier {
    type V = HotTierView;

    open spec fn view(&self) -> HotTierView {
        HotTierView { at: self.at, user_id: self.user_id@, entries: entry_views(self.entries@) }
    }
}

/// What was kept of one user's hot tier is never given to another user.
pub proof fn law_hot_tier_is_private(
    m: MemoryManager,
    kept: HotTierView,
    user_id: Seq<char>,
    now: u64,
)
    requires
        m.hot() == Some(kept),
    ensures
        m.known_hot(user_id, now) is Some ==> kept.user_id == user_id && m.known_hot(
            user_id,
            now,
        ) == Some(kept.entries),
        kept.user_id == user_id && now < kept.at + HOT_CACHE_TTL ==> m.known_hot(user_id, now)
            == Some(kept.entries),
        now >= kept.at + HOT_CACHE_TTL ==> m.known_hot(user_id, now) is None,
{
}

/// All entries belong to a user.
pub open spec fn entries_of(user_id: Seq<char>, v: Seq<EntryView>) -> bool {
    forall|i: int| 0 <= i < v.len() ==> (#[trigger] v[i]).user_id == Some(user_id)
}

/// The query of a recall.
pub open spec fn recalling(query: Seq<char>, user_id: Seq<char>) -> QueryView {
    QueryView { query, user_id: Some(user_id), limit: 20, ..QueryView::plain() }
}

/// What a recall for a user is made of: the hot tier and the search results that are known
/// at `now`, or else what GitHub lists of that user's entries.
pub open spec fn recall_parts(
    m: MemoryManager,
    query: Seq<char>,
    user_id: Seq<char>,
    now: u64,
    hot: Seq<EntryView>,
    found: Seq<ResultView>,
) -> bool {
    &&& match m.known_hot(user_id, now) {
        Some(entries) => hot == entries,
        None => entries_of(user_id, hot),
    }
    &&& match m.search.answer(recalling(query, user_id), now) {
        Some(results) => found == results,
        None => results_of(user_id, found),
    }
}

/// A recall for a user ranks that user's memories alone, whatever was recalled for other
/// users before: where all that was kept belongs to those it was kept for, and GitHub lists
/// only entries of the user whose label is asked for, no entry of another user is among
/// them.
pub proof fn law_recall_is_private(
    m: MemoryManager,
    query: Seq<char>,
    user_id: Seq<char>,
    now: u64,
    hot: Seq<EntryView>,
    found: Seq<ResultView>,
    ranked: Seq<ScoredView>,
)
    requires
        m.private(),
        recall_parts(m, query, user_id, now, hot, found),
        is_ranked(merged(hot, found), ranked),
    ensures
        forall|i: int|
            0 <= i < ranked.len() ==> (#[trigger] ranked[i]).entry.user_id == Some(user_id),
{
    let all = merged(hot, found);
    let order = choose|order: Seq<int>| #[trigger]
        is_ranking(scored_keys(all), order) && ranked == picked(all, order);
    assert(entries_of(user_id, hot));
    assert(results_of(user_id, found)) by {
        let q = recalling(query, user_id);
        if m.search.answer(q, now) is Some {
            assert(m.search.kept().contains_key(q));
            assert(answers_own_user(q, m.search.kept()[q].results));
        }
    }
    assert forall|i: int| 0 <= i < ranked.len() implies (#[trigger] ranked[i]).entry.user_id
        == Some(user_id) by {
        let k = order[i];
        assert(0 <= k < all.len());
        assert(ranked[i] == all[k]);
        if k < hot.len() {
            assert(all[k].entry == hot[k]);
        } else {
            lemma_not_hot_from(hot, found, k - hot.len());
        }
    }
}

/// A word that shows up in the context recalled for a user stands in one of that user's own
/// memories, or in the wording around them: in the heading, or in a line that gives a tier
/// and a score. What is in the memories of other users alone, no recall of this user shows.
pub proof fn law_recall_tells_own_memories(
    m: MemoryManager,
    query: Seq<char>,
    user_id: Seq<char>,
    now: u64,
    hot: Seq<EntryView>,
    found: Seq<ResultView>,
    ranked: Seq<ScoredView>,
    scores: Seq<Seq<char>>,
    budget: int,
    word: Seq<char>,
)
    requires
        m.private(),
        recall_parts(m, query, user_id, now, hot, found),
        is_ranked(merged(hot, found), ranked),
        scores.len() == ranked.len(),
        word.len() > 0,
        !word.contains('\n'),
        contains(context_text(block_texts(ranked, scores), budget), word),
    ensures
        contains("## Memory Context"@, word) || exists|i: int|
            0 <= i < ranked.len() && (#[trigger] ranked[i]).entry.user_id == Some(user_id) && (
            contains(ranked[i].entry.content, word) || contains(
                score_line(ranked[i].entry, scores[i]),
                word,
            )),
{
    law_recall_is_private(m, query, user_id, now, hot, found, ranked);
    let blocks = block_texts(ranked, scores);
    let none: Seq<char> = seq![];
    if blocks.len() == 0 {
        lemma_not_in_empty(word);
    } else {
        law_budget(blocks, budget);
        let taken = blocks.take(fitting(blocks, budget, 0));
        let rest = join(taken, "\n\n"@);
        let head = "## Memory Context"@;
        reveal_strlit("## Memory Context\n\n");
        reveal_strlit("## Memory Context");
        assert(context_text(blocks, budget) =~= (head + seq!['\n'] + none) + seq!['\n'] + rest);
        lemma_contains_apart(head + seq!['\n'] + none, '\n', rest, word);
        if !contains(rest, word) {
            lemma_contains_apart(head, '\n', none, word);
            lemma_not_in_empty(word);
        } else {
            lemma_joined_contains(taken, word);
            let i = choose|i: int| 0 <= i < taken.len() && contains(#[trigger] taken[i], word);
            assert(taken[i] == blocks[i]);
            let e = ranked[i].entry;
            assert(blocks[i] =~= score_line(e, scores[i]) + seq!['\n'] + e.content) by {
                reveal_strlit("\n");
            }
            lemma_contains_apart(score_line(e, scores[i]), '\n', e.content, word);
        }
    }
}

proof fn lemma_not_in_empty(word: Seq<char>)
    requires
        word.len() > 0,
    ensures
        !contains(Seq::<char>::empty(), word),
{
}

proof fn lemma_joined_contains(parts: Seq<Seq<char>>, word: Seq<char>)
    requires
        word.len() > 0,
        !word.contains('\n'),
        contains(join(parts, "\n\n"@), word),
    ensures
        exists|i: int| 0 <= i < parts.len() && contains(#[trigger] parts[i], word),
    decreases parts.len(),
{
    if parts.len() == 0 {
        lemma_not_in_empty(word);
    } else if parts.len() == 1 {
        assert(contains(parts[0], word));
    } else {
        let none: Seq<char> = seq![];
        let front = parts.drop_last();
        let before = join(front, "\n\n"@);
        reveal_strlit("\n\n");
        assert(join(parts, "\n\n"@) =~= (before + seq!['\n'] + none) + seq!['\n'] + parts.last());
        lemma_contains_apart(before + seq!['\n'] + none, '\n', parts.last(), word);
        if contains(parts.last(), word) {
            assert(contains(parts[parts.len() - 1], word));
        } else {
            lemma_contains_apart(before, '\n', none, word);
            lemma_not_in_empty(word);
            lemma_joined_contains(front, word);
            let i = choose|i: int| 0 <= i < front.len() && contains(#[trigger] front[i], word);
            assert(parts[i] == front[i]);
        }
    }
}

impl MemoryManager {
    /// The hot tier that was kept.
    pub open spec fn hot(self) -> Option<HotTierView> {
        match self.hot_cache {
            Some(kept) => Some(kept@),
            None => None,
        }
    }

    /// All that was kept for a user belongs to that user: the hot tier and the results of
    /// searches.
    pub open spec fn private(self) -> bool {
        &&& self.search.private()
        &&& match self.hot() {
            Some(kept) => entries_of(kept.user_id, kept.entries),
            None => true,
        }
    }

    /// The hot tier of a user as far as it is known at `now`.
    pub open spec fn known_hot(self, user_id: Seq<char>, now: u64) -> Option<Seq<EntryView>> {
        match self.hot() {
            Some(kept) => if kept.user_id == user_id && now - kept.at < HOT_CACHE_TTL {
                Some(kept.entries)
            } else {
                None
            },
            None => None,
        }
    }

    /// A manager for the repository `repo`, with the access token `token`.
    pub fn new(repo: &str, token: &str) -> (r: MemoryManager)
        ensures
            r.store.repository() == repo@,
            r.store.secret() == token@,
            r.search.repository() == repo@,
            r.search.secret() == token@,
            r.search.kept() == Map::<QueryView, KeptView>::empty(),
            r.consolidation.config == default_config(),
            r.hot() is None,
            r.private(),
    {
        Self::from_parts(
            GitHubIssuesStore::new(repo, token),
            SearchEngine::new(repo, token),
            ConsolidationConfig::default(),
        )
    }

    /// A manager made of these parts, with nothing kept of the hot tier.
    pub fn from_parts(
        store: GitHubIssuesStore,
        search: SearchEngine,
        config: ConsolidationConfig,
    ) -> (r: MemoryManager)
        ensures
            r.store == store,
            r.search == search,
            r.consolidation.config == config,
            r.hot() is None,
    {
        MemoryManager {
            store,
            search,
            consolidation: ConsolidationEngine::new(config),
            hot_cache: None,
        }
    }

    /// All labels that the repository must have.
    pub fn bootstrap_labels() -> (r: Vec<String>)
        ensures
            texts(r@) == Seq::new(9, |i: int| BOOTSTRAP_LABELS@[i]@),
    {
        let labels: [&'static str; 9] = BOOTSTRAP_LABELS;
        let mut r: Vec<String> = Vec::new();
        let mut i: usize = 0;
        while i < 9
            invariant
                i <= 9,
                labels@ == BOOTSTRAP_LABELS@,
                r.len() == i,
                forall|j: int| 0 <= j < i ==> (#[trigger] r@[j])@ == labels@[j]@,
            decreases 9 - i,
        {
            r.push(labels[i].to_owned());
            i += 1;
        }
        assert(texts(r@) =~= Seq::new(9, |i: int| BOOTSTRAP_LABELS@[i]@));
        r
    }

    /// A new entry, ready to be created. Where the importance is out of range, the error
    /// tells it as `show` writes it.
    pub fn remember<F: Fn(Score) -> String>(
        &self,
        content: &str,
        memory_type: MemoryType,
        user_id: &str,
        importance: Score,
        entities: Vec<String>,
        tags: Vec<String>,
        show: F,
    ) -> (r: Result<MemoryEntry>)
        requires
            forall|s: Score| call_requires(show, (s,)),
        ensures
            builds(
                show,
                remembered(
                    content@,
                    memory_type,
                    user_id@,
                    importance,
                    texts(entities@),
                    texts(tags@),
                ),
                r,
            ),
            r is Ok <==> content@.len() > 0 && (importance.bits <= 0x3f80_0000 || importance.bits
                == 0x8000_0000),
            r matches Ok(e) ==> {
                &&& e.content@ == content@
                &&& e.memory_type == memory_type
                &&& e.user_id is Some && e.user_id->0@ == user_id@
                &&& e.importance == importance
                &&& e.entities@.len() == entities@.len()
                &&& forall|i: int|
                    0 <= i < entities@.len() ==> (#[trigger] e.entities@[i])@ == entities@[i]@
                &&& e.tags@.len() == tags@.len()
                &&& forall|i: int| 0 <= i < tags@.len() ==> (#[trigger] e.tags@[i])@ == tags@[i]@
                &&& e.issue_number is None
                &&& e.agent_id is None
                &&& e.session_id is None
                &&& e.confidence.bits == 0x3f4c_cccd
                &&& e.access_count == 0
                &&& e.last_accessed is None
                &&& e.supersedes@.len() == 0
                &&& e.related_to@.len() == 0
            },
    {
        let r = MemoryEntry::builder(content, memory_type).user_id(user_id).importance(
            importance,
        ).entities(entities).tags(tags).build(show);
        proof {
            if r is Ok {
                let e = r->Ok_0;
                assert(texts(e.entities@) == texts(entities@));
                assert(texts(e.entities@).len() == texts(entities@).len());
                assert forall|i: int| 0 <= i < entities@.len() implies (#[trigger] e.entities@[i])@
                    == entities@[i]@ by {
                    assert(texts(e.entities@)[i] == texts(entities@)[i]);
                }
                assert(texts(e.tags@) == texts(tags@));
                assert(texts(e.tags@).len() == texts(tags@).len());
                assert forall|i: int| 0 <= i < tags@.len() implies (#[trigger] e.tags@[i])@
                    == tags@[i]@ by {
                    assert(texts(e.tags@)[i] == texts(tags@)[i]);
                }
            }
        }
        r
    }

    /// Once an entry has been created, search results that were kept are outdated.
    pub fn after_remember(&mut self)
        ensures
            final(self).search.kept() == Map::<QueryView, KeptView>::empty(),
            final(self).search.repository() == old(self).search.repository(),
            final(self).search.secret() == old(self).search.secret(),
            final(self).store == old(self).store,
            final(self).consolidation == old(self).consolidation,
            final(self).hot() == old(self).hot(),
            old(self).private() ==> final(self).private(),
    {
        self.search.invalidate_cache();
    }

    /// The query for the hot tier of a user.
    fn hot_query(user_id: &str) -> (r: SearchQuery)
        ensures
            r@ == (QueryView {
                user_id: Some(user_id@),
                tiers: seq![MemoryTier::Hot],
                limit: 50,
                ..QueryView::plain()
            }),
    {
        let mut tiers: Vec<MemoryTier> = Vec::new();
        tiers.push(MemoryTier::Hot);
        let r = SearchQuery::default().with_user(user_id).with_tiers(tiers).with_limit(50);
        assert(r@.tiers =~= seq![MemoryTier::Hot]);
        r
    }

    /// The hot tier of a user: what was kept less than five minutes ago, or the query for it.
    pub fn fetch_hot_tier(&self, user_id: &str, now: u64) -> (r: HotStep)
        ensures
            match self.known_hot(user_id@, now) {
                Some(entries) => r matches HotStep::Cached(v) && entry_views(v@) == entries,
                None => r matches HotStep::Ask(q) && q@ == (QueryView {
                    user_id: Some(user_id@),
                    tiers: seq![MemoryTier::Hot],
                    limit: 50,
                    ..QueryView::plain()
                }),
            },
    {
        if let Some(kept) = &self.hot_cache {
            if same(kept.user_id.as_str(), user_id) && now.saturating_sub(kept.at)
                < HOT_CACHE_TTL {
                return HotStep::Cached(copy_entries(&kept.entries));
            }
        }
        HotStep::Ask(Self::hot_query(user_id))
    }

    /// Keeps the hot tier of a user that a search has found.
    pub fn keep_hot_tier(&mut self, user_id: &str, results: &Vec<SearchResult>, now: u64) -> (r:
        Vec<MemoryEntry>)
        ensures
            entry_views(r@) == Seq::new(results@.len(), |i: int| results@[i]@.entry),
            final(self).hot() == Some(
                HotTierView { at: now, user_id: user_id@, entries: entry_views(r@) },
            ),
            final(self).store == old(self).store,
            final(self).search == old(self).search,
            final(self).consolidation == old(self).consolidation,
            old(self).private() && results_of(user_id@, result_views(results@))
                ==> final(self).private(),
    {
        let mut entries: Vec<MemoryEntry> = Vec::new();
        let mut i: usize = 0;
        while i < results.len()
            invariant
                i <= results.len(),
                entries.len() == i,
                forall|j: int| 0 <= j < i ==> (#[trigger] entries@[j])@ == results@[j]@.entry,
            decreases results.len() - i,
        {
            entries.push(results[i].entry.clone());
            i += 1;
        }
        assert(entry_views(entries@) =~= Seq::new(results@.len(), |i: int| results@[i]@.entry));
        proof {
            if results_of(user_id@, result_views(results@)) {
                assert forall|i: int| 0 <= i < entries@.len() implies (#[trigger] entry_views(
                    entries@,
                )[i]).user_id == Some(user_id@) by {
                    assert(result_views(results@)[i].entry.user_id == Some(user_id@));
                }
            }
        }
        let kept = copy_entries(&entries);
        self.hot_cache = Some(HotTier { at: now, user_id: user_id.to_owned(), entries: kept });
        entries
    }

    /// Forgets the hot tier that was kept.
    pub fn invalidate_hot_cache(&mut self)
        ensures
            final(self).hot() is None,
            final(self).store == old(self).store,
            final(self).search == old(self).search,
            final(self).consolidation == old(self).consolidation,
            old(self).private() ==> final(self).private(),
    {
        self.hot_cache = None;
    }

    /// The query of a recall, to be carried out as a hybrid search.
    pub fn recall_query(query: &str, user_id: &str) -> (r: SearchQuery)
        ensures
            r@ == recalling(query@, user_id@),
    {
        SearchQuery::default().with_query(query).with_user(user_id).with_limit(20)
    }

    /// The keys by which scored entries are ranked.
    fn ranking_keys(all: &Vec<Scored>) -> (r: Vec<i64>)
        ensures
            key_values(r@) == scored_keys(scored_views(all@)),
    {
        let ghost views = scored_views(all@);
        let mut keys: Vec<i64> = Vec::new();
        let mut zeros: Vec<i64> = Vec::new();
        let mut numbers: bool = true;
        let mut i: usize = 0;
        while i < all.len()
            invariant
                i <= all.len(),
                keys.len() == i,
                zeros.len() == i,
                views == scored_views(all@),
                numbers <==> (forall|j: int| 0 <= j < i ==> !(#[trigger] views[j]).score.nan()),
                forall|j: int| 0 <= j < i ==> #[trigger] keys@[j] == views[j].score.rank(),
                forall|j: int| 0 <= j < i ==> #[trigger] zeros@[j] == 0,
            decreases all.len() - i,
        {
            assert(views[i as int] == all@[i as int]@);
            if all[i].score.is_nan() {
                numbers = false;
            }
            keys.push(all[i].score.to_rank());
            zeros.push(0);
            i += 1;
        }
        let r: Vec<i64> = if numbers {
            keys
        } else {
            zeros
        };
        assert(key_values(r@) =~= scored_keys(views));
        r
    }

    /// The hot-tier entries and the search results, without results that are hot-tier
    /// entries, ranked.
    pub fn combine(hot: &Vec<MemoryEntry>, found: &Vec<SearchResult>) -> (r: Vec<Scored>)
        ensures
            is_ranked(merged(entry_views(hot@), result_views(found@)), scored_views(r@)),
            forall|j: int|
                0 <= j < hot@.len() ==> scored_views(r@).contains(
                    ScoredView {
                        entry: (#[trigger] hot@[j])@,
                        score: Score { bits: 0x4000_0000 },
                    },
                ),
            forall|i: int|
                0 <= i < found@.len() && ((#[trigger] found@[i]).entry.issue_number is None
                    || forall|j: int|
                    0 <= j < hot@.len() ==> (#[trigger] hot@[j]).issue_number
                        != found@[i].entry.issue_number) ==> scored_views(r@).contains(
                    ScoredView { entry: found@[i].entry@, score: found@[i].score },
                ),
    {
        broadcast use group_hash_axioms;
        let ghost hot_views = entry_views(hot@);
        let ghost all_found = result_views(found@);
        let ids = numbers_of(hot);
        let mut all: Vec<Scored> = Vec::new();
        let mut i: usize = 0;
        while i < hot.len()
            invariant
                i <= hot.len(),
                all.len() == i,
                forall|j: int|
                    0 <= j < i ==> (#[trigger] all@[j])@ == (ScoredView {
                        entry: hot@[j]@,
                        score: Score { bits: HOT_SCORE },
                    }),
            decreases hot.len() - i,
        {
            let score = Score::from_bits(HOT_SCORE);
            all.push(Scored { entry: hot[i].clone(), score });
            i += 1;
        }
        assert(scored_views(all@) =~= hot_scored(hot_views) + not_hot(
            hot_views,
            all_found.take(0),
        ));
        let mut k: usize = 0;
        while k < found.len()
            invariant
                k <= found.len(),
                hot_views == entry_views(hot@),
                all_found == result_views(found@),
                forall|n: u64| #[trigger] ids@.contains(n) <==> has_number(hot_views, n),
                scored_views(all@) == hot_scored(hot_views) + not_hot(
                    hot_views,
                    all_found.take(k as int),
                ),
            decreases found.len() - k,
        {
            let f = &found[k];
            let ghost before = all@;
            assert(all_found.take(k + 1).drop_last() =~= all_found.take(k as int));
            assert(all_found.take(k + 1).last() == f@);
            let duplicate: bool = match f.entry.issue_number {
                Some(n) => ids.contains(&n),
                None => false,
            };
            if !duplicate {
                all.push(Scored { entry: f.entry.clone(), score: f.score });
                assert(scored_views(all@) =~= scored_views(before).push(
                    ScoredView { entry: f@.entry, score: f@.score },
                ));
                assert(scored_views(all@) =~= hot_scored(hot_views) + not_hot(
                    hot_views,
                    all_found.take(k + 1),
                ));
            }
            k += 1;
        }
        assert(all_found.take(k as int) =~= all_found);
        let ghost views = scored_views(all@);
        let keys = Self::ranking_keys(&all);
        let order = rank(&keys);
        let ghost ranking = positions(order@);
        let mut r: Vec<Scored> = Vec::new();
        let mut p: usize = 0;
        while p < order.len()
            invariant
                p <= order.len(),
                r.len() == p,
                views == scored_views(all@),
                ranking == positions(order@),
                is_ranking(scored_keys(views), ranking),
                forall|j: int| 0 <= j < p ==> (#[trigger] r@[j])@ == views[ranking[j]],
            decreases order.len() - p,
        {
            assert(0 <= ranking[p as int] < views.len());
            let at: usize = order[p];
            r.push(Scored { entry: all[at].entry.clone(), score: all[at].score });
            p += 1;
        }
        assert(scored_views(r@) =~= picked(views, ranking));
        proof {
            law_combined_is_complete(hot_views, all_found, scored_views(r@));
            assert forall|j: int| 0 <= j < hot@.len() implies scored_views(r@).contains(
                ScoredView { entry: (#[trigger] hot@[j])@, score: Score { bits: 0x4000_0000 } },
            ) by {
                assert(hot_views[j] == hot@[j]@);
            }
            assert forall|i: int|
                0 <= i < found@.len() && ((#[trigger] found@[i]).entry.issue_number is None
                    || forall|j: int|
                    0 <= j < hot@.len() ==> (#[trigger] hot@[j]).issue_number
                        != found@[i].entry.issue_number) implies scored_views(r@).contains(
                ScoredView { entry: found@[i].entry@, score: found@[i].score },
            ) by {
                let f = all_found[i];
                assert(f == found@[i]@);
                assert forall|j: int|
                    0 <= j < hot_views.len() && f.entry.issue_number is Some implies (
                #[trigger] hot_views[j]).issue_number != f.entry.issue_number by {
                    assert(hot_views[j] == hot@[j]@);
                }
            }
        }
        r
    }

    /// The context made of ranked entries whose scores are written `scores`, within the
    /// token budget; and the issues that count as accessed.
    pub fn assemble(ranked: &Vec<Scored>, scores: &Vec<String>, token_budget: usize) -> (r: Recall)
        requires
            scores@.len() == ranked@.len(),
        ensures
            r.context@ == context_text(
                block_texts(scored_views(ranked@), texts(scores@)),
                token_budget as int,
            ),
            r.accessed@ == accessed(scored_views(ranked@)),
    {
        let ghost views = scored_views(ranked@);
        let ghost blocks = block_texts(views, texts(scores@));
        let mut parts: Vec<String> = Vec::new();
        // The heading, less the line feeds that stand before every block but the first.
        let mut used: u128 = 17;
        let mut i: usize = 0;
        while i < ranked.len()
            invariant
                i <= ranked.len(),
                scores@.len() == ranked@.len(),
                views == scored_views(ranked@),
                blocks == block_texts(views, texts(scores@)),
                parts.len() == i,
                texts(parts@) == blocks.take(i as int),
                used == context_bytes(blocks, i as int),
                used <= 19 + usize::MAX || used / 4 <= token_budget,
                fitting(blocks, token_budget as int, 0) == fitting(
                    blocks,
                    token_budget as int,
                    i as int,
                ),
            ensures
                i <= ranked.len(),
                texts(parts@) == blocks.take(i as int),
                fitting(blocks, token_budget as int, 0) == i,
            decreases ranked.len() - i,
        {
            let block = Self::block(&ranked[i].entry, scores[i].as_str());
            assert(block@ == blocks[i as int]);
            let size: u128 = used + 2 + byte_len(block.as_str()) as u128;
            assert(size == context_bytes(blocks, i + 1));
            if i > 0 && size / 4 > token_budget as u128 {
                break;
            }
            used = size;
            let ghost before = parts@;
            parts.push(block);
            assert(texts(parts@) =~= texts(before).push(blocks[i as int]));
            assert(blocks.take(i + 1) =~= blocks.take(i as int).push(blocks[i as int]));
            i += 1;
        }
        let mut touched: Vec<u64> = Vec::new();
        let n: usize = if ranked.len() <= 5 {
            ranked.len()
        } else {
            5
        };
        let ghost top = if views.len() <= 5 {
            views
        } else {
            views.take(5)
        };
        let mut k: usize = 0;
        while k < n
            invariant
                k <= n,
                n == top.len(),
                n <= ranked.len(),
                forall|j: int| 0 <= j < n ==> #[trigger] top[j] == ranked@[j]@,
                touched@ == numbers(top.take(k as int)),
            decreases n - k,
        {
            assert(top.take(k + 1).drop_last() =~= top.take(k as int));
            if let Some(number) = ranked[k].entry.issue_number {
                touched.push(number);
            }
            k += 1;
        }
        assert(top.take(k as int) =~= top);
        if ranked.len() == 0 {
            let empty = String::new();
            assert(empty@ =~= context_text(blocks, token_budget as int));
            return Recall { context: empty, accessed: touched };
        }
        let context = concat("## Memory Context\n\n", join_strings(&parts, "\n\n").as_str());
        Recall { context, accessed: touched }
    }

    /// The block of an entry whose score is written `score`.
    fn block(entry: &MemoryEntry, score: &str) -> (r: String)
        ensures
            r@ == block_text(entry@, score@),
    {
        let word: &'static str = match entry.tier() {
            MemoryTier::Hot => "working",
            MemoryTier::Warm => "warm",
            MemoryTier::Cold => "cold",
        };
        let mut r = concat("[", word);
        r.append("] Score: ");
        r.append(score);
        r.append("\n");
        r.append(entry.content.as_str());
        r
    }

    /// Recalls relevant memories as a formatted context block: the hot tier first, then the
    /// search results, as far as the token budget allows. Scores are written by `show`.
    pub fn recall<F: Fn(Score) -> String>(
        hot: &Vec<MemoryEntry>,
        found: &Vec<SearchResult>,
        token_budget: usize,
        show: F,
    ) -> (r: Recall)
        requires
            forall|s: Score| call_requires(show, (s,)),
        ensures
            exists|ranked: Seq<ScoredView>, scores: Seq<Seq<char>>|
                {
                    &&& #[trigger] is_ranked(
                        merged(entry_views(hot@), result_views(found@)),
                        ranked,
                    )
                    &&& #[trigger] all_shown(show, ranked, scores)
                    &&& r.context@ == context_text(
                        block_texts(ranked, scores),
                        token_budget as int,
                    )
                    &&& r.accessed@ == accessed(ranked)
                },
    {
        let ranked = Self::combine(hot, found);
        let ghost views = scored_views(ranked@);
        let mut scores: Vec<String> = Vec::new();
        let mut i: usize = 0;
        while i < ranked.len()
            invariant
                i <= ranked.len(),
                scores.len() == i,
                forall|s: Score| call_requires(show, (s,)),
                forall|j: int|
                    0 <= j < i ==> call_ensures(show, (ranked@[j].score,), #[trigger] scores@[j]),
            decreases ranked.len() - i,
        {
            scores.push(show(ranked[i].score));
            i += 1;
        }
        proof {
            let shown = texts(scores@);
            assert forall|j: int| 0 <= j < views.len() implies exists|s: String|
                s@ == #[trigger] shown[j] && call_ensures(show, (views[j].score,), s) by {
                assert(call_ensures(show, (ranked@[j].score,), scores@[j]));
                assert(shown[j] == scores@[j]@);
            }
            assert(all_shown(show, views, shown));
        }
        Self::assemble(&ranked, &scores, token_budget)
    }

    /// The event that is recorded on an issue that a recall counts as accessed, at the time
    /// that `timestamp` writes.
    pub fn access_event(timestamp: &str) -> (r: Json)
        ensures
            r@ == access_value(timestamp@),
    {
        let mut members: Vec<(String, Json)> = Vec::new();
        members.push(("event".to_owned(), text("access")));
        members.push(("timestamp".to_owned(), text(timestamp)));
        let r = object(members);
        assert(r@->Object_0 =~= access_value(timestamp@)->Object_0);
        r
    }

    /// The updated entry, ready to be overwritten.
    pub fn update(&self, issue_number: u64, found: Option<MemoryEntry>, patch: MemoryPatch) -> (r:
        Result<MemoryEntry>)
        ensures
            match found {
                None => r matches Err(MemoryError::NotFound { issue_number: n }) && n
                    == issue_number,
                Some(e) => r is Ok && r->Ok_0@ == patched(e@, patch),
            },
            found matches Some(e) ==> {
                &&& patch.content matches Some(v) ==> r->Ok_0.content == v
                &&& patch.content is None ==> r->Ok_0.content == e.content
                &&& patch.memory_type matches Some(v) ==> r->Ok_0.memory_type == v
                &&& patch.memory_type is None ==> r->Ok_0.memory_type == e.memory_type
                &&& patch.user_id matches Some(v) ==> r->Ok_0.user_id == Some(v)
                &&& patch.user_id is None ==> r->Ok_0.user_id == e.user_id
                &&& patch.agent_id matches Some(v) ==> r->Ok_0.agent_id == Some(v)
                &&& patch.agent_id is None ==> r->Ok_0.agent_id == e.agent_id
                &&& patch.session_id matches Some(v) ==> r->Ok_0.session_id == Some(v)
                &&& patch.session_id is None ==> r->Ok_0.session_id == e.session_id
                &&& patch.importance matches Some(v) ==> r->Ok_0.importance == v
                &&& patch.importance is None ==> r->Ok_0.importance == e.importance
                &&& patch.confidence matches Some(v) ==> r->Ok_0.confidence == v
                &&& patch.confidence is None ==> r->Ok_0.confidence == e.confidence
                &&& patch.access_count matches Some(v) ==> r->Ok_0.access_count == v
                &&& patch.access_count is None ==> r->Ok_0.access_count == e.access_count
                &&& patch.last_accessed matches Some(v) ==> r->Ok_0.last_accessed == Some(v)
                &&& patch.last_accessed is None ==> r->Ok_0.last_accessed == e.last_accessed
                &&& patch.entities matches Some(v) ==> r->Ok_0.entities == v
                &&& patch.entities is None ==> r->Ok_0.entities == e.entities
                &&& patch.tags matches Some(v) ==> r->Ok_0.tags == v
                &&& patch.tags is None ==> r->Ok_0.tags == e.tags
                &&& patch.structured_data matches Some(v) ==> r->Ok_0.structured_data == v
                &&& patch.structured_data is None ==> r->Ok_0.structured_data == e.structured_data
                &&& patch.supersedes matches Some(v) ==> r->Ok_0.supersedes == v
                &&& patch.supersedes is None ==> r->Ok_0.supersedes == e.supersedes
                &&& patch.related_to matches Some(v) ==> r->Ok_0.related_to == v
                &&& patch.related_to is None ==> r->Ok_0.related_to == e.related_to
                &&& r->Ok_0.memory_id == e.memory_id
                &&& r->Ok_0.issue_number == e.issue_number
                &&& r->Ok_0.created_at == e.created_at
            },
    {
        match found {
            None => Err(MemoryError::NotFound { issue_number }),
            Some(e) => {
                let mut entry = e;
                apply_patch(&mut entry, patch);
                Ok(entry)
            },
        }
    }

    /// The query for the working memory that a user has, with which setting it starts.
    pub fn set_working_query(user_id: &str) -> (r: SearchQuery)
        ensures
            r@ == working_query(user_id@, 1),
    {
        Self::working_query(user_id, 1)
    }

    /// The query for the working memory of a user.
    fn working_query(user_id: &str, limit: usize) -> (r: SearchQuery)
        ensures
            r@ == working_query(user_id@, limit),
    {
        let mut types: Vec<MemoryType> = Vec::new();
        types.push(MemoryType::Working);
        let r = SearchQuery::default().with_user(user_id).with_memory_types(types).with_limit(
            limit,
        );
        assert(r@ =~= working_query(user_id@, limit));
        r
    }

    /// Sets (or replaces) the working memory of a user, given what a search for one has
    /// found.
    pub fn set_working(content: &str, user_id: &str, existing: &Vec<SearchResult>) -> (r: Result<
        WorkingStep,
    >)
        ensures
            if existing@.len() > 0 {
                r matches Ok(WorkingStep::Update(e)) && e@ == (EntryView {
                    content: content@,
                    ..existing@[0]@.entry
                })
            } else {
                if content@.len() == 0 {
                    refused(r, "content must not be empty"@)
                } else {
                    r matches Ok(WorkingStep::Create(e)) && freshly_built(
                        new_working(content@, user_id@),
                        e@,
                    )
                }
            },
    {
        if existing.len() > 0 {
            let mut entry = existing[0].entry.clone();
            entry.content = content.to_owned();
            Ok(WorkingStep::Update(entry))
        } else {
            if content.is_empty() {
                return Err(MemoryError::InvalidInput("content must not be empty".to_owned()));
            }
            let builder = MemoryEntry::builder(content, MemoryType::Working).user_id(
                user_id,
            ).importance(Score::from_bits(ONE));
            Ok(WorkingStep::Create(builder.build_sound()))
        }
    }

    /// Starts to archive all working memories of a user.
    pub fn clear_working(user_id: &str) -> (r: Clearing)
        ensures
            r@ == (ClearView { user_id: user_id@, archived: Set::empty(), done: false }),
    {
        broadcast use group_hash_axioms;
        let r = Clearing { user_id: user_id.to_owned(), archived: HashSet::new(), done: false };
        assert(r@.archived =~= Set::empty());
        r
    }

    /// Starts a conversation session: its identifier, and the request that opens its
    /// milestone.
    pub fn start_session(&self, description: &str) -> (r: (String, Request))
        ensures
            exists|id: u128| is_random_id(id) && r.0@ == #[trigger] id_text(id),
            r.1@ == session_ask(self.store.repository(), r.0@, description@),
    {
        let id = fresh_id();
        let ask = self.session_request(id.as_str(), description);
        (id, ask)
    }

    /// The request that opens the milestone of a session.
    pub fn session_request(&self, session_id: &str, description: &str) -> (r: Request)
        ensures
            r@ == session_ask(self.store.repository(), session_id@, description@),
    {
        let mut members: Vec<(String, Json)> = Vec::new();
        members.push(("title".to_owned(), Json::Text(Self::session_title(session_id))));
        members.push(("description".to_owned(), text(description)));
        let payload = object(members);
        assert(payload@->Object_0 =~= session_ask(
            self.store.repository(),
            session_id@,
            description@,
        ).body->0->Object_0);
        send(Method::Post, self.milestones_address(), payload)
    }

    /// The title of the milestone of a session.
    pub fn session_title(session_id: &str) -> (r: String)
        ensures
            r@ == "sess_"@ + session_id@,
    {
        concat("sess_", session_id)
    }

    fn milestones_address(&self) -> (r: String)
        ensures
            r@ == repo_url(self.store.repository(), "/milestones"@),
    {
        let mut path = concat("/repos/", self.store.repo());
        path.append("/milestones");
        self.store.api_url(path.as_str())
    }

    /// Whether the milestone of a session was opened.
    pub fn after_start_session(&self, reply: &Reply) -> (r: Result<()>)
        ensures
            if reply.succeeded() {
                r is Ok
            } else {
                api_failure(r, reply.status, reply.text@)
            },
    {
        if reply.is_success() {
            Ok(())
        } else {
            Err(MemoryError::GithubApi { status: reply.status, message: reply.text.clone() })
        }
    }

    /// The request for the open milestones, with which closing one starts.
    pub fn list_milestones(&self) -> (r: Request)
        ensures
            r@ == milestones_ask(self.store.repository()),
    {
        let mut params: Vec<(String, String)> = Vec::new();
        params.push(("state".to_owned(), "open".to_owned()));
        params.push(("per_page".to_owned(), "100".to_owned()));
        let r = Request { method: Method::Get, url: self.milestones_address(), params, body: None };
        assert(r@ =~= milestones_ask(self.store.repository()));
        r
    }

    /// The request that closes the milestone called `title`, if the reply to
    /// [`MemoryManager::list_milestones`] lists it. Nothing is done if the list could not
    /// be had.
    pub fn close_milestone(&self, title: &str, reply: &Reply) -> (r: Result<Option<Request>>)
        ensures
            if !reply.succeeded() {
                r is Ok && r->Ok_0 is None
            } else {
                match items_in(reply.text@) {
                    None => decode_failure(r),
                    Some(items) => match milestone_number(items, title@) {
                        Some(n) => r is Ok && r->Ok_0 is Some && r->Ok_0->0@
                            == close_milestone_ask(self.store.repository(), n),
                        None => r is Ok && r->Ok_0 is None,
                    },
                }
            },
    {
        if !reply.is_success() {
            return Ok(None);
        }
        let items = match reply_items(reply) {
            Err(e) => return Err(e),
            Ok(items) => items,
        };
        match find_milestone(&items, title) {
            None => Ok(None),
            Some(n) => {
                let mut path = concat("/repos/", self.store.repo());
                path.append(concat("/milestones/", number_text(n).as_str()).as_str());
                let url = self.store.api_url(path.as_str());
                Ok(Some(send(Method::Patch, url, object_of("state", text("closed")))))
            },
        }
    }
}

/// The number of the first milestone with this title.
fn find_milestone(items: &Vec<Json>, title: &str) -> (r: Option<u64>)
    ensures
        r == milestone_number(json_views(items@), title@),
{
    let ghost all = json_views(items@);
    let mut i: usize = 0;
    assert(all.skip(0) =~= all);
    while i < items.len()
        invariant
            i <= items.len(),
            all == json_views(items@),
            milestone_number(all, title@) == milestone_number(all.skip(i as int), title@),
        decreases items.len() - i,
    {
        assert(all.skip(i as int)[0] == items@[i as int]@);
        assert(all.skip(i as int).skip(1) =~= all.skip(i + 1));
        if let Some(t) = items[i].text_at("title") {
            if same(t, title) {
                return match items[i].get("number") {
                    Some(n) => n.as_u64(),
                    None => None,
                };
            }
        }
        i += 1;
    }
    None
}

} // verus!
