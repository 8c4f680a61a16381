//! Laws of searching.

use vstd::prelude::*;

use crate::api::{Method, Reply};
use crate::error::Result;
use crate::json::{json_in, JsonView, Number};
use crate::labels::{label_of_tier, label_of_type};
use crate::laws::{lemma_selects_none, lemma_selects_one_more_place, places, selects};
use crate::models::{EntryView, MemoryEntry, MemoryTier, MemoryType};
use crate::order::{comes_before, is_ranking};
use crate::schema::{body_reads, MemoryMeta};
use crate::score::Score;
use crate::search::{
    all_private, all_rated, answer_of, answers_own_user, found_items, found_views, gathered,
    gh_query, is_top, item_number, item_score, items_read, key_text, last_page, page_ask,
    page_size, query_parts, rate_limited, rated_from, result_views, results_of, score_keys,
    search_ask, searched, GatherView, KeptView, QueryView, ResultView, SearchQuery, SearchResult,
    CACHE_TTL,
};
use crate::store::text_or_empty;
use crate::text::{decimal, join};

verus! {

/// A query starts without words, user, types or tiers, without what is archived, and with a
/// limit of ten.
pub proof fn law_plain_query()
    ensures
        QueryView::plain().query.len() == 0,
        QueryView::plain().user_id is None,
        QueryView::plain().memory_types.len() == 0,
        QueryView::plain().tiers.len() == 0,
        !QueryView::plain().include_archived,
        QueryView::plain().limit == 10,
{
}

/// What a query holds is what its fields hold.
pub proof fn law_query_holds_its_fields(q: SearchQuery)
    ensures
        q@.query == q.query@,
        q.user_id matches Some(u) ==> q@.user_id == Some(u@),
        q.user_id is None ==> q@.user_id is None,
        q@.memory_types == q.memory_types@,
        q@.tiers == q.tiers@,
        q@.include_archived == q.include_archived,
        q@.limit == q.limit,
{
}

/// What a list of results holds is what each of them holds.
pub proof fn law_results_hold_each(v: Seq<SearchResult>)
    ensures
        result_views(v).len() == v.len(),
        forall|i: int|
            0 <= i < v.len() ==> {
                &&& (#[trigger] result_views(v)[i]).entry == v[i].entry@
                &&& result_views(v)[i].score == v[i].score
                &&& result_views(v)[i].gh_score == v[i].gh_score
            },
{
}

/// The parts of a query, in order: the repository; that the issue is open, unless archived
/// memories are wanted too; the label of the user, of each type and of each tier; the words.
pub proof fn law_query_parts(q: QueryView, repo: Seq<char>)
    ensures
        ({
            let parts = query_parts(q, repo);
            let open = if q.include_archived {
                0int
            } else {
                1
            };
            let user = if q.user_id is Some {
                1int
            } else {
                0
            };
            let words = if q.query.len() > 0 {
                1int
            } else {
                0
            };
            let types = q.memory_types.len();
            &&& parts.len() == 1 + open + user + types + q.tiers.len() + words
            &&& parts[0] == "repo:"@ + repo
            &&& !q.include_archived ==> parts[1] == "state:open"@
            &&& q.user_id matches Some(u) ==> parts[1 + open] == "label:"@ + ("user:"@ + u)
            &&& forall|i: int|
                0 <= i < types ==> parts[1 + open + user + i] == "label:"@ + label_of_type(
                    #[trigger] q.memory_types[i],
                )
            &&& forall|i: int|
                0 <= i < q.tiers.len() ==> parts[1 + open + user + types + i] == "label:"@
                    + label_of_tier(#[trigger] q.tiers[i])
            &&& q.query.len() > 0 ==> parts.last() == q.query
            &&& gh_query(q, repo) == join(parts, " "@)
        }),
{
}

/// The key of a query: its words, its user if it has one, the names of its types and tiers,
/// whether archived memories are wanted, and its limit.
pub proof fn law_key(q: QueryView)
    ensures
        ({
            let user = match q.user_id {
                Some(u) => u,
                None => Seq::<char>::empty(),
            };
            let types = join(q.memory_types.map_values(|t: MemoryType| t.name()), ","@);
            let tiers = join(q.tiers.map_values(|t: MemoryTier| t.name()), ","@);
            let start = q.query + "|"@ + user + "|"@ + types + "|"@ + tiers + "|"@;
            &&& q.include_archived ==> key_text(q) == start + "true"@ + "|"@ + decimal(
                q.limit as nat,
            )
            &&& !q.include_archived ==> key_text(q) == start + "false"@ + "|"@ + decimal(
                q.limit as nat,
            )
        }),
{
    assert(q.memory_types.map_values(|t: MemoryType| t.name()) =~= Seq::new(
        q.memory_types.len(),
        |i: int| q.memory_types[i].name(),
    ));
    assert(q.tiers.map_values(|t: MemoryTier| t.name()) =~= Seq::new(
        q.tiers.len(),
        |i: int| q.tiers[i].name(),
    ));
}

/// Twice as many results are asked for as are wanted, but thirty at most.
pub proof fn law_page_size(limit: int)
    ensures
        page_size(limit) <= 30,
        page_size(limit) <= 2 * limit,
        page_size(limit) == 30 || page_size(limit) == 2 * limit,
{
}

/// The last page that is asked for is the first one with which pages of thirty hold as many
/// results as are wanted.
pub proof fn law_last_page(limit: int)
    ensures
        last_page(limit) >= 1,
        last_page(limit) * 30 >= limit,
        last_page(limit) > 1 ==> (last_page(limit) - 1) * 30 < limit,
{
}

/// A search asks for the issues that match the query best; it says so if it is to search by
/// meaning as well as by words.
pub proof fn law_search_request(repo: Seq<char>, q: QueryView, hybrid: bool)
    ensures
        search_ask(repo, q, hybrid).method == Method::Get,
        search_ask(repo, q, hybrid).url == "https://api.github.com/search/issues"@,
        search_ask(repo, q, hybrid).body is None,
        search_ask(repo, q, hybrid).params.len() == if hybrid {
            4int
        } else {
            3
        },
        search_ask(repo, q, hybrid).params[0] == ("q"@, gh_query(q, repo)),
        search_ask(repo, q, hybrid).params[1] == (
            "per_page"@,
            decimal(page_size(q.limit as int) as nat),
        ),
        search_ask(repo, q, hybrid).params[2] == ("sort"@, "best-match"@),
        hybrid ==> search_ask(repo, q, hybrid).params[3] == ("search_type"@, "hybrid"@),
{
}

/// A page is asked for like a search by words; every page but the first is named.
pub proof fn law_page_request(repo: Seq<char>, q: QueryView, page: int)
    ensures
        page <= 1 ==> page_ask(repo, q, page) == search_ask(repo, q, false),
        page > 1 ==> {
            &&& page_ask(repo, q, page).method == search_ask(repo, q, false).method
            &&& page_ask(repo, q, page).url == search_ask(repo, q, false).url
            &&& page_ask(repo, q, page).body == search_ask(repo, q, false).body
            &&& page_ask(repo, q, page).params == search_ask(repo, q, false).params.push(
                ("page"@, decimal(page as nat)),
            )
        },
{
}

/// The items of an answer are those of the array under `items`; without one there are none.
pub proof fn law_found_items(body: JsonView)
    ensures
        body.field("items"@) matches Some(v) ==> {
            &&& v.items() matches Some(items) ==> found_items(body) == items
            &&& v.items() is None ==> found_items(body).len() == 0
        },
        body.field("items"@) is None ==> found_items(body).len() == 0,
{
}

/// The number and the score of an item, as far as it has them.
pub proof fn law_item(item: JsonView)
    ensures
        item.field("number"@) matches Some(v) ==> item_number(item) == v.unsigned(),
        item.field("number"@) is None ==> item_number(item) is None,
        item.field("score"@) matches Some(v) ==> item_score(item) == v.numeric(),
        item.field("score"@) is None ==> item_score(item) is None,
{
}

/// Every item is read, each from its body.
pub proof fn law_items_read<F: Fn(&str) -> Result<MemoryMeta>>(
    decode: F,
    items: Seq<JsonView>,
    read: Seq<Result<MemoryEntry>>,
)
    ensures
        items_read(decode, items, read) <==> read.len() == items.len() && forall|i: int|
            0 <= i < items.len() ==> body_reads(
                decode,
                text_or_empty(items[i], "body"@),
                #[trigger] read[i],
            ),
{
}

/// Of the items, exactly those that can be read are gathered, in their order: as the entry
/// that was read with the number of the item, beside the score of the item.
pub proof fn law_gathered(items: Seq<JsonView>, read: Seq<Result<MemoryEntry>>)
    requires
        items.len() == read.len(),
    ensures
        selects(
            places(items.len()),
            |i: int| read[i] is Ok,
            |i: int|
                (
                    EntryView { issue_number: item_number(items[i]), ..read[i]->Ok_0@ },
                    item_score(items[i]),
                ),
            gathered(items, read),
        ),
    decreases items.len(),
{
    let keep = |i: int| read[i] is Ok;
    let made = |i: int|
        (
            EntryView { issue_number: item_number(items[i]), ..read[i]->Ok_0@ },
            item_score(items[i]),
        );
    if items.len() == 0 {
        lemma_selects_none(places(0), keep, made);
    } else {
        let a = items.drop_last();
        let b = read.drop_last();
        law_gathered(a, b);
        lemma_selects_one_more_place(
            a.len(),
            |i: int| b[i] is Ok,
            |i: int|
                (
                    EntryView { issue_number: item_number(a[i]), ..b[i]->Ok_0@ },
                    item_score(a[i]),
                ),
            keep,
            made,
            gathered(a, b),
        );
    }
}

/// What the entries found hold, each beside its score.
pub proof fn law_found_hold_each(v: Seq<(MemoryEntry, Option<Number>)>)
    ensures
        found_views(v).len() == v.len(),
        forall|i: int| 0 <= i < v.len() ==> #[trigger] found_views(v)[i] == (v[i].0@, v[i].1),
{
}

/// There is one result for each entry found, in their order, with the two scores that `rate`
/// gives the entry: the combined one and that of the search.
pub proof fn law_rated<G: Fn(&MemoryEntry, Option<Number>) -> (Score, Score)>(
    rate: G,
    found: Seq<(MemoryEntry, Option<Number>)>,
    results: Seq<ResultView>,
)
    ensures
        all_rated(rate, found, results) <==> results.len() == found.len() && forall|i: int|
            0 <= i < found.len() ==> (#[trigger] results[i]).entry == found[i].0@ && call_ensures(
                rate,
                (&found[i].0, found[i].1),
                (results[i].score, results[i].gh_score),
            ),
{
}

/// Results that were rated are those of all items that can be read: as many, in the same
/// order, each with the entry of its item and with the scores that `rate` gives for it.
pub proof fn law_rated_from_items<
    F: Fn(&str) -> Result<MemoryMeta>,
    G: Fn(&MemoryEntry, Option<Number>) -> (Score, Score),
>(decode: F, rate: G, items: Seq<JsonView>, all: Seq<ResultView>)
    requires
        rated_from(decode, rate, items, all),
    ensures
        exists|read: Seq<Result<MemoryEntry>>|
            {
                &&& #[trigger] items_read(decode, items, read)
                &&& all.len() == gathered(items, read).len()
                &&& forall|i: int|
                    0 <= i < all.len() ==> (#[trigger] all[i]).entry == gathered(items, read)[i].0
                        && exists|e: MemoryEntry|
                        e@ == all[i].entry && #[trigger] call_ensures(
                            rate,
                            (&e, gathered(items, read)[i].1),
                            (all[i].score, all[i].gh_score),
                        )
            },
{
    let (read, found) = choose|
        read: Seq<Result<MemoryEntry>>,
        found: Seq<(MemoryEntry, Option<Number>)>,
    |
        {
            &&& #[trigger] items_read(decode, items, read)
            &&& found_views(found) == gathered(items, read)
            &&& #[trigger] all_rated(rate, found, all)
        };
    let g = gathered(items, read);
    assert forall|i: int| 0 <= i < all.len() implies (#[trigger] all[i]).entry == g[i].0 && exists|
        e: MemoryEntry,
    |
        e@ == all[i].entry && #[trigger] call_ensures(
            rate,
            (&e, g[i].1),
            (all[i].score, all[i].gh_score),
        ) by {
        assert(g[i] == found_views(found)[i]);
        let e = found[i].0;
        assert(call_ensures(rate, (&e, g[i].1), (all[i].score, all[i].gh_score)));
    }
    assert(items_read(decode, items, read));
}

/// The results that are returned are the best of all, as many as wanted, if there are so
/// many: each a different one, the better before the worse, what is equal in the order of the
/// search, and none that is left out would come before one of them.
pub proof fn law_best_results(all: Seq<ResultView>, limit: int, top: Seq<ResultView>)
    requires
        limit >= 0,
        is_top(all, limit, top),
    ensures
        top.len() <= limit,
        top.len() <= all.len(),
        top.len() == limit || top.len() == all.len(),
        exists|at: Seq<int>|
            {
                &&& at.len() == top.len()
                &&& forall|i: int|
                    0 <= i < top.len() ==> 0 <= #[trigger] at[i] < all.len() && top[i]
                        == all[at[i]]
                &&& forall|i: int, j: int|
                    0 <= i < j < top.len() ==> {
                        ||| all[#[trigger] at[i]].score.total_rank()
                            > all[#[trigger] at[j]].score.total_rank()
                        ||| all[at[i]].score.total_rank() == all[at[j]].score.total_rank() && at[i]
                            < at[j]
                    }
                &&& forall|k: int, i: int|
                    0 <= k < all.len() && 0 <= i < top.len() && !at.contains(k) ==> {
                        ||| all[#[trigger] at[i]].score.total_rank() > (
                        #[trigger] all[k]).score.total_rank()
                        ||| all[at[i]].score.total_rank() == all[k].score.total_rank() && at[i] < k
                    }
            },
{
    let keys = score_keys(all);
    let order = choose|order: Seq<int>| #[trigger]
        is_ranking(keys, order) && top == crate::order::picked(
            all,
            if order.len() <= limit {
                order
            } else {
                order.take(limit)
            },
        );
    let at = if order.len() <= limit {
        order
    } else {
        order.take(limit)
    };
    assert forall|i: int| 0 <= i < at.len() implies 0 <= #[trigger] at[i] < all.len() && top[i]
        == all[at[i]] by {
        assert(at[i] == order[i]);
    }
    assert forall|i: int, j: int| 0 <= i < j < top.len() implies {
        ||| all[#[trigger] at[i]].score.total_rank() > all[#[trigger] at[j]].score.total_rank()
        ||| all[at[i]].score.total_rank() == all[at[j]].score.total_rank() && at[i] < at[j]
    } by {
        assert(comes_before(keys, order[i], order[j]));
    }
    assert forall|k: int, i: int|
        0 <= k < all.len() && 0 <= i < top.len() && !at.contains(k) implies {
        ||| all[#[trigger] at[i]].score.total_rank() > (#[trigger] all[k]).score.total_rank()
        ||| all[at[i]].score.total_rank() == all[k].score.total_rank() && at[i] < k
    } by {
        assert(order.contains(k));
        let p = choose|p: int| 0 <= p < order.len() && order[p] == k;
        if p < at.len() {
            assert(at[p] == k);
            assert(at.contains(k));
        }
        assert(comes_before(keys, order[i], order[p]));
    }
}

/// What a search returns: that the limit of requests is reached, on 403 and 429; the status
/// and the text of any other failure; that an answer is no JSON; or else the best of all
/// results of the answer's items.
pub proof fn law_searched<
    F: Fn(&str) -> Result<MemoryMeta>,
    G: Fn(&MemoryEntry, Option<Number>) -> (Score, Score),
>(q: QueryView, reply: Reply, decode: F, rate: G, r: Result<Vec<SearchResult>>)
    requires
        searched(q, reply, decode, rate, r),
    ensures
        reply.status == 403 || reply.status == 429 ==> r is Err && r->Err_0 is RateLimit
            && r->Err_0->retry_after_secs == 60,
        reply.status != 403 && reply.status != 429 && !(200 <= reply.status < 300) ==> r is Err
            && r->Err_0 is GithubApi && r->Err_0->GithubApi_status == reply.status
            && r->Err_0->GithubApi_message@ == reply.text@,
        200 <= reply.status < 300 && json_in(reply.text@) is None ==> r is Err && r->Err_0 is Http
            && r->Err_0->Http_0@ == "error decoding response body"@,
        200 <= reply.status < 300 && json_in(reply.text@) is Some ==> r is Ok && exists|
            all: Seq<ResultView>,
        |
            #[trigger] rated_from(decode, rate, found_items(json_in(reply.text@)->0), all)
                && is_top(all, q.limit as int, result_views(r->Ok_0@)),
{
}

/// The limit of requests is reached: try again after so many seconds.
pub proof fn law_rate_limited<T>(r: Result<T>, secs: u64)
    ensures
        rate_limited(r, secs) <==> r is Err && r->Err_0 is RateLimit
            && r->Err_0->retry_after_secs == secs,
{
}

/// The answer to a query is what was kept for it, if that is less than two minutes old.
pub proof fn law_kept_answer(kept: Map<QueryView, KeptView>, q: QueryView, now: u64)
    ensures
        answer_of(kept, q, now) is Some <==> kept.contains_key(q) && now < kept[q].at
            + 120_000_000_000,
        answer_of(kept, q, now) is Some ==> answer_of(kept, q, now)->0 == kept[q].results,
        CACHE_TTL == 120_000_000_000,
{
}

/// What is meant by results of one user, and by answers that are private to the user who asks.
pub proof fn law_privacy(
    user_id: Seq<char>,
    v: Seq<ResultView>,
    q: QueryView,
    kept: Map<QueryView, KeptView>,
)
    ensures
        results_of(user_id, v) <==> forall|i: int|
            0 <= i < v.len() ==> (#[trigger] v[i]).entry.user_id == Some(user_id),
        q.user_id matches Some(u) ==> (answers_own_user(q, v) <==> results_of(u, v)),
        all_private(kept) <==> forall|p: QueryView| #[trigger]
            kept.contains_key(p) ==> answers_own_user(p, kept[p].results),
{
}

/// A page adds its results behind those found before. Another one is asked for exactly when
/// this one was full and the last one is not reached.
pub proof fn law_page_taken(v: GatherView, listed: int, all: Seq<ResultView>)
    ensures
        v.taken(listed, all).query == v.query,
        v.taken(listed, all).page == v.page + 1,
        v.taken(listed, all).found == v.found + all,
        v.taken(listed, all).more <==> listed >= page_size(v.query.limit as int) && v.page
            < last_page(v.query.limit as int),
{
}

} // verus!
