//! Laws of remembering, recalling and updating, of working memory and of sessions.

use vstd::prelude::*;
use vstd::utf8::{encode_utf8, is_ascii_chars_encode_utf8};

use crate::api::Method;
use crate::error::Result;
use crate::json::JsonView;
use crate::laws::entries::law_why_not_built;
use crate::laws::requests::law_addresses;
use crate::laws::{lemma_selects_none, lemma_selects_one_more, selects, selects_at};
use crate::manager::{
    access_value, accessed, all_shown, block_text, block_texts, close_milestone_ask, comparable,
    context_bytes, context_text, entries_of, fitting, is_ranked, law_budget, law_each_cleared_once,
    merged, milestone_number, milestones_ask, new_issues, new_working, not_hot, numbers,
    recall_parts, recalling, remembered, scored_keys, scored_views, session_ask, stub_summary,
    tokens, working_query, ClearView, MemoryManager, Scored, ScoredView, CLEARED, HOT_CACHE_TTL,
    HOT_SCORE,
};
use crate::models::{builds, freshly_built, EntryView, MemoryEntry, MemoryTier, MemoryType};
use crate::order::{comes_before, is_ranking, law_one_ranking, picked};
use crate::score::Score;
use crate::search::{item_number, results_of, ResultView};
use crate::text::{decimal, join, lemma_bytes_append};

verus! {

/// The results that are no hot-tier entries are taken over with their scores: each of them,
/// no other, and in their order.
pub proof fn law_results_are_taken_over(hot: Seq<EntryView>, found: Seq<ResultView>)
    ensures
        selects(
            found,
            |f: ResultView|
                f.entry.issue_number is None || forall|j: int|
                    0 <= j < hot.len() ==> (#[trigger] hot[j]).issue_number
                        != f.entry.issue_number,
            |f: ResultView| ScoredView { entry: f.entry, score: f.score },
            not_hot(hot, found),
        ),
    decreases found.len(),
{
    let keep = |f: ResultView|
        f.entry.issue_number is None || forall|j: int|
            0 <= j < hot.len() ==> (#[trigger] hot[j]).issue_number != f.entry.issue_number;
    let made = |f: ResultView| ScoredView { entry: f.entry, score: f.score };
    if found.len() == 0 {
        lemma_selects_none(found, keep, made);
    } else {
        law_results_are_taken_over(hot, found.drop_last());
        lemma_selects_one_more(found, keep, made, not_hot(hot, found.drop_last()));
    }
}

/// A merged list is made of every hot-tier entry, scored two, and behind them of every result
/// that has no issue number or not the number of a hot-tier entry, with its own score. Both
/// keep their order, and nothing else is in the list.
pub proof fn law_merge_is_complete(hot: Seq<EntryView>, found: Seq<ResultView>)
    ensures
        hot.len() <= merged(hot, found).len() <= hot.len() + found.len(),
        forall|j: int|
            0 <= j < hot.len() ==> (#[trigger] merged(hot, found)[j]).entry == hot[j] && merged(
                hot,
                found,
            )[j].score.bits == 0x4000_0000,
        forall|i: int|
            0 <= i < found.len() && ((#[trigger] found[i]).entry.issue_number is None || forall|
                j: int,
            |
                0 <= j < hot.len() ==> (#[trigger] hot[j]).issue_number
                    != found[i].entry.issue_number) ==> merged(hot, found).contains(
                ScoredView { entry: found[i].entry, score: found[i].score },
            ),
        selects(
            found,
            |f: ResultView|
                f.entry.issue_number is None || forall|j: int|
                    0 <= j < hot.len() ==> (#[trigger] hot[j]).issue_number
                        != f.entry.issue_number,
            |f: ResultView| ScoredView { entry: f.entry, score: f.score },
            merged(hot, found).skip(hot.len() as int),
        ),
{
    let keep = |f: ResultView|
        f.entry.issue_number is None || forall|j: int|
            0 <= j < hot.len() ==> (#[trigger] hot[j]).issue_number != f.entry.issue_number;
    let made = |f: ResultView| ScoredView { entry: f.entry, score: f.score };
    law_results_are_taken_over(hot, found);
    let rest = not_hot(hot, found);
    let all = merged(hot, found);
    assert(all.skip(hot.len() as int) =~= rest);
    let at = choose|at: Seq<int>| #[trigger] selects_at(found, keep, made, rest, at);
    lemma_increasing_fits(at, found.len() as int);
    assert forall|i: int| 0 <= i < found.len() && keep(#[trigger] found[i]) implies all.contains(
        made(found[i]),
    ) by {
        assert(at.contains(i));
        let k = choose|k: int| 0 <= k < at.len() && at[k] == i;
        assert(rest[k] == made(found[i]));
        assert(all[hot.len() + k] == made(found[i]));
    }
}

/// Increasing positions below `n` are at most `n`.
proof fn lemma_increasing_fits(at: Seq<int>, n: int)
    requires
        n >= 0,
        forall|i: int| 0 <= i < at.len() ==> 0 <= #[trigger] at[i] < n,
        forall|i: int, j: int| 0 <= i < j < at.len() ==> #[trigger] at[i] < #[trigger] at[j],
    ensures
        at.len() <= n,
    decreases n,
{
    if at.len() > 0 {
        let front = at.drop_last();
        assert(0 <= at[at.len() - 1] < n);
        assert forall|i: int| 0 <= i < front.len() implies 0 <= #[trigger] front[i] < n - 1 by {
            assert(at[i] < at[at.len() - 1]);
        }
        assert forall|i: int, j: int| 0 <= i < j < front.len() implies #[trigger] front[i]
            < #[trigger] front[j] by {
            assert(at[i] < at[j]);
        }
        lemma_increasing_fits(front, n - 1);
    }
}

/// A ranked list holds each item once, a greater score before a smaller one, and items of
/// equal score in the order in which they came. Where some score is no number, the order
/// stays as it was.
pub proof fn law_ranked(all: Seq<ScoredView>, r: Seq<ScoredView>)
    requires
        is_ranked(all, r),
    ensures
        r.len() == all.len(),
        (exists|k: int| 0 <= k < all.len() && (#[trigger] all[k]).score.nan()) ==> r == all,
        (forall|k: int| 0 <= k < all.len() ==> !(#[trigger] all[k]).score.nan()) ==> exists|
            order: Seq<int>,
        |
            {
                &&& order.len() == all.len()
                &&& forall|k: int| 0 <= k < all.len() ==> #[trigger] order.contains(k)
                &&& forall|i: int|
                    0 <= i < r.len() ==> 0 <= #[trigger] order[i] < all.len() && r[i]
                        == all[order[i]]
                &&& forall|i: int, j: int|
                    0 <= i < j < r.len() ==> !r[i].score.lt(r[j].score) && (r[j].score.lt(
                        r[i].score,
                    ) || #[trigger] order[i] < #[trigger] order[j])
            },
{
    let keys = scored_keys(all);
    let order = choose|order: Seq<int>| #[trigger]
        is_ranking(keys, order) && r == picked(all, order);
    if comparable(all) {
        assert forall|i: int, j: int| 0 <= i < j < r.len() implies !r[i].score.lt(r[j].score) && (
        r[j].score.lt(r[i].score) || #[trigger] order[i] < #[trigger] order[j]) by {
            assert(comes_before(keys, order[i], order[j]));
            assert(keys[order[i]] == all[order[i]].score.rank());
            assert(keys[order[j]] == all[order[j]].score.rank());
            assert(!all[order[i]].score.nan());
            assert(!all[order[j]].score.nan());
        }
        assert(forall|k: int| 0 <= k < all.len() ==> #[trigger] order.contains(k));
    } else {
        let same = Seq::new(all.len(), |i: int| i);
        assert forall|k: int| 0 <= k < keys.len() implies #[trigger] same.contains(k) by {
            assert(same[k] == k);
        }
        assert(is_ranking(keys, same));
        law_one_ranking(keys, order, same);
        assert(r =~= all);
    }
}

/// Whatever the ranking, a recall loses nothing: every hot-tier entry, scored two, and every
/// result that is no hot-tier entry, with its own score, is in the combined list, and all that
/// is in it is one of these.
pub proof fn law_combined_is_complete(
    hot: Seq<EntryView>,
    found: Seq<ResultView>,
    r: Seq<ScoredView>,
)
    requires
        is_ranked(merged(hot, found), r),
    ensures
        forall|j: int|
            0 <= j < hot.len() ==> r.contains(
                ScoredView { entry: #[trigger] hot[j], score: Score { bits: 0x4000_0000 } },
            ),
        forall|i: int|
            0 <= i < found.len() && ((#[trigger] found[i]).entry.issue_number is None || forall|
                j: int,
            |
                0 <= j < hot.len() ==> (#[trigger] hot[j]).issue_number
                    != found[i].entry.issue_number) ==> r.contains(
                ScoredView { entry: found[i].entry, score: found[i].score },
            ),
        forall|k: int|
            0 <= k < r.len() ==> {
                ||| exists|j: int|
                    0 <= j < hot.len() && (#[trigger] r[k]).entry == #[trigger] hot[j]
                        && r[k].score.bits == 0x4000_0000
                ||| exists|i: int|
                    0 <= i < found.len() && r[k].entry == (#[trigger] found[i]).entry && r[k].score
                        == found[i].score && (found[i].entry.issue_number is None || forall|j: int|
                        0 <= j < hot.len() ==> (#[trigger] hot[j]).issue_number
                            != found[i].entry.issue_number)
            },
{
    let keep = |f: ResultView|
        f.entry.issue_number is None || forall|j: int|
            0 <= j < hot.len() ==> (#[trigger] hot[j]).issue_number != f.entry.issue_number;
    let made = |f: ResultView| ScoredView { entry: f.entry, score: f.score };
    let all = merged(hot, found);
    let rest = all.skip(hot.len() as int);
    law_merge_is_complete(hot, found);
    let order = choose|order: Seq<int>| #[trigger]
        is_ranking(scored_keys(all), order) && r == picked(all, order);
    let at = choose|at: Seq<int>| #[trigger] selects_at(found, keep, made, rest, at);
    assert forall|k: int| 0 <= k < all.len() implies r.contains(#[trigger] all[k]) by {
        assert(order.contains(k));
        let i = choose|i: int| 0 <= i < order.len() && order[i] == k;
        assert(r[i] == all[k]);
    }
    assert forall|j: int| 0 <= j < hot.len() implies r.contains(
        ScoredView { entry: #[trigger] hot[j], score: Score { bits: 0x4000_0000 } },
    ) by {
        assert(r.contains(all[j]));
    }
    assert forall|i: int| 0 <= i < found.len() && keep(#[trigger] found[i]) implies r.contains(
        made(found[i]),
    ) by {
        assert(all.contains(made(found[i])));
    }
    assert forall|k: int| 0 <= k < r.len() implies {
        ||| exists|j: int|
            0 <= j < hot.len() && (#[trigger] r[k]).entry == #[trigger] hot[j] && r[k].score.bits
                == 0x4000_0000
        ||| exists|i: int|
            0 <= i < found.len() && r[k].entry == (#[trigger] found[i]).entry && r[k].score
                == found[i].score && (found[i].entry.issue_number is None || forall|j: int|
                0 <= j < hot.len() ==> (#[trigger] hot[j]).issue_number
                    != found[i].entry.issue_number)
    } by {
        let p = order[k];
        assert(r[k] == all[p]);
        if p < hot.len() {
            assert(r[k].entry == hot[p]);
        } else {
            let q = at[p - hot.len()];
            assert(rest[p - hot.len()] == all[p]);
            assert(keep(found[q]));
            assert(r[k].entry == found[q].entry);
        }
    }
}

/// The block of an entry: its tier in brackets, its score, and its content on the next line.
pub proof fn law_block(e: EntryView, score: Seq<char>)
    ensures
        e.tier() == MemoryTier::Hot ==> block_text(e, score) == "[working] Score: "@ + score
            + "\n"@ + e.content,
        e.tier() == MemoryTier::Warm ==> block_text(e, score) == "[warm] Score: "@ + score + "\n"@
            + e.content,
        e.tier() == MemoryTier::Cold ==> block_text(e, score) == "[cold] Score: "@ + score + "\n"@
            + e.content,
{
    reveal_strlit("[");
    reveal_strlit("] Score: ");
    reveal_strlit("working");
    reveal_strlit("warm");
    reveal_strlit("cold");
    reveal_strlit("[working] Score: ");
    reveal_strlit("[warm] Score: ");
    reveal_strlit("[cold] Score: ");
    assert("["@ + "working"@ + "] Score: "@ =~= "[working] Score: "@);
    assert("["@ + "warm"@ + "] Score: "@ =~= "[warm] Score: "@);
    assert("["@ + "cold"@ + "] Score: "@ =~= "[cold] Score: "@);
}

/// There is one block for each entry, in the order of the entries, with the score written for
/// it.
pub proof fn law_blocks(v: Seq<ScoredView>, scores: Seq<Seq<char>>)
    ensures
        block_texts(v, scores).len() == v.len(),
        forall|i: int|
            0 <= i < v.len() ==> #[trigger] block_texts(v, scores)[i] == block_text(
                v[i].entry,
                scores[i],
            ),
{
}

/// Each entry's score is written as `show` writes that score.
pub proof fn law_shown<F: Fn(Score) -> String>(
    show: F,
    ranked: Seq<ScoredView>,
    scores: Seq<Seq<char>>,
    i: int,
)
    requires
        all_shown(show, ranked, scores),
        0 <= i < ranked.len(),
    ensures
        scores.len() == ranked.len(),
        exists|s: String|
            s@ == scores[i] && #[trigger] call_ensures(show, (ranked[i].score,), s),
{
    let s = choose|s: String| s@ == scores[i] && call_ensures(show, (ranked[i].score,), s);
    assert(s@ == scores[i] && call_ensures(show, (ranked[i].score,), s));
}

/// What a list of scored entries holds is what each of them holds.
pub proof fn law_scored_hold_each(v: Seq<Scored>)
    ensures
        scored_views(v).len() == v.len(),
        forall|i: int|
            0 <= i < v.len() ==> (#[trigger] scored_views(v)[i]).entry == v[i].entry@
                && scored_views(v)[i].score == v[i].score,
{
}

/// Four bytes make a token.
pub proof fn law_tokens(text: Seq<char>)
    ensures
        4 * tokens(text) <= encode_utf8(text).len() < 4 * tokens(text) + 4,
{
}

/// The context is empty where there are no blocks. Else it is a heading and as many of the
/// blocks, from the first on and with an empty line between two, as the budget of tokens
/// allows: one in any case, each further one only if the text with it is within the budget,
/// and all up to the first that is not.
pub proof fn law_context(blocks: Seq<Seq<char>>, budget: int)
    ensures
        blocks.len() == 0 ==> context_text(blocks, budget).len() == 0,
        blocks.len() > 0 ==> exists|n: int|
            {
                &&& 1 <= n <= blocks.len()
                &&& context_text(blocks, budget) == "## Memory Context\n\n"@ + #[trigger] join(
                    blocks.take(n),
                    "\n\n"@,
                )
                &&& n > 1 ==> encode_utf8(context_text(blocks, budget)).len() as int / 4 <= budget
                &&& n < blocks.len() ==> encode_utf8(
                    context_text(blocks, budget) + "\n\n"@ + blocks[n],
                ).len() as int / 4 > budget
            },
{
    if blocks.len() > 0 {
        let n = fitting(blocks, budget, 0);
        law_budget(blocks, budget);
        let text = context_text(blocks, budget);
        assert(text == "## Memory Context\n\n"@ + join(blocks.take(n), "\n\n"@));
        lemma_fitting_fits(blocks, budget, 0);
        if n < blocks.len() {
            lemma_bytes_append(text + "\n\n"@, blocks[n]);
            lemma_bytes_append(text, "\n\n"@);
            lemma_two_feeds();
            assert(context_bytes(blocks, n + 1) == context_bytes(blocks, n) + 2 + encode_utf8(
                blocks[n],
            ).len());
        }
    }
}

/// More than one block is taken only if all that is taken is within the budget.
proof fn lemma_fitting_fits(blocks: Seq<Seq<char>>, budget: int, n: int)
    requires
        0 <= n <= blocks.len(),
        n > 1 ==> context_bytes(blocks, n) / 4 <= budget,
    ensures
        ({
            let m = fitting(blocks, budget, n);
            m > 1 ==> context_bytes(blocks, m) / 4 <= budget
        }),
    decreases blocks.len() - n,
{
    if n < blocks.len() && !(n > 0 && context_bytes(blocks, n + 1) / 4 > budget) {
        lemma_fitting_fits(blocks, budget, n + 1);
    }
}

/// Two line feeds take two bytes.
proof fn lemma_two_feeds()
    ensures
        encode_utf8("\n\n"@).len() == 2,
{
    reveal_strlit("\n\n");
    is_ascii_chars_encode_utf8("\n\n"@);
}

/// The issues of the first five ranked entries count as accessed: the number of each of them
/// that has one, in their order.
pub proof fn law_accessed(v: Seq<ScoredView>)
    ensures
        selects(
            v.take(
                if v.len() <= 5 {
                    v.len() as int
                } else {
                    5
                },
            ),
            |s: ScoredView| s.entry.issue_number is Some,
            |s: ScoredView| s.entry.issue_number->0,
            accessed(v),
        ),
{
    assert(v.take(v.len() as int) =~= v);
    lemma_numbers(
        if v.len() <= 5 {
            v
        } else {
            v.take(5)
        },
    );
}

proof fn lemma_numbers(v: Seq<ScoredView>)
    ensures
        selects(
            v,
            |s: ScoredView| s.entry.issue_number is Some,
            |s: ScoredView| s.entry.issue_number->0,
            numbers(v),
        ),
    decreases v.len(),
{
    let keep = |s: ScoredView| s.entry.issue_number is Some;
    let made = |s: ScoredView| s.entry.issue_number->0;
    if v.len() == 0 {
        lemma_selects_none(v, keep, made);
    } else {
        lemma_numbers(v.drop_last());
        lemma_selects_one_more(v, keep, made, numbers(v.drop_last()));
    }
}

/// The event of an access names what happened and when.
pub proof fn law_access_event(timestamp: Seq<char>)
    ensures
        access_value(timestamp) is Object,
        access_value(timestamp)->Object_0.len() == 2,
        access_value(timestamp)->Object_0[0] == ("event"@, JsonView::Text("access"@)),
        access_value(timestamp)->Object_0[1] == ("timestamp"@, JsonView::Text(timestamp)),
{
}

/// Where remembering succeeds, content, type, user, importance, entities and tags of the new
/// entry are those that were given under these names, and all else is as in a new entry. It
/// succeeds exactly when the content is not empty and the importance lies between zero and
/// one.
pub proof fn law_remembered_as_told<F: Fn(Score) -> String>(
    show: F,
    content: Seq<char>,
    memory_type: MemoryType,
    user_id: Seq<char>,
    importance: Score,
    entities: Seq<Seq<char>>,
    tags: Seq<Seq<char>>,
    r: Result<MemoryEntry>,
)
    requires
        builds(
            show,
            remembered(content, memory_type, user_id, importance, entities, tags),
            r,
        ),
    ensures
        r is Ok <==> content.len() > 0 && (importance.bits <= 0x3f80_0000 || importance.bits
            == 0x8000_0000),
        r is Ok ==> {
            let e = r->Ok_0@;
            &&& e.content == content
            &&& e.memory_type == memory_type
            &&& e.user_id == Some(user_id)
            &&& e.importance == importance
            &&& e.entities == entities
            &&& e.tags == tags
            &&& e.issue_number is None
            &&& e.agent_id is None
            &&& e.session_id is None
            &&& e.confidence.bits == 0x3f4c_cccd
            &&& e.access_count == 0
            &&& e.last_accessed is None
            &&& e.structured_data == JsonView::Object(seq![])
            &&& e.supersedes.len() == 0
            &&& e.related_to.len() == 0
        },
        content.len() == 0 ==> r is Err && r->Err_0 is InvalidInput
            && r->Err_0->InvalidInput_0@ == "content must not be empty"@,
        content.len() > 0 && r is Err ==> r->Err_0 is InvalidInput && exists|shown: String|
            #[trigger]
            call_ensures(show, (importance,), shown) && r->Err_0->InvalidInput_0@
                == "importance must be in [0.0, 1.0], got "@ + shown@,
{
    if content.len() > 0 && r is Err {
        law_why_not_built(
            show,
            remembered(content, memory_type, user_id, importance, entities, tags),
            r,
        );
    }
}

/// A new working memory has the content and the user that were given, the greatest
/// importance, and all else as in a new entry.
pub proof fn law_new_working_as_told(content: Seq<char>, user_id: Seq<char>, e: EntryView)
    requires
        freshly_built(new_working(content, user_id), e),
    ensures
        e.content == content,
        e.memory_type == MemoryType::Working,
        e.user_id == Some(user_id),
        e.importance.bits == 0x3f80_0000,
        e.confidence.bits == 0x3f4c_cccd,
        e.issue_number is None,
        e.agent_id is None,
        e.session_id is None,
        e.access_count == 0,
        e.last_accessed is None,
        e.entities.len() == 0,
        e.tags.len() == 0,
        e.structured_data == JsonView::Object(seq![]),
        e.supersedes.len() == 0,
        e.related_to.len() == 0,
        e.created_at.held(),
{
}

/// The query of a recall: the words and the user that were given, up to twenty results of
/// every type and tier that are not archived.
pub proof fn law_recall_query(query: Seq<char>, user_id: Seq<char>)
    ensures
        recalling(query, user_id).query == query,
        recalling(query, user_id).user_id == Some(user_id),
        recalling(query, user_id).memory_types.len() == 0,
        recalling(query, user_id).tiers.len() == 0,
        !recalling(query, user_id).include_archived,
        recalling(query, user_id).limit == 20,
{
}

/// The query for working memories: those of the user, as many as asked for, without words.
pub proof fn law_working_query(user_id: Seq<char>, limit: usize)
    ensures
        working_query(user_id, limit).query.len() == 0,
        working_query(user_id, limit).user_id == Some(user_id),
        working_query(user_id, limit).memory_types == seq![MemoryType::Working],
        working_query(user_id, limit).tiers.len() == 0,
        !working_query(user_id, limit).include_archived,
        working_query(user_id, limit).limit == limit,
{
}

/// The hot tier that was kept is used for its own user, for less than five minutes.
pub proof fn law_hot_tier_lasts(m: MemoryManager, user_id: Seq<char>, now: u64)
    ensures
        m.known_hot(user_id, now) is Some <==> m.hot() is Some && m.hot()->0.user_id == user_id
            && now < m.hot()->0.at + 300_000_000_000,
        m.known_hot(user_id, now) is Some ==> m.known_hot(user_id, now)->0 == m.hot()->0.entries,
        m.hot_cache is None ==> m.hot() is None,
        m.hot_cache matches Some(kept) ==> m.hot() is Some && m.hot()->0.at == kept.at
            && m.hot()->0.user_id == kept.user_id@ && m.hot()->0.entries.len()
            == kept.entries@.len() && forall|i: int|
            0 <= i < kept.entries@.len() ==> #[trigger] m.hot()->0.entries[i]
                == kept.entries@[i]@,
{
}

/// What is meant by entries of one user, by a manager that keeps each user's memories apart,
/// and by the parts of a recall: what is known at the time, and else what was found for the
/// user.
pub proof fn law_parts_of_one_user(
    m: MemoryManager,
    query: Seq<char>,
    user_id: Seq<char>,
    now: u64,
    hot: Seq<EntryView>,
    found: Seq<ResultView>,
)
    ensures
        entries_of(user_id, hot) <==> forall|i: int|
            0 <= i < hot.len() ==> (#[trigger] hot[i]).user_id == Some(user_id),
        m.private() <==> m.search.private() && (m.hot() is Some ==> entries_of(
            m.hot()->0.user_id,
            m.hot()->0.entries,
        )),
        recall_parts(m, query, user_id, now, hot, found) <==> {
            &&& m.known_hot(user_id, now) is Some ==> hot == m.known_hot(user_id, now)->0
            &&& m.known_hot(user_id, now) is None ==> entries_of(user_id, hot)
            &&& m.search.answer(recalling(query, user_id), now) is Some ==> found
                == m.search.answer(recalling(query, user_id), now)->0
            &&& m.search.answer(recalling(query, user_id), now) is None ==> results_of(
                user_id,
                found,
            )
        },
{
}

/// Of the issues found, exactly those that are not yet known are new.
pub proof fn law_new_issues(v: Seq<ResultView>, known: Set<u64>, n: u64)
    ensures
        new_issues(v, known).contains(n) <==> !known.contains(n) && exists|i: int|
            0 <= i < v.len() && (#[trigger] v[i]).entry.issue_number == Some(n),
{
    law_each_cleared_once(v, known);
    if !known.contains(n) && exists|i: int|
        0 <= i < v.len() && (#[trigger] v[i]).entry.issue_number == Some(n) {
        let i = choose|i: int| 0 <= i < v.len() && (#[trigger] v[i]).entry.issue_number == Some(n);
        assert(v[i].entry.issue_number is Some);
    }
}

/// New issues stand in the order in which they were found first.
pub proof fn law_new_issues_in_order(v: Seq<ResultView>, known: Set<u64>, a: int, b: int)
    requires
        0 <= a < b < new_issues(v, known).len(),
    ensures
        exists|i: int|
            0 <= i < v.len() && (#[trigger] v[i]).entry.issue_number == Some(
                new_issues(v, known)[a],
            ) && forall|j: int|
                0 <= j <= i ==> (#[trigger] v[j]).entry.issue_number != Some(
                    new_issues(v, known)[b],
                ),
    decreases v.len(),
{
    let r = new_issues(v, known);
    let front = v.drop_last();
    let before = new_issues(front, known);
    law_each_cleared_once(front, known);
    if b < before.len() {
        law_new_issues_in_order(front, known, a, b);
        let i = choose|i: int|
            0 <= i < front.len() && (#[trigger] front[i]).entry.issue_number == Some(before[a])
                && forall|j: int|
                0 <= j <= i ==> (#[trigger] front[j]).entry.issue_number != Some(before[b]);
        assert(v[i] == front[i]);
        assert forall|j: int| 0 <= j <= i implies (#[trigger] v[j]).entry.issue_number != Some(
            r[b],
        ) by {
            assert(v[j] == front[j]);
        }
    } else {
        assert(before.contains(before[a]));
        let i = choose|i: int|
            0 <= i < front.len() && (#[trigger] front[i]).entry.issue_number == Some(before[a]);
        assert(v[i] == front[i]);
        assert(!before.contains(r[b]) && !known.contains(r[b]));
        assert forall|j: int| 0 <= j <= i implies (#[trigger] v[j]).entry.issue_number != Some(
            r[b],
        ) by {
            assert(v[j] == front[j]);
            if front[j].entry.issue_number == Some(r[b]) {
                assert(front[j].entry.issue_number is Some);
            }
        }
    }
}

/// Clearing goes on for the same user, knows every issue it knew and every issue that was
/// found, and is done exactly when nothing new was found.
pub proof fn law_clearing_goes_on(c: ClearView, v: Seq<ResultView>)
    ensures
        c.taken(v).user_id == c.user_id,
        forall|n: u64| #[trigger]
            c.taken(v).archived.contains(n) <==> c.archived.contains(n) || exists|i: int|
                0 <= i < v.len() && (#[trigger] v[i]).entry.issue_number == Some(n),
        c.taken(v).done <==> forall|i: int|
            0 <= i < v.len() && (#[trigger] v[i]).entry.issue_number is Some
                ==> c.archived.contains(v[i].entry.issue_number->0),
{
    let fresh = new_issues(v, c.archived);
    assert forall|n: u64| #[trigger]
        c.taken(v).archived.contains(n) <==> c.archived.contains(n) || exists|i: int|
            0 <= i < v.len() && (#[trigger] v[i]).entry.issue_number == Some(n) by {
        law_new_issues(v, c.archived, n);
        assert(fresh.to_set().contains(n) <==> fresh.contains(n));
    }
    if fresh.len() > 0 {
        assert(fresh.contains(fresh[0]));
        law_new_issues(v, c.archived, fresh[0]);
        let i = choose|i: int|
            0 <= i < v.len() && (#[trigger] v[i]).entry.issue_number == Some(fresh[0]);
        assert(v[i].entry.issue_number is Some);
    } else {
        assert forall|i: int|
            0 <= i < v.len() && (#[trigger] v[i]).entry.issue_number is Some implies
            c.archived.contains(v[i].entry.issue_number->0) by {
            let n = v[i].entry.issue_number->0;
            law_new_issues(v, c.archived, n);
            assert(!fresh.contains(n));
        }
    }
}

/// A session is opened as a milestone of the repository, titled by its identifier, with the
/// description that was given.
pub proof fn law_session_request(
    repo: Seq<char>,
    session_id: Seq<char>,
    description: Seq<char>,
)
    ensures
        session_ask(repo, session_id, description).method == Method::Post,
        session_ask(repo, session_id, description).url == "https://api.github.com/repos/"@ + repo
            + "/milestones"@,
        session_ask(repo, session_id, description).params.len() == 0,
        session_ask(repo, session_id, description).body == Some(
            JsonView::Object(
                seq![
                    ("title"@, JsonView::Text("sess_"@ + session_id)),
                    ("description"@, JsonView::Text(description)),
                ],
            ),
        ),
{
    law_addresses(repo, "/milestones"@, 0);
}

/// The open milestones of the repository are asked for, a hundred at most.
pub proof fn law_milestones_request(repo: Seq<char>)
    ensures
        milestones_ask(repo).method == Method::Get,
        milestones_ask(repo).url == "https://api.github.com/repos/"@ + repo + "/milestones"@,
        milestones_ask(repo).params == seq![("state"@, "open"@), ("per_page"@, "100"@)],
        milestones_ask(repo).body is None,
{
    law_addresses(repo, "/milestones"@, 0);
}

/// The milestone of that number is closed, and nothing else of it changes.
pub proof fn law_close_milestone_request(repo: Seq<char>, number: u64)
    ensures
        close_milestone_ask(repo, number).method == Method::Patch,
        close_milestone_ask(repo, number).url == "https://api.github.com/repos/"@ + repo
            + "/milestones/"@ + decimal(number as nat),
        close_milestone_ask(repo, number).params.len() == 0,
        close_milestone_ask(repo, number).body == Some(
            JsonView::Object(seq![("state"@, JsonView::Text("closed"@))]),
        ),
{
    law_addresses(repo, "/milestones/"@ + decimal(number as nat), 0);
    assert("https://api.github.com/repos/"@ + repo + ("/milestones/"@ + decimal(number as nat))
        =~= "https://api.github.com/repos/"@ + repo + "/milestones/"@ + decimal(number as nat));
}

/// The milestone that is closed is the first one with the title; where none has it, none is
/// closed.
pub proof fn law_milestone_found(items: Seq<JsonView>, title: Seq<char>)
    ensures
        forall|i: int|
            0 <= i < items.len() && (#[trigger] items[i]).text_field("title"@) == Some(title) && (
            forall|j: int|
                0 <= j < i ==> (#[trigger] items[j]).text_field("title"@) != Some(title))
                ==> milestone_number(items, title) == item_number(items[i]),
        (forall|j: int|
            0 <= j < items.len() ==> (#[trigger] items[j]).text_field("title"@) != Some(title))
            ==> milestone_number(items, title) is None,
    decreases items.len(),
{
    if items.len() > 0 {
        let rest = items.skip(1);
        law_milestone_found(rest, title);
        if items[0].text_field("title"@) != Some(title) {
            assert forall|i: int|
                0 <= i < items.len() && (#[trigger] items[i]).text_field("title"@) == Some(title)
                    && (forall|j: int|
                    0 <= j < i ==> (#[trigger] items[j]).text_field("title"@) != Some(
                        title,
                    )) implies milestone_number(items, title) == item_number(items[i]) by {
                assert(rest[i - 1] == items[i]);
                assert forall|j: int| 0 <= j < i - 1 implies (#[trigger] rest[j]).text_field(
                    "title"@,
                ) != Some(title) by {
                    assert(rest[j] == items[j + 1]);
                }
            }
            if forall|j: int|
                0 <= j < items.len() ==> (#[trigger] items[j]).text_field("title"@) != Some(title) {
                assert forall|j: int| 0 <= j < rest.len() implies (#[trigger] rest[j]).text_field(
                    "title"@,
                ) != Some(title) by {
                    assert(rest[j] == items[j + 1]);
                }
            }
        }
    }
}

/// A summary without a model counts the memories and starts like the first of them: with all
/// of it up to a hundred characters.
pub proof fn law_stub_summary(contents: Seq<Seq<char>>)
    ensures
        contents.len() == 0 ==> stub_summary(contents) == "Summary of "@ + decimal(0)
            + " memories: "@,
        contents.len() > 0 && contents[0].len() <= 100 ==> stub_summary(contents)
            == "Summary of "@ + decimal(contents.len()) + " memories: "@ + contents[0],
        contents.len() > 0 && contents[0].len() > 100 ==> stub_summary(contents) == "Summary of "@
            + decimal(contents.len()) + " memories: "@ + contents[0].take(100),
{
    if contents.len() == 0 {
        assert(stub_summary(contents) =~= "Summary of "@ + decimal(0) + " memories: "@);
    }
}

/// What the manager writes and for how long it keeps the hot tier.
pub proof fn law_manager_constants()
    ensures
        HOT_CACHE_TTL == 300_000_000_000,
        HOT_SCORE == 0x4000_0000,
        CLEARED@ == "Working memory cleared"@,
{
}

} // verus!
