//! Laws of consolidation and eviction.

use vstd::prelude::*;

use crate::consolidation::{
    all_entities, all_retained, candidates, cluster_views, default_config, distinct,
    episodic_query, eviction_query, joining, law_distinct, member_numbers,
    next_anchor, promotion, retirement_views, retirements, similar_query, strongest, tally,
    ClusterView, ConsolidationConfig, FlushView, Retirement, RetirementView,
};
use crate::error::Result;
use crate::json::JsonView;
use crate::laws::{
    lemma_selects_none, lemma_selects_one_more, lemma_selects_one_more_place, places, selects,
    selects_at,
};
use crate::models::{
    builds, whole_days, EntryView, MemoryEntry, MemoryType, Timestamp,
};
use crate::score::Score;
use crate::search::{ResultView, SearchResult};
use crate::text::decimal;

verus! {

/// The configuration with which consolidation starts: twenty episodic memories, a retention of
/// 0.15, ninety days, a similarity of 0.7.
pub proof fn law_default_config()
    ensures
        default_config().episodic_threshold == 20,
        default_config().min_retention_score.bits == 0x3e19_999a,
        default_config().cold_archive_days == 90,
        default_config().cluster_similarity.bits == 0x3f33_3333,
{
}

/// After joining, exactly the numbers are assigned that were assigned before or are those of
/// similar memories whose score is not below the similarity.
pub proof fn law_assigned_by_joining(
    similar: Seq<ResultView>,
    similarity: Score,
    assigned: Set<u64>,
    n: u64,
)
    ensures
        joining(similar, similarity, assigned).1.contains(n) <==> assigned.contains(n) || exists|
            k: int,
        |
            0 <= k < similar.len() && (#[trigger] similar[k]).entry.issue_number == Some(n)
                && !similar[k].score.lt(similarity),
    decreases similar.len(),
{
    if similar.len() > 0 {
        let front = similar.drop_last();
        law_assigned_by_joining(front, similarity, assigned, n);
        let last = similar[similar.len() - 1];
        if exists|k: int|
            0 <= k < front.len() && (#[trigger] front[k]).entry.issue_number == Some(n)
                && !front[k].score.lt(similarity) {
            let k = choose|k: int|
                0 <= k < front.len() && (#[trigger] front[k]).entry.issue_number == Some(n)
                    && !front[k].score.lt(similarity);
            assert(similar[k] == front[k]);
        }
        if exists|k: int|
            0 <= k < similar.len() && (#[trigger] similar[k]).entry.issue_number == Some(n)
                && !similar[k].score.lt(similarity) {
            let k = choose|k: int|
                0 <= k < similar.len() && (#[trigger] similar[k]).entry.issue_number == Some(n)
                    && !similar[k].score.lt(similarity);
            if k < front.len() {
                assert(similar[k] == front[k]);
            }
        }
    }
}

/// Every number that joining assigns is that of a member of the new cluster.
pub proof fn law_newly_assigned_are_members(
    similar: Seq<ResultView>,
    similarity: Score,
    assigned: Set<u64>,
    n: u64,
)
    requires
        joining(similar, similarity, assigned).1.contains(n),
        !assigned.contains(n),
    ensures
        exists|i: int|
            0 <= i < joining(similar, similarity, assigned).0.len() && (
            #[trigger] joining(similar, similarity, assigned).0[i]).issue_number == Some(n),
    decreases similar.len(),
{
    if similar.len() > 0 {
        let front = similar.drop_last();
        let (before, taken) = joining(front, similarity, assigned);
        let cluster = joining(similar, similarity, assigned).0;
        if taken.contains(n) {
            law_newly_assigned_are_members(front, similarity, assigned, n);
            let i = choose|i: int|
                0 <= i < before.len() && (#[trigger] before[i]).issue_number == Some(n);
            assert(cluster[i] == before[i]);
        } else {
            assert(cluster[cluster.len() - 1].issue_number == Some(n));
        }
    }
}

/// After joining, every similar memory that has a number and whose score is not below the
/// similarity is assigned; where it was not assigned before, a member of the new cluster has
/// its number.
pub proof fn law_joining_is_complete(
    similar: Seq<ResultView>,
    similarity: Score,
    assigned: Set<u64>,
    k: int,
)
    requires
        0 <= k < similar.len(),
        similar[k].entry.issue_number is Some,
        !similar[k].score.lt(similarity),
    ensures
        joining(similar, similarity, assigned).1.contains(similar[k].entry.issue_number->0),
        !assigned.contains(similar[k].entry.issue_number->0) ==> exists|i: int|
            0 <= i < joining(similar, similarity, assigned).0.len() && (
            #[trigger] joining(similar, similarity, assigned).0[i]).issue_number
                == similar[k].entry.issue_number,
{
    let n = similar[k].entry.issue_number->0;
    law_assigned_by_joining(similar, similarity, assigned, n);
    if !assigned.contains(n) {
        law_newly_assigned_are_members(similar, similarity, assigned, n);
    }
}

/// A cluster is made of the similar memories in their order: of each that has a number that
/// is not assigned yet, whose score is not below the similarity, and which is the first such
/// with its number. There is no limit to how many they are.
pub proof fn law_cluster_members(
    similar: Seq<ResultView>,
    similarity: Score,
    assigned: Set<u64>,
)
    ensures
        selects(
            places(similar.len()),
            |k: int|
                {
                    &&& similar[k].entry.issue_number is Some
                    &&& !assigned.contains(similar[k].entry.issue_number->0)
                    &&& !similar[k].score.lt(similarity)
                    &&& forall|j: int|
                        0 <= j < k ==> (#[trigger] similar[j]).entry.issue_number
                            != similar[k].entry.issue_number || similar[j].score.lt(similarity)
                },
            |k: int| similar[k].entry,
            joining(similar, similarity, assigned).0,
        ),
    decreases similar.len(),
{
    let keep = |k: int|
        {
            &&& similar[k].entry.issue_number is Some
            &&& !assigned.contains(similar[k].entry.issue_number->0)
            &&& !similar[k].score.lt(similarity)
            &&& forall|j: int|
                0 <= j < k ==> (#[trigger] similar[j]).entry.issue_number
                    != similar[k].entry.issue_number || similar[j].score.lt(similarity)
        };
    let made = |k: int| similar[k].entry;
    if similar.len() == 0 {
        lemma_selects_none(places(0), keep, made);
    } else {
        let front = similar.drop_last();
        let n = front.len();
        let keep_before = |k: int|
            {
                &&& front[k].entry.issue_number is Some
                &&& !assigned.contains(front[k].entry.issue_number->0)
                &&& !front[k].score.lt(similarity)
                &&& forall|j: int|
                    0 <= j < k ==> (#[trigger] front[j]).entry.issue_number
                        != front[k].entry.issue_number || front[j].score.lt(similarity)
            };
        let made_before = |k: int| front[k].entry;
        law_cluster_members(front, similarity, assigned);
        assert forall|k: int| 0 <= k < n implies #[trigger] keep_before(k) == keep(k) by {
            assert(forall|j: int| 0 <= j <= k ==> front[j] == #[trigger] similar[j]);
            assert(forall|j: int| 0 <= j <= k ==> #[trigger] front[j] == similar[j]);
        }
        let (cluster, taken) = joining(front, similarity, assigned);
        let s = similar.last();
        if s.entry.issue_number is Some && !s.score.lt(similarity) {
            let number = s.entry.issue_number->0;
            law_assigned_by_joining(front, similarity, assigned, number);
            if taken.contains(number) && !assigned.contains(number) {
                let j = choose|j: int|
                    0 <= j < front.len() && (#[trigger] front[j]).entry.issue_number == Some(number)
                        && !front[j].score.lt(similarity);
                assert(similar[j] == front[j]);
                assert(!keep(n as int));
            } else if !taken.contains(number) {
                assert forall|j: int| 0 <= j < n implies (#[trigger] similar[j]).entry.issue_number
                    != s.entry.issue_number || similar[j].score.lt(similarity) by {
                    assert(similar[j] == front[j]);
                }
                assert(keep(n as int));
            }
        }
        lemma_selects_one_more_place(n, keep_before, made_before, keep, made, cluster);
    }
}

/// What joining does to the state: the members become a new cluster if they are two or more,
/// and count as assigned in any case. Clusters that were there stay as they are.
pub proof fn law_joined(v: ClusterView, similar: Seq<ResultView>, similarity: Score)
    ensures
        v.joined(similar, similarity).at == v.at,
        joining(similar, similarity, v.assigned).0.len() >= 2 ==> v.joined(
            similar,
            similarity,
        ).clusters == v.clusters.push(joining(similar, similarity, v.assigned).0),
        joining(similar, similarity, v.assigned).0.len() < 2 ==> v.joined(
            similar,
            similarity,
        ).clusters == v.clusters,
        forall|n: u64| #[trigger]
            v.joined(similar, similarity).assigned.contains(n) <==> v.assigned.contains(n)
                || exists|k: int|
                0 <= k < similar.len() && (#[trigger] similar[k]).entry.issue_number == Some(n)
                    && !similar[k].score.lt(similarity),
        ClusterView::start().at == 0,
        ClusterView::start().clusters.len() == 0,
        forall|n: u64| !(#[trigger] ClusterView::start().assigned.contains(n)),
{
    assert forall|n: u64| #[trigger]
        v.joined(similar, similarity).assigned.contains(n) <==> v.assigned.contains(n) || exists|
            k: int,
        |
            0 <= k < similar.len() && (#[trigger] similar[k]).entry.issue_number == Some(n)
                && !similar[k].score.lt(similarity) by {
        law_assigned_by_joining(similar, similarity, v.assigned, n);
    }
}

/// In a sound state every cluster has two members or more, every member has a number that is
/// assigned, and no two members have the same.
pub proof fn law_clusters_are_apart(v: ClusterView, c: int, i: int, d: int, j: int)
    requires
        v.sound(),
        0 <= c < v.clusters.len(),
        0 <= i < v.clusters[c].len(),
        0 <= d < v.clusters.len(),
        0 <= j < v.clusters[d].len(),
        c != d || i != j,
    ensures
        v.clusters[c].len() >= 2,
        v.clusters[c][i].issue_number is Some,
        v.assigned.contains(v.clusters[c][i].issue_number->0),
        v.clusters[c][i].issue_number != v.clusters[d][j].issue_number,
{
}

/// The next anchor is the first memory, from a position on, that has a number that is not
/// assigned. There is none exactly when no memory from there on has such a number.
pub proof fn law_next_anchor(results: Seq<ResultView>, at: int, assigned: Set<u64>)
    requires
        0 <= at,
    ensures
        next_anchor(results, at, assigned) matches Some(k) ==> {
            &&& at <= k < results.len()
            &&& results[k].entry.issue_number is Some
            &&& !assigned.contains(results[k].entry.issue_number->0)
            &&& forall|j: int|
                at <= j < k && (#[trigger] results[j]).entry.issue_number is Some
                    ==> assigned.contains(results[j].entry.issue_number->0)
        },
        next_anchor(results, at, assigned) is None ==> forall|j: int|
            at <= j < results.len() && (#[trigger] results[j]).entry.issue_number is Some
                ==> assigned.contains(results[j].entry.issue_number->0),
    decreases results.len() - at,
{
    if at < results.len() {
        law_next_anchor(results, at + 1, assigned);
    }
}

/// What lists of clusters and of retirements hold is what each of them holds.
pub proof fn law_clusters_hold_each(v: Seq<Vec<MemoryEntry>>, r: Seq<Retirement>)
    ensures
        cluster_views(v).len() == v.len(),
        forall|i: int|
            0 <= i < v.len() ==> (#[trigger] cluster_views(v)[i]).len() == v[i]@.len() && forall|
                j: int,
            |
                0 <= j < v[i]@.len() ==> #[trigger] cluster_views(v)[i][j] == v[i]@[j]@,
        retirement_views(r).len() == r.len(),
        forall|i: int|
            0 <= i < r.len() ==> {
                &&& (#[trigger] retirement_views(r)[i]).number == r[i].number
                &&& retirement_views(r)[i].comment == r[i].comment@
                &&& retirement_views(r)[i].labels.len() == r[i].labels@.len()
                &&& forall|j: int|
                    0 <= j < r[i].labels@.len() ==> #[trigger] retirement_views(r)[i].labels[j]
                        == r[i].labels@[j]@
            },
{
}

/// Similar memories are searched for with the first two hundred characters of the content,
/// among the episodic memories of the user, fifty at most.
pub proof fn law_similar_query(user_id: Seq<char>, content: Seq<char>)
    ensures
        content.len() <= 200 ==> similar_query(user_id, content).query == content,
        content.len() > 200 ==> similar_query(user_id, content).query == content.take(200),
        similar_query(user_id, content).user_id == Some(user_id),
        similar_query(user_id, content).memory_types == seq![MemoryType::Episodic],
        similar_query(user_id, content).tiers.len() == 0,
        !similar_query(user_id, content).include_archived,
        similar_query(user_id, content).limit == 50,
{
}

/// Consolidation looks at up to two hundred episodic memories of the user, eviction at up to
/// five hundred memories of every type.
pub proof fn law_upkeep_queries(user_id: Seq<char>)
    ensures
        episodic_query(user_id).query == "type:episodic user:"@ + user_id,
        episodic_query(user_id).user_id == Some(user_id),
        episodic_query(user_id).memory_types == seq![MemoryType::Episodic],
        episodic_query(user_id).tiers.len() == 0,
        !episodic_query(user_id).include_archived,
        episodic_query(user_id).limit == 200,
        eviction_query(user_id).query == "user:"@ + user_id,
        eviction_query(user_id).user_id == Some(user_id),
        eviction_query(user_id).memory_types.len() == 0,
        eviction_query(user_id).tiers.len() == 0,
        !eviction_query(user_id).include_archived,
        eviction_query(user_id).limit == 500,
{
}

/// Every member of a cluster that has a number is retired, in order: with a comment that
/// names the memory into which it was consolidated, and labelled as superseded.
pub proof fn law_retirements(cluster: Seq<EntryView>, new_issue: u64)
    ensures
        selects(
            cluster,
            |e: EntryView| e.issue_number is Some,
            |e: EntryView|
                RetirementView {
                    number: e.issue_number->0,
                    comment: "Consolidated into #"@ + decimal(new_issue as nat),
                    labels: seq!["status:superseded"@],
                },
            retirements(cluster, new_issue),
        ),
    decreases cluster.len(),
{
    let keep = |e: EntryView| e.issue_number is Some;
    let made = |e: EntryView|
        RetirementView {
            number: e.issue_number->0,
            comment: "Consolidated into #"@ + decimal(new_issue as nat),
            labels: seq!["status:superseded"@],
        };
    if cluster.len() == 0 {
        lemma_selects_none(cluster, keep, made);
    } else {
        law_retirements(cluster.drop_last(), new_issue);
        lemma_selects_one_more(cluster, keep, made, retirements(cluster.drop_last(), new_issue));
    }
}

/// The numbers of a cluster are those of its members that have one, in their order.
pub proof fn law_member_numbers(cluster: Seq<EntryView>)
    ensures
        selects(
            cluster,
            |e: EntryView| e.issue_number is Some,
            |e: EntryView| e.issue_number->0,
            member_numbers(cluster),
        ),
    decreases cluster.len(),
{
    let keep = |e: EntryView| e.issue_number is Some;
    let made = |e: EntryView| e.issue_number->0;
    if cluster.len() == 0 {
        lemma_selects_none(cluster, keep, made);
    } else {
        law_member_numbers(cluster.drop_last());
        lemma_selects_one_more(cluster, keep, made, member_numbers(cluster.drop_last()));
    }
}

/// The entities of a cluster are those of its first members and then those of the others,
/// wherever it is parted; of a single member, they are its own.
pub proof fn law_entities_of_all(a: Seq<EntryView>, b: Seq<EntryView>, e: EntryView)
    ensures
        all_entities(a + b) == all_entities(a) + all_entities(b),
        all_entities(seq![e]) == e.entities,
        all_entities(Seq::<EntryView>::empty()).len() == 0,
    decreases b.len(),
{
    assert(seq![e].drop_last() =~= Seq::<EntryView>::empty());
    assert(all_entities(seq![e].drop_last()) =~= seq![]);
    assert(all_entities(seq![e]) =~= e.entities);
    if b.len() == 0 {
        assert(a + b =~= a);
        assert(all_entities(a) + all_entities(b) =~= all_entities(a));
    } else {
        law_entities_of_all(a, b.drop_last(), e);
        assert((a + b).drop_last() =~= a + b.drop_last());
        assert(all_entities(a + b) =~= all_entities(a) + all_entities(b));
    }
}

/// Distinct texts stand in the order in which each came first.
pub proof fn law_distinct_in_order(all: Seq<Seq<char>>, a: int, b: int)
    requires
        0 <= a < b < distinct(all).len(),
    ensures
        exists|i: int|
            0 <= i < all.len() && #[trigger] all[i] == distinct(all)[a] && forall|j: int|
                0 <= j <= i ==> #[trigger] all[j] != distinct(all)[b],
    decreases all.len(),
{
    let r = distinct(all);
    let front = all.drop_last();
    let before = distinct(front);
    law_distinct(front);
    if b < before.len() {
        law_distinct_in_order(front, a, b);
        let i = choose|i: int|
            0 <= i < front.len() && #[trigger] front[i] == before[a] && forall|j: int|
                0 <= j <= i ==> #[trigger] front[j] != before[b];
        assert(all[i] == r[a]);
        assert forall|j: int| 0 <= j <= i implies #[trigger] all[j] != r[b] by {
            assert(front[j] == all[j]);
        }
    } else {
        assert(before.contains(before[a]));
        assert(front.contains(before[a]));
        let i = choose|i: int| 0 <= i < front.len() && front[i] == before[a];
        assert(all[i] == r[a]);
        assert(!before.contains(r[b]));
        assert(!front.contains(r[b]));
        assert forall|j: int| 0 <= j <= i implies #[trigger] all[j] != r[b] by {
            assert(front[j] == all[j]);
        }
    }
}

/// The strongest importance of a cluster is below none of its importances, and it is one of
/// them unless none of them is a number above minus infinity.
pub proof fn law_strongest_of_any(cluster: Seq<EntryView>)
    ensures
        !strongest(cluster).nan(),
        forall|i: int|
            0 <= i < cluster.len() ==> !strongest(cluster).lt((#[trigger] cluster[i]).importance),
        strongest(cluster).bits == 0xff80_0000 || exists|i: int|
            0 <= i < cluster.len() && strongest(cluster) == (#[trigger] cluster[i]).importance,
    decreases cluster.len(),
{
    if cluster.len() > 0 {
        let front = cluster.drop_last();
        law_strongest_of_any(front);
        let s = strongest(cluster);
        assert forall|i: int| 0 <= i < cluster.len() implies !s.lt(
            (#[trigger] cluster[i]).importance,
        ) by {
            if i < front.len() {
                assert(front[i] == cluster[i]);
            }
        }
        if s == strongest(front) && s.bits != 0xff80_0000 {
            let i = choose|i: int|
                0 <= i < front.len() && strongest(front) == (#[trigger] front[i]).importance;
            assert(cluster[i] == front[i]);
        } else if s.bits != 0xff80_0000 {
            assert(s == cluster[cluster.len() - 1].importance);
        }
    }
}

/// Where a promotion succeeds, the new memory is semantic, has the summary as its content and
/// the user that was given, is as important as the strongest member, has the entities of all
/// members, each once, and supersedes the members. All else is as in a new entry.
pub proof fn law_promoted<F: Fn(Score) -> String>(
    show: F,
    user_id: Seq<char>,
    cluster: Seq<EntryView>,
    summary: Seq<char>,
    r: Result<MemoryEntry>,
)
    requires
        builds(show, promotion(user_id, cluster, summary), r),
    ensures
        r is Ok <==> summary.len() > 0 && strongest(cluster).unit(),
        r is Ok ==> {
            let e = r->Ok_0@;
            &&& e.content == summary
            &&& e.memory_type == MemoryType::Semantic
            &&& e.user_id == Some(user_id)
            &&& e.importance == strongest(cluster)
            &&& e.entities == distinct(all_entities(cluster))
            &&& e.supersedes == member_numbers(cluster)
            &&& e.issue_number is None
            &&& e.agent_id is None
            &&& e.session_id is None
            &&& e.confidence.bits == 0x3f4c_cccd
            &&& e.access_count == 0
            &&& e.last_accessed is None
            &&& e.tags.len() == 0
            &&& e.structured_data == JsonView::Object(seq![])
            &&& e.related_to.len() == 0
        },
{
}

/// Clusters are tallied one by one: how many members they have together, and how many
/// clusters they are.
pub proof fn law_tally_adds_up(
    a: Seq<Seq<EntryView>>,
    b: Seq<Seq<EntryView>>,
    c: Seq<EntryView>,
)
    ensures
        tally(a + b).0 == tally(a).0 + tally(b).0,
        tally(a + b).1 == tally(a).1 + tally(b).1,
        tally(seq![c]).0 == c.len(),
        tally(a).1 == a.len(),
        tally(Seq::<Seq<EntryView>>::empty()).0 == 0,
    decreases b.len(), a.len(),
{
    assert(seq![c].drop_last() =~= Seq::<Seq<EntryView>>::empty());
    assert(tally(seq![c].drop_last()).0 == 0);
    assert(seq![c].last() == c);
    if b.len() > 0 {
        law_tally_adds_up(a, b.drop_last(), c);
        assert((a + b).drop_last() =~= a + b.drop_last());
    } else {
        assert(a + b =~= a);
        if a.len() > 0 {
            law_tally_adds_up(a.drop_last(), b, c);
        }
    }
}

/// What was flushed so far is counted, and nothing else.
pub proof fn law_flushed_are_counted(v: FlushView)
    requires
        0 <= v.at <= v.clusters.len(),
    ensures
        v.counted() == tally(v.clusters.take(v.at)),
        v.counted().1 == v.at,
{
    law_tally_adds_up(v.clusters.take(v.at), seq![], seq![]);
}

/// Each retention score is the one that `retention` gives for the memory at its place.
pub proof fn law_retained<F: Fn(&MemoryEntry) -> Score>(
    retention: F,
    results: Seq<SearchResult>,
    scores: Seq<Score>,
)
    ensures
        all_retained(retention, results, scores) <==> scores.len() == results.len() && forall|
            i: int,
        |
            0 <= i < results.len() ==> call_ensures(
                retention,
                (&results[i].entry,),
                #[trigger] scores[i],
            ),
{
}

/// The memories to be archived are, in their order, those with a number whose retention score
/// is below the least that is kept, or that are episodic or procedural, were accessed at most
/// five times and are older, in whole days, than cold memories may get. Each is told with its
/// score.
pub proof fn law_who_is_evicted(
    results: Seq<ResultView>,
    scores: Seq<Score>,
    now: Timestamp,
    config: ConsolidationConfig,
)
    requires
        results.len() == scores.len(),
    ensures
        selects(
            places(results.len()),
            |i: int|
                results[i].entry.issue_number is Some && (scores[i].lt(config.min_retention_score)
                    || ((results[i].entry.memory_type == MemoryType::Episodic
                    || results[i].entry.memory_type == MemoryType::Procedural)
                    && results[i].entry.access_count <= 5 && now.held()
                    && results[i].entry.created_at.held() && whole_days(
                    now,
                    results[i].entry.created_at,
                ) > config.cold_archive_days)),
            |i: int| (results[i].entry.issue_number->0, scores[i]),
            candidates(results, scores, now, config),
        ),
    decreases results.len(),
{
    let keep = |i: int|
        results[i].entry.issue_number is Some && (scores[i].lt(config.min_retention_score) || ((
        results[i].entry.memory_type == MemoryType::Episodic || results[i].entry.memory_type
            == MemoryType::Procedural) && results[i].entry.access_count <= 5 && now.held()
            && results[i].entry.created_at.held() && whole_days(now, results[i].entry.created_at)
            > config.cold_archive_days));
    let made = |i: int| (results[i].entry.issue_number->0, scores[i]);
    if results.len() == 0 {
        lemma_selects_none(places(0), keep, made);
    } else {
        let r = results.drop_last();
        let s = scores.drop_last();
        let keep_before = |i: int|
            r[i].entry.issue_number is Some && (s[i].lt(config.min_retention_score) || ((
            r[i].entry.memory_type == MemoryType::Episodic || r[i].entry.memory_type
                == MemoryType::Procedural) && r[i].entry.access_count <= 5 && now.held()
                && r[i].entry.created_at.held() && whole_days(now, r[i].entry.created_at)
                > config.cold_archive_days));
        let made_before = |i: int| (r[i].entry.issue_number->0, s[i]);
        law_who_is_evicted(r, s, now, config);
        lemma_selects_one_more_place(
            r.len(),
            keep_before,
            made_before,
            keep,
            made,
            candidates(r, s, now, config),
        );
    }
}

/// A memory whose retention score is not below the least that is kept, and which is not cold
/// or not too old, is never archived, as long as no other memory goes by its number.
pub proof fn law_others_are_kept(
    results: Seq<ResultView>,
    scores: Seq<Score>,
    now: Timestamp,
    config: ConsolidationConfig,
    i: int,
)
    requires
        results.len() == scores.len(),
        0 <= i < results.len(),
        results[i].entry.issue_number is Some,
        !scores[i].lt(config.min_retention_score),
        results[i].entry.tier() != crate::models::MemoryTier::Cold || whole_days(
            now,
            results[i].entry.created_at,
        ) <= config.cold_archive_days,
        forall|j: int|
            0 <= j < results.len() && j != i ==> (#[trigger] results[j]).entry.issue_number
                != results[i].entry.issue_number,
    ensures
        forall|k: int|
            0 <= k < candidates(results, scores, now, config).len() ==> (#[trigger] candidates(
                results,
                scores,
                now,
                config,
            )[k]).0 != results[i].entry.issue_number->0,
{
    law_who_is_evicted(results, scores, now, config);
    let keep = |i: int|
        results[i].entry.issue_number is Some && (scores[i].lt(config.min_retention_score) || ((
        results[i].entry.memory_type == MemoryType::Episodic || results[i].entry.memory_type
            == MemoryType::Procedural) && results[i].entry.access_count <= 5 && now.held()
            && results[i].entry.created_at.held() && whole_days(now, results[i].entry.created_at)
            > config.cold_archive_days));
    let made = |i: int| (results[i].entry.issue_number->0, scores[i]);
    let found = candidates(results, scores, now, config);
    let at = choose|at: Seq<int>| #[trigger]
        selects_at(places(results.len()), keep, made, found, at);
    assert forall|k: int| 0 <= k < found.len() implies (#[trigger] found[k]).0
        != results[i].entry.issue_number->0 by {
        let p = at[k];
        assert(places(results.len())[p] == p);
        assert(keep(p));
        assert(found[k] == made(p));
        assert(!keep(i));
        assert(results[p].entry.issue_number != results[i].entry.issue_number);
    }
}

} // verus!
