//! Consolidation: from episodic noise to semantic signal.
//!
//! 1. **Cluster**: related episodic entries are grouped by hybrid search.
//! 2. **Consolidate**: each cluster is summarised into a new semantic entry.
//! 3. **Evict**: entries whose retention score falls below a threshold are archived, and
//!    so are cold ones that are too old.
//!
//! The searches, the summaries and the archiving are the caller's to carry out; what to
//! search for, which entries belong together and what becomes of them is decided here.

use std::collections::HashSet;

use vstd::hash_set::StringHashSet;
use vstd::prelude::*;
use vstd::std_specs::hash::group_hash_axioms;

use crate::error::Result;
use crate::labels::STATUS_SUPERSEDED;
use crate::laws::upkeep::law_joined;
use crate::models::{
    builds, entry_views, fresh_builder, whole_days, BuilderView, EntryView, MemoryEntry,
    MemoryEntryBuilder, MemoryTier, MemoryType, Timestamp,
};
use crate::score::{law_max_bounds, Score, NEG_INFINITY};
use crate::search::{result_views, QueryView, ResultView, SearchQuery, SearchResult};
use crate::text::{concat, decimal, first_chars, number_text, prefix, texts};

verus! {

// ---------------------------------------------------------------------------
// Configuration and statistics
// ---------------------------------------------------------------------------

/// The bit pattern of the retention score below which memories are archived: 0.15.
pub const DEFAULT_MIN_RETENTION: u32 = 0x3e19_999a;

/// The bit pattern of the search score from which entries are similar: 0.7.
pub const DEFAULT_SIMILARITY: u32 = 0x3f33_3333;

/// Configuration knobs for the consolidation pipeline.
#[derive(Debug, Clone, Copy, PartialEq, Eq, Structural)]
pub struct ConsolidationConfig {
    /// Trigger consolidation when the episodic count reaches this value.
    ///
    /// Default: `20`.
    pub episodic_threshold: usize,
    /// Archive memories whose retention score is below this value.
    ///
    /// Default: `0.15`.
    pub min_retention_score: Score,
    /// Archive cold memories that are older than this many days.
    ///
    /// Default: `90`.
    pub cold_archive_days: u32,
    /// Minimum search score required for an episodic entry to join a cluster.
    ///
    /// Default: `0.7`.
    pub cluster_similarity: Score,
}

/// The configuration unless told otherwise.
pub open spec fn default_config() -> ConsolidationConfig {
    ConsolidationConfig {
        episodic_threshold: 20,
        min_retention_score: Score { bits: DEFAULT_MIN_RETENTION },
        cold_archive_days: 90,
        cluster_similarity: Score { bits: DEFAULT_SIMILARITY },
    }
}

impl Default for ConsolidationConfig {
    fn default() -> (r: ConsolidationConfig)
        ensures
            r == default_config(),
    {
        ConsolidationConfig {
            episodic_threshold: 20,
            min_retention_score: Score::from_bits(DEFAULT_MIN_RETENTION),
            cold_archive_days: 90,
            cluster_similarity: Score::from_bits(DEFAULT_SIMILARITY),
        }
    }
}

/// Statistics returned by a consolidation run.
#[derive(Debug, Clone, Copy, PartialEq, Eq, Structural)]
pub struct ConsolidationStats {
    /// Number of episodic entries that were merged (and subsequently archived).
    pub consolidated: usize,
    /// Number of new semantic entries that were created from clusters.
    pub promoted: usize,
    /// Number of entries that were evicted (archived due to low retention score).
    pub evicted: usize,
}

impl Default for ConsolidationStats {
    fn default() -> (r: ConsolidationStats)
        ensures
            r == (ConsolidationStats { consolidated: 0, promoted: 0, evicted: 0 }),
    {
        ConsolidationStats { consolidated: 0, promoted: 0, evicted: 0 }
    }
}

/// Statistics returned by an eviction run.
#[derive(Debug, Clone, Copy, PartialEq, Eq, Structural)]
pub struct EvictionStats {
    /// Number of entries that were archived (0 in a dry run).
    pub evicted: usize,
    /// Total number of entries that were candidates for eviction.
    pub candidates: usize,
}

impl Default for EvictionStats {
    fn default() -> (r: EvictionStats)
        ensures
            r == (EvictionStats { evicted: 0, candidates: 0 }),
    {
        EvictionStats { evicted: 0, candidates: 0 }
    }
}

// ---------------------------------------------------------------------------
// Merging
// ---------------------------------------------------------------------------

/// The texts, each where it first stands.
pub open spec fn distinct(all: Seq<Seq<char>>) -> Seq<Seq<char>>
    decreases all.len(),
{
    if all.len() == 0 {
        seq![]
    } else {
        let before = distinct(all.drop_last());
        if before.contains(all.last()) {
            before
        } else {
            before.push(all.last())
        }
    }
}

/// The entities of all entries, one after the other.
pub open spec fn all_entities(cluster: Seq<EntryView>) -> Seq<Seq<char>>
    decreases cluster.len(),
{
    if cluster.len() == 0 {
        seq![]
    } else {
        all_entities(cluster.drop_last()) + cluster.last().entities
    }
}

/// Merged entities are listed once each, and they are exactly the entities of the entries.
pub proof fn law_distinct(all: Seq<Seq<char>>)
    ensures
        distinct(all).no_duplicates(),
        forall|t: Seq<char>| distinct(all).contains(t) <==> all.contains(t),
    decreases all.len(),
{
    if all.len() > 0 {
        let front = all.drop_last();
        let before = distinct(front);
        law_distinct(front);
        assert forall|t: Seq<char>| distinct(all).contains(t) <==> all.contains(t) by {
            if all.contains(t) {
                let i = choose|i: int| 0 <= i < all.len() && all[i] == t;
                if i < front.len() {
                    assert(front[i] == t);
                    assert(front.contains(t));
                    assert(before.contains(t));
                    let k = choose|k: int| 0 <= k < before.len() && before[k] == t;
                    assert(distinct(all)[k] == t);
                } else if before.contains(t) {
                    let k = choose|k: int| 0 <= k < before.len() && before[k] == t;
                    assert(distinct(all)[k] == t);
                } else {
                    assert(distinct(all)[before.len() as int] == t);
                }
            }
            if distinct(all).contains(t) {
                let k = choose|k: int| 0 <= k < distinct(all).len() && distinct(all)[k] == t;
                if k < before.len() {
                    assert(before[k] == t);
                    assert(before.contains(t));
                    assert(front.contains(t));
                    let i = choose|i: int| 0 <= i < front.len() && front[i] == t;
                    assert(all[i] == t);
                } else {
                    assert(all[all.len() - 1] == t);
                }
            }
        }
    }
}

proof fn lemma_distinct_append(a: Seq<Seq<char>>, t: Seq<char>)
    ensures
        distinct(a.push(t)) == if distinct(a).contains(t) {
            distinct(a)
        } else {
            distinct(a).push(t)
        },
{
    assert(a.push(t).drop_last() =~= a);
}

proof fn lemma_set_push(s: Seq<Seq<char>>, t: Seq<char>)
    ensures
        s.push(t).to_set() == s.to_set().insert(t),
{
    assert forall|x: Seq<char>| #[trigger]
        s.push(t).to_set().contains(x) <==> s.to_set().insert(t).contains(x) by {
        if s.contains(x) {
            let i = choose|i: int| 0 <= i < s.len() && s[i] == x;
            assert(s.push(t)[i] == x);
        }
        if x == t {
            assert(s.push(t)[s.len() as int] == x);
        }
        if s.push(t).contains(x) && x != t {
            let i = choose|i: int| 0 <= i < s.push(t).len() && s.push(t)[i] == x;
            assert(s[i] == x);
        }
    }
    assert(s.push(t).to_set() =~= s.to_set().insert(t));
}

/// Merges the entity lists of a cluster into one without repetitions, in first-seen order.
pub fn merge_entities(cluster: &Vec<MemoryEntry>) -> (r: Vec<String>)
    ensures
        texts(r@) == distinct(all_entities(entry_views(cluster@))),
{
    let ghost entries = entry_views(cluster@);
    let mut seen: StringHashSet = StringHashSet::new();
    let mut merged: Vec<String> = Vec::new();
    let mut i: usize = 0;
    assert(seen@ =~= texts(merged@).to_set());
    assert(texts(merged@) =~= distinct(all_entities(entries.take(0))));
    while i < cluster.len()
        invariant
            i <= cluster.len(),
            entries == entry_views(cluster@),
            seen@ == texts(merged@).to_set(),
            texts(merged@) == distinct(all_entities(entries.take(i as int))),
        decreases cluster.len() - i,
    {
        let entities: &Vec<String> = &cluster[i].entities;
        let ghost before = all_entities(entries.take(i as int));
        let ghost own = texts(entities@);
        let mut k: usize = 0;
        assert(before + own.take(0) =~= before);
        while k < entities.len()
            invariant
                k <= entities.len(),
                own == texts(entities@),
                seen@ == texts(merged@).to_set(),
                texts(merged@) == distinct(before + own.take(k as int)),
            decreases entities.len() - k,
        {
            let ghost now = before + own.take(k as int);
            let ghost was = merged@;
            proof {
                lemma_distinct_append(now, own[k as int]);
                assert(now.push(own[k as int]) =~= before + own.take(k + 1));
            }
            if seen.insert(entities[k].clone()) {
                merged.push(entities[k].clone());
                assert(texts(merged@) =~= texts(was).push(own[k as int]));
                assert(seen@ =~= texts(merged@).to_set()) by {
                    lemma_set_push(texts(was), own[k as int]);
                }
            } else {
                assert(seen@ =~= texts(was).to_set());
            }
            k += 1;
        }
        assert(own.take(k as int) =~= own);
        i += 1;
        proof {
            let upto = entries.take(i as int);
            assert(upto.drop_last() =~= entries.take(i - 1));
            assert(upto.last().entities == own);
        }
    }
    assert(entries.take(i as int) =~= entries);
    merged
}

/// The largest importance in the cluster.
pub open spec fn strongest(cluster: Seq<EntryView>) -> Score
    decreases cluster.len(),
{
    if cluster.len() == 0 {
        Score { bits: NEG_INFINITY }
    } else {
        strongest(cluster.drop_last()).max(cluster.last().importance)
    }
}

/// Where the importances are numbers from 0 to 1, so is the largest, and it is not smaller
/// than any.
pub proof fn law_strongest(cluster: Seq<EntryView>)
    requires
        cluster.len() > 0,
        forall|i: int| 0 <= i < cluster.len() ==> (#[trigger] cluster[i]).importance.unit(),
    ensures
        strongest(cluster).unit(),
        forall|i: int|
            0 <= i < cluster.len() ==> !strongest(cluster).lt((#[trigger] cluster[i]).importance),
    decreases cluster.len(),
{
    let front = cluster.drop_last();
    let last = cluster.last().importance;
    assert(last == cluster[cluster.len() - 1].importance);
    if front.len() > 0 {
        assert forall|i: int| 0 <= i < front.len() implies (
        #[trigger] front[i]).importance.unit() by {
            assert(front[i] == cluster[i]);
        }
        law_strongest(front);
        law_max_bounds(strongest(front), last);
        assert forall|i: int| 0 <= i < cluster.len() implies !strongest(cluster).lt(
            (#[trigger] cluster[i]).importance,
        ) by {
            if i < front.len() {
                assert(front[i] == cluster[i]);
            }
        }
    } else {
        assert(strongest(front) == Score { bits: NEG_INFINITY });
        assert(strongest(cluster) == last);
    }
}

/// The issue numbers of the entries, as far as they have one.
fn numbers_in(cluster: &Vec<MemoryEntry>) -> (r: Vec<u64>)
    ensures
        r@ == member_numbers(entry_views(cluster@)),
{
    let ghost entries = entry_views(cluster@);
    let mut r: Vec<u64> = Vec::new();
    let mut i: usize = 0;
    assert(r@ =~= member_numbers(entries.take(0)));
    while i < cluster.len()
        invariant
            i <= cluster.len(),
            entries == entry_views(cluster@),
            r@ == member_numbers(entries.take(i as int)),
        decreases cluster.len() - i,
    {
        assert(entries.take(i + 1).drop_last() =~= entries.take(i as int));
        assert(entries.take(i + 1).last() == cluster@[i as int]@);
        if let Some(n) = cluster[i].issue_number {
            r.push(n);
        }
        i += 1;
    }
    assert(entries.take(i as int) =~= entries);
    r
}

fn strongest_importance(cluster: &Vec<MemoryEntry>) -> (r: Score)
    ensures
        r == strongest(entry_views(cluster@)),
{
    let ghost entries = entry_views(cluster@);
    let mut best = Score::from_bits(NEG_INFINITY);
    let mut i: usize = 0;
    while i < cluster.len()
        invariant
            i <= cluster.len(),
            entries == entry_views(cluster@),
            best == strongest(entries.take(i as int)),
        decreases cluster.len() - i,
    {
        best = best.larger(cluster[i].importance);
        i += 1;
        assert(entries.take(i as int).drop_last() =~= entries.take(i - 1));
    }
    assert(entries.take(i as int) =~= entries);
    best
}

// ---------------------------------------------------------------------------
// Clustering
// ---------------------------------------------------------------------------

/// Of the similar entries, those that join a new cluster: similar enough, numbered, and not
/// assigned before. With them, what is assigned then.
pub open spec fn joining(
    similar: Seq<ResultView>,
    similarity: Score,
    assigned: Set<u64>,
) -> (Seq<EntryView>, Set<u64>)
    decreases similar.len(),
{
    if similar.len() == 0 {
        (seq![], assigned)
    } else {
        let (cluster, taken) = joining(similar.drop_last(), similarity, assigned);
        let s = similar.last();
        match s.entry.issue_number {
            Some(n) => if s.score.lt(similarity) || taken.contains(n) {
                (cluster, taken)
            } else {
                (cluster.push(s.entry), taken.insert(n))
            },
            None => (cluster, taken),
        }
    }
}

/// How far clustering has come.
#[verifier::ext_equal]
pub struct ClusterView {
    /// The results before this position have been anchors, or need not be.
    pub at: int,
    /// The issues that belong to a cluster, or stand alone.
    pub assigned: Set<u64>,
    /// The clusters so far.
    pub clusters: Seq<Seq<EntryView>>,
}

impl ClusterView {
    /// Nothing is clustered yet.
    pub open spec fn start() -> ClusterView {
        ClusterView { at: 0, assigned: Set::empty(), clusters: seq![] }
    }

    /// The similar entries are grouped; a group of one makes no cluster.
    pub open spec fn joined(self, similar: Seq<ResultView>, similarity: Score) -> ClusterView {
        let (cluster, taken) = joining(similar, similarity, self.assigned);
        ClusterView {
            at: self.at,
            assigned: taken,
            clusters: if cluster.len() >= 2 {
                self.clusters.push(cluster)
            } else {
                self.clusters
            },
        }
    }

    /// Every cluster has at least two members, all members are assigned, and none belongs
    /// to two clusters or stands in one twice.
    pub open spec fn sound(self) -> bool {
        &&& forall|c: int| 0 <= c < self.clusters.len() ==> (#[trigger] self.clusters[c]).len() >= 2
        &&& forall|c: int, i: int|
            0 <= c < self.clusters.len() && 0 <= i < self.clusters[c].len() ==> {
                &&& (#[trigger] self.clusters[c][i]).issue_number is Some
                &&& self.assigned.contains(self.clusters[c][i].issue_number->0)
            }
        &&& forall|c: int, i: int, d: int, j: int|
            0 <= c < self.clusters.len() && 0 <= i < self.clusters[c].len() && 0 <= d
                < self.clusters.len() && 0 <= j < self.clusters[d].len() && (c != d || i != j)
                ==> (#[trigger] self.clusters[c][i]).issue_number != (
            #[trigger] self.clusters[d][j]).issue_number
    }
}

/// The position of the next anchor: the first result from `at` on that has an issue number
/// and is not assigned.
pub open spec fn next_anchor(results: Seq<ResultView>, at: int, assigned: Set<u64>) -> Option<int>
    decreases results.len() - at,
{
    if at < 0 || at >= results.len() {
        None
    } else {
        match results[at].entry.issue_number {
            Some(n) => if assigned.contains(n) {
                next_anchor(results, at + 1, assigned)
            } else {
                Some(at)
            },
            None => next_anchor(results, at + 1, assigned),
        }
    }
}

/// Who joins a cluster was found similar enough, and was not assigned before; after that
/// exactly the members are assigned as well.
pub proof fn law_joining(similar: Seq<ResultView>, similarity: Score, assigned: Set<u64>)
    ensures
        ({
            let (cluster, taken) = joining(similar, similarity, assigned);
            &&& forall|i: int|
                0 <= i < cluster.len() ==> {
                    &&& (#[trigger] cluster[i]).issue_number is Some
                    &&& !assigned.contains(cluster[i].issue_number->0)
                    &&& exists|k: int|
                        0 <= k < similar.len() && cluster[i] == (#[trigger] similar[k]).entry
                            && !similar[k].score.lt(similarity)
                }
            &&& forall|i: int, j: int|
                0 <= i < j < cluster.len() ==> (#[trigger] cluster[i]).issue_number != (
                #[trigger] cluster[j]).issue_number
            &&& forall|n: u64|
                #[trigger] taken.contains(n) <==> assigned.contains(n) || exists|i: int|
                    0 <= i < cluster.len() && (#[trigger] cluster[i]).issue_number == Some(n)
        }),
    decreases similar.len(),
{
    if similar.len() > 0 {
        let front = similar.drop_last();
        law_joining(front, similarity, assigned);
        let (before, had) = joining(front, similarity, assigned);
        let (cluster, taken) = joining(similar, similarity, assigned);
        let s = similar.last();
        assert forall|i: int| 0 <= i < cluster.len() implies {
            &&& (#[trigger] cluster[i]).issue_number is Some
            &&& !assigned.contains(cluster[i].issue_number->0)
            &&& exists|k: int|
                0 <= k < similar.len() && cluster[i] == (#[trigger] similar[k]).entry
                    && !similar[k].score.lt(similarity)
        } by {
            if i < before.len() {
                assert(cluster[i] == before[i]);
                let k = choose|k: int|
                    0 <= k < front.len() && before[i] == (#[trigger] front[k]).entry
                        && !front[k].score.lt(similarity);
                assert(similar[k] == front[k]);
            } else {
                assert(similar[similar.len() - 1] == s);
                assert(!had.contains(s.entry.issue_number->0));
            }
        }
        assert forall|i: int, j: int| 0 <= i < j < cluster.len() implies (
        #[trigger] cluster[i]).issue_number != (#[trigger] cluster[j]).issue_number by {
            assert(cluster[i] == before[i]);
            if j < before.len() {
                assert(cluster[j] == before[j]);
            } else {
                assert(had.contains(before[i].issue_number->0));
            }
        }
        assert forall|n: u64| #[trigger]
            taken.contains(n) <==> assigned.contains(n) || exists|i: int|
                0 <= i < cluster.len() && (#[trigger] cluster[i]).issue_number == Some(n) by {
            if taken.contains(n) && !assigned.contains(n) {
                if had.contains(n) {
                    let i = choose|i: int|
                        0 <= i < before.len() && (#[trigger] before[i]).issue_number == Some(n);
                    assert(cluster[i] == before[i]);
                } else {
                    assert(cluster[before.len() as int].issue_number == Some(n));
                }
            }
            if exists|i: int|
                0 <= i < cluster.len() && (#[trigger] cluster[i]).issue_number == Some(n) {
                let i = choose|i: int|
                    0 <= i < cluster.len() && (#[trigger] cluster[i]).issue_number == Some(n);
                if i < before.len() {
                    assert(before[i] == cluster[i]);
                    assert(had.contains(n));
                }
            }
        }
    }
}

/// Clustering starts sound, and grouping similar entries keeps it so.
pub proof fn law_clusters_stay_sound(v: ClusterView, similar: Seq<ResultView>, similarity: Score)
    ensures
        ClusterView::start().sound(),
        v.sound() ==> v.joined(similar, similarity).sound(),
{
    if v.sound() {
        law_joining(similar, similarity, v.assigned);
        let (cluster, taken) = joining(similar, similarity, v.assigned);
        let w = v.joined(similar, similarity);
        let n = v.clusters.len() as int;
        assert forall|c: int, i: int|
            0 <= c < w.clusters.len() && 0 <= i < w.clusters[c].len() implies {
            &&& (#[trigger] w.clusters[c][i]).issue_number is Some
            &&& w.assigned.contains(w.clusters[c][i].issue_number->0)
        } by {
            if c < n {
                assert(w.clusters[c] == v.clusters[c]);
                assert(v.assigned.contains(v.clusters[c][i].issue_number->0));
            } else {
                assert(w.clusters[c] == cluster);
                assert(cluster[i].issue_number is Some);
            }
        }
        assert forall|c: int, i: int, d: int, j: int|
            0 <= c < w.clusters.len() && 0 <= i < w.clusters[c].len() && 0 <= d < w.clusters.len()
                && 0 <= j < w.clusters[d].len() && (c != d || i != j) implies (
        #[trigger] w.clusters[c][i]).issue_number != (
        #[trigger] w.clusters[d][j]).issue_number by {
            if c < n {
                assert(w.clusters[c] == v.clusters[c]);
                assert(v.assigned.contains(v.clusters[c][i].issue_number->0));
            } else {
                assert(w.clusters[c] == cluster);
                assert(!v.assigned.contains(cluster[i].issue_number->0));
            }
            if d < n {
                assert(w.clusters[d] == v.clusters[d]);
                assert(v.assigned.contains(v.clusters[d][j].issue_number->0));
            } else {
                assert(w.clusters[d] == cluster);
                assert(!v.assigned.contains(cluster[j].issue_number->0));
            }
        }
        assert forall|c: int| 0 <= c < w.clusters.len() implies (
        #[trigger] w.clusters[c]).len() >= 2 by {
            if c < n {
                assert(w.clusters[c] == v.clusters[c]);
            }
        }
    }
}

/// What the clusters hold.
pub open spec fn cluster_views(v: Seq<Vec<MemoryEntry>>) -> Seq<Seq<EntryView>> {
    Seq::new(v.len(), |i: int| entry_views(v[i]@))
}

/// The query for entries similar to an anchor.
pub open spec fn similar_query(user_id: Seq<char>, content: Seq<char>) -> QueryView {
    QueryView {
        query: prefix(content, 200),
        user_id: Some(user_id),
        memory_types: seq![MemoryType::Episodic],
        tiers: seq![],
        include_archived: false,
        limit: 50,
    }
}

/// Clustering in progress.
///
/// [`Clustering::next`] gives the next query; its results go to [`Clustering::join`]. When
/// there is no next query, [`Clustering::finish`] gives the clusters.
pub struct Clustering {
    user_id: String,
    similarity: Score,
    results: Vec<SearchResult>,
    at: usize,
    assigned: HashSet<u64>,
    clusters: Vec<Vec<MemoryEntry>>,
}

impl View for Clustering {
    type V = ClusterView;

    closed spec fn view(&self) -> ClusterView {
        ClusterView {
            at: self.at as int,
            assigned: self.assigned@,
            clusters: cluster_views(self.clusters@),
        }
    }
}

impl Clustering {
    /// The results that are clustered.
    pub closed spec fn episodics(self) -> Seq<ResultView> {
        result_views(self.results@)
    }

    /// The user whose entries are clustered.
    pub closed spec fn user(self) -> Seq<char> {
        self.user_id@
    }

    /// The score from which entries are similar.
    pub closed spec fn threshold(self) -> Score {
        self.similarity
    }

    /// Starts to cluster the results.
    pub fn new(user_id: &str, results: Vec<SearchResult>, similarity: Score) -> (r: Clustering)
        ensures
            r@ == ClusterView::start(),
            r@.sound(),
            r.episodics() == result_views(results@),
            r.user() == user_id@,
            r.threshold() == similarity,
    {
        broadcast use group_hash_axioms;
        let r = Clustering {
            user_id: user_id.to_owned(),
            similarity,
            results,
            at: 0,
            assigned: HashSet::new(),
            clusters: Vec::new(),
        };
        assert(r@ =~= ClusterView::start());
        r
    }

    /// The query for entries similar to the next anchor; none if no anchor is left.
    pub fn next(&mut self) -> (r: Option<SearchQuery>)
        ensures
            final(self).episodics() == old(self).episodics(),
            final(self).user() == old(self).user(),
            final(self).threshold() == old(self).threshold(),
            old(self)@.sound() ==> final(self)@.sound(),
            match next_anchor(old(self).episodics(), old(self)@.at, old(self)@.assigned) {
                Some(k) => r is Some && r->0@ == similar_query(
                    old(self).user(),
                    old(self).episodics()[k].entry.content,
                ) && final(self)@ == (ClusterView { at: k + 1, ..old(self)@ }),
                None => r is None && final(self)@.assigned == old(self)@.assigned
                    && final(self)@.clusters == old(self)@.clusters && next_anchor(
                    final(self).episodics(),
                    final(self)@.at,
                    final(self)@.assigned,
                ) is None,
            },
    {
        broadcast use group_hash_axioms;
        let ghost results = result_views(self.results@);
        while self.at < self.results.len()
            invariant
                results == result_views(self.results@),
                self.episodics() == old(self).episodics(),
                self.user() == old(self).user(),
                self.threshold() == old(self).threshold(),
                results == old(self).episodics(),
                self@.assigned == old(self)@.assigned,
                self@.clusters == old(self)@.clusters,
                next_anchor(results, old(self)@.at, old(self)@.assigned) == next_anchor(
                    results,
                    self@.at,
                    self@.assigned,
                ),
            decreases self.results.len() - self.at,
        {
            let at: usize = self.at;
            let entry = &self.results[at].entry;
            assert(results[at as int] == self.results@[at as int]@);
            let open: bool = match entry.issue_number {
                Some(n) => !self.assigned.contains(&n),
                None => false,
            };
            if open {
                let mut types: Vec<MemoryType> = Vec::new();
                types.push(MemoryType::Episodic);
                let query = SearchQuery {
                    query: first_chars(entry.content.as_str(), 200),
                    user_id: Some(self.user_id.clone()),
                    memory_types: types,
                    tiers: Vec::new(),
                    include_archived: false,
                    limit: 50,
                };
                assert(query@ =~= similar_query(
                    self.user(),
                    results[at as int].entry.content,
                ));
                self.at = at + 1;
                assert(self@ =~= (ClusterView { at: at + 1, ..old(self)@ }));
                return Some(query);
            }
            self.at = at + 1;
        }
        None
    }

    /// Groups the entries that were found similar to the anchor.
    pub fn join(&mut self, similar: &Vec<SearchResult>)
        ensures
            final(self)@ == old(self)@.joined(result_views(similar@), old(self).threshold()),
            forall|n: u64| #[trigger]
                final(self)@.assigned.contains(n) <==> old(self)@.assigned.contains(n) || exists|
                    k: int,
                |
                    0 <= k < similar@.len() && (#[trigger] similar@[k]).entry.issue_number == Some(
                        n,
                    ) && !similar@[k].score.lt(old(self).threshold()),
            old(self)@.sound() ==> final(self)@.sound(),
            final(self).episodics() == old(self).episodics(),
            final(self).user() == old(self).user(),
            final(self).threshold() == old(self).threshold(),
    {
        broadcast use group_hash_axioms;
        let ghost all = result_views(similar@);
        let mut cluster: Vec<MemoryEntry> = Vec::new();
        let mut i: usize = 0;
        assert(entry_views(cluster@) =~= seq![]);
        while i < similar.len()
            invariant
                i <= similar.len(),
                all == result_views(similar@),
                self.episodics() == old(self).episodics(),
                self.user() == old(self).user(),
                self.threshold() == old(self).threshold(),
                self@.at == old(self)@.at,
                self@.clusters == old(self)@.clusters,
                joining(all.take(i as int), self.threshold(), old(self)@.assigned) == (
                    entry_views(cluster@),
                    self@.assigned,
                ),
            decreases similar.len() - i,
        {
            let s = &similar[i];
            let ghost was = cluster@;
            assert(all.take(i + 1).drop_last() =~= all.take(i as int));
            assert(all.take(i + 1).last() == s@);
            if !s.score.less_than(&self.similarity) {
                if let Some(n) = s.entry.issue_number {
                    if !self.assigned.contains(&n) {
                        cluster.push(s.entry.clone());
                        self.assigned.insert(n);
                        assert(entry_views(cluster@) =~= entry_views(was).push(s@.entry));
                    }
                }
            }
            i += 1;
        }
        assert(all.take(i as int) =~= all);
        if cluster.len() >= 2 {
            let ghost before = self.clusters@;
            self.clusters.push(cluster);
            assert(cluster_views(self.clusters@) =~= cluster_views(before).push(
                entry_views(cluster@),
            ));
        }
        proof {
            law_clusters_stay_sound(old(self)@, all, old(self).threshold());
            law_joined(old(self)@, all, old(self).threshold());
            assert forall|n: u64| #[trigger]
                self@.assigned.contains(n) <==> old(self)@.assigned.contains(n) || exists|k: int|
                    0 <= k < similar@.len() && (#[trigger] similar@[k]).entry.issue_number == Some(
                        n,
                    ) && !similar@[k].score.lt(old(self).threshold()) by {
                assert(forall|k: int| 0 <= k < all.len() ==> #[trigger] all[k] == similar@[k]@);
                assert(forall|k: int| 0 <= k < all.len() ==> all[k] == (#[trigger] similar@[k])@);
            }
        }
    }

    /// The clusters.
    pub fn finish(self) -> (r: Vec<Vec<MemoryEntry>>)
        ensures
            cluster_views(r@) == self@.clusters,
    {
        self.clusters
    }
}

// ---------------------------------------------------------------------------
// The engine
// ---------------------------------------------------------------------------

/// What becomes of an entry that was merged into another.
#[derive(Debug)]
pub struct Retirement {
    /// The issue to archive.
    pub number: u64,
    /// The reason to archive it for.
    pub comment: String,
    /// The labels that it carries from then on.
    pub labels: Vec<String>,
}

/// What a [`Retirement`] holds.
#[verifier::ext_equal]
pub struct RetirementView {
    pub number: u64,
    pub comment: Seq<char>,
    pub labels: Seq<Seq<char>>,
}

impl View for Retirement {
    type V = RetirementView;

    open spec fn view(&self) -> RetirementView {
        RetirementView {
            number: self.number,
            comment: self.comment@,
            labels: texts(self.labels@),
        }
    }
}

/// What the retirements hold.
pub open spec fn retirement_views(v: Seq<Retirement>) -> Seq<RetirementView> {
    Seq::new(v.len(), |i: int| v[i]@)
}

/// The retirements of the members of a cluster that was merged into the issue `new_issue`.
pub open spec fn retirements(cluster: Seq<EntryView>, new_issue: u64) -> Seq<RetirementView>
    decreases cluster.len(),
{
    if cluster.len() == 0 {
        seq![]
    } else {
        let before = retirements(cluster.drop_last(), new_issue);
        match cluster.last().issue_number {
            Some(number) => before.push(
                RetirementView {
                    number,
                    comment: "Consolidated into #"@ + decimal(new_issue as nat),
                    labels: seq!["status:superseded"@],
                },
            ),
            None => before,
        }
    }
}

/// Where all members have an issue number, all are retired, in order.
pub proof fn law_all_retired(cluster: Seq<EntryView>, new_issue: u64)
    requires
        forall|i: int| 0 <= i < cluster.len() ==> (#[trigger] cluster[i]).issue_number is Some,
    ensures
        retirements(cluster, new_issue).len() == cluster.len(),
        forall|i: int|
            0 <= i < cluster.len() ==> Some((#[trigger] retirements(cluster, new_issue)[i]).number)
                == cluster[i].issue_number,
    decreases cluster.len(),
{
    if cluster.len() > 0 {
        let front = cluster.drop_last();
        assert(cluster.last() == cluster[cluster.len() - 1]);
        assert forall|i: int| 0 <= i < front.len() implies (
        #[trigger] front[i]).issue_number is Some by {
            assert(front[i] == cluster[i]);
        }
        law_all_retired(front, new_issue);
        assert forall|i: int| 0 <= i < cluster.len() implies Some(
            (#[trigger] retirements(cluster, new_issue)[i]).number,
        ) == cluster[i].issue_number by {
            if i < front.len() {
                assert(retirements(cluster, new_issue)[i] == retirements(front, new_issue)[i]);
                assert(front[i] == cluster[i]);
            }
        }
    }
}

/// The query for the episodic entries of a user.
pub open spec fn episodic_query(user_id: Seq<char>) -> QueryView {
    QueryView {
        query: "type:episodic user:"@ + user_id,
        user_id: Some(user_id),
        memory_types: seq![MemoryType::Episodic],
        tiers: seq![],
        include_archived: false,
        limit: 200,
    }
}

/// The query for all entries of a user.
pub open spec fn eviction_query(user_id: Seq<char>) -> QueryView {
    QueryView {
        query: "user:"@ + user_id,
        user_id: Some(user_id),
        memory_types: seq![],
        tiers: seq![],
        include_archived: false,
        limit: 500,
    }
}

/// The issue numbers of the entries, as far as they have one.
pub open spec fn member_numbers(cluster: Seq<EntryView>) -> Seq<u64>
    decreases cluster.len(),
{
    if cluster.len() == 0 {
        seq![]
    } else {
        let before = member_numbers(cluster.drop_last());
        match cluster.last().issue_number {
            Some(n) => before.push(n),
            None => before,
        }
    }
}

/// What is retired is what the new entry supersedes.
pub proof fn law_superseded_are_retired(cluster: Seq<EntryView>, new_issue: u64)
    ensures
        retirements(cluster, new_issue).len() == member_numbers(cluster).len(),
        forall|i: int|
            0 <= i < member_numbers(cluster).len() ==> (#[trigger] retirements(
                cluster,
                new_issue,
            )[i]).number == member_numbers(cluster)[i],
    decreases cluster.len(),
{
    if cluster.len() > 0 {
        law_superseded_are_retired(cluster.drop_last(), new_issue);
    }
}

/// What the entry is built from that a cluster is merged into: it is as important as the
/// most important member, has the entities of all, and supersedes them.
pub open spec fn promotion(
    user_id: Seq<char>,
    cluster: Seq<EntryView>,
    summary: Seq<char>,
) -> BuilderView {
    BuilderView {
        user_id: Some(user_id),
        importance: strongest(cluster),
        entities: distinct(all_entities(cluster)),
        supersedes: member_numbers(cluster),
        ..fresh_builder(summary, MemoryType::Semantic)
    }
}

/// An entry with this retention score is to be archived at `now`: it scores below the
/// threshold, or it is in the cold tier and too old.
pub open spec fn due(
    e: EntryView,
    score: Score,
    now: Timestamp,
    config: ConsolidationConfig,
) -> bool {
    score.lt(config.min_retention_score) || e.outdated(now, config.cold_archive_days)
}

/// The results that are to be archived at `now`, with their scores, as far as they have an
/// issue number.
pub open spec fn candidates(
    results: Seq<ResultView>,
    scores: Seq<Score>,
    now: Timestamp,
    config: ConsolidationConfig,
) -> Seq<(u64, Score)>
    decreases results.len(),
{
    if results.len() == 0 || scores.len() == 0 {
        seq![]
    } else {
        let before = candidates(results.drop_last(), scores.drop_last(), now, config);
        let last = results.last();
        match last.entry.issue_number {
            Some(n) => if due(last.entry, scores.last(), now, config) {
                before.push((n, scores.last()))
            } else {
                before
            },
            None => before,
        }
    }
}

/// `scores` are what `retention` gives for the results.
pub open spec fn all_retained<F: Fn(&MemoryEntry) -> Score>(
    retention: F,
    results: Seq<SearchResult>,
    scores: Seq<Score>,
) -> bool {
    &&& scores.len() == results.len()
    &&& forall|i: int|
        0 <= i < results.len() ==> call_ensures(
            retention,
            (&results[i].entry,),
            #[trigger] scores[i],
        )
}

/// Only what is due is a candidate, and nothing that is due and has an issue number is
/// spared: neither what scores below the threshold, nor what is cold and too old.
pub proof fn law_candidates(
    results: Seq<ResultView>,
    scores: Seq<Score>,
    now: Timestamp,
    config: ConsolidationConfig,
)
    requires
        results.len() == scores.len(),
    ensures
        forall|k: int|
            0 <= k < candidates(results, scores, now, config).len() ==> exists|i: int|
                0 <= i < results.len() && due(
                    (#[trigger] results[i]).entry,
                    scores[i],
                    now,
                    config,
                ) && (#[trigger] candidates(results, scores, now, config)[k]) == (
                    results[i].entry.issue_number->0,
                    scores[i],
                ) && results[i].entry.issue_number is Some,
        forall|i: int|
            0 <= i < results.len() && (#[trigger] results[i]).entry.issue_number is Some && due(
                results[i].entry,
                scores[i],
                now,
                config,
            ) ==> candidates(results, scores, now, config).contains(
                (results[i].entry.issue_number->0, scores[i]),
            ),
    decreases results.len(),
{
    if results.len() > 0 {
        let front = results.drop_last();
        let back = scores.drop_last();
        law_candidates(front, back, now, config);
        let before = candidates(front, back, now, config);
        let all = candidates(results, scores, now, config);
        assert forall|k: int| 0 <= k < all.len() implies exists|i: int|
            0 <= i < results.len() && due((#[trigger] results[i]).entry, scores[i], now, config)
                && (#[trigger] all[k]) == (results[i].entry.issue_number->0, scores[i])
                && results[i].entry.issue_number is Some by {
            if k < before.len() {
                assert(all[k] == before[k]);
                let i = choose|i: int|
                    0 <= i < front.len() && due((#[trigger] front[i]).entry, back[i], now, config)
                        && before[k] == (front[i].entry.issue_number->0, back[i])
                        && front[i].entry.issue_number is Some;
                assert(results[i] == front[i]);
                assert(scores[i] == back[i]);
            } else {
                assert(results[results.len() - 1] == results.last());
            }
        }
        assert forall|i: int|
            0 <= i < results.len() && (#[trigger] results[i]).entry.issue_number is Some && due(
                results[i].entry,
                scores[i],
                now,
                config,
            ) implies all.contains((results[i].entry.issue_number->0, scores[i])) by {
            let c = (results[i].entry.issue_number->0, scores[i]);
            if i < front.len() {
                assert(front[i] == results[i]);
                assert(back[i] == scores[i]);
                let k = choose|k: int| 0 <= k < before.len() && before[k] == c;
                assert(all[k] == c);
            } else {
                assert(all[before.len() as int] == c);
            }
        }
    }
}

/// What is counted when all clusters have been merged: the members, and the clusters.
pub open spec fn tally(clusters: Seq<Seq<EntryView>>) -> (int, int)
    decreases clusters.len(),
{
    if clusters.len() == 0 {
        (0, 0)
    } else {
        let before = tally(clusters.drop_last());
        (before.0 + clusters.last().len(), before.1 + 1)
    }
}

/// Every new semantic entry stands for at least two episodic ones.
pub proof fn law_tally(v: ClusterView)
    requires
        v.sound(),
    ensures
        tally(v.clusters).1 == v.clusters.len(),
        tally(v.clusters).0 >= 2 * tally(v.clusters).1,
    decreases v.clusters.len(),
{
    if v.clusters.len() > 0 {
        let less = ClusterView { clusters: v.clusters.drop_last(), ..v };
        assert(less.sound()) by {
            assert forall|c: int| 0 <= c < less.clusters.len() implies (
            #[trigger] less.clusters[c]).len() >= 2 by {
                assert(less.clusters[c] == v.clusters[c]);
            }
            assert forall|c: int, i: int|
                0 <= c < less.clusters.len() && 0 <= i < less.clusters[c].len() implies {
                &&& (#[trigger] less.clusters[c][i]).issue_number is Some
                &&& less.assigned.contains(less.clusters[c][i].issue_number->0)
            } by {
                assert(less.clusters[c][i] == v.clusters[c][i]);
            }
            assert forall|c: int, i: int, d: int, j: int|
                0 <= c < less.clusters.len() && 0 <= i < less.clusters[c].len() && 0 <= d
                    < less.clusters.len() && 0 <= j < less.clusters[d].len() && (c != d || i
                    != j) implies (#[trigger] less.clusters[c][i]).issue_number != (
            #[trigger] less.clusters[d][j]).issue_number by {
                assert(less.clusters[c][i] == v.clusters[c][i]);
                assert(less.clusters[d][j] == v.clusters[d][j]);
            }
        }
        law_tally(less);
        assert(v.clusters.last() == v.clusters[v.clusters.len() - 1]);
    }
}

/// The first clusters hold no more members than all.
proof fn lemma_tally_part(clusters: Seq<Seq<EntryView>>, n: int)
    requires
        0 <= n <= clusters.len(),
    ensures
        0 <= tally(clusters.take(n)).0 <= tally(clusters).0,
        tally(clusters.take(n)).1 == n,
        n < clusters.len() ==> tally(clusters.take(n + 1)).0 == tally(clusters.take(n)).0
            + clusters[n].len(),
    decreases clusters.len(),
{
    if n < clusters.len() {
        let front = clusters.drop_last();
        lemma_tally_part(front, n);
        assert(front.take(n) =~= clusters.take(n));
        assert(clusters.take(n + 1).drop_last() =~= clusters.take(n));
    } else {
        assert(clusters.take(n) =~= clusters);
        if n > 0 {
            lemma_tally_part(clusters.drop_last(), n - 1);
            assert(clusters.drop_last().take(n - 1) =~= clusters.drop_last());
        }
    }
}

/// How far merging the clusters has come.
#[verifier::ext_equal]
pub struct FlushView {
    /// Whose entries they are.
    pub user_id: Seq<char>,
    /// The clusters.
    pub clusters: Seq<Seq<EntryView>>,
    /// How many of them are merged.
    pub at: int,
}

impl FlushView {
    /// No more clusters are merged than there are, and their members can be counted.
    pub open spec fn sound(self) -> bool {
        0 <= self.at <= self.clusters.len() && tally(self.clusters).0 <= usize::MAX
    }

    /// What is counted so far.
    pub open spec fn counted(self) -> (int, int) {
        tally(self.clusters.take(self.at))
    }
}

/// The merging of clusters in progress.
///
/// For each cluster whose contents [`Flushing::contents`] gives, their summary goes to
/// [`Flushing::promote`]. Once the entry that this gives is created, it goes to
/// [`Flushing::retire`], and what that gives is archived.
#[derive(Debug)]
pub struct Flushing {
    user_id: String,
    clusters: Vec<Vec<MemoryEntry>>,
    at: usize,
    stats: ConsolidationStats,
}

impl View for Flushing {
    type V = FlushView;

    closed spec fn view(&self) -> FlushView {
        FlushView {
            user_id: self.user_id@,
            clusters: cluster_views(self.clusters@),
            at: self.at as int,
        }
    }
}

impl Flushing {
    /// The counts are those of the clusters merged so far.
    pub closed spec fn counts(self) -> bool {
        &&& self.stats.consolidated == self@.counted().0
        &&& self.stats.promoted == self@.counted().1
        &&& self.stats.evicted == 0
    }

    /// The contents of the next cluster, which are to be summarised; none if all clusters
    /// are merged.
    pub fn contents(&self) -> (r: Option<Vec<String>>)
        requires
            self@.sound(),
        ensures
            match r {
                Some(v) => self@.at < self@.clusters.len() && texts(v@) == Seq::new(
                    self@.clusters[self@.at].len(),
                    |i: int| self@.clusters[self@.at][i].content,
                ),
                None => self@.at == self@.clusters.len(),
            },
    {
        if self.at < self.clusters.len() {
            let r = ConsolidationEngine::contents(&self.clusters[self.at]);
            assert(self@.clusters[self@.at] == entry_views(self.clusters@[self.at as int]@));
            assert(texts(r@) =~= Seq::new(
                self@.clusters[self@.at].len(),
                |i: int| self@.clusters[self@.at][i].content,
            ));
            Some(r)
        } else {
            None
        }
    }

    /// The semantic entry that the next cluster is merged into. Where a number is out of
    /// range, the error tells it as `show` writes it.
    pub fn promote<F: Fn(Score) -> String>(&self, summary: &str, show: F) -> (r: Result<
        MemoryEntry,
    >)
        requires
            self@.sound(),
            self@.at < self@.clusters.len(),
            forall|s: Score| call_requires(show, (s,)),
        ensures
            builds(
                show,
                promotion(self@.user_id, self@.clusters[self@.at], summary@),
                r,
            ),
    {
        ConsolidationEngine::promote(
            self.user_id.as_str(),
            &self.clusters[self.at],
            summary,
            show,
        )
    }

    /// What becomes of the members of the next cluster once the entry that it was merged
    /// into has been created. With that the cluster is merged.
    pub fn retire(&mut self, created: &MemoryEntry) -> (r: Vec<Retirement>)
        requires
            old(self)@.sound(),
            old(self).counts(),
            old(self)@.at < old(self)@.clusters.len(),
        ensures
            retirement_views(r@) == retirements(
                old(self)@.clusters[old(self)@.at],
                match created@.issue_number {
                    Some(n) => n,
                    None => 0,
                },
            ),
            final(self)@ == (FlushView { at: old(self)@.at + 1, ..old(self)@ }),
            final(self)@.sound(),
            final(self).counts(),
    {
        proof {
            lemma_tally_part(self@.clusters, self@.at);
            lemma_tally_part(self@.clusters, self@.at + 1);
            assert(self@.clusters[self@.at] == entry_views(self.clusters@[self.at as int]@));
        }
        assert(self.stats.promoted == self.at && self.at < self.clusters.len());
        let cluster: &Vec<MemoryEntry> = &self.clusters[self.at];
        let members: usize = cluster.len();
        let r = ConsolidationEngine::retire(cluster, created);
        self.stats.consolidated = self.stats.consolidated + members;
        self.stats.promoted = self.stats.promoted + 1;
        self.at = self.at + 1;
        r
    }

    /// What was merged: the members of the clusters, and the clusters.
    pub fn finish(self) -> (r: ConsolidationStats)
        requires
            self.counts(),
        ensures
            r.consolidated == self@.counted().0,
            r.promoted == self@.counted().1,
            r.evicted == 0,
    {
        self.stats
    }
}

/// What an eviction comes to.
#[derive(Debug)]
pub struct EvictionPlan {
    /// The issues to archive, with their retention scores.
    pub archive: Vec<(u64, Score)>,
    /// The statistics, once they are archived.
    pub stats: EvictionStats,
}

/// Drives the end-of-session consolidation and periodic eviction pipelines.
#[derive(Debug)]
pub struct ConsolidationEngine {
    /// The configuration.
    pub config: ConsolidationConfig,
}

impl ConsolidationEngine {
    /// Creates a new engine.
    pub fn new(config: ConsolidationConfig) -> (r: ConsolidationEngine)
        ensures
            r.config == config,
    {
        ConsolidationEngine { config }
    }

    /// The query with which the consolidation of a user's memories starts.
    ///
    /// 1. All open episodic entries of the user are fetched (lexical search page by page,
    ///    limit 200).
    /// 2. Its results go to [`ConsolidationEngine::build_clusters`].
    /// 3. The clusters are merged ([`ConsolidationEngine::flush_clusters`]).
    pub fn consolidate(&self, user_id: &str) -> (r: SearchQuery)
        ensures
            r@ == episodic_query(user_id@),
    {
        let mut types: Vec<MemoryType> = Vec::new();
        types.push(MemoryType::Episodic);
        let r = SearchQuery {
            query: concat("type:episodic user:", user_id),
            user_id: Some(user_id.to_owned()),
            memory_types: types,
            tiers: Vec::new(),
            include_archived: false,
            limit: 200,
        };
        assert(r@ =~= episodic_query(user_id@));
        r
    }

    /// Starts to group the episodic entries; nothing is to be done if there are fewer than
    /// the threshold.
    pub fn build_clusters(&self, user_id: &str, episodics: Vec<SearchResult>) -> (r: Option<
        Clustering,
    >)
        ensures
            if episodics@.len() < self.config.episodic_threshold {
                r is None
            } else {
                r is Some && r->0@ == ClusterView::start() && r->0.episodics() == result_views(
                    episodics@,
                ) && r->0.user() == user_id@ && r->0.threshold() == self.config.cluster_similarity
            },
    {
        if episodics.len() < self.config.episodic_threshold {
            None
        } else {
            Some(Clustering::new(user_id, episodics, self.config.cluster_similarity))
        }
    }

    /// Starts to merge the clusters.
    pub fn flush_clusters(user_id: &str, clusters: Vec<Vec<MemoryEntry>>) -> (r: Flushing)
        requires
            tally(cluster_views(clusters@)).0 <= usize::MAX,
        ensures
            r@ == (FlushView {
                user_id: user_id@,
                clusters: cluster_views(clusters@),
                at: 0,
            }),
            r@.sound(),
            r.counts(),
    {
        proof {
            lemma_tally_part(cluster_views(clusters@), 0);
            assert(cluster_views(clusters@).take(0) =~= seq![]);
        }
        Flushing {
            user_id: user_id.to_owned(),
            clusters,
            at: 0,
            stats: ConsolidationStats::default(),
        }
    }

    /// The contents of a cluster, which are to be summarised.
    pub fn contents(cluster: &Vec<MemoryEntry>) -> (r: Vec<String>)
        ensures
            texts(r@) == Seq::new(cluster@.len(), |i: int| cluster@[i]@.content),
    {
        let mut r: Vec<String> = Vec::new();
        let mut i: usize = 0;
        while i < cluster.len()
            invariant
                i <= cluster.len(),
                r.len() == i,
                forall|j: int| 0 <= j < i ==> (#[trigger] r@[j])@ == cluster@[j]@.content,
            decreases cluster.len() - i,
        {
            r.push(cluster[i].content.clone());
            i += 1;
        }
        assert(texts(r@) =~= Seq::new(cluster@.len(), |i: int| cluster@[i]@.content));
        r
    }

    /// The builder of the semantic entry that a cluster is merged into.
    pub fn promotion(user_id: &str, cluster: &Vec<MemoryEntry>, summary: &str) -> (r:
        MemoryEntryBuilder)
        ensures
            r@ == promotion(user_id@, entry_views(cluster@), summary@),
    {
        MemoryEntry::builder(summary, MemoryType::Semantic).user_id(user_id).importance(
            strongest_importance(cluster),
        ).entities(merge_entities(cluster)).supersedes(numbers_in(cluster))
    }

    /// The semantic entry that a cluster is merged into. Where a number is out of range, the
    /// error tells it as `show` writes it.
    pub fn promote<F: Fn(Score) -> String>(
        user_id: &str,
        cluster: &Vec<MemoryEntry>,
        summary: &str,
        show: F,
    ) -> (r: Result<MemoryEntry>)
        requires
            forall|s: Score| call_requires(show, (s,)),
        ensures
            builds(show, promotion(user_id@, entry_views(cluster@), summary@), r),
    {
        Self::promotion(user_id, cluster, summary).build(show)
    }

    /// What becomes of the members of a cluster once the entry that it was merged into has
    /// been created.
    pub fn retire(cluster: &Vec<MemoryEntry>, created: &MemoryEntry) -> (r: Vec<Retirement>)
        ensures
            retirement_views(r@) == retirements(
                entry_views(cluster@),
                match created@.issue_number {
                    Some(n) => n,
                    None => 0,
                },
            ),
    {
        let new_issue: u64 = match created.issue_number {
            Some(n) => n,
            None => 0,
        };
        let ghost entries = entry_views(cluster@);
        let mut r: Vec<Retirement> = Vec::new();
        let mut i: usize = 0;
        assert(retirement_views(r@) =~= retirements(entries.take(0), new_issue));
        while i < cluster.len()
            invariant
                i <= cluster.len(),
                entries == entry_views(cluster@),
                retirement_views(r@) == retirements(entries.take(i as int), new_issue),
            decreases cluster.len() - i,
        {
            let ghost before = r@;
            assert(entries.take(i + 1).drop_last() =~= entries.take(i as int));
            assert(entries.take(i + 1).last() == cluster@[i as int]@);
            if let Some(number) = cluster[i].issue_number {
                let mut labels: Vec<String> = Vec::new();
                labels.push(STATUS_SUPERSEDED.to_owned());
                let comment = concat("Consolidated into #", number_text(new_issue).as_str());
                let retirement = Retirement { number, comment, labels };
                assert(texts(labels@) =~= seq!["status:superseded"@]);
                r.push(retirement);
                assert(retirement_views(r@) =~= retirement_views(before).push(retirement@));
            }
            i += 1;
        }
        assert(entries.take(i as int) =~= entries);
        r
    }

    /// The query with which eviction starts: all open entries of the user.
    pub fn eviction_query(&self, user_id: &str) -> (r: SearchQuery)
        ensures
            r@ == eviction_query(user_id@),
    {
        let r = SearchQuery {
            query: concat("user:", user_id),
            user_id: Some(user_id.to_owned()),
            memory_types: Vec::new(),
            tiers: Vec::new(),
            include_archived: false,
            limit: 500,
        };
        assert(r@ =~= eviction_query(user_id@));
        r
    }

    /// Which of the entries are archived: those whose retention score is below the
    /// configured threshold, and those in the cold tier that are older at `now` than the
    /// configured number of days.
    ///
    /// In a dry run the candidates are counted, but nothing is archived.
    pub fn evict<F: Fn(&MemoryEntry) -> Score>(
        &self,
        results: &Vec<SearchResult>,
        retention: F,
        now: Timestamp,
        dry_run: bool,
    ) -> (r: EvictionPlan)
        requires
            forall|e: MemoryEntry| call_requires(retention, (&e,)),
        ensures
            exists|scores: Seq<Score>| #[trigger]
                all_retained(retention, results@, scores) && ({
                    let found = candidates(result_views(results@), scores, now, self.config);
                    &&& r.stats.candidates == found.len()
                    &&& r.stats.evicted == if dry_run {
                        0
                    } else {
                        found.len()
                    }
                    &&& r.archive@ == if dry_run {
                        seq![]
                    } else {
                        found
                    }
                }),
            forall|k: int|
                0 <= k < r.archive@.len() ==> exists|i: int|
                    {
                        let (number, score) = #[trigger] r.archive@[k];
                        let e = (#[trigger] results@[i]).entry;
                        &&& 0 <= i < results@.len()
                        &&& e.issue_number == Some(number)
                        &&& call_ensures(retention, (&e,), score)
                        &&& score.lt(self.config.min_retention_score) || (e@.tier()
                            == MemoryTier::Cold && now.held() && e.created_at.held() && whole_days(
                            now,
                            e.created_at,
                        ) > self.config.cold_archive_days)
                    },
    {
        let ghost all = result_views(results@);
        let ghost mut scores: Seq<Score> = seq![];
        let min = self.config.min_retention_score;
        let days: u32 = self.config.cold_archive_days;
        let mut found: Vec<(u64, Score)> = Vec::new();
        let mut i: usize = 0;
        while i < results.len()
            invariant
                i <= results.len(),
                all == result_views(results@),
                scores.len() == i,
                forall|e: MemoryEntry| call_requires(retention, (&e,)),
                forall|j: int|
                    0 <= j < i ==> call_ensures(
                        retention,
                        (&results@[j].entry,),
                        #[trigger] scores[j],
                    ),
                min == self.config.min_retention_score,
                days == self.config.cold_archive_days,
                found@ == candidates(all.take(i as int), scores, now, self.config),
            decreases results.len() - i,
        {
            let score = retention(&results[i].entry);
            proof {
                assert(scores.push(score).drop_last() =~= scores);
                assert(all.take(i + 1).drop_last() =~= all.take(i as int));
                assert(all.take(i + 1).last() == results@[i as int]@);
                scores = scores.push(score);
            }
            if score.less_than(&min) || results[i].entry.is_outdated(now, days) {
                if let Some(n) = results[i].entry.issue_number {
                    found.push((n, score));
                }
            }
            i += 1;
        }
        assert(all.take(i as int) =~= all);
        assert(all_retained(retention, results@, scores));
        proof {
            law_candidates(all, scores, now, self.config);
            assert forall|k: int| 0 <= k < found@.len() implies exists|i: int|
                {
                    let (number, score) = #[trigger] found@[k];
                    let e = (#[trigger] results@[i]).entry;
                    &&& 0 <= i < results@.len()
                    &&& e.issue_number == Some(number)
                    &&& call_ensures(retention, (&e,), score)
                    &&& score.lt(self.config.min_retention_score) || (e@.tier() == MemoryTier::Cold
                        && now.held() && e.created_at.held() && whole_days(now, e.created_at)
                        > self.config.cold_archive_days)
                } by {
                let i = choose|i: int|
                    0 <= i < all.len() && due(
                        (#[trigger] all[i]).entry,
                        scores[i],
                        now,
                        self.config,
                    ) && found@[k] == (all[i].entry.issue_number->0, scores[i])
                        && all[i].entry.issue_number is Some;
                assert(all[i] == results@[i]@);
                assert(call_ensures(retention, (&results@[i].entry,), scores[i]));
            }
        }
        let count: usize = found.len();
        if dry_run {
            EvictionPlan {
                archive: Vec::new(),
                stats: EvictionStats { evicted: 0, candidates: count },
            }
        } else {
            EvictionPlan {
                archive: found,
                stats: EvictionStats { evicted: count, candidates: count },
            }
        }
    }

    /// The reason for which an entry is evicted, given its score as a text.
    pub fn eviction_reason(score: &str) -> (r: String)
        ensures
            r@ == "Evicted: score="@ + score@,
    {
        concat("Evicted: score=", score)
    }
}

} // verus!
