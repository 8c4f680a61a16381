use memory_store::consolidation::{merge_entities, ConsolidationEngine};
use memory_store::manager::default_summary;
use memory_store::models::{MemoryEntry, MemoryTier, MemoryType, Timestamp};
use memory_store::score::Score;
use memory_store::search::SearchResult;
use memory_store::store::testutil::MockMemoryStore;
use memory_store::{ConsolidationConfig, ConsolidationStats, Result};

fn score(x: f32) -> Score {
    Score::from_bits(x.to_bits())
}

fn show(s: Score) -> String {
    f32::from_bits(s.bits).to_string()
}

fn make_entry(issue_number: u64, memory_type: MemoryType, importance: f32) -> MemoryEntry {
    let content = format!("memory content for issue {issue_number}");
    let mut entry = MemoryEntry::builder(&content, memory_type)
        .user_id("alice")
        .importance(score(importance))
        .confidence(score(0.9))
        .entities(vec![format!("entity{issue_number}")])
        .build(show)
        .unwrap();
    entry.issue_number = Some(issue_number);
    entry
}

fn make_search_result(entry: MemoryEntry, x: f32) -> SearchResult {
    SearchResult { entry, score: score(x), gh_score: score(x) }
}

/// Runs a consolidation on a store in memory; every hybrid search finds `hybrid`.
fn consolidate(
    store: &mut MockMemoryStore,
    config: ConsolidationConfig,
    episodics: Vec<SearchResult>,
    hybrid: &Vec<SearchResult>,
) -> Result<ConsolidationStats> {
    let engine = ConsolidationEngine::new(config);
    let mut clustering = match engine.build_clusters("alice", episodics) {
        None => return Ok(ConsolidationStats::default()),
        Some(c) => c,
    };
    while let Some(query) = clustering.next() {
        assert_eq!(query.limit, 50);
        assert_eq!(query.user_id.as_deref(), Some("alice"));
        clustering.join(hybrid);
    }
    let mut flushing = ConsolidationEngine::flush_clusters("alice", clustering.finish());
    while let Some(contents) = flushing.contents() {
        let mut new_entry = flushing.promote(&contents.join("; "), show)?;
        store.create(&mut new_entry)?;
        for r in flushing.retire(&new_entry) {
            store.archive(r.number, &r.comment)?;
            store.add_comment(r.number, &r.comment)?;
            store.set_labels(r.number, &r.labels)?;
        }
    }
    Ok(flushing.finish())
}

fn numbered(numbers: std::ops::RangeInclusive<u64>, importance: f32, x: f32) -> Vec<SearchResult> {
    numbers
        .map(|n| make_search_result(make_entry(n, MemoryType::Episodic, importance), x))
        .collect()
}

#[test]
fn consolidation_below_threshold_returns_zero_stats() {
    let mut store = MockMemoryStore::default();
    let config = ConsolidationConfig { episodic_threshold: 5, ..Default::default() };
    let stats = consolidate(&mut store, config, numbered(1..=3, 0.5, 1.0), &vec![]).unwrap();
    assert_eq!(stats, ConsolidationStats::default());
}

#[test]
fn consolidation_creates_two_semantic_entries_from_two_clusters() {
    let mut store = MockMemoryStore::default();
    let config = ConsolidationConfig {
        episodic_threshold: 4,
        cluster_similarity: score(0.7),
        ..Default::default()
    };
    let stats =
        consolidate(&mut store, config, numbered(1..=4, 0.6, 1.0), &numbered(1..=4, 0.6, 0.9))
            .unwrap();
    assert_eq!(stats.consolidated, 4, "expected 4 consolidated");
    assert_eq!(stats.promoted, 1, "expected 1 promoted (greedy groups all 4 together)");
}

#[test]
fn consolidated_entries_have_semantic_type() {
    let mut store = MockMemoryStore::default();
    let config = ConsolidationConfig {
        episodic_threshold: 2,
        cluster_similarity: score(0.7),
        ..Default::default()
    };
    consolidate(&mut store, config, numbered(1..=2, 0.5, 1.0), &numbered(1..=2, 0.5, 1.0)).unwrap();
    let created = store.get(1).unwrap().expect("an entry was created");
    assert_eq!(created.memory_type, MemoryType::Semantic, "created entry must be Semantic");
    assert_eq!(created.tier(), MemoryTier::Warm);
    assert_eq!(created.user_id.as_deref(), Some("alice"));
    assert_eq!(
        created.content,
        "memory content for issue 1; memory content for issue 2"
    );
    assert_eq!(created.entities, vec!["entity1", "entity2"]);
    assert!(store.get(2).unwrap().is_none());
}

#[test]
fn archived_entries_get_archive_comment() {
    let mut store = MockMemoryStore::default();
    let config = ConsolidationConfig {
        episodic_threshold: 2,
        cluster_similarity: score(0.7),
        ..Default::default()
    };
    consolidate(&mut store, config, numbered(1..=2, 0.5, 1.0), &numbered(1..=2, 0.5, 1.0)).unwrap();
    for n in 1..=2 {
        assert!(store.is_archived(n), "both source entries should be archived");
        for reason in store.comments_for(n) {
            assert!(
                reason.starts_with("Consolidated into #"),
                "reason should mention new issue: {reason}"
            );
        }
        assert_eq!(store.comments_for(n), vec!["Consolidated into #1"]);
        assert_eq!(store.labels_for(n), vec!["status:superseded"]);
    }
}

#[test]
fn clusters_need_two_similar_numbered_entries() {
    let engine = ConsolidationEngine::new(ConsolidationConfig {
        episodic_threshold: 0,
        ..Default::default()
    });
    let mut unnumbered = numbered(9..=9, 0.5, 1.0);
    unnumbered[0].entry.issue_number = None;
    let mut episodics = numbered(1..=4, 0.5, 1.0);
    episodics.insert(0, unnumbered.pop().unwrap());
    let mut clustering = engine.build_clusters("alice", episodics).unwrap();

    // The first anchor is #1: too little in common with #2, and #3 twice.
    let query = clustering.next().unwrap();
    assert_eq!(query.query, "memory content for issue 1");
    assert_eq!(query.memory_types, vec![MemoryType::Episodic]);
    let mut similar = numbered(2..=2, 0.5, 0.69);
    similar.extend(numbered(3..=3, 0.5, 0.7));
    similar.extend(numbered(3..=3, 0.5, 0.9));
    clustering.join(&similar);

    // The next is #2; #3 is taken, #1 is not.
    assert_eq!(clustering.next().unwrap().query, "memory content for issue 2");
    let mut similar = numbered(3..=3, 0.5, 0.9);
    similar.extend(numbered(1..=2, 0.5, 0.9));
    let mut stranger = numbered(8..=8, 0.5, 0.9);
    stranger[0].entry.issue_number = None;
    similar.extend(stranger);
    clustering.join(&similar);

    // Then #4.
    assert_eq!(clustering.next().unwrap().query, "memory content for issue 4");
    clustering.join(&vec![]);
    assert!(clustering.next().is_none());
    let clusters = clustering.finish();
    let numbers: Vec<Vec<Option<u64>>> = clusters
        .iter()
        .map(|c| c.iter().map(|e| e.issue_number).collect())
        .collect();
    assert_eq!(numbers, vec![vec![Some(1), Some(2)]]);
}

#[test]
fn anchors_are_cut_to_two_hundred_characters() {
    let engine = ConsolidationEngine::new(ConsolidationConfig {
        episodic_threshold: 1,
        ..Default::default()
    });
    let mut episodics = numbered(1..=1, 0.5, 1.0);
    episodics[0].entry.content = "ü".repeat(300);
    let mut clustering = engine.build_clusters("alice", episodics).unwrap();
    assert_eq!(clustering.next().unwrap().query, "ü".repeat(200));
}

#[test]
fn queries_of_the_pipelines() {
    let engine = ConsolidationEngine::new(ConsolidationConfig::default());
    let q = engine.consolidate("alice");
    assert_eq!(q.query, "type:episodic user:alice");
    assert_eq!(q.user_id.as_deref(), Some("alice"));
    assert_eq!(q.memory_types, vec![MemoryType::Episodic]);
    assert_eq!(q.limit, 200);
    assert!(!q.include_archived);
    let q = engine.eviction_query("alice");
    assert_eq!(q.query, "user:alice");
    assert_eq!(q.limit, 500);
    assert!(q.memory_types.is_empty());
}

#[test]
fn merged_entities_are_listed_once() {
    let mut a = make_entry(1, MemoryType::Episodic, 0.1);
    let mut b = make_entry(2, MemoryType::Episodic, 0.9);
    let list = |v: &[&str]| v.iter().map(|s| s.to_string()).collect::<Vec<_>>();
    a.entities = list(&["x", "y", "x"]);
    b.entities = list(&["z", "y", "w"]);
    let cluster = vec![a, b];
    assert_eq!(merge_entities(&cluster), list(&["x", "y", "z", "w"]));
    let merged = ConsolidationEngine::promote("bob", &cluster, "summary", show).unwrap();
    assert_eq!(f32::from_bits(merged.importance.bits), 0.9);
    assert_eq!(f32::from_bits(merged.confidence.bits), 0.8);
    assert_eq!(merged.entities, list(&["x", "y", "z", "w"]));
    assert_eq!(merged.supersedes, vec![1, 2]);
    assert_eq!(
        ConsolidationEngine::promote("bob", &cluster, "", show).unwrap_err().to_string(),
        "Invalid input: content must not be empty"
    );
    assert_eq!(
        ConsolidationEngine::promote("bob", &vec![], "summary", show).unwrap_err().to_string(),
        "Invalid input: importance must be in [0.0, 1.0], got -inf"
    );
}

#[test]
fn merging_counts_members_and_clusters() {
    let entry = |n| make_entry(n, MemoryType::Episodic, 0.1);
    let clusters = vec![vec![entry(1), entry(2)], vec![entry(3), entry(4), entry(5)]];
    let mut flushing = ConsolidationEngine::flush_clusters("alice", clusters);
    let mut retired = Vec::new();
    while let Some(contents) = flushing.contents() {
        let mut created = flushing.promote(&contents[0], show).unwrap();
        assert_eq!(created.memory_type, MemoryType::Semantic);
        assert_eq!(created.content, contents[0]);
        assert_eq!(created.user_id.as_deref(), Some("alice"));
        created.issue_number = Some(90);
        retired.extend(flushing.retire(&created).iter().map(|r| r.number));
    }
    assert_eq!(retired, vec![1, 2, 3, 4, 5]);
    assert_eq!(
        flushing.finish(),
        ConsolidationStats { consolidated: 5, promoted: 2, evicted: 0 }
    );
}

#[test]
fn retirements_name_the_new_issue() {
    let mut cluster = vec![
        make_entry(4, MemoryType::Episodic, 0.1),
        make_entry(5, MemoryType::Episodic, 0.1),
    ];
    cluster[1].issue_number = None;
    let mut created = make_entry(77, MemoryType::Semantic, 0.1);
    let retired = ConsolidationEngine::retire(&cluster, &created);
    assert_eq!(retired.len(), 1);
    assert_eq!(retired[0].number, 4);
    assert_eq!(retired[0].comment, "Consolidated into #77");
    created.issue_number = None;
    assert_eq!(ConsolidationEngine::retire(&cluster, &created)[0].comment, "Consolidated into #0");
}

fn today() -> Timestamp {
    Timestamp { secs: chrono::Utc::now().timestamp(), nanos: 0 }
}

fn retention(e: &MemoryEntry) -> Score {
    let accesses = (e.access_count as f32 / 10.0).min(1.0);
    let recency = (1.0 - e.age_days(today()).unwrap() as f32 / 90.0).max(0.0);
    let value = |s: Score| f32::from_bits(s.bits);
    score(0.4 * value(e.importance) + 0.3 * accesses + 0.2 * recency + 0.1 * value(e.confidence))
}

/// The entry, without confidence and 200 days old.
fn old_entry(issue_number: u64) -> MemoryEntry {
    let mut entry = make_entry(issue_number, MemoryType::Episodic, 0.0);
    entry.confidence = score(0.0);
    entry.created_at = Timestamp { secs: today().secs - 200 * 86_400, nanos: 0 };
    entry
}

#[test]
fn eviction_archives_low_score_entries() {
    let engine = ConsolidationEngine::new(ConsolidationConfig::default());
    let results = vec![make_search_result(old_entry(10), 1.0)];
    let plan = engine.evict(&results, retention, today(), false);
    assert!(plan.stats.candidates >= 1);
    assert_eq!(plan.stats.evicted, plan.stats.candidates);
    assert!(!plan.archive.is_empty(), "low-score entry should be archived");
    assert_eq!(plan.archive, vec![(10, score(0.0))]);
}

#[test]
fn eviction_keeps_high_score_entries() {
    let engine = ConsolidationEngine::new(ConsolidationConfig::default());
    let results = vec![make_search_result(make_entry(20, MemoryType::Semantic, 0.9), 1.0)];
    let plan = engine.evict(&results, retention, today(), false);
    assert_eq!(plan.stats.candidates, 0, "high-score entry should not be a candidate");
    assert_eq!(plan.stats.evicted, 0);
    assert!(plan.archive.is_empty(), "nothing should be archived");
}

#[test]
fn eviction_dry_run_counts_but_does_not_archive() {
    let engine = ConsolidationEngine::new(ConsolidationConfig::default());
    let results = vec![make_search_result(old_entry(30), 1.0)];
    let plan = engine.evict(&results, retention, today(), true);
    assert!(plan.stats.candidates >= 1, "should count candidates");
    assert_eq!(plan.stats.evicted, 0, "dry_run must not evict");
    assert!(plan.archive.is_empty(), "dry_run must not archive anything");
}

#[test]
fn eviction_goes_by_the_threshold() {
    let engine = ConsolidationEngine::new(ConsolidationConfig::default());
    let results = vec![make_search_result(make_entry(10, MemoryType::Semantic, 0.0), 1.0)];
    for (retained, count) in [(0.0, 1), (0.149, 1), (0.15, 0), (0.7, 0), (f32::NAN, 0)] {
        let plan = engine.evict(&results, |_| score(retained), today(), false);
        assert_eq!((plan.stats.candidates, plan.stats.evicted), (count, count));
        assert_eq!(plan.archive.len(), count);
    }
}

#[test]
fn eviction_passes_over_entries_without_a_number() {
    let engine = ConsolidationEngine::new(ConsolidationConfig::default());
    let mut results = numbered(1..=3, 0.0, 1.0);
    results[1].entry.issue_number = None;
    let plan = engine.evict(&results, |e| score(e.issue_number.map_or(0.0, |n| n as f32 / 20.0)), today(), false);
    let numbers: Vec<u64> = plan.archive.iter().map(|(n, _)| *n).collect();
    assert_eq!(numbers, vec![1]);
    assert_eq!(ConsolidationEngine::eviction_reason("0.05"), "Evicted: score=0.05");
}

#[test]
fn eviction_archives_cold_entries_that_are_too_old() {
    let engine = ConsolidationEngine::new(ConsolidationConfig::default());
    let now = today();
    let days_ago = |n: u64, memory_type: MemoryType, days: i64| {
        let mut entry = make_entry(n, memory_type, 0.9);
        entry.created_at = Timestamp { secs: now.secs - days * 86_400, nanos: 0 };
        make_search_result(entry, 1.0)
    };
    // The leap second at the end of 2016.
    let mut leaping = days_ago(6, MemoryType::Episodic, 0);
    leaping.entry.created_at = Timestamp { secs: 1_483_228_799, nanos: 1_500_000_000 };
    let results = vec![
        days_ago(1, MemoryType::Episodic, 90),
        days_ago(2, MemoryType::Episodic, 91),
        days_ago(3, MemoryType::Semantic, 1000),
        days_ago(4, MemoryType::Procedural, 1000),
        days_ago(5, MemoryType::Working, 1000),
        leaping,
    ];
    let plan = engine.evict(&results, |_| score(0.5), now, false);
    let numbers: Vec<u64> = plan.archive.iter().map(|(n, _)| *n).collect();
    assert_eq!(numbers, vec![2, 4, 6]);
    assert_eq!((plan.stats.candidates, plan.stats.evicted), (3, 3));
    let plan = engine.evict(&results, |_| score(0.5), now, true);
    assert!(plan.archive.is_empty());
    assert_eq!((plan.stats.candidates, plan.stats.evicted), (3, 0));
}

#[test]
fn consolidation_config_default_values() {
    let cfg = ConsolidationConfig::default();
    assert_eq!(cfg.episodic_threshold, 20);
    assert!((f32::from_bits(cfg.min_retention_score.bits) - 0.15).abs() < f32::EPSILON);
    assert_eq!(cfg.cold_archive_days, 90);
    assert!((f32::from_bits(cfg.cluster_similarity.bits) - 0.7).abs() < f32::EPSILON);
}

#[test]
fn the_default_summary_previews_the_first_memory() {
    assert_eq!(default_summary(&vec![]), "Summary of 0 memories: ");
    let contents = vec!["ä".repeat(150), "x".to_owned()];
    assert_eq!(
        default_summary(&contents),
        format!("Summary of 2 memories: {}", "ä".repeat(100))
    );
}
