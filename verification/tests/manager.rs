use memory_store::api::{Method, Reply, Request};
use memory_store::json::Json;
use memory_store::manager::{
    apply_patch, HotStep, MemoryManager, WorkingStep, CLEARED, HOT_CACHE_TTL,
};
use memory_store::models::{MemoryEntry, MemoryPatch, MemoryTier, MemoryType, Timestamp};
use memory_store::score::Score;
use memory_store::search::{SearchQuery, SearchResult, SearchStep};
use memory_store::store::testutil::MockMemoryStore;
use memory_store::{ConsolidationStats, MemoryError};

fn score(x: f32) -> Score {
    Score::from_bits(x.to_bits())
}

fn manager() -> MemoryManager {
    MemoryManager::new("test/repo", "fake_token")
}

fn make_entry_with_number(n: u64, content: &str, memory_type: MemoryType) -> MemoryEntry {
    let mut entry = MemoryEntry::builder(content, memory_type).user_id("alice").build(show).unwrap();
    entry.issue_number = Some(n);
    entry
}

fn found(entry: MemoryEntry, x: f32) -> SearchResult {
    SearchResult { entry, score: score(x), gh_score: score(x) }
}

fn show(s: Score) -> String {
    format!("{:.2}", f32::from_bits(s.bits))
}

#[test]
fn remember_creates_entry_with_correct_type_and_issue_number() {
    let mut store = MockMemoryStore::new();
    let mut entry = manager()
        .remember("User prefers Rust", MemoryType::Semantic, "alice", score(0.9), vec![], vec![], show)
        .unwrap();
    store.create(&mut entry).unwrap();

    assert_eq!(entry.memory_type, MemoryType::Semantic);
    assert!(entry.issue_number.is_some(), "issue_number must be assigned");
    assert_eq!(entry.content, "User prefers Rust");
    assert_eq!(entry.user_id.as_deref(), Some("alice"));
}

#[test]
fn remember_is_refused_outside_the_range() {
    let refused =
        manager().remember("x", MemoryType::Semantic, "alice", score(1.5), vec![], vec![], show);
    assert_eq!(
        refused.unwrap_err().to_string(),
        "Invalid input: importance must be in [0.0, 1.0], got 1.50"
    );
}

#[test]
fn remembering_outdates_search_results_but_not_the_hot_tier() {
    let mut mgr = manager();
    let q = SearchQuery::default();
    mgr.search.keep_results(&q, &vec![], 5);
    mgr.keep_hot_tier("alice", &vec![], 5);
    assert!(matches!(mgr.search.hybrid_search(&q, 5), SearchStep::Cached(_)));
    mgr.after_remember();
    assert!(matches!(mgr.search.hybrid_search(&q, 5), SearchStep::Ask(_)));
    assert!(matches!(mgr.fetch_hot_tier("alice", 5), HotStep::Cached(_)));
}

#[test]
fn recall_on_empty_store_returns_empty_string() {
    let recall = MemoryManager::recall(&vec![], &vec![], 1000, show);
    assert!(recall.context.is_empty(), "expected empty string, got: {:?}", recall.context);
    assert!(recall.accessed.is_empty());
}

#[test]
fn recall_dedup_hot_tier_takes_precedence_over_search() {
    let issue_num = 42u64;
    let hot_entry = make_entry_with_number(issue_num, "hot entry", MemoryType::Working);
    let search_entry = make_entry_with_number(issue_num, "search entry", MemoryType::Working);

    let combined = MemoryManager::combine(&vec![hot_entry], &vec![found(search_entry, 0.9)]);

    assert_eq!(combined.len(), 1, "duplicate must be suppressed");
    assert_eq!(combined[0].entry.content, "hot entry");
    assert!((f32::from_bits(combined[0].score.bits) - 2.0).abs() < f32::EPSILON);
}

#[test]
fn recall_token_budget_first_entry_always_included() {
    let content = "x".repeat(4000);
    let budget = 10usize; // very small

    let entry = make_entry_with_number(1, &content, MemoryType::Semantic);
    let recall = MemoryManager::recall(&vec![], &vec![found(entry, 0.9)], budget, show);

    assert!(!recall.context.is_empty(), "first entry must always be included");
    assert_eq!(recall.context, format!("## Memory Context\n\n[warm] Score: 0.90\n{content}"));
}

#[test]
fn recall_ranks_and_formats() {
    let hot = vec![make_entry_with_number(1, "task", MemoryType::Working)];
    let results = vec![
        found(make_entry_with_number(2, "low", MemoryType::Semantic), 0.25),
        found(make_entry_with_number(3, "high", MemoryType::Episodic), 0.75),
        found(make_entry_with_number(1, "again", MemoryType::Working), 0.99),
    ];
    let recall = MemoryManager::recall(&hot, &results, 1000, show);
    assert_eq!(
        recall.context,
        "## Memory Context\n\n[working] Score: 2.00\ntask\n\n[cold] Score: 0.75\nhigh\n\n\
         [warm] Score: 0.25\nlow"
    );
    assert_eq!(recall.accessed, vec![1, 3, 2]);
}

#[test]
fn recall_stays_within_the_budget() {
    // Each block has 19 + 21 bytes; with the heading and the line feeds between them, n of
    // them make up a context of 17 + 42 * n bytes.
    let entry = |n: u64| found(make_entry_with_number(n, &"x".repeat(21), MemoryType::Semantic), 0.5);
    let results: Vec<SearchResult> = (1..=8).map(entry).collect();
    let blocks = |budget: usize| {
        let recall = MemoryManager::recall(&vec![], &results, budget, show);
        assert_eq!(recall.accessed, vec![1, 2, 3, 4, 5]);
        let n = recall.context.matches("Score").count();
        assert_eq!(recall.context.len(), 17 + 42 * n);
        assert!(n == 1 || recall.context.len() / 4 <= budget);
        n
    };
    assert_eq!("[warm] Score: 0.50\n".len() + 21, 40);
    assert_eq!(blocks(0), 1);
    assert_eq!(blocks(14), 1);
    assert_eq!(blocks(24), 1);
    assert_eq!(blocks(25), 2);
    assert_eq!(blocks(80), 7);
    assert_eq!(blocks(87), 7);
    assert_eq!(blocks(88), 8);
    assert_eq!(blocks(usize::MAX), 8);
}

#[test]
fn heading_and_separators_count() {
    let hot = vec![
        make_entry_with_number(1, "x", MemoryType::Working),
        make_entry_with_number(2, "x", MemoryType::Working),
    ];
    let context = |budget: usize| MemoryManager::recall(&hot, &vec![], budget, show).context;
    assert_eq!(context(10), "## Memory Context\n\n[working] Score: 2.00\nx");
    assert_eq!(context(10).len() / 4, 10);
    assert_eq!(context(15), context(10));
    assert_eq!(context(16).len() / 4, 16);
}

#[test]
fn scores_that_are_no_numbers_leave_the_order() {
    let results = vec![
        found(make_entry_with_number(1, "nan", MemoryType::Semantic), f32::NAN),
        found(make_entry_with_number(2, "low", MemoryType::Semantic), 0.1),
        found(make_entry_with_number(3, "high", MemoryType::Semantic), 0.9),
    ];
    let hot = vec![make_entry_with_number(4, "hot", MemoryType::Working)];
    let recall = MemoryManager::recall(&hot, &results, 1000, show);
    assert_eq!(recall.accessed, vec![4, 1, 2, 3]);
}

#[test]
fn recalled_contexts_count_within_a_tight_budget() {
    let results: Vec<SearchResult> = (0..10)
        .map(|i| {
            let content = format!(
                "Memory entry number {i}: the quick brown fox jumped over the lazy dog for the \
                 {i}th time."
            );
            found(make_entry_with_number(i, &content, MemoryType::Semantic), 0.5)
        })
        .collect();
    let budget = 200;
    let context = MemoryManager::recall(&vec![], &results, budget, show).context;
    assert!(context.len() / 4 <= budget, "context has {} bytes", context.len());
}

#[test]
fn contexts_are_as_long_as_their_parts() {
    let contents = ["ä".repeat(10), "b".repeat(33), "c".to_owned()];
    let results: Vec<SearchResult> = contents
        .iter()
        .enumerate()
        .map(|(i, c)| found(make_entry_with_number(i as u64, c, MemoryType::Semantic), 0.5))
        .collect();
    let context = MemoryManager::recall(&vec![], &results, 1000, show).context;
    let blocks: Vec<usize> =
        contents.iter().map(|c| format!("[warm] Score: 0.50\n{c}").len()).collect();
    let bytes: usize = blocks.iter().sum();
    assert_eq!(context.len(), 19 + bytes + 2 * 2);
}

#[test]
fn results_that_outscore_the_hot_tier_come_first() {
    let hot = vec![
        make_entry_with_number(1, "a", MemoryType::Working),
        make_entry_with_number(2, "b", MemoryType::Working),
    ];
    let entry = || make_entry_with_number(3, "c", MemoryType::Semantic);
    let order = |x: f32| {
        let combined = MemoryManager::combine(&hot, &vec![found(entry(), x)]);
        combined.iter().map(|s| s.entry.content.clone()).collect::<String>()
    };
    assert_eq!(order(1.0), "abc");
    assert_eq!(order(2.0), "abc");
    assert_eq!(order(2.5), "cab");
    assert_eq!(order(-0.0), "abc");
}

#[test]
fn entries_without_a_number_are_never_duplicates() {
    let mut hot = make_entry_with_number(1, "a", MemoryType::Working);
    hot.issue_number = None;
    let mut result = make_entry_with_number(2, "b", MemoryType::Working);
    result.issue_number = None;
    let combined = MemoryManager::combine(&vec![hot], &vec![found(result, 0.5)]);
    assert_eq!(combined.len(), 2);
    let recall = MemoryManager::assemble(&combined, &vec!["2.00".into(), "0.50".into()], 100);
    assert!(recall.accessed.is_empty());
}

#[test]
fn the_hot_tier_is_kept_for_five_minutes() {
    let mut mgr = manager();
    let query = match mgr.fetch_hot_tier("alice", 0) {
        HotStep::Ask(q) => q,
        HotStep::Cached(_) => panic!("nothing was kept"),
    };
    assert_eq!(query.tiers, vec![MemoryTier::Hot]);
    assert_eq!(query.user_id.as_deref(), Some("alice"));
    assert_eq!(query.limit, 50);
    let results = vec![found(make_entry_with_number(1, "task", MemoryType::Working), 0.1)];
    let entries = mgr.keep_hot_tier("alice", &results, 1000);
    assert_eq!(entries.len(), 1);
    let known = |mgr: &MemoryManager, user: &str, now: u64| match mgr.fetch_hot_tier(user, now) {
        HotStep::Cached(v) => Some(v.len()),
        HotStep::Ask(_) => None,
    };
    assert_eq!(known(&mgr, "alice", 1000 + HOT_CACHE_TTL - 1), Some(1));
    assert_eq!(known(&mgr, "alice", 1000 + HOT_CACHE_TTL), None);
    mgr.invalidate_hot_cache();
    assert_eq!(known(&mgr, "alice", 1000), None);
}

#[test]
fn users_do_not_see_the_hot_tier_of_others() {
    let mut mgr = manager();
    let results = vec![found(make_entry_with_number(1, "secret", MemoryType::Working), 0.1)];
    mgr.keep_hot_tier("alice", &results, 1000);
    assert!(matches!(mgr.fetch_hot_tier("bob", 1000), HotStep::Ask(_)));
    assert!(matches!(mgr.fetch_hot_tier("alice", 1000), HotStep::Cached(_)));
    let query = MemoryManager::recall_query("anything", "bob");
    assert_eq!(query.user_id.as_deref(), Some("bob"));
    assert_eq!(query.query, "anything");
    assert_eq!(query.limit, 20);
}

#[test]
fn forget_removes_entry_from_store() {
    let mut store = MockMemoryStore::new();
    let mut entry = manager()
        .remember("to forget", MemoryType::Episodic, "alice", score(0.3), vec![], vec![], show)
        .unwrap();
    store.create(&mut entry).unwrap();
    let n = entry.issue_number.unwrap();
    store.delete(n).unwrap();
    let fetched = store.get(n).unwrap();
    assert!(fetched.is_none());
}

#[test]
fn update_applies_patch_fields_only() {
    let mut store = MockMemoryStore::new();
    let mgr = manager();
    let mut entry = mgr
        .remember("original content", MemoryType::Semantic, "alice", score(0.5), vec![], vec![], show)
        .unwrap();
    store.create(&mut entry).unwrap();
    let n = entry.issue_number.unwrap();

    let patch = MemoryPatch {
        content: Some("updated content".to_owned()),
        importance: Some(score(0.9)),
        ..Default::default()
    };

    let updated = mgr.update(n, store.get(n).unwrap(), patch).unwrap();
    store.update(&updated).unwrap();
    assert_eq!(updated.content, "updated content");
    assert!((f32::from_bits(updated.importance.bits) - 0.9).abs() < f32::EPSILON);
    assert_eq!(updated.memory_type, MemoryType::Semantic);
    assert_eq!(store.get(n).unwrap().unwrap().content, "updated content");
}

#[test]
fn update_of_a_missing_entry_is_not_found() {
    let missing = manager().update(12, None, MemoryPatch::default());
    assert!(matches!(missing, Err(MemoryError::NotFound { issue_number: 12 })));
}

#[test]
fn set_working_creates_working_type_entry() {
    let step = MemoryManager::set_working("current task context", "alice", &vec![]).unwrap();
    let mut entry = match step {
        WorkingStep::Create(e) => e,
        WorkingStep::Update(_) => panic!("nothing existed"),
    };
    MockMemoryStore::new().create(&mut entry).unwrap();
    assert_eq!(entry.memory_type, MemoryType::Working);
    assert!(entry.issue_number.is_some());
    assert_eq!(entry.content, "current task context");
    assert_eq!(f32::from_bits(entry.importance.bits), 1.0);
    assert!(MemoryManager::set_working("", "alice", &vec![]).is_err());
}

#[test]
fn set_working_replaces_what_exists() {
    let existing = vec![found(make_entry_with_number(5, "old", MemoryType::Working), 0.5)];
    match MemoryManager::set_working("new", "alice", &existing).unwrap() {
        WorkingStep::Update(e) => {
            assert_eq!(e.content, "new");
            assert_eq!(e.issue_number, Some(5));
            assert_eq!(e.memory_id, existing[0].entry.memory_id);
        }
        WorkingStep::Create(_) => panic!("an entry existed"),
    }
    let q = MemoryManager::set_working_query("alice");
    assert_eq!(q.memory_types, vec![MemoryType::Working]);
    assert_eq!(q.limit, 1);
}

#[test]
fn clear_working_does_not_error_when_empty() {
    let mut clearing = MemoryManager::clear_working("alice");
    assert!(clearing.next().is_some());
    assert!(clearing.take(&vec![]).is_empty());
    assert!(clearing.next().is_none());
}

#[test]
fn clear_working_asks_until_nothing_new_is_found() {
    let working = |n: u64| found(make_entry_with_number(n, "w", MemoryType::Working), 0.5);
    let mut clearing = MemoryManager::clear_working("alice");
    let q = clearing.next().unwrap();
    assert_eq!(q.memory_types, vec![MemoryType::Working]);
    assert_eq!(q.user_id.as_deref(), Some("alice"));
    assert_eq!(q.limit, 100);
    assert_eq!(clearing.take(&vec![working(5), working(6), working(5)]), vec![5, 6]);
    assert_eq!(clearing.next().unwrap().limit, 100);
    let mut unnumbered = working(8);
    unnumbered.entry.issue_number = None;
    assert_eq!(clearing.take(&vec![working(6), unnumbered, working(7)]), vec![7]);
    assert!(clearing.next().is_some());
    assert!(clearing.take(&vec![working(7)]).is_empty());
    assert!(clearing.next().is_none());
    assert_eq!(CLEARED, "Working memory cleared");
}

#[test]
fn one_user_is_never_shown_the_memories_of_another() {
    let mut mgr = manager();
    let secret = "ALICE_SECRET_1";
    let note = || found(make_entry_with_number(1, secret, MemoryType::Working), 0.9);
    mgr.keep_hot_tier("alice", &vec![note()], 0);
    mgr.search.keep_results(&MemoryManager::recall_query(secret, "alice"), &vec![note()], 0);

    let hot = match mgr.fetch_hot_tier("bob", 1) {
        HotStep::Cached(entries) => entries,
        HotStep::Ask(query) => {
            assert_eq!(query.user_id.as_deref(), Some("bob"));
            vec![]
        }
    };
    let results = match mgr.search.hybrid_search(&MemoryManager::recall_query(secret, "bob"), 1) {
        SearchStep::Cached(results) => results,
        SearchStep::Ask(ask) => {
            assert!(ask.params[0].1.contains("label:user:bob"));
            vec![]
        }
    };
    let context = MemoryManager::recall(&hot, &results, 4000, show).context;
    assert!(!context.contains(secret));
}

#[test]
fn access_events_tell_when() {
    match MemoryManager::access_event("2026-01-02T03:04:05+00:00") {
        Json::Object(members) => {
            assert_eq!(members.len(), 2);
            assert_eq!(members[0].0, "event");
            assert_eq!(members[1].0, "timestamp");
            assert!(matches!(&members[0].1, Json::Text(t) if t == "access"));
            assert!(matches!(&members[1].1, Json::Text(t) if t == "2026-01-02T03:04:05+00:00"));
        }
        _ => panic!("an event is an object"),
    }
}

#[test]
fn consolidate_delegates_and_returns_stats() {
    let mgr = manager();
    assert_eq!(mgr.consolidation.consolidate("alice").limit, 200);
    assert!(mgr.consolidation.build_clusters("alice", vec![]).is_none());
    let stats = ConsolidationStats::default();
    assert_eq!(stats.promoted, 0);
}

#[test]
fn evict_dry_run_does_not_error() {
    let now = Timestamp { secs: 0, nanos: 0 };
    let plan = manager().consolidation.evict(&vec![], |_| score(0.0), now, true);
    assert_eq!(plan.stats.evicted, 0);
}

#[test]
fn apply_patch_only_modifies_some_fields() {
    let mut entry = make_entry_with_number(1, "original", MemoryType::Episodic);

    apply_patch(
        &mut entry,
        MemoryPatch {
            content: Some("patched".to_owned()),
            importance: Some(score(0.95)),
            ..Default::default()
        },
    );

    assert_eq!(entry.content, "patched");
    assert!((f32::from_bits(entry.importance.bits) - 0.95).abs() < f32::EPSILON);
    assert_eq!(entry.memory_type, MemoryType::Episodic);
    assert_eq!(entry.user_id.as_deref(), Some("alice"));
}

fn member<'a>(ask: &'a Request, key: &str) -> &'a str {
    match ask.body.as_ref().and_then(|b| b.get(key)) {
        Some(Json::Text(s)) => s,
        other => panic!("no text under {key}: {other:?}"),
    }
}

fn reply(status: u16, text: &str) -> Reply {
    Reply { status, text: text.to_owned() }
}

#[test]
fn sessions_open_a_milestone() {
    let mgr = manager();
    let (id, ask) = mgr.start_session("Feature work");
    assert_eq!(uuid::Uuid::parse_str(&id).unwrap().get_version_num(), 4);
    assert_eq!(ask.method, Method::Post);
    assert_eq!(ask.url, "https://api.github.com/repos/test/repo/milestones");
    assert_eq!(member(&ask, "title"), format!("sess_{id}"));
    assert_eq!(member(&ask, "description"), "Feature work");
    assert_eq!(MemoryManager::session_title(&id), format!("sess_{id}"));
    assert!(mgr.after_start_session(&reply(201, "{}")).is_ok());
    assert_eq!(
        mgr.after_start_session(&reply(422, "raw text")).unwrap_err().to_string(),
        "GitHub API error 422: raw text"
    );
}

#[test]
fn sessions_close_their_milestone() {
    let mgr = manager();
    let ask = mgr.list_milestones();
    assert_eq!(ask.method, Method::Get);
    assert_eq!(ask.url, "https://api.github.com/repos/test/repo/milestones");
    assert_eq!(
        ask.params,
        vec![
            ("state".to_owned(), "open".to_owned()),
            ("per_page".to_owned(), "100".to_owned()),
        ]
    );
    let listed = r#"[{"title":"x","number":1},{"title":"sess_a","number":2},{"title":"sess_a","number":3}]"#;
    let ask = mgr.close_milestone("sess_a", &reply(200, listed)).unwrap().unwrap();
    assert_eq!(ask.method, Method::Patch);
    assert_eq!(ask.url, "https://api.github.com/repos/test/repo/milestones/2");
    assert_eq!(member(&ask, "state"), "closed");
    assert!(mgr.close_milestone("sess_b", &reply(200, listed)).unwrap().is_none());
    let odd = r#"[{"title":"sess_a"},{"title":"sess_a","number":3}]"#;
    assert!(mgr.close_milestone("sess_a", &reply(200, odd)).unwrap().is_none());
    assert!(mgr.close_milestone("sess_a", &reply(500, listed)).unwrap().is_none());
    assert!(mgr.close_milestone("sess_a", &reply(200, "{}")).is_err());
}

#[test]
fn bootstrap_is_idempotent() {
    let mgr = manager();
    let labels = MemoryManager::bootstrap_labels();
    assert_eq!(labels.len(), 9);
    let asks = mgr.store.ensure_labels(&labels, &reply(200, "[]")).unwrap();
    assert_eq!(asks.len(), 9);
    let names: Vec<String> =
        asks.iter().map(|a| format!("{{\"name\":\"{}\"}}", member(a, "name"))).collect();
    let listed = format!("[{}]", names.join(","));
    assert!(mgr.store.ensure_labels(&labels, &reply(200, &listed)).unwrap().is_empty());
}
