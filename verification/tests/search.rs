use memory_store::api::{Method, Reply};
use memory_store::json::{Json, Number};
use memory_store::models::{MemoryEntry, MemoryTier, MemoryType};
use memory_store::schema::MemoryMeta;
use memory_store::score::Score;
use memory_store::search::{
    Gathering, SearchEngine, SearchQuery, SearchResult, SearchStep, CACHE_TTL,
};
use memory_store::{MemoryError, Result};

#[test]
fn build_gh_query_includes_repo() {
    let q = SearchQuery::default().with_query("test");
    let result = SearchEngine::build_gh_query(&q, "owner/repo");
    assert!(result.contains("repo:owner/repo"), "missing repo: {result}");
}

#[test]
fn build_gh_query_includes_state_open_by_default() {
    let q = SearchQuery::default();
    let result = SearchEngine::build_gh_query(&q, "owner/repo");
    assert!(result.contains("state:open"), "missing state:open: {result}");
}

#[test]
fn build_gh_query_omits_state_open_when_include_archived() {
    let q = SearchQuery::default().with_archived(true);
    let result = SearchEngine::build_gh_query(&q, "owner/repo");
    assert!(!result.contains("state:open"), "should omit state:open: {result}");
}

#[test]
fn build_gh_query_with_user_id_includes_label() {
    let q = SearchQuery::default().with_user("alice");
    let result = SearchEngine::build_gh_query(&q, "owner/repo");
    assert!(result.contains("label:user:alice"), "missing label:user:alice: {result}");
}

#[test]
fn build_gh_query_with_memory_types_includes_type_label() {
    let q = SearchQuery::default().with_memory_types(vec![MemoryType::Semantic]);
    let result = SearchEngine::build_gh_query(&q, "owner/repo");
    assert!(result.contains("label:type:semantic"), "missing type label: {result}");
}

#[test]
fn build_gh_query_with_tiers_includes_tier_label() {
    let q = SearchQuery::default().with_tiers(vec![MemoryTier::Cold]);
    let result = SearchEngine::build_gh_query(&q, "owner/repo");
    assert!(result.contains("label:tier:cold"), "missing tier label: {result}");
}

#[test]
fn build_gh_query_appends_query_text_last() {
    let q = SearchQuery::default().with_user("alice").with_query("python preferences");
    let result = SearchEngine::build_gh_query(&q, "owner/repo");
    assert!(result.ends_with("python preferences"), "query text should be last: {result}");
}

fn full_query() -> SearchQuery {
    SearchQuery::default()
        .with_query("words here")
        .with_user("alice")
        .with_memory_types(vec![MemoryType::Semantic, MemoryType::Working])
        .with_tiers(vec![MemoryTier::Hot, MemoryTier::Cold])
        .with_limit(5)
}

#[test]
fn queries_are_exact() {
    assert_eq!(
        SearchEngine::build_gh_query(&full_query(), "o/r"),
        "repo:o/r state:open label:user:alice label:type:semantic label:type:working \
         label:tier:hot label:tier:cold words here"
    );
    assert_eq!(
        SearchEngine::build_gh_query(&SearchQuery::default().with_archived(true), "o/r"),
        "repo:o/r"
    );
    assert_eq!(SearchQuery::default().limit, 10);
}

#[test]
fn cache_keys_are_exact() {
    assert_eq!(
        SearchEngine::cache_key(&full_query()),
        "words here|alice|semantic,working|hot,cold|false|5"
    );
    assert_eq!(
        SearchEngine::cache_key(&SearchQuery::default().with_archived(true)),
        "||||true|10"
    );
}

#[test]
fn cache_keys_tell_queries_apart() {
    let base = || SearchQuery::default().with_query("q").with_user("u");
    let others = vec![
        base(),
        base().with_query("r"),
        base().with_user("v"),
        base().with_memory_types(vec![MemoryType::Semantic]),
        base().with_memory_types(vec![MemoryType::Semantic, MemoryType::Semantic]),
        base().with_tiers(vec![MemoryTier::Hot]),
        base().with_archived(true),
        base().with_limit(100),
    ];
    for (i, a) in others.iter().enumerate() {
        for (k, b) in others.iter().enumerate() {
            let same = SearchEngine::cache_key(a) == SearchEngine::cache_key(b);
            assert_eq!(same, i == k);
        }
    }
    // A bar in the searched words does no harm.
    let a = SearchQuery::default().with_query("x|y").with_user("z");
    let b = SearchQuery::default().with_query("x").with_user("z");
    assert_ne!(SearchEngine::cache_key(&a), SearchEngine::cache_key(&b));
    // A bar in the name of a user can make two keys alike; still neither answers the other.
    let a = SearchQuery::default().with_query("x|y").with_user("z");
    let b = SearchQuery::default().with_query("x").with_user("y|z");
    assert_eq!(SearchEngine::cache_key(&a), SearchEngine::cache_key(&b));
    let mut engine = SearchEngine::new("o/r", "t");
    engine.keep_results(&a, &vec![result("of z", 0.5)], 0);
    assert!(matches!(engine.hybrid_search(&b, 1), SearchStep::Ask(_)));
    assert!(matches!(engine.hybrid_search(&a, 1), SearchStep::Cached(_)));
    engine.keep_results(&b, &vec![], 1);
    assert!(matches!(engine.hybrid_search(&b, 1), SearchStep::Cached(v) if v.is_empty()));
    assert!(matches!(engine.hybrid_search(&a, 1), SearchStep::Cached(v) if v.len() == 1));
    engine.keep_results(&a, &vec![], 2);
    assert!(matches!(engine.hybrid_search(&a, 2), SearchStep::Cached(v) if v.is_empty()));
    // No user and a user without a name are two queries as well.
    let all = SearchQuery::default().with_query("x");
    let unnamed = SearchQuery::default().with_query("x").with_user("");
    engine.keep_results(&all, &vec![result("of all", 0.5)], 2);
    assert!(matches!(engine.hybrid_search(&unnamed, 2), SearchStep::Ask(_)));
}

#[test]
fn search_requests_carry_their_parameters() {
    let engine = SearchEngine::new("o/r", "secret");
    assert_eq!(engine.token(), "secret");
    let ask = engine.lexical_search(&SearchQuery::default().with_limit(4));
    assert_eq!(ask.method, Method::Get);
    assert_eq!(ask.url, "https://api.github.com/search/issues");
    let pairs: Vec<(&str, &str)> =
        ask.params.iter().map(|(k, v)| (k.as_str(), v.as_str())).collect();
    assert_eq!(
        pairs,
        vec![("q", "repo:o/r state:open"), ("per_page", "8"), ("sort", "best-match")]
    );
    assert!(ask.body.is_none());
    let ask = match engine.hybrid_search(&SearchQuery::default().with_limit(200), 0) {
        SearchStep::Ask(ask) => ask,
        SearchStep::Cached(_) => panic!("nothing was kept"),
    };
    assert_eq!(ask.params[1].1, "30");
    assert_eq!(ask.params[3], ("search_type".to_owned(), "hybrid".to_owned()));
    for (limit, pages) in [(0, "0"), (14, "28"), (15, "30"), (16, "30"), (usize::MAX, "30")] {
        let ask = engine.lexical_search(&SearchQuery::default().with_limit(limit));
        assert_eq!(ask.params[1].1, pages);
    }
}

fn show(s: Score) -> String {
    f32::from_bits(s.bits).to_string()
}

fn entry(content: &str) -> MemoryEntry {
    MemoryEntry::builder(content, MemoryType::Semantic).build(show).unwrap()
}

fn result(content: &str, score: f32) -> SearchResult {
    let score = Score::from_bits(score.to_bits());
    SearchResult { entry: entry(content), score, gh_score: score }
}

fn contents(results: &[SearchResult]) -> Vec<&str> {
    results.iter().map(|r| r.entry.content.as_str()).collect()
}

#[test]
fn kept_results_answer_for_two_minutes() {
    let mut engine = SearchEngine::new("o/r", "t");
    let q = || SearchQuery::default().with_query("q");
    let start = 1_000u64;
    engine.keep_results(&q(), &vec![result("a", 0.5)], start);
    let cached = |engine: &SearchEngine, query: SearchQuery, now: u64| {
        match engine.hybrid_search(&query, now) {
            SearchStep::Cached(v) => Some(v.len()),
            SearchStep::Ask(_) => None,
        }
    };
    assert_eq!(cached(&engine, q(), start), Some(1));
    assert_eq!(cached(&engine, q(), start + CACHE_TTL - 1), Some(1));
    assert_eq!(cached(&engine, q(), start + CACHE_TTL), None);
    assert_eq!(cached(&engine, q(), 0), Some(1));
    assert_eq!(cached(&engine, q().with_limit(3), start), None);
    engine.keep_results(&q().with_limit(3), &vec![], start);
    engine.keep_results(&q(), &vec![result("b", 0.5), result("c", 0.5)], start + CACHE_TTL);
    assert_eq!(cached(&engine, q(), start + CACHE_TTL), Some(2));
    assert_eq!(cached(&engine, q().with_limit(3), start), Some(0));
    engine.invalidate_cache();
    assert_eq!(cached(&engine, q(), start), None);
    assert_eq!(cached(&engine, q().with_limit(3), start), None);
}

#[test]
fn ranking_keeps_the_best_and_their_order() {
    let all = vec![
        result("low", 0.1),
        result("first", 0.9),
        result("second", 0.9),
        result("nan", f32::NAN),
        result("negative zero", -0.0),
        result("zero", 0.0),
        result("minus", -1.0),
    ];
    let top = SearchEngine::rank_results(&all, 100);
    assert_eq!(
        contents(&top),
        vec!["nan", "first", "second", "low", "zero", "negative zero", "minus"]
    );
    assert_eq!(contents(&SearchEngine::rank_results(&all, 2)), vec!["nan", "first"]);
    assert!(SearchEngine::rank_results(&all, 0).is_empty());
    assert!(SearchEngine::rank_results(&vec![], 5).is_empty());
}

fn decode(text: &str) -> Result<MemoryMeta> {
    serde_json::from_str::<serde_json::Value>(text)?;
    Ok(MemoryMeta::of(&entry("x")))
}

fn rate(e: &MemoryEntry, n: Option<Number>) -> (Score, Score) {
    let gh = match n {
        Some(Number::Double(bits)) => f64::from_bits(bits) as f32,
        Some(Number::Unsigned(n)) => n as f32,
        _ => 0.0,
    };
    let score = gh / 100.0 + e.content.len() as f32;
    (Score::from_bits(score.to_bits()), Score::from_bits(gh.to_bits()))
}

fn reply(status: u16, text: &str) -> Reply {
    Reply { status, text: text.to_owned() }
}

#[test]
fn replies_become_ranked_results() {
    let engine = SearchEngine::new("o/r", "t");
    let item = |content: &str, number: &str, score: &str| {
        format!(
            "{{\"title\":\"t\",\"body\":\"{content}\\n\\n<!-- MEMORY_META\\n{{}}\\n-->\",\
             \"number\":{number},\"score\":{score}}}"
        )
    };
    let text = format!(
        "{{\"items\":[{},{},{{\"body\":\"no block\"}},{},{}]}}",
        item("a", "1", "0.5"),
        item("bb", "2", "null"),
        item("c", "null", "50"),
        "{\"body\":\"<!-- MEMORY_META\\n{\\n-->\"}",
    );
    let q = SearchQuery::default().with_limit(10);
    let found = engine.execute_search(&q, &reply(200, &text), decode, rate).unwrap();
    assert_eq!(contents(&found), vec!["bb", "c", "a"]);
    let numbers: Vec<Option<u64>> = found.iter().map(|r| r.entry.issue_number).collect();
    assert_eq!(numbers, vec![Some(2), None, Some(1)]);
    assert_eq!(f32::from_bits(found[1].gh_score.bits), 50.0);
    assert_eq!(f32::from_bits(found[1].score.bits), 1.5);
    let q = SearchQuery::default().with_limit(1);
    let found = engine.execute_search(&q, &reply(200, &text), decode, rate).unwrap();
    assert_eq!(contents(&found), vec!["bb"]);
}

#[test]
fn hybrid_searches_keep_results_but_no_failures() {
    let mut engine = SearchEngine::new("o/r", "t");
    let q = SearchQuery::default().with_query("q");
    for (status, text) in [(429, "x"), (500, "x"), (200, "x")] {
        assert!(engine.finish_hybrid(&q, &reply(status, text), decode, rate, 5).is_err());
        assert!(matches!(engine.hybrid_search(&q, 5), SearchStep::Ask(_)));
    }
    let text = "{\"items\":[{\"body\":\"a\\n\\n<!-- MEMORY_META\\n{}\\n-->\",\"number\":1}]}";
    let found = engine.finish_hybrid(&q, &reply(200, text), decode, rate, 5).unwrap();
    assert_eq!(contents(&found), vec!["a"]);
    match engine.hybrid_search(&q, 6) {
        SearchStep::Cached(v) => assert_eq!(contents(&v), vec!["a"]),
        SearchStep::Ask(_) => panic!("the results were kept"),
    }
    assert!(engine.finish_hybrid(&q, &reply(429, "x"), decode, rate, 7).is_err());
    assert!(matches!(engine.hybrid_search(&q, 8), SearchStep::Cached(_)));
}

#[test]
fn replies_without_items_are_empty() {
    let engine = SearchEngine::new("o/r", "t");
    let q = SearchQuery::default();
    for text in ["{}", "[]", "{\"items\":5}", "{\"items\":[]}"] {
        assert!(engine.execute_search(&q, &reply(200, text), decode, rate).unwrap().is_empty());
    }
}

#[test]
fn failed_searches_tell_why() {
    let engine = SearchEngine::new("o/r", "t");
    let q = SearchQuery::default();
    let error = |status: u16, text: &str| {
        engine.execute_search(&q, &reply(status, text), decode, rate).unwrap_err()
    };
    for status in [403, 429] {
        assert!(matches!(
            error(status, "x"),
            MemoryError::RateLimit { retry_after_secs: 60 }
        ));
    }
    assert_eq!(error(422, "{\"message\":\"m\"}").to_string(), "GitHub API error 422: {\"message\":\"m\"}");
    assert_eq!(error(200, "x").to_string(), "HTTP error: error decoding response body");
}

fn page(numbers: std::ops::Range<u64>) -> Vec<Json> {
    let items: Vec<String> = numbers
        .map(|n| {
            format!(
                "{{\"body\":\"entry {n:04}\\n\\n<!-- MEMORY_META\\n{{}}\\n-->\",\
                 \"number\":{n},\"score\":{n}}}"
            )
        })
        .collect();
    let text = format!("{{\"items\":[{}]}}", items.join(","));
    SearchEngine::new("o/r", "t").listed_items(&reply(200, &text)).unwrap()
}

#[test]
fn gathering_goes_on_while_pages_are_full() {
    let engine = SearchEngine::new("o/r", "t");
    let mut gathering = Gathering::new(SearchQuery::default().with_limit(200));
    let first = gathering.next(&engine).unwrap();
    assert_eq!(first.params.len(), 3);
    assert_eq!(first.params[1], ("per_page".to_owned(), "30".to_owned()));
    gathering.take(&page(0..30), decode, rate);
    let second = gathering.next(&engine).unwrap();
    assert_eq!(second.params[3], ("page".to_owned(), "2".to_owned()));
    gathering.take(&page(30..41), decode, rate);
    assert!(gathering.next(&engine).is_none());
    let found = gathering.finish();
    assert_eq!(found.len(), 41);
    assert_eq!(found[0].entry.issue_number, Some(40));
    assert_eq!(found[40].entry.issue_number, Some(0));
}

#[test]
fn gathering_ends_at_the_limit() {
    let engine = SearchEngine::new("o/r", "t");
    for (limit, pages) in [(0, 1), (10, 1), (30, 1), (31, 2), (60, 2), (61, 3), (200, 7)] {
        let mut gathering = Gathering::new(SearchQuery::default().with_limit(limit));
        let mut asked = 0u64;
        while gathering.next(&engine).is_some() {
            gathering.take(&page(asked * 30..(asked + 1) * 30), decode, rate);
            asked += 1;
        }
        assert_eq!(asked, pages);
        assert_eq!(gathering.finish().len(), limit.min(30 * pages as usize));
    }
}

#[test]
fn items_that_cannot_be_read_do_not_end_the_gathering() {
    let engine = SearchEngine::new("o/r", "t");
    let mut gathering = Gathering::new(SearchQuery::default().with_limit(50));
    let text = format!("{{\"items\":[{}]}}", vec!["{}"; 30].join(","));
    let items = engine.listed_items(&reply(200, &text)).unwrap();
    gathering.take(&items, decode, rate);
    assert!(gathering.next(&engine).is_some());
    gathering.take(&page(0..0), decode, rate);
    assert!(gathering.next(&engine).is_none());
    assert!(gathering.finish().is_empty());
}
