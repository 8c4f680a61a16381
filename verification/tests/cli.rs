use memory_store::cli::{
    bootstrap_output, candidate_line, clear_working_output, consolidation_output, duplicate_line,
    error_line, evict_output, forget_output, recall_output, remember_output, require_user,
    set_working_output, split_csv, start_session_output, Extraction, Output,
};
use memory_store::json::{Json, Number};
use memory_store::models::{MemoryEntry, MemoryType};
use memory_store::score::Score;
use memory_store::transcript::{ExtractCandidate, Verdict};
use memory_store::{ConsolidationStats, EvictionStats, MemoryError};
use serde_json::Value;

fn to_value(json: &Json) -> Value {
    match json {
        Json::Null => Value::Null,
        Json::Bool(b) => Value::Bool(*b),
        Json::Number(Number::Unsigned(n)) => Value::from(*n),
        Json::Number(Number::Negative(n)) => Value::from(*n),
        Json::Number(Number::Double(bits)) => Value::from(f64::from_bits(*bits)),
        Json::Number(Number::Single(s)) => Value::from(f32::from_bits(s.bits)),
        Json::Text(s) => Value::from(s.as_str()),
        Json::Array(items) => Value::Array(items.iter().map(to_value).collect()),
        Json::Object(members) => {
            let mut map = serde_json::Map::new();
            for (k, v) in members {
                map.insert(k.clone(), to_value(v));
            }
            Value::Object(map)
        }
    }
}

fn human(output: Output) -> String {
    match output {
        Output::Human(line) => line,
        Output::Machine(json) => panic!("expected a line, got {json:?}"),
    }
}

fn machine(output: Output) -> String {
    match output {
        Output::Machine(json) => to_value(&json).to_string(),
        Output::Human(line) => panic!("expected JSON, got {line:?}"),
    }
}

#[test]
fn split_csv_empty_string_returns_empty() {
    assert!(split_csv("").is_empty());
}

#[test]
fn split_csv_single_item() {
    assert_eq!(split_csv("rust"), vec!["rust"]);
}

#[test]
fn split_csv_multiple_items() {
    assert_eq!(split_csv("rust,go,python"), vec!["rust", "go", "python"]);
}

#[test]
fn split_csv_trims_whitespace() {
    assert_eq!(split_csv(" rust , go , python "), vec!["rust", "go", "python"]);
}

#[test]
fn split_csv_filters_empty_parts_from_trailing_comma() {
    assert_eq!(split_csv("rust,go,"), vec!["rust", "go"]);
}

#[test]
fn split_csv_filters_empty_parts_from_leading_comma() {
    assert_eq!(split_csv(",rust,go"), vec!["rust", "go"]);
}

#[test]
fn split_csv_only_commas_returns_empty() {
    assert!(split_csv(",,,").is_empty());
}

#[test]
fn split_csv_parts_are_trimmed_and_hold_no_comma() {
    for s in ["a b, c ,,\u{3000}d\u{a0},\n", ",", "x", " , y"] {
        for part in split_csv(s) {
            assert!(!part.is_empty() && part.trim() == part && !part.contains(','));
        }
        let expected: Vec<String> = s
            .split(',')
            .map(str::trim)
            .filter(|p| !p.is_empty())
            .map(str::to_owned)
            .collect();
        assert_eq!(split_csv(s), expected);
    }
}

#[test]
fn require_user_some_returns_the_value() {
    let result = require_user(Some("alice".to_string()));
    assert_eq!(result.unwrap(), "alice");
}

#[test]
fn require_user_none_returns_invalid_input_error() {
    let err = require_user(None).unwrap_err();
    let msg = err.to_string();
    assert!(
        msg.contains("GIMEM_USER"),
        "error message should mention GIMEM_USER, got: {msg}"
    );
    assert!(matches!(err, MemoryError::InvalidInput(_)));
}

fn entry(number: Option<u64>) -> MemoryEntry {
    let mut e = MemoryEntry::builder("User prefers tabs", MemoryType::Semantic).build(|s: Score| s.bits.to_string()).unwrap();
    e.issue_number = number;
    e
}

#[test]
fn outputs_for_people() {
    assert_eq!(human(bootstrap_output(false)), "Bootstrap complete.");
    assert_eq!(human(remember_output(&entry(Some(55)), false)), "Stored memory #55 (semantic).");
    assert_eq!(human(remember_output(&entry(None), false)), "Stored memory #0 (semantic).");
    assert_eq!(human(recall_output("context", false)), "context");
    assert_eq!(human(forget_output(42, false)), "Deleted memory #42.");
    assert_eq!(
        human(set_working_output(&entry(Some(7)), false)),
        "Working memory set (issue #7)."
    );
    assert_eq!(human(clear_working_output(false)), "Working memory cleared.");
    assert_eq!(human(start_session_output("78", false)), "78");
    let stats = ConsolidationStats { consolidated: 4, promoted: 1, evicted: 0 };
    assert_eq!(
        human(consolidation_output(&stats, false, "Session ended.")),
        "Session ended. consolidated=4 promoted=1 evicted=0"
    );
    let stats = EvictionStats { evicted: 0, candidates: 3 };
    assert_eq!(
        human(evict_output(&stats, true, false)),
        "[dry-run] Eviction done. evicted=0 candidates=3"
    );
    let stats = EvictionStats { evicted: 3, candidates: 3 };
    assert_eq!(human(evict_output(&stats, false, false)), "Eviction done. evicted=3 candidates=3");
}

#[test]
fn outputs_for_programs() {
    assert_eq!(machine(bootstrap_output(true)), r#"{"ok":true}"#);
    assert_eq!(
        machine(remember_output(&entry(Some(55)), true)),
        r#"{"content":"User prefers tabs","issue_number":55,"memory_type":"semantic"}"#
    );
    assert_eq!(
        machine(set_working_output(&entry(None), true)),
        r#"{"content":"User prefers tabs","issue_number":null,"memory_type":"semantic"}"#
    );
    assert_eq!(machine(recall_output("a\nb", true)), r#"{"context":"a\nb"}"#);
    assert_eq!(machine(forget_output(42, true)), r#"{"issue_number":42,"ok":true}"#);
    assert_eq!(machine(clear_working_output(true)), r#"{"ok":true}"#);
    assert_eq!(machine(start_session_output("78", true)), r#"{"session_id":"78"}"#);
    let stats = ConsolidationStats { consolidated: 4, promoted: 1, evicted: 0 };
    assert_eq!(
        machine(consolidation_output(&stats, true, "x")),
        r#"{"consolidated":4,"evicted":0,"promoted":1}"#
    );
    let stats = EvictionStats { evicted: 0, candidates: 3 };
    assert_eq!(
        machine(evict_output(&stats, true, true)),
        r#"{"candidates":3,"dry_run":true,"evicted":0}"#
    );
}

fn candidate(content: &str, memory_type: &str) -> ExtractCandidate {
    ExtractCandidate {
        content: content.to_owned(),
        memory_type: memory_type.to_owned(),
        importance: Score::from_bits(0.75f32.to_bits()),
    }
}

#[test]
fn candidates_are_told_line_by_line() {
    let c = candidate("We use pnpm", "semantic");
    assert_eq!(duplicate_line(&c), "  [semantic] Skipped (duplicate): We use pnpm");
    assert_eq!(candidate_line(&c, "0.75"), "  [semantic] We use pnpm (importance: 0.75)");
}

#[test]
fn an_extraction_settles_every_candidate() {
    let mut run = Extraction::new(
        vec![candidate("known", "semantic"), candidate("new", "Working"), candidate("odd", "?")],
        false,
    );
    assert_eq!(run.current().unwrap().content, "known");
    assert_eq!(run.settle("this is known already"), Verdict::Duplicate);
    assert_eq!(run.current().unwrap().content, "new");
    assert_eq!(run.settle("nothing of the kind"), Verdict::Store(MemoryType::Working));
    assert_eq!(run.current().unwrap().content, "new");
    run.record(Some(9));
    assert_eq!(run.settle(""), Verdict::Store(MemoryType::Episodic));
    run.record(None);
    assert!(run.current().is_none());
    assert_eq!(
        machine(run.finish(true)),
        concat_lines(&[
            r#"{"dry_run":false,"skipped":1,"stored":["#,
            r#"{"content":"new","importance":0.75,"issue_number":9,"memory_type":"Working"},"#,
            r#"{"content":"odd","importance":0.75,"issue_number":null,"memory_type":"?"}],"#,
            r#""total_candidates":3}"#,
        ])
    );
}

fn concat_lines(lines: &[&str]) -> String {
    lines.join("")
}

#[test]
fn a_dry_extraction_stores_nothing() {
    let candidates = || vec![candidate("known", "semantic"), candidate("new", "semantic")];
    let mut run = Extraction::new(candidates(), true);
    assert_eq!(run.settle("known"), Verdict::Duplicate);
    assert_eq!(run.settle("known"), Verdict::Preview);
    assert_eq!(human(run.finish(false)), "Would extract 1 memories from transcript.");
    let mut run = Extraction::new(candidates(), true);
    run.settle("");
    run.settle("");
    assert_eq!(
        machine(run.finish(true)),
        concat_lines(&[
            r#"{"dry_run":true,"skipped":0,"stored":["#,
            r#"{"content":"known","dry_run":true,"importance":0.75,"memory_type":"semantic"},"#,
            r#"{"content":"new","dry_run":true,"importance":0.75,"memory_type":"semantic"}],"#,
            r#""total_candidates":2}"#,
        ])
    );
    let run = Extraction::new(vec![], false);
    assert_eq!(human(run.finish(false)), "Extracted 0 memories from transcript.");
}

#[test]
fn errors_are_told_on_one_line() {
    let limited = MemoryError::RateLimit { retry_after_secs: 60 };
    assert_eq!(error_line(&limited), "Rate limited — retry after 60s");
    let other = MemoryError::NotFound { issue_number: 3 };
    assert_eq!(error_line(&other), "Error: Memory entry not found: issue #3");
}
