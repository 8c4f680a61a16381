use memory_store::json::{Json, Number};
use memory_store::models::MemoryType;
use memory_store::score::Score;
use memory_store::transcript::{
    classify, format_conversation, heuristic_extract, judge, listed_candidates, parse_transcript,
    read_extractor_output, ExtractCandidate, Verdict,
};

fn value(s: Score) -> f32 {
    f32::from_bits(s.bits)
}

#[test]
fn parse_transcript_skips_non_user_assistant_types() {
    let raw = r#"{"type":"file-history-snapshot","data":{}}"#;
    assert!(parse_transcript(raw).is_empty());
}

#[test]
fn parse_transcript_handles_string_content() {
    let raw = r#"{"type":"user","message":{"role":"user","content":"hello world"}}"#;
    let turns = parse_transcript(raw);
    assert_eq!(turns.len(), 1);
    assert_eq!(turns[0].0, "user");
    assert_eq!(turns[0].1, "hello world");
}

#[test]
fn parse_transcript_handles_array_content() {
    let raw = r#"{"type":"assistant","message":{"role":"assistant","content":[{"type":"text","text":"hi there"}]}}"#;
    let turns = parse_transcript(raw);
    assert_eq!(turns.len(), 1);
    assert_eq!(turns[0].0, "assistant");
    assert_eq!(turns[0].1, "hi there");
}

#[test]
fn parse_transcript_skips_non_text_blocks_in_array() {
    let raw = r#"{"type":"user","message":{"role":"user","content":[{"type":"tool_use","id":"x"},{"type":"text","text":"actual text"}]}}"#;
    let turns = parse_transcript(raw);
    assert_eq!(turns.len(), 1);
    assert_eq!(turns[0].1, "actual text");
}

#[test]
fn transcripts_keep_order_and_skip_what_is_no_turn() {
    let raw = concat_all(&[
        "\n",
        "  {\"type\":\"user\",\"message\":{\"content\":\"one\"}}  \r\n",
        "not json\n",
        "{\"type\":\"user\"}\n",
        "{\"type\":\"user\",\"message\":{}}\n",
        "{\"type\":\"user\",\"message\":{\"content\":\"\"}}\n",
        "{\"type\":\"user\",\"message\":{\"content\":5}}\n",
        "{\"type\":7,\"message\":{\"content\":\"x\"}}\n",
        "{\"type\":\"user\",\"message\":{\"content\":[]}}\n",
        "{\"type\":\"user\",\"message\":{\"content\":[{\"type\":\"text\"}]}}\n",
        "{\"type\":\"assistant\",\"message\":{\"content\":[{\"type\":\"text\",\"text\":\"a\"},",
        "{\"type\":\"image\",\"text\":\"z\"},{\"type\":\"text\",\"text\":\"b\"}]}}\n",
        "[1]\n",
        "{\"type\":\"user\",\"message\":{\"content\":\"last\"}}",
    ]);
    let turns = parse_transcript(&raw);
    let expected: Vec<(String, String)> = [("user", "one"), ("assistant", "a b"), ("user", "last")]
        .iter()
        .map(|(r, t)| (r.to_string(), t.to_string()))
        .collect();
    assert_eq!(turns, expected);
    assert_eq!(format_conversation(&turns), "USER: one\nASSISTANT: a b\nUSER: last\n");
    assert_eq!(format_conversation(&vec![]), "");
}

fn concat_all(parts: &[&str]) -> String {
    parts.join("")
}

#[test]
fn roles_are_written_in_upper_case() {
    let turns = vec![("straße".to_string(), "x".to_string())];
    assert_eq!(format_conversation(&turns), "STRASSE: x\n");
}

#[test]
fn heuristic_extract_skips_short_messages() {
    let turns = vec![("user".to_string(), "short".to_string())];
    assert!(heuristic_extract(&turns).is_empty());
}

#[test]
fn heuristic_extract_skips_questions() {
    let turns = vec![("user".to_string(), "What is the best way to do this?".to_string())];
    assert!(heuristic_extract(&turns).is_empty());
}

#[test]
fn heuristic_extract_skips_assistant_turns() {
    let turns = vec![(
        "assistant".to_string(),
        "I always prefer tabs over spaces in my config".to_string(),
    )];
    assert!(heuristic_extract(&turns).is_empty());
}

#[test]
fn heuristic_extract_detects_semantic_prefer() {
    let turns =
        vec![("user".to_string(), "I prefer tabs over spaces for indentation".to_string())];
    let candidates = heuristic_extract(&turns);
    assert_eq!(candidates.len(), 1);
    assert_eq!(candidates[0].memory_type, "semantic");
    assert!((value(candidates[0].importance) - 0.7).abs() < f32::EPSILON);
}

#[test]
fn heuristic_extract_detects_semantic_team_stack() {
    let turns =
        vec![("user".to_string(), "We use pnpm for package management in our repo".to_string())];
    let candidates = heuristic_extract(&turns);
    assert_eq!(candidates.len(), 1);
    assert_eq!(candidates[0].memory_type, "semantic");
    assert!((value(candidates[0].importance) - 0.8).abs() < f32::EPSILON);
}

#[test]
fn heuristic_extract_detects_procedural_steps() {
    let turns = vec![(
        "user".to_string(),
        "Here are the steps to deploy the service to production".to_string(),
    )];
    let candidates = heuristic_extract(&turns);
    assert_eq!(candidates.len(), 1);
    assert_eq!(candidates[0].memory_type, "procedural");
    assert!((value(candidates[0].importance) - 0.75).abs() < f32::EPSILON);
}

#[test]
fn heuristic_extract_detects_episodic_long_message() {
    let turns = vec![(
        "user".to_string(),
        "This morning we had a long discussion about the architecture".to_string(),
    )];
    let candidates = heuristic_extract(&turns);
    assert_eq!(candidates.len(), 1);
    assert_eq!(candidates[0].memory_type, "episodic");
    assert!((value(candidates[0].importance) - 0.4).abs() < f32::EPSILON);
}

#[test]
fn the_rules_go_by_bytes_and_lower_case() {
    // Fourteen bytes, then fifteen.
    assert_eq!(classify("I LOVE cats!!!"), None);
    assert_eq!(classify("I LOVE cats!!!!").map(|c| c.0), Some("semantic"));
    // Nine characters, but eighteen bytes.
    assert_eq!(classify("ÄÖÜ hate ÄÖÜ").map(|c| c.0), Some("semantic"));
    // Thirty bytes are too few for an event, and thirty-one are enough.
    assert_eq!(classify(&"x".repeat(30)), None);
    assert_eq!(classify(&"x".repeat(31)).map(|c| value(c.1)), Some(0.4));
    assert_eq!(classify("I prefer tabs, right? \n\t"), None);
    assert_eq!(classify("I prefer tabs? Yes.").map(|c| c.0), Some("semantic"));
    assert_eq!(classify("OUR STACK is plain").map(|c| value(c.1)), Some(0.8));
    assert_eq!(classify("To run: make it so").map(|c| c.0), Some("procedural"));
}

fn single(n: Number) -> Score {
    let x = match n {
        Number::Unsigned(n) => n as f64,
        Number::Negative(n) => n as f64,
        Number::Double(bits) => f64::from_bits(bits),
        Number::Single(s) => f32::from_bits(s.bits) as f64,
    };
    Score::from_bits((x as f32).to_bits())
}

#[test]
fn extractor_output_is_read_item_by_item() {
    let output = r#"[
        {"content": "a", "type": "semantic", "importance": 0.8},
        {"type": "semantic"},
        {"content": "b"},
        {"content": 5},
        {"content": "c", "type": 1, "importance": "high"},
        {"content": "d", "importance": 1}
    ]"#;
    let found = read_extractor_output(output, single).unwrap();
    let shown: Vec<(String, String, f32)> = found
        .iter()
        .map(|c| (c.content.clone(), c.memory_type.clone(), value(c.importance)))
        .collect();
    let expected = vec![
        ("a".to_string(), "semantic".to_string(), 0.8),
        ("b".to_string(), "episodic".to_string(), 0.5),
        ("c".to_string(), "episodic".to_string(), 0.5),
        ("d".to_string(), "episodic".to_string(), 1.0),
    ];
    assert_eq!(shown, expected);
    assert!(read_extractor_output("{}", single).is_none());
    assert!(read_extractor_output("oops", single).is_none());
    assert!(read_extractor_output("[]", single).unwrap().is_empty());
}

#[test]
fn items_without_a_content_are_no_candidates() {
    let member = |key: &str, value: &str| (key.to_owned(), Json::Text(value.to_owned()));
    let items = vec![
        Json::Null,
        Json::Object(vec![member("type", "semantic")]),
        Json::Object(vec![member("content", "a"), member("type", "procedural")]),
    ];
    let found = listed_candidates(&items, single);
    assert_eq!(found.len(), 1);
    assert_eq!(found[0].content, "a");
    assert_eq!(found[0].memory_type, "procedural");
    assert_eq!(value(found[0].importance), 0.5);
}

#[test]
fn candidates_are_judged_by_what_is_recalled() {
    let candidate = ExtractCandidate {
        content: "tabs".to_owned(),
        memory_type: "SEMANTIC".to_owned(),
        importance: single(Number::Unsigned(1)),
    };
    assert_eq!(judge(&candidate, "I use tabs", false), Verdict::Duplicate);
    assert_eq!(judge(&candidate, "I use tabs", true), Verdict::Duplicate);
    assert_eq!(judge(&candidate, "", true), Verdict::Preview);
    assert_eq!(judge(&candidate, "tab s", false), Verdict::Store(MemoryType::Semantic));
}
