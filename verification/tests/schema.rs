use memory_store::json::Json;
use memory_store::models::{MemoryEntry, MemoryType, Timestamp};
use memory_store::schema::{
    format_body, format_header_line, format_title, parse_body, parse_type_from_title,
    strip_helper_lines, MemoryMeta,
};
use memory_store::score::Score;
use memory_store::{MemoryError, Result};
use serde_json::Value;

fn time_text(t: Timestamp) -> String {
    chrono::DateTime::from_timestamp(t.secs, t.nanos).unwrap().to_rfc3339()
}

fn text_time(s: &str) -> Timestamp {
    let t = chrono::DateTime::parse_from_rfc3339(s).unwrap();
    Timestamp { secs: t.timestamp(), nanos: t.timestamp_subsec_nanos() }
}

fn optional(s: &Option<String>) -> Value {
    s.as_ref().map_or(Value::Null, |s| Value::from(s.as_str()))
}

fn encode(m: &MemoryMeta) -> String {
    let mut o = serde_json::Map::new();
    o.insert("memory_id".into(), uuid::Uuid::from_u128(m.memory_id).to_string().into());
    o.insert("type".into(), m.memory_type.to_string().into());
    o.insert("importance".into(), f32::from_bits(m.importance.bits).into());
    o.insert("confidence".into(), f32::from_bits(m.confidence.bits).into());
    o.insert("user_id".into(), optional(&m.user_id));
    o.insert("agent_id".into(), optional(&m.agent_id));
    o.insert("session_id".into(), optional(&m.session_id));
    o.insert("access_count".into(), m.access_count.into());
    o.insert("last_accessed".into(), optional(&m.last_accessed.map(time_text)));
    o.insert("created_at".into(), time_text(m.created_at).into());
    o.insert("entities".into(), m.entities.clone().into());
    o.insert("tags".into(), m.tags.clone().into());
    o.insert("supersedes".into(), m.supersedes.clone().into());
    o.insert("related_to".into(), m.related_to.clone().into());
    o.insert("structured_data".into(), Value::Object(serde_json::Map::new()));
    serde_json::to_string_pretty(&Value::Object(o)).unwrap()
}

fn texts_of(v: &Value) -> Vec<String> {
    v.as_array().unwrap().iter().map(|s| s.as_str().unwrap().to_owned()).collect()
}

fn numbers_of(v: &Value) -> Vec<u64> {
    v.as_array().unwrap().iter().map(|s| s.as_u64().unwrap()).collect()
}

fn single(v: &Value) -> Score {
    Score::from_bits((v.as_f64().unwrap() as f32).to_bits())
}

fn decode(text: &str) -> Result<MemoryMeta> {
    let v: Value = serde_json::from_str(text)?;
    let string = |key: &str| v[key].as_str().map(str::to_owned);
    Ok(MemoryMeta {
        memory_id: uuid::Uuid::parse_str(v["memory_id"].as_str().unwrap()).unwrap().as_u128(),
        memory_type: v["type"].as_str().unwrap().parse()?,
        importance: single(&v["importance"]),
        confidence: single(&v["confidence"]),
        user_id: string("user_id"),
        agent_id: string("agent_id"),
        session_id: string("session_id"),
        access_count: v["access_count"].as_u64().unwrap() as u32,
        last_accessed: v["last_accessed"].as_str().map(text_time),
        created_at: text_time(v["created_at"].as_str().unwrap()),
        entities: texts_of(&v["entities"]),
        tags: texts_of(&v["tags"]),
        supersedes: numbers_of(&v["supersedes"]),
        related_to: numbers_of(&v["related_to"]),
        structured_data: Json::Object(vec![]),
    })
}

fn sample_entry() -> MemoryEntry {
    let now = chrono::Utc::now();
    let now = Timestamp { secs: now.timestamp(), nanos: now.timestamp_subsec_nanos() };
    MemoryEntry {
        memory_id: uuid::Uuid::parse_str("550e8400-e29b-41d4-a716-446655440000").unwrap().as_u128(),
        issue_number: None,
        content: "User strongly prefers Python for all backend services.".to_owned(),
        memory_type: MemoryType::Semantic,
        user_id: Some("alice".to_owned()),
        agent_id: Some("agent_01".to_owned()),
        session_id: Some("sess_abc123".to_owned()),
        importance: Score::from_bits(0.9f32.to_bits()),
        confidence: Score::from_bits(0.95f32.to_bits()),
        access_count: 4,
        last_accessed: Some(now),
        created_at: now,
        entities: vec!["Alice".to_owned(), "Python".to_owned()],
        tags: vec!["preferences".to_owned(), "language".to_owned()],
        structured_data: Json::Object(vec![]),
        supersedes: vec![12, 17],
        related_to: vec![8],
    }
}

fn there_and_back(entry: &MemoryEntry) -> MemoryEntry {
    let title = format_title(entry);
    let body = format_body(entry, encode);
    parse_body(&title, &body, decode).expect("parse_body should succeed")
}

#[test]
fn round_trip_recovers_all_fields() {
    let entry = sample_entry();
    let recovered = there_and_back(&entry);

    assert_eq!(recovered.memory_id, entry.memory_id);
    assert_eq!(recovered.memory_type, entry.memory_type);
    assert_eq!(recovered.content, entry.content);
    assert_eq!(recovered.user_id, entry.user_id);
    assert_eq!(recovered.agent_id, entry.agent_id);
    assert_eq!(recovered.session_id, entry.session_id);
    let importance = |e: &MemoryEntry| f32::from_bits(e.importance.bits);
    let confidence = |e: &MemoryEntry| f32::from_bits(e.confidence.bits);
    assert!((importance(&recovered) - importance(&entry)).abs() < 1e-5);
    assert!((confidence(&recovered) - confidence(&entry)).abs() < 1e-5);
    assert_eq!(recovered.access_count, entry.access_count);
    assert_eq!(recovered.entities, entry.entities);
    assert_eq!(recovered.tags, entry.tags);
    assert_eq!(recovered.supersedes, entry.supersedes);
    assert_eq!(recovered.related_to, entry.related_to);
    assert_eq!(recovered.last_accessed, entry.last_accessed);
    assert_eq!(recovered.created_at, entry.created_at);
    assert_eq!(recovered.issue_number, None);
}

#[test]
fn format_title_episodic() {
    let mut entry = sample_entry();
    entry.memory_type = MemoryType::Episodic;
    entry.content = "User asked about deployment".to_owned();
    assert!(format_title(&entry).starts_with("[episodic] "));
    assert_eq!(format_title(&entry), "[episodic] User asked about deployment");
}

#[test]
fn format_title_semantic() {
    let entry = sample_entry();
    assert!(format_title(&entry).starts_with("[semantic] "));
}

#[test]
fn format_title_procedural() {
    let mut entry = sample_entry();
    entry.memory_type = MemoryType::Procedural;
    assert!(format_title(&entry).starts_with("[procedural] "));
}

#[test]
fn format_title_working() {
    let mut entry = sample_entry();
    entry.memory_type = MemoryType::Working;
    assert!(format_title(&entry).starts_with("[working] "));
}

#[test]
fn format_title_truncates_at_100_chars() {
    let mut entry = sample_entry();
    entry.content = "a".repeat(200);
    let title = format_title(&entry);
    // "[semantic] " prefix is 11 chars; content portion should be exactly 100
    assert_eq!(title.len(), "[semantic] ".len() + 100);
}

#[test]
fn titles_take_the_first_line_only() {
    let mut entry = sample_entry();
    for (content, title) in [
        ("", "[semantic] "),
        ("\nsecond", "[semantic] "),
        ("  first \t\r\nsecond", "[semantic] first"),
        ("first\rstill first\nsecond", "[semantic] first\rstill first"),
        ("ä".repeat(101).as_str(), format!("[semantic] {}", "ä".repeat(100)).as_str()),
    ] {
        entry.content = content.to_owned();
        assert_eq!(format_title(&entry), title);
        let first_line = content.lines().next().unwrap_or("").trim();
        let summary: String = first_line.chars().take(100).collect();
        assert_eq!(format_title(&entry), format!("[semantic] {summary}"));
    }
}

#[test]
fn parse_body_missing_meta_returns_invalid_input() {
    let result =
        parse_body("[semantic] title", "just some content without a meta block", decode);
    assert!(
        matches!(result, Err(MemoryError::InvalidInput(_))),
        "expected InvalidInput, got: {result:?}"
    );
}

#[test]
fn parse_body_malformed_json_returns_parse_error() {
    let body = "some content\n\n<!-- MEMORY_META\n{not valid json\n-->";
    let result = parse_body("[semantic] title", body, decode);
    assert!(
        matches!(result, Err(MemoryError::Parse(_))),
        "expected Parse error, got: {result:?}"
    );
}

#[test]
fn parse_type_semantic() {
    assert_eq!(parse_type_from_title("[semantic] foo"), Some(MemoryType::Semantic));
}

#[test]
fn parse_type_episodic() {
    assert_eq!(parse_type_from_title("[episodic] event"), Some(MemoryType::Episodic));
}

#[test]
fn parse_type_procedural() {
    assert_eq!(
        parse_type_from_title("[procedural] how to deploy"),
        Some(MemoryType::Procedural)
    );
}

#[test]
fn parse_type_working() {
    assert_eq!(parse_type_from_title("[working] current task"), Some(MemoryType::Working));
}

#[test]
fn parse_type_no_bracket_returns_none() {
    assert_eq!(parse_type_from_title("no bracket here"), None);
}

#[test]
fn parse_type_unknown_type_returns_none() {
    assert_eq!(parse_type_from_title("[unknown] something"), None);
}

#[test]
fn title_prefixes_agree_with_the_pattern() {
    let pattern = regex::Regex::new(r"^\[([a-z]+)\]\s*").unwrap();
    for title in [
        "",
        "[",
        "[]",
        "[semantic",
        "[semantic]",
        "[semantic]x",
        "[semantic] x",
        " [semantic] x",
        "[Semantic] x",
        "[semantics] x",
        "[seman] x",
        "[working]\n[semantic]",
        "x\n[semantic] y",
        "[procedural]]",
        "[episodic ] x",
    ] {
        let expected: Option<MemoryType> =
            pattern.captures(title).and_then(|c| c.get(1).unwrap().as_str().parse().ok());
        assert_eq!(parse_type_from_title(title), expected, "{title:?}");
    }
}

#[test]
fn titles_name_their_type() {
    for t in [
        MemoryType::Episodic,
        MemoryType::Semantic,
        MemoryType::Procedural,
        MemoryType::Working,
    ] {
        let mut entry = sample_entry();
        entry.memory_type = t;
        entry.content = "[working] odd".to_owned();
        assert_eq!(parse_type_from_title(&format_title(&entry)), Some(t));
    }
}

#[test]
fn special_characters_survive_round_trip() {
    let mut entry = sample_entry();
    entry.content = "Content with `backticks`, <html>, &amp; and \"quotes\"".to_owned();
    assert_eq!(there_and_back(&entry).content, entry.content);
}

#[test]
fn entities_and_tags_in_body_match_json_metadata() {
    let entry = sample_entry();
    let body = format_body(&entry, encode);

    assert!(body.contains("**Entities:** Alice, Python"), "entities line missing");
    assert!(body.contains("**Tags:** preferences, language"), "tags line missing");

    let pattern = regex::Regex::new(r"(?s)<!-- MEMORY_META\n(.*?)\n-->").unwrap();
    let caps = pattern.captures(&body).expect("MEMORY_META block should be present");
    let json_str = caps.get(1).unwrap().as_str();
    let meta = decode(json_str).expect("JSON should be valid");
    assert_eq!(meta.entities, entry.entities);
    assert_eq!(meta.tags, entry.tags);
}

#[test]
fn bodies_have_the_documented_form() {
    let mut entry = sample_entry();
    entry.content = "Hello".to_owned();
    entry.tags = vec![];
    assert_eq!(
        format_body(&entry, |_| "{json}".to_owned()),
        "Hello\n\n**Entities:** Alice, Python\n**Tags:**\n\n<!-- MEMORY_META\n{json}\n-->"
    );
    assert_eq!(format_header_line("**X:**", &vec![]), "**X:**");
    assert_eq!(
        format_header_line("**X:**", &vec!["a".to_owned(), "b".to_owned()]),
        "**X:** a, b"
    );
}

#[test]
fn blocks_agree_with_the_pattern() {
    let pattern = regex::Regex::new(r"(?s)<!-- MEMORY_META\n(.*?)\n-->").unwrap();
    for body in [
        "",
        "a\n\n<!-- MEMORY_META\nX\n-->",
        "<!-- MEMORY_META\n\n-->",
        "<!-- MEMORY_META\n-->",
        "<!-- MEMORY_META\nX\n--> tail <!-- MEMORY_META\nY\n-->",
        "<!-- MEMORY_META\nX <!-- MEMORY_META\nY\n-->",
        "<!-- MEMORY_META X\n-->",
        "<!-- MEMORY_META\nX-->",
        "a <!-- <!-- MEMORY_META\nX\n-->\n-->",
        "ü<!-- MEMORY_META\nX\nY\n-->",
    ] {
        let seen = std::cell::RefCell::new(None);
        let result = parse_body("", body, |text: &str| {
            *seen.borrow_mut() = Some(text.to_owned());
            let mut meta = MemoryMeta::of(&sample_entry());
            meta.access_count = 99;
            Ok(meta)
        });
        match pattern.captures(body) {
            None => {
                assert!(seen.borrow().is_none());
                assert_eq!(
                    result.unwrap_err().to_string(),
                    "Invalid input: no MEMORY_META block found"
                );
            }
            Some(caps) => {
                assert_eq!(seen.borrow().as_deref(), Some(caps.get(1).unwrap().as_str()));
                let raw = body[..caps.get(0).unwrap().start()].trim();
                assert_eq!(result.unwrap().content, strip_helper_lines(raw));
            }
        }
    }
}

#[test]
fn helper_lines_are_stripped_from_the_end_only() {
    for (raw, left) in [
        ("", ""),
        ("a", "a"),
        ("a\n\n**Entities:** x\n**Tags:**", "a"),
        ("**Tags:** x\na", "**Tags:** x\na"),
        ("a\n  **Tags:** y  \n\n \t\n", "a"),
        ("a\r\nb", "a\nb"),
        ("**Entities:**", ""),
        ("a\n**Entitie", "a\n**Entitie"),
    ] {
        assert_eq!(strip_helper_lines(raw), left, "{raw:?}");
    }
}

#[test]
fn contents_that_look_like_helper_lines_are_changed() {
    let mut entry = sample_entry();
    for (content, read) in [
        ("", ""),
        ("one\ntwo\n\nthree", "one\ntwo\n\nthree"),
        (" leading", "leading"),
        ("trailing\n", "trailing"),
        ("windows\r\nlines", "windows\nlines"),
        ("note\n**Tags:** mine", "note"),
        ("kept \n**Tag** x", "kept \n**Tag** x"),
    ] {
        entry.content = content.to_owned();
        assert_eq!(there_and_back(&entry).content, read, "{content:?}");
    }
}

#[test]
fn entities_with_line_feeds_break_out_of_their_line() {
    let mut entry = sample_entry();
    entry.entities = vec!["a\nb".to_owned()];
    let back = there_and_back(&entry);
    assert_eq!(back.entities, entry.entities);
    assert_ne!(back.content, entry.content);
    entry.entities = vec!["a\n".to_owned()];
    assert_eq!(there_and_back(&entry).content, entry.content);
}
