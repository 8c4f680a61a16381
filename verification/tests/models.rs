use memory_store::manager::apply_patch;
use memory_store::models::{fresh_id, MemoryEntry, MemoryPatch, MemoryTier, MemoryType, Timestamp};
use memory_store::score::Score;
use memory_store::MemoryError;

fn score(x: f32) -> Score {
    Score::from_bits(x.to_bits())
}

fn value(s: Score) -> f32 {
    f32::from_bits(s.bits)
}

fn show(s: Score) -> String {
    value(s).to_string()
}

fn fresh_entry(memory_type: MemoryType) -> MemoryEntry {
    MemoryEntry::builder("test content", memory_type).build(show).expect("valid entry")
}

#[test]
fn tier_working_is_hot() {
    let entry = fresh_entry(MemoryType::Working);
    assert_eq!(entry.tier(), MemoryTier::Hot);
}

#[test]
fn tier_semantic_is_warm() {
    let entry = fresh_entry(MemoryType::Semantic);
    assert_eq!(entry.tier(), MemoryTier::Warm);
}

#[test]
fn tier_high_access_count_is_warm() {
    let mut entry = fresh_entry(MemoryType::Episodic);
    entry.access_count = 6;
    assert_eq!(entry.tier(), MemoryTier::Warm);
}

#[test]
fn tier_exactly_five_access_episodic_is_cold() {
    let mut entry = fresh_entry(MemoryType::Episodic);
    entry.access_count = 5; // exactly 5, not > 5
    assert_eq!(entry.tier(), MemoryTier::Cold);
}

#[test]
fn tier_procedural_low_access_is_cold() {
    let entry = fresh_entry(MemoryType::Procedural);
    assert_eq!(entry.tier(), MemoryTier::Cold);
}

#[test]
fn tier_of_working_memory_ignores_accesses() {
    let mut entry = fresh_entry(MemoryType::Working);
    entry.access_count = 100;
    assert_eq!(entry.tier(), MemoryTier::Hot);
}

#[test]
fn builder_happy_path() {
    let entry = MemoryEntry::builder("Remember Python preference", MemoryType::Semantic)
        .user_id("alice")
        .agent_id("agent_01")
        .importance(score(0.9))
        .confidence(score(0.95))
        .entities(vec!["Python".to_string(), "Alice".to_string()])
        .tags(vec!["preferences".to_string()])
        .build(show)
        .unwrap();

    assert_eq!(entry.content, "Remember Python preference");
    assert_eq!(entry.memory_type, MemoryType::Semantic);
    assert_eq!(entry.user_id.as_deref(), Some("alice"));
    assert_eq!(entry.agent_id.as_deref(), Some("agent_01"));
    assert!((value(entry.importance) - 0.9).abs() < f32::EPSILON);
    assert!((value(entry.confidence) - 0.95).abs() < f32::EPSILON);
    assert_eq!(entry.entities, vec!["Python", "Alice"]);
    assert_eq!(entry.tags, vec!["preferences"]);
    assert_eq!(entry.access_count, 0);
    assert!(entry.issue_number.is_none());
    assert!(entry.last_accessed.is_none());
}

#[test]
fn builder_defaults() {
    let entry = MemoryEntry::builder("some content", MemoryType::Episodic).build(show).unwrap();
    assert!((value(entry.importance) - 0.5).abs() < f32::EPSILON);
    assert!((value(entry.confidence) - 0.8).abs() < f32::EPSILON);
    assert!(entry.entities.is_empty());
    assert!(entry.tags.is_empty());
    assert!(entry.supersedes.is_empty());
    assert!(entry.related_to.is_empty());
}

#[test]
fn builder_empty_content_returns_error() {
    let result = MemoryEntry::builder("", MemoryType::Episodic).build(show);
    assert!(matches!(result, Err(MemoryError::InvalidInput(_))));
}

#[test]
fn builder_out_of_range_importance_returns_error() {
    let result = MemoryEntry::builder("test", MemoryType::Episodic).importance(score(1.5)).build(show);
    assert!(matches!(result, Err(MemoryError::InvalidInput(_))));
}

#[test]
fn builder_out_of_range_confidence_returns_error() {
    let result = MemoryEntry::builder("test", MemoryType::Episodic).confidence(score(-0.1)).build(show);
    assert!(matches!(result, Err(MemoryError::InvalidInput(_))));
}

#[test]
fn builder_errors_come_in_order() {
    let bad = || {
        MemoryEntry::builder("", MemoryType::Episodic)
            .importance(score(2.0))
            .confidence(score(2.0))
    };
    assert_eq!(
        bad().build(show).unwrap_err().to_string(),
        "Invalid input: content must not be empty"
    );
    let no_content = MemoryEntry::builder("x", MemoryType::Episodic)
        .importance(score(f32::NAN))
        .confidence(score(2.0));
    assert_eq!(
        no_content.build(show).unwrap_err().to_string(),
        "Invalid input: importance must be in [0.0, 1.0], got NaN"
    );
    let confidence = MemoryEntry::builder("x", MemoryType::Episodic).confidence(score(1.0001));
    assert_eq!(
        confidence.build(show).unwrap_err().to_string(),
        "Invalid input: confidence must be in [0.0, 1.0], got 1.0001"
    );
}

#[test]
fn builder_errors_tell_the_number() {
    let built = |b: memory_store::MemoryEntryBuilder| b.build(show);
    let builder = || MemoryEntry::builder("x", MemoryType::Episodic);
    assert_eq!(
        built(builder().importance(score(1.5))).unwrap_err().to_string(),
        "Invalid input: importance must be in [0.0, 1.0], got 1.5"
    );
    assert_eq!(
        built(builder().confidence(score(-0.1))).unwrap_err().to_string(),
        "Invalid input: confidence must be in [0.0, 1.0], got -0.1"
    );
    assert_eq!(
        built(MemoryEntry::builder("", MemoryType::Episodic)).unwrap_err().to_string(),
        "Invalid input: content must not be empty"
    );
    assert_eq!(built(builder()).unwrap().content, "x");
}

#[test]
fn builder_accepts_the_bounds() {
    for x in [0.0f32, -0.0, 1.0, f32::MIN_POSITIVE] {
        let built = MemoryEntry::builder("x", MemoryType::Episodic)
            .importance(score(x))
            .confidence(score(x))
            .build(show);
        assert!(built.is_ok(), "{x} should be accepted");
    }
    for x in [f32::INFINITY, f32::NEG_INFINITY, -f32::MIN_POSITIVE, 1.0 + f32::EPSILON] {
        let built = MemoryEntry::builder("x", MemoryType::Episodic).importance(score(x)).build(show);
        assert!(built.is_err(), "{x} should be refused");
    }
}

#[test]
fn build_with_takes_the_identifier_and_the_time() {
    let at = Timestamp { secs: 1_700_000_000, nanos: 5 };
    let entry = MemoryEntry::builder("x", MemoryType::Procedural)
        .session_id("sess_1")
        .supersedes(vec![1, 2])
        .related_to(vec![3])
        .build_with(42, at, show)
        .unwrap();
    assert_eq!(entry.memory_id, 42);
    assert_eq!(entry.created_at, at);
    assert_eq!(entry.session_id.as_deref(), Some("sess_1"));
    assert_eq!(entry.supersedes, vec![1, 2]);
    assert_eq!(entry.related_to, vec![3]);
    let refused = MemoryEntry::builder("x", MemoryType::Episodic)
        .importance(score(2.5))
        .build_with(42, at, show);
    assert_eq!(
        refused.unwrap_err().to_string(),
        "Invalid input: importance must be in [0.0, 1.0], got 2.5"
    );
}

#[test]
fn build_gives_fresh_version_four_identifiers_and_the_current_time() {
    let before = chrono::Utc::now().timestamp();
    let a = fresh_entry(MemoryType::Episodic);
    let b = fresh_entry(MemoryType::Episodic);
    let after = chrono::Utc::now().timestamp();
    assert_ne!(a.memory_id, b.memory_id);
    let id = uuid::Uuid::from_u128(a.memory_id);
    assert_eq!(id.get_version_num(), 4);
    assert_eq!(id.get_variant(), uuid::Variant::RFC4122);
    assert!(before <= a.created_at.secs && a.created_at.secs <= after);
    assert!(a.created_at.nanos < 1_000_000_000);
    assert_eq!(a.age_days(b.created_at), Some(0));
}

#[test]
fn fresh_identifiers_are_hyphenated() {
    let id = fresh_id();
    let parsed = uuid::Uuid::parse_str(&id).expect("a well-formed identifier");
    assert_eq!(parsed.to_string(), id);
    assert_eq!(parsed.get_version_num(), 4);
    assert_eq!(id.len(), 36);
    assert_ne!(id, fresh_id());
}

#[test]
fn age_is_counted_in_whole_days() {
    let at = |secs: i64| Timestamp { secs, nanos: 0 };
    let mut entry = fresh_entry(MemoryType::Episodic);
    entry.created_at = at(1_000_000);
    assert_eq!(entry.age_days(at(1_000_000)), Some(0));
    assert_eq!(entry.age_days(at(1_000_000 + 86_399)), Some(0));
    assert_eq!(entry.age_days(at(1_000_000 + 86_400)), Some(1));
    assert_eq!(entry.age_days(at(1_000_000 + 90 * 86_400)), Some(90));
    assert_eq!(entry.age_days(at(1_000_000 - 86_399)), Some(0));
    assert_eq!(entry.age_days(at(1_000_000 - 86_400)), Some(-1));
    let late = Timestamp { secs: 1_086_399, nanos: 999_999_999 };
    assert_eq!(entry.age_days(late), Some(0));
    assert_eq!(entry.age_days(Timestamp { secs: i64::MAX, nanos: 0 }), None);
    let (first, last) = (at(-8_334_601_228_800), at(8_210_266_876_799));
    assert_eq!(entry.age_days(at(first.secs - 1)), None);
    assert_eq!(entry.age_days(at(last.secs + 1)), None);
    entry.created_at = first;
    assert_eq!(entry.age_days(last), Some((last.secs - first.secs) / 86_400));
    assert_eq!(entry.age_days(last), Some(191_491_528));
    let leaping = Timestamp { secs: last.secs, nanos: 1_999_999_999 };
    assert_eq!(entry.age_days(leaping), Some(191_491_529));
    assert_eq!(entry.age_days(Timestamp { secs: 0, nanos: 2_000_000_000 }), None);
}

#[test]
fn memory_type_display_from_str_round_trip() {
    for variant in &[
        MemoryType::Episodic,
        MemoryType::Semantic,
        MemoryType::Procedural,
        MemoryType::Working,
    ] {
        let s = variant.to_string();
        let parsed: MemoryType = s.parse().expect("round-trip should succeed");
        assert_eq!(variant, &parsed, "round-trip failed for {variant:?}");
    }
}

#[test]
fn memory_type_from_str_case_insensitive() {
    assert_eq!("EPISODIC".parse::<MemoryType>().unwrap(), MemoryType::Episodic);
    assert_eq!("Semantic".parse::<MemoryType>().unwrap(), MemoryType::Semantic);
}

#[test]
fn memory_type_from_str_unknown_returns_error() {
    let result = "unknown_type".parse::<MemoryType>();
    assert!(matches!(result, Err(MemoryError::InvalidInput(_))));
}

#[test]
fn memory_tier_display_from_str_round_trip() {
    for variant in &[MemoryTier::Hot, MemoryTier::Warm, MemoryTier::Cold] {
        let s = variant.to_string();
        let parsed: MemoryTier = s.parse().expect("round-trip should succeed");
        assert_eq!(variant, &parsed, "round-trip failed for {variant:?}");
    }
}

#[test]
fn unknown_names_are_quoted_in_the_error() {
    assert_eq!(
        "Fancy\"".parse::<MemoryType>().unwrap_err().to_string(),
        "Invalid input: unknown memory type: \"fancy\\\"\"; expected one of: episodic, semantic, \
         procedural, working"
    );
    assert_eq!(
        "TEPID".parse::<MemoryTier>().unwrap_err().to_string(),
        "Invalid input: unknown memory tier: \"tepid\"; expected one of: hot, warm, cold"
    );
    assert!(" hot".parse::<MemoryTier>().is_err());
    // The Kelvin sign is lower-cased to an ordinary k.
    assert_eq!("WOR\u{212a}ING".parse::<MemoryType>().unwrap(), MemoryType::Working);
}

#[test]
fn patches_leave_identity_alone_and_apply_once() {
    let mut entry = fresh_entry(MemoryType::Episodic);
    entry.issue_number = Some(7);
    let id = entry.memory_id;
    let created = entry.created_at;
    let patch = || MemoryPatch {
        memory_type: Some(MemoryType::Semantic),
        user_id: Some("bob".to_owned()),
        agent_id: Some("agent".to_owned()),
        session_id: Some("session".to_owned()),
        confidence: Some(score(0.25)),
        access_count: Some(3),
        last_accessed: Some(Timestamp { secs: 9, nanos: 1 }),
        entities: Some(vec!["E".to_owned()]),
        tags: Some(vec!["t".to_owned()]),
        structured_data: Some(memory_store::json::Json::Null),
        supersedes: Some(vec![1]),
        related_to: Some(vec![2]),
        ..Default::default()
    };
    apply_patch(&mut entry, patch());
    let once = format!("{entry:?}");
    apply_patch(&mut entry, patch());
    assert_eq!(once, format!("{entry:?}"));
    assert_eq!(entry.memory_id, id);
    assert_eq!(entry.issue_number, Some(7));
    assert_eq!(entry.created_at, created);
    assert_eq!(entry.content, "test content");
    assert_eq!(entry.memory_type, MemoryType::Semantic);
    assert_eq!(entry.user_id.as_deref(), Some("bob"));
    assert_eq!(entry.access_count, 3);
    assert_eq!(entry.last_accessed, Some(Timestamp { secs: 9, nanos: 1 }));
    assert_eq!(entry.entities, vec!["E"]);
    assert_eq!(entry.supersedes, vec![1]);
    let before = format!("{entry:?}");
    apply_patch(&mut entry, MemoryPatch::default());
    assert_eq!(before, format!("{entry:?}"));
}

#[test]
fn cold_entries_become_outdated() {
    let at = |days: i64| Timestamp { secs: 1_000_000 + days * 86_400, nanos: 0 };
    let mut entry = fresh_entry(MemoryType::Episodic);
    entry.created_at = at(0);
    assert!(!entry.is_outdated(at(90), 90));
    assert!(entry.is_outdated(at(91), 90));
    assert!(!entry.is_outdated(Timestamp { secs: i64::MAX, nanos: 0 }, 90));
    entry.access_count = 6;
    assert!(!entry.is_outdated(at(1000), 90));
    entry.memory_type = MemoryType::Semantic;
    entry.access_count = 0;
    assert!(!entry.is_outdated(at(1000), 90));
}

#[test]
fn leap_seconds_are_counted() {
    // The leap second at the end of 2016, and the starts of the days around it.
    let leap = |nanos: u32| Timestamp { secs: 1_483_228_799, nanos };
    let at = |secs: i64| Timestamp { secs, nanos: 0 };
    let midnight = 1_483_228_800i64;
    let mut entry = fresh_entry(MemoryType::Episodic);

    // No time of day is later than that of this leap second, so it is counted for none.
    entry.created_at = leap(1_500_000_000);
    assert_eq!(entry.age_days(at(midnight)), Some(0));
    assert_eq!(entry.age_days(at(midnight + 86_399)), Some(0));
    assert_eq!(entry.age_days(Timestamp { secs: midnight + 86_399, nanos: 500_000_000 }), Some(0));
    assert_eq!(entry.age_days(Timestamp { secs: midnight + 86_400, nanos: 499_999_999 }), Some(0));
    assert_eq!(entry.age_days(Timestamp { secs: midnight + 86_400, nanos: 500_000_000 }), Some(1));
    assert_eq!(entry.age_days(at(midnight + 100 * 86_400)), Some(99));
    assert_eq!(entry.age_days(at(midnight + 100 * 86_400 + 1)), Some(100));

    // A leap second at noon is counted for the rest of that day.
    let noon = 1_483_271_999i64;
    entry.created_at = Timestamp { secs: noon, nanos: 1_000_000_000 };
    assert_eq!(entry.age_days(at(noon + 86_400)), Some(0));
    assert_eq!(entry.age_days(at(noon + 86_401)), Some(1));
    entry.created_at = at(noon + 1);
    assert_eq!(
        entry.age_days(Timestamp { secs: noon - 86_400, nanos: 1_000_000_000 }),
        Some(-1)
    );

    // A second that is not the last of its minute has no leap second behind it.
    entry.created_at = at(0);
    assert_eq!(entry.age_days(Timestamp { secs: 58, nanos: 1_000_000_000 }), None);
    assert_eq!(entry.age_days(Timestamp { secs: 59, nanos: 1_000_000_000 }), Some(0));
    assert_eq!(entry.age_days(Timestamp { secs: -1, nanos: 1_000_000_000 }), Some(0));
    assert_eq!(entry.age_days(Timestamp { secs: 59, nanos: 2_000_000_000 }), None);
}
