use memory_store::labels::{
    agent_label, labels_for_entry, tier_label, type_label, user_label, BOOTSTRAP_LABELS,
    STATUS_ACTIVE, TIER_COLD, TIER_HOT, TIER_WARM, TYPE_EPISODIC, TYPE_PROCEDURAL, TYPE_SEMANTIC,
    TYPE_WORKING,
};
use memory_store::models::{MemoryEntry, MemoryTier, MemoryType};
use memory_store::score::Score;

fn minimal_entry(memory_type: MemoryType) -> MemoryEntry {
    MemoryEntry::builder("test content", memory_type)
        .user_id("alice")
        .build(|s: Score| s.bits.to_string())
        .unwrap()
}

#[test]
fn type_label_episodic() {
    assert_eq!(type_label(&MemoryType::Episodic), TYPE_EPISODIC);
}

#[test]
fn type_label_semantic() {
    assert_eq!(type_label(&MemoryType::Semantic), TYPE_SEMANTIC);
}

#[test]
fn type_label_procedural() {
    assert_eq!(type_label(&MemoryType::Procedural), TYPE_PROCEDURAL);
}

#[test]
fn type_label_working() {
    assert_eq!(type_label(&MemoryType::Working), TYPE_WORKING);
}

#[test]
fn tier_label_hot() {
    assert_eq!(tier_label(&MemoryTier::Hot), TIER_HOT);
}

#[test]
fn tier_label_warm() {
    assert_eq!(tier_label(&MemoryTier::Warm), TIER_WARM);
}

#[test]
fn tier_label_cold() {
    assert_eq!(tier_label(&MemoryTier::Cold), TIER_COLD);
}

#[test]
fn user_label_formats_correctly() {
    assert_eq!(user_label("alice"), "user:alice");
}

#[test]
fn agent_label_formats_correctly() {
    assert_eq!(agent_label("bot_01"), "agent:bot_01");
}

#[test]
fn labels_for_entry_includes_type_tier_status_user() {
    let entry = minimal_entry(MemoryType::Episodic);
    let labels = labels_for_entry(&entry);
    assert!(labels.contains(&TYPE_EPISODIC.to_owned()), "missing type label");
    assert!(labels.contains(&TIER_COLD.to_owned()), "missing tier label");
    assert!(labels.contains(&STATUS_ACTIVE.to_owned()), "missing status label");
    assert!(labels.contains(&"user:alice".to_owned()), "missing user label");
}

#[test]
fn labels_for_entry_includes_agent_when_some() {
    let mut entry = minimal_entry(MemoryType::Semantic);
    entry.agent_id = Some("agent_01".to_owned());
    let labels = labels_for_entry(&entry);
    assert!(labels.contains(&"agent:agent_01".to_owned()), "missing agent label");
}

#[test]
fn labels_for_entry_omits_agent_when_none() {
    let entry = minimal_entry(MemoryType::Semantic);
    assert!(entry.agent_id.is_none());
    let labels = labels_for_entry(&entry);
    let has_agent = labels.iter().any(|l| l.starts_with("agent:"));
    assert!(!has_agent, "should not have agent label when agent_id is None");
}

#[test]
fn bootstrap_labels_has_expected_count() {
    assert_eq!(BOOTSTRAP_LABELS.len(), 9);
}

#[test]
fn labels_stand_in_order() {
    let mut entry = minimal_entry(MemoryType::Working);
    entry.agent_id = Some("agent_01".to_owned());
    assert_eq!(
        labels_for_entry(&entry),
        vec!["type:working", "tier:hot", "status:active", "user:alice", "agent:agent_01"]
    );
    entry.user_id = None;
    entry.agent_id = None;
    assert_eq!(labels_for_entry(&entry), vec!["type:working", "tier:hot", "status:active"]);
}

#[test]
fn label_strings_are_the_names_with_a_prefix() {
    let types = [
        MemoryType::Episodic,
        MemoryType::Semantic,
        MemoryType::Procedural,
        MemoryType::Working,
    ];
    for t in types {
        assert_eq!(type_label(&t), format!("type:{}", t.to_string()));
        assert!(BOOTSTRAP_LABELS.contains(&type_label(&t)));
    }
    for t in [MemoryTier::Hot, MemoryTier::Warm, MemoryTier::Cold] {
        assert_eq!(tier_label(&t), format!("tier:{}", t.to_string()));
        assert!(BOOTSTRAP_LABELS.contains(&tier_label(&t)));
    }
    assert!(BOOTSTRAP_LABELS.contains(&"status:active"));
    assert!(BOOTSTRAP_LABELS.contains(&"status:superseded"));
}
