//! The labels that sort and scope memory entries on GitHub.
//!
//! Every entry carries a set of structured labels that drive filtering and retrieval.
//! This module owns the label strings, so that every part of the crate uses the same ones.

use vstd::prelude::*;

use crate::models::{EntryView, MemoryEntry, MemoryTier, MemoryType};
use crate::text::{concat, texts};

verus! {

/// Label for episodic memory entries.
pub const TYPE_EPISODIC: &'static str = "type:episodic";

/// Label for semantic memory entries.
pub const TYPE_SEMANTIC: &'static str = "type:semantic";

/// Label for procedural memory entries.
pub const TYPE_PROCEDURAL: &'static str = "type:procedural";

/// Label for working (hot-tier) memory entries.
pub const TYPE_WORKING: &'static str = "type:working";

/// Label for hot-tier entries (always loaded).
pub const TIER_HOT: &'static str = "tier:hot";

/// Label for warm-tier entries (recent sessions).
pub const TIER_WARM: &'static str = "tier:warm";

/// Label for cold-tier entries (long-term consolidated).
pub const TIER_COLD: &'static str = "tier:cold";

/// Label for active (non-superseded) entries.
pub const STATUS_ACTIVE: &'static str = "status:active";

/// Label for entries that have been consolidated away.
pub const STATUS_SUPERSEDED: &'static str = "status:superseded";

/// All labels that must exist in a repository before the memory system can be used.
pub const BOOTSTRAP_LABELS: [&'static str; 9] = [
    TYPE_EPISODIC,
    TYPE_SEMANTIC,
    TYPE_PROCEDURAL,
    TYPE_WORKING,
    TIER_HOT,
    TIER_WARM,
    TIER_COLD,
    STATUS_ACTIVE,
    STATUS_SUPERSEDED,
];

/// The label of a type.
pub open spec fn label_of_type(t: MemoryType) -> Seq<char> {
    "type:"@ + t.name()
}

/// The label of a tier.
pub open spec fn label_of_tier(t: MemoryTier) -> Seq<char> {
    "tier:"@ + t.name()
}

/// The label that scopes an entry to a user.
pub open spec fn label_of_user(user_id: Seq<char>) -> Seq<char> {
    "user:"@ + user_id
}

/// The label that scopes an entry to an agent.
pub open spec fn label_of_agent(agent_id: Seq<char>) -> Seq<char> {
    "agent:"@ + agent_id
}

/// The labels of an entry: its type, its tier, that it is active, and whom it belongs to.
pub open spec fn entry_labels(e: EntryView) -> Seq<Seq<char>> {
    let always = seq![label_of_type(e.memory_type), label_of_tier(e.tier()), "status:active"@];
    let user = match e.user_id {
        Some(u) => seq![label_of_user(u)],
        None => seq![],
    };
    let agent = match e.agent_id {
        Some(a) => seq![label_of_agent(a)],
        None => seq![],
    };
    always + user + agent
}

/// An entry carries the label of a user only if it belongs to that user.
pub proof fn law_label_names_user(e: EntryView, user_id: Seq<char>)
    ensures
        entry_labels(e).contains(label_of_user(user_id)) <==> e.user_id == Some(user_id),
{
    let label = label_of_user(user_id);
    let all = entry_labels(e);
    reveal_strlit("user:");
    reveal_strlit("type:");
    reveal_strlit("tier:");
    reveal_strlit("agent:");
    reveal_strlit("status:active");
    assert(label[0] == 'u');
    if e.user_id == Some(user_id) {
        assert(all[3] == label);
    }
    if all.contains(label) {
        let i = choose|i: int| 0 <= i < all.len() && all[i] == label;
        assert(label_of_type(e.memory_type)[0] == 't');
        assert(label_of_tier(e.tier())[0] == 't');
        assert("status:active"@[0] == 's');
        if let Some(a) = e.agent_id {
            assert(label_of_agent(a)[0] == 'a');
        }
        if let Some(u) = e.user_id {
            if i == 3 {
                assert(label_of_user(u) == label);
                assert(u =~= label.skip(5));
                assert(user_id =~= label.skip(5));
            }
        }
    }
}

/// Returns the scoping label for the given user, e.g. `"user:alice"`.
pub fn user_label(user_id: &str) -> (r: String)
    ensures
        r@ == label_of_user(user_id@),
{
    concat("user:", user_id)
}

/// Returns the scoping label for the given agent, e.g. `"agent:agent_01"`.
pub fn agent_label(agent_id: &str) -> (r: String)
    ensures
        r@ == label_of_agent(agent_id@),
{
    concat("agent:", agent_id)
}

/// Maps a [`MemoryType`] to its label.
pub fn type_label(t: &MemoryType) -> (r: &'static str)
    ensures
        r@ == label_of_type(*t),
{
    proof {
        reveal_strlit("type:");
        reveal_strlit("episodic");
        reveal_strlit("semantic");
        reveal_strlit("procedural");
        reveal_strlit("working");
        reveal_strlit("type:episodic");
        reveal_strlit("type:semantic");
        reveal_strlit("type:procedural");
        reveal_strlit("type:working");
    }
    let r = match t {
        MemoryType::Episodic => TYPE_EPISODIC,
        MemoryType::Semantic => TYPE_SEMANTIC,
        MemoryType::Procedural => TYPE_PROCEDURAL,
        MemoryType::Working => TYPE_WORKING,
    };
    assert(r@ =~= label_of_type(*t));
    r
}

/// Maps a [`MemoryTier`] to its label.
pub fn tier_label(t: &MemoryTier) -> (r: &'static str)
    ensures
        r@ == label_of_tier(*t),
{
    proof {
        reveal_strlit("tier:");
        reveal_strlit("hot");
        reveal_strlit("warm");
        reveal_strlit("cold");
        reveal_strlit("tier:hot");
        reveal_strlit("tier:warm");
        reveal_strlit("tier:cold");
    }
    let r = match t {
        MemoryTier::Hot => TIER_HOT,
        MemoryTier::Warm => TIER_WARM,
        MemoryTier::Cold => TIER_COLD,
    };
    assert(r@ =~= label_of_tier(*t));
    r
}

/// Assembles the full label set for a [`MemoryEntry`].
///
/// Always included: type label, tier label, `status:active`. Added are `user:{id}` when
/// the entry has a user and `agent:{id}` when it has an agent.
pub fn labels_for_entry(entry: &MemoryEntry) -> (r: Vec<String>)
    ensures
        texts(r@) == entry_labels(entry@),
{
    let mut r: Vec<String> = Vec::new();
    r.push(type_label(&entry.memory_type).to_owned());
    let tier = entry.tier();
    r.push(tier_label(&tier).to_owned());
    r.push(STATUS_ACTIVE.to_owned());
    if let Some(user_id) = &entry.user_id {
        r.push(user_label(user_id.as_str()));
    }
    if let Some(agent_id) = &entry.agent_id {
        r.push(agent_label(agent_id.as_str()));
    }
    assert(texts(r@) =~= entry_labels(entry@));
    r
}

} // verus!
