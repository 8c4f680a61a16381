//! The memory entry and what it is made of.

use std::str::FromStr;

use vstd::prelude::*;
use vstd::string::StringExecFns;
use vstd::utf8::is_ascii_chars;

use crate::error::{MemoryError, Result};
use crate::json::{Json, JsonView};
use crate::score::Score;
use crate::text::{
    ascii_lower, concat, copy_strings, copy_text, lowercase, optional_text, quote, quoted, same,
    texts, to_lowercase,
};

verus! {

// ---------------------------------------------------------------------------
// Types and tiers
// ---------------------------------------------------------------------------

/// The semantic category of a memory entry.
///
/// Each type has a `type:*` label and influences how the entry is retrieved, tiered and
/// consolidated.
#[derive(Debug, Clone, Copy, PartialEq, Eq, Hash, Structural)]
pub enum MemoryType {
    /// A specific event or interaction (e.g. "User asked about deployment at 3pm").
    Episodic,
    /// A general fact or preference (e.g. "User prefers Python over Java").
    Semantic,
    /// A learned skill or procedure (e.g. "To deploy: run `make prod`").
    Procedural,
    /// Active context for the current task; always loaded, never searched.
    Working,
}

/// The access-frequency tier of a memory entry.
///
/// The tier follows from [`MemoryType`] and `access_count`; it is never set by hand.
#[derive(Debug, Clone, Copy, PartialEq, Eq, Hash, Structural)]
pub enum MemoryTier {
    /// Working memory; fetched every turn.
    Hot,
    /// Short-term memory; recent sessions.
    Warm,
    /// Long-term memory.
    Cold,
}

/// The call was refused as invalid input, for the reason `message`.
pub open spec fn refused<T>(r: Result<T>, message: Seq<char>) -> bool {
    match r {
        Err(MemoryError::InvalidInput(m)) => m@ == message,
        _ => false,
    }
}

impl MemoryType {
    /// The name of the type.
    pub open spec fn name(self) -> Seq<char> {
        match self {
            MemoryType::Episodic => "episodic"@,
            MemoryType::Semantic => "semantic"@,
            MemoryType::Procedural => "procedural"@,
            MemoryType::Working => "working"@,
        }
    }

    /// The name of the type.
    pub fn as_str(&self) -> (r: &'static str)
        ensures
            r@ == self.name(),
    {
        match self {
            MemoryType::Episodic => "episodic",
            MemoryType::Semantic => "semantic",
            MemoryType::Procedural => "procedural",
            MemoryType::Working => "working",
        }
    }

    /// The name of the type.
    pub fn to_string(&self) -> (r: String)
        ensures
            r@ == self.name(),
    {
        self.as_str().to_owned()
    }

    /// The type whose name is exactly `s`.
    pub fn named(s: &str) -> (r: Option<MemoryType>)
        ensures
            match r {
                Some(t) => s@ == t.name(),
                None => forall|t: MemoryType| s@ != #[trigger] t.name(),
            },
    {
        if same(s, "episodic") {
            Some(MemoryType::Episodic)
        } else if same(s, "semantic") {
            Some(MemoryType::Semantic)
        } else if same(s, "procedural") {
            Some(MemoryType::Procedural)
        } else if same(s, "working") {
            Some(MemoryType::Working)
        } else {
            None
        }
    }
}

/// No two types share a name, and every name is lower-case ASCII.
pub proof fn law_type_names(a: MemoryType, b: MemoryType)
    ensures
        a.name() == b.name() ==> a == b,
        is_ascii_chars(a.name()),
        a.name().map_values(|c: char| ascii_lower(c)) == a.name(),
{
    reveal_strlit("episodic");
    reveal_strlit("semantic");
    reveal_strlit("procedural");
    reveal_strlit("working");
    assert(a.name()[0] == b.name()[0] ==> a == b);
    assert(a.name().map_values(|c: char| ascii_lower(c)) =~= a.name());
}

impl FromStr for MemoryType {
    type Err = MemoryError;

    /// Reads the name of a type, in upper or lower case.
    fn from_str(s: &str) -> (r: Result<MemoryType>)
        ensures
            match r {
                Ok(t) => lowercase(s@) == t.name(),
                Err(_) => (forall|t: MemoryType| lowercase(s@) != #[trigger] t.name()) && refused(
                    r,
                    "unknown memory type: "@ + quoted(lowercase(s@))
                        + "; expected one of: episodic, semantic, procedural, working"@,
                ),
            },
            forall|t: MemoryType| s@ == #[trigger] t.name() ==> r == Ok::<_, MemoryError>(t),
            forall|t: MemoryType|
                is_ascii_chars(s@) && s@.map_values(|c: char| ascii_lower(c)) == #[trigger] t.name()
                    ==> r == Ok::<_, MemoryError>(t),
    {
        let lower = to_lowercase(s);
        proof {
            assert forall|t: MemoryType|
                s@ == #[trigger] t.name() || (is_ascii_chars(s@) && s@.map_values(
                    |c: char| ascii_lower(c),
                ) == t.name()) implies lower@ == t.name() && forall|u: MemoryType|
                lower@ == #[trigger] u.name() ==> u == t by {
                law_type_names(t, t);
                assert forall|u: MemoryType| lower@ == #[trigger] u.name() implies u == t by {
                    law_type_names(t, u);
                }
            }
        }
        match MemoryType::named(lower.as_str()) {
            Some(t) => Ok(t),
            None => {
                let mut message = String::new();
                message.append("unknown memory type: ");
                message.append(quote(lower.as_str()).as_str());
                message.append("; expected one of: episodic, semantic, procedural, working");
                Err(MemoryError::InvalidInput(message))
            },
        }
    }
}

impl MemoryTier {
    /// The name of the tier.
    pub open spec fn name(self) -> Seq<char> {
        match self {
            MemoryTier::Hot => "hot"@,
            MemoryTier::Warm => "warm"@,
            MemoryTier::Cold => "cold"@,
        }
    }

    /// The name of the tier.
    pub fn as_str(&self) -> (r: &'static str)
        ensures
            r@ == self.name(),
    {
        match self {
            MemoryTier::Hot => "hot",
            MemoryTier::Warm => "warm",
            MemoryTier::Cold => "cold",
        }
    }

    /// The name of the tier.
    pub fn to_string(&self) -> (r: String)
        ensures
            r@ == self.name(),
    {
        self.as_str().to_owned()
    }
}

/// No two tiers share a name, and every name is lower-case ASCII.
pub proof fn law_tier_names(a: MemoryTier, b: MemoryTier)
    ensures
        a.name() == b.name() ==> a == b,
        is_ascii_chars(a.name()),
        a.name().map_values(|c: char| ascii_lower(c)) == a.name(),
{
    reveal_strlit("hot");
    reveal_strlit("warm");
    reveal_strlit("cold");
    assert(a.name()[0] == b.name()[0] ==> a == b);
    assert(a.name().map_values(|c: char| ascii_lower(c)) =~= a.name());
}

impl FromStr for MemoryTier {
    type Err = MemoryError;

    /// Reads the name of a tier, in upper or lower case.
    fn from_str(s: &str) -> (r: Result<MemoryTier>)
        ensures
            match r {
                Ok(t) => lowercase(s@) == t.name(),
                Err(_) => (forall|t: MemoryTier| lowercase(s@) != #[trigger] t.name()) && refused(
                    r,
                    "unknown memory tier: "@ + quoted(lowercase(s@))
                        + "; expected one of: hot, warm, cold"@,
                ),
            },
            forall|t: MemoryTier| s@ == #[trigger] t.name() ==> r == Ok::<_, MemoryError>(t),
            forall|t: MemoryTier|
                is_ascii_chars(s@) && s@.map_values(|c: char| ascii_lower(c)) == #[trigger] t.name()
                    ==> r == Ok::<_, MemoryError>(t),
    {
        let lower = to_lowercase(s);
        proof {
            assert forall|t: MemoryTier|
                s@ == #[trigger] t.name() || (is_ascii_chars(s@) && s@.map_values(
                    |c: char| ascii_lower(c),
                ) == t.name()) implies lower@ == t.name() && forall|u: MemoryTier|
                lower@ == #[trigger] u.name() ==> u == t by {
                law_tier_names(t, t);
                assert forall|u: MemoryTier| lower@ == #[trigger] u.name() implies u == t by {
                    law_tier_names(t, u);
                }
            }
        }
        if same(lower.as_str(), "hot") {
            Ok(MemoryTier::Hot)
        } else if same(lower.as_str(), "warm") {
            Ok(MemoryTier::Warm)
        } else if same(lower.as_str(), "cold") {
            Ok(MemoryTier::Cold)
        } else {
            let mut message = String::new();
            message.append("unknown memory tier: ");
            message.append(quote(lower.as_str()).as_str());
            message.append("; expected one of: hot, warm, cold");
            Err(MemoryError::InvalidInput(message))
        }
    }
}

// ---------------------------------------------------------------------------
// Time
// ---------------------------------------------------------------------------

/// A point in time: seconds since the start of 1970 (UTC), and nanoseconds on top of them.
#[derive(Debug, Clone, Copy, PartialEq, Eq, Structural)]
pub struct Timestamp {
    /// Whole seconds since the start of 1970.
    pub secs: i64,
    /// Nanoseconds past the second; in a leap second they reach past a thousand million.
    pub nanos: u32,
}

impl Timestamp {
    /// The time is one that `chrono` can hold: it is in the years -262143 to 262142, and
    /// only the last second of a minute has a leap second behind it.
    pub open spec fn held(self) -> bool {
        &&& -8_334_601_228_800 <= self.secs <= 8_210_266_876_799
        &&& self.nanos < 1_000_000_000 || (self.nanos < 2_000_000_000 && self.secs % 60 == 59)
    }

    /// The time is in a leap second.
    pub open spec fn leaping(self) -> bool {
        self.nanos >= 1_000_000_000
    }

    /// Seconds since the start of the day.
    pub open spec fn second_of_day(self) -> int {
        self.secs as int % 86_400
    }

    /// Nanoseconds since the start of 1970, leap seconds not counted.
    pub open spec fn in_nanos(self) -> int {
        self.secs * 1_000_000_000 + self.nanos
    }
}

/// `n / d` without its fraction.
pub open spec fn toward_zero(n: int, d: int) -> int {
    if n >= 0 {
        n / d
    } else {
        -((-n) / d)
    }
}

/// The nanoseconds by which a leap second lengthens the way from `earlier` to `later`: a
/// leap second in which the time that is earlier in its day lies is counted.
pub open spec fn leap_nanos(later: Timestamp, earlier: Timestamp) -> int {
    if later.second_of_day() > earlier.second_of_day() && earlier.leaping() {
        1_000_000_000
    } else if later.second_of_day() < earlier.second_of_day() && later.leaping() {
        -1_000_000_000
    } else {
        0
    }
}

/// The whole days from `earlier` to `later`.
pub open spec fn whole_days(later: Timestamp, earlier: Timestamp) -> int {
    toward_zero(
        later.in_nanos() - earlier.in_nanos() + leap_nanos(later, earlier),
        86_400_000_000_000,
    )
}

/// Subtracts two `chrono::DateTime<Utc>` and calls `TimeDelta::num_days`, which drops the
/// fraction of a day. The difference is that of the days and that of the times of day; the
/// latter counts a leap second in which the smaller time lies. There is a result for the
/// times that `chrono::DateTime::from_timestamp` accepts, and for no others.
#[verifier::external_body]
fn days_between(later: Timestamp, earlier: Timestamp) -> (r: Option<i64>)
    ensures
        later.held() && earlier.held() ==> (r is Some && r->0 == whole_days(later, earlier)),
        !(later.held() && earlier.held()) ==> r is None,
{
    let a = chrono::DateTime::from_timestamp(later.secs, later.nanos)?;
    let b = chrono::DateTime::from_timestamp(earlier.secs, earlier.nanos)?;
    Some((a - b).num_days())
}

/// Calls `chrono::Utc::now`. The time is one that `chrono` can hold, not before 1970 and in
/// no leap second; nothing else is claimed of what the clock shows.
#[verifier::external_body]
fn current_time() -> (r: Timestamp)
    ensures
        r.held() && !r.leaping() && r.secs >= 0,
{
    let now = chrono::Utc::now();
    Timestamp { secs: now.timestamp(), nanos: now.timestamp_subsec_nanos() }
}

/// `id` has the version and the variant of a random identifier.
pub open spec fn is_random_id(id: u128) -> bool {
    (id >> 76) & 0xf == 4 && (id >> 62) & 3 == 2
}

/// Calls `uuid::Uuid::new_v4`. The identifier is random but for its version (four) and
/// its variant (two).
#[verifier::external_body]
fn random_id() -> (id: u128)
    ensures
        is_random_id(id),
{
    uuid::Uuid::new_v4().as_u128()
}

/// The lower-case hexadecimal digit that stands for `d`.
pub open spec fn hex_digit(d: int) -> char {
    if d < 10 {
        (48 + d) as char
    } else {
        (87 + d) as char
    }
}

/// The identifier as a text: its hexadecimal digits in groups of 8, 4, 4, 4 and 12.
pub open spec fn id_text(id: u128) -> Seq<char> {
    Seq::new(
        36,
        |i: int|
            if i == 8 || i == 13 || i == 18 || i == 23 {
                '-'
            } else {
                let hyphens = if i < 8 {
                    0int
                } else if i < 13 {
                    1
                } else if i < 18 {
                    2
                } else if i < 23 {
                    3
                } else {
                    4
                };
                let shift = 4 * (31 - (i - hyphens));
                hex_digit(((id >> (shift as u128)) & 0xf) as int)
            },
    )
}

/// Calls `to_string` on a `uuid::Uuid`, which writes the identifier in its hyphenated,
/// lower-case form.
#[verifier::external_body]
fn hyphenated(id: u128) -> (r: String)
    ensures
        r@ == id_text(id),
{
    uuid::Uuid::from_u128(id).to_string()
}

/// A fresh random identifier, as a text.
pub fn fresh_id() -> (r: String)
    ensures
        exists|id: u128| is_random_id(id) && r@ == #[trigger] id_text(id),
{
    hyphenated(random_id())
}

// ---------------------------------------------------------------------------
// Entries
// ---------------------------------------------------------------------------

/// A single memory entry backed by a GitHub Issue.
#[derive(Debug)]
pub struct MemoryEntry {
    /// Stable client-side identifier, generated at creation time.
    pub memory_id: u128,
    /// GitHub issue number; `None` until the entry has been persisted.
    pub issue_number: Option<u64>,
    /// The natural language content of this memory.
    pub content: String,
    /// The semantic category of this memory.
    pub memory_type: MemoryType,
    /// Optional user identifier for multi-user scoping.
    pub user_id: Option<String>,
    /// Optional identifier of the agent that wrote this memory.
    pub agent_id: Option<String>,
    /// Optional identifier of the session that this memory belongs to.
    pub session_id: Option<String>,
    /// Subjective importance, from 0 to 1.
    pub importance: Score,
    /// Confidence in the accuracy, from 0 to 1.
    pub confidence: Score,
    /// How many times this memory has been accessed.
    pub access_count: u32,
    /// Time of the most recent access, if any.
    pub last_accessed: Option<Timestamp>,
    /// Time when this memory was first created.
    pub created_at: Timestamp,
    /// Named entities associated with this memory.
    pub entities: Vec<String>,
    /// Free-form tags.
    pub tags: Vec<String>,
    /// Arbitrary structured data attached to this memory.
    pub structured_data: Json,
    /// Issue numbers of memories that this entry supersedes (from consolidation).
    pub supersedes: Vec<u64>,
    /// Issue numbers of memories that are related to this entry.
    pub related_to: Vec<u64>,
}

/// What a [`MemoryEntry`] holds.
#[verifier::ext_equal]
pub struct EntryView {
    pub memory_id: u128,
    pub issue_number: Option<u64>,
    pub content: Seq<char>,
    pub memory_type: MemoryType,
    pub user_id: Option<Seq<char>>,
    pub agent_id: Option<Seq<char>>,
    pub session_id: Option<Seq<char>>,
    pub importance: Score,
    pub confidence: Score,
    pub access_count: u32,
    pub last_accessed: Option<Timestamp>,
    pub created_at: Timestamp,
    pub entities: Seq<Seq<char>>,
    pub tags: Seq<Seq<char>>,
    pub structured_data: JsonView,
    pub supersedes: Seq<u64>,
    pub related_to: Seq<u64>,
}

impl View for MemoryEntry {
    type V = EntryView;

    open spec fn view(&self) -> EntryView {
        EntryView {
            memory_id: self.memory_id,
            issue_number: self.issue_number,
            content: self.content@,
            memory_type: self.memory_type,
            user_id: optional_text(self.user_id),
            agent_id: optional_text(self.agent_id),
            session_id: optional_text(self.session_id),
            importance: self.importance,
            confidence: self.confidence,
            access_count: self.access_count,
            last_accessed: self.last_accessed,
            created_at: self.created_at,
            entities: texts(self.entities@),
            tags: texts(self.tags@),
            structured_data: self.structured_data@,
            supersedes: self.supersedes@,
            related_to: self.related_to@,
        }
    }
}

/// What the entries hold.
pub open spec fn entry_views(v: Seq<MemoryEntry>) -> Seq<EntryView> {
    Seq::new(v.len(), |i: int| v[i]@)
}

impl EntryView {
    /// The tier that follows from the type and the number of accesses.
    pub open spec fn tier(self) -> MemoryTier {
        match self.memory_type {
            MemoryType::Working => MemoryTier::Hot,
            MemoryType::Semantic => MemoryTier::Warm,
            _ => if self.access_count > 5 {
                MemoryTier::Warm
            } else {
                MemoryTier::Cold
            },
        }
    }

    /// The entry is in the cold tier and older than so many days at `now`.
    pub open spec fn outdated(self, now: Timestamp, days: u32) -> bool {
        self.tier() == MemoryTier::Cold && self.has_age(now) && whole_days(now, self.created_at)
            > days
    }

    /// The age of the entry at `now` can be told.
    pub open spec fn has_age(self, now: Timestamp) -> bool {
        now.held() && self.created_at.held()
    }
}

/// The numbers, copied.
pub(crate) fn copy_numbers(v: &Vec<u64>) -> (r: Vec<u64>)
    ensures
        r@ == v@,
{
    let mut r: Vec<u64> = Vec::new();
    let mut i: usize = 0;
    while i < v.len()
        invariant
            i <= v.len(),
            r@ == v@.take(i as int),
        decreases v.len() - i,
    {
        r.push(v[i]);
        i += 1;
        assert(v@.take(i as int) =~= v@.take(i - 1).push(v@[i - 1]));
    }
    assert(v@.take(i as int) =~= v@);
    r
}

impl Clone for MemoryEntry {
    fn clone(&self) -> (r: MemoryEntry)
        ensures
            r@ == self@,
    {
        MemoryEntry {
            memory_id: self.memory_id,
            issue_number: self.issue_number,
            content: self.content.clone(),
            memory_type: self.memory_type,
            user_id: copy_text(&self.user_id),
            agent_id: copy_text(&self.agent_id),
            session_id: copy_text(&self.session_id),
            importance: self.importance,
            confidence: self.confidence,
            access_count: self.access_count,
            last_accessed: self.last_accessed,
            created_at: self.created_at,
            entities: copy_strings(&self.entities),
            tags: copy_strings(&self.tags),
            structured_data: self.structured_data.copy(),
            supersedes: copy_numbers(&self.supersedes),
            related_to: copy_numbers(&self.related_to),
        }
    }
}

impl MemoryEntry {
    /// The tier of the entry.
    ///
    /// Rules, the first that applies:
    /// 1. [`MemoryType::Working`] is [`MemoryTier::Hot`].
    /// 2. [`MemoryType::Semantic`], or more than five accesses, is [`MemoryTier::Warm`].
    /// 3. Everything else is [`MemoryTier::Cold`].
    pub fn tier(&self) -> (r: MemoryTier)
        ensures
            r == self@.tier(),
    {
        match self.memory_type {
            MemoryType::Working => MemoryTier::Hot,
            MemoryType::Semantic => MemoryTier::Warm,
            _ => if self.access_count > 5 {
                MemoryTier::Warm
            } else {
                MemoryTier::Cold
            },
        }
    }

    /// The age of the entry at `now` in whole days; none if `chrono` cannot hold a time.
    pub fn age_days(&self, now: Timestamp) -> (r: Option<i64>)
        ensures
            match r {
                Some(age) => self@.has_age(now) && age == whole_days(now, self@.created_at),
                None => !self@.has_age(now),
            },
    {
        days_between(now, self.created_at)
    }

    /// Whether the entry is in the cold tier and older than so many days at `now`. An entry
    /// whose age cannot be told is not.
    pub fn is_outdated(&self, now: Timestamp, days: u32) -> (r: bool)
        ensures
            r == self@.outdated(now, days),
    {
        if self.tier() != MemoryTier::Cold {
            return false;
        }
        match self.age_days(now) {
            Some(age) => age > days as i64,
            None => false,
        }
    }

    /// Starts to build an entry.
    pub fn builder(content: &str, memory_type: MemoryType) -> (r: MemoryEntryBuilder)
        ensures
            r@ == fresh_builder(content@, memory_type),
    {
        MemoryEntryBuilder::new(content, memory_type)
    }
}

// ---------------------------------------------------------------------------
// Building
// ---------------------------------------------------------------------------

/// The bit pattern of the importance that an entry has unless told otherwise: one half.
pub const DEFAULT_IMPORTANCE: u32 = 0x3f00_0000;

/// The bit pattern of the confidence that an entry has unless told otherwise: four fifths.
pub const DEFAULT_CONFIDENCE: u32 = 0x3f4c_cccd;

/// Builds a [`MemoryEntry`] field by field.
///
/// Content and type are given to [`MemoryEntry::builder`]; all other fields have defaults.
pub struct MemoryEntryBuilder {
    content: String,
    memory_type: MemoryType,
    user_id: Option<String>,
    agent_id: Option<String>,
    session_id: Option<String>,
    importance: Score,
    confidence: Score,
    entities: Vec<String>,
    tags: Vec<String>,
    structured_data: Json,
    supersedes: Vec<u64>,
    related_to: Vec<u64>,
}

/// What a [`MemoryEntryBuilder`] holds.
#[verifier::ext_equal]
pub struct BuilderView {
    pub content: Seq<char>,
    pub memory_type: MemoryType,
    pub user_id: Option<Seq<char>>,
    pub agent_id: Option<Seq<char>>,
    pub session_id: Option<Seq<char>>,
    pub importance: Score,
    pub confidence: Score,
    pub entities: Seq<Seq<char>>,
    pub tags: Seq<Seq<char>>,
    pub structured_data: JsonView,
    pub supersedes: Seq<u64>,
    pub related_to: Seq<u64>,
}

impl View for MemoryEntryBuilder {
    type V = BuilderView;

    closed spec fn view(&self) -> BuilderView {
        BuilderView {
            content: self.content@,
            memory_type: self.memory_type,
            user_id: optional_text(self.user_id),
            agent_id: optional_text(self.agent_id),
            session_id: optional_text(self.session_id),
            importance: self.importance,
            confidence: self.confidence,
            entities: texts(self.entities@),
            tags: texts(self.tags@),
            structured_data: self.structured_data@,
            supersedes: self.supersedes@,
            related_to: self.related_to@,
        }
    }
}

/// What a builder holds of which only content and type were set.
pub open spec fn fresh_builder(content: Seq<char>, memory_type: MemoryType) -> BuilderView {
    BuilderView {
        content,
        memory_type,
        user_id: None,
        agent_id: None,
        session_id: None,
        importance: Score { bits: DEFAULT_IMPORTANCE },
        confidence: Score { bits: DEFAULT_CONFIDENCE },
        entities: seq![],
        tags: seq![],
        structured_data: JsonView::Object(seq![]),
        supersedes: seq![],
        related_to: seq![],
    }
}

/// Why no entry can be built.
#[derive(Debug, Clone, Copy, PartialEq, Eq, Structural)]
pub enum Fault {
    /// There is no content.
    EmptyContent,
    /// The importance is no number from 0 to 1.
    Importance(Score),
    /// The confidence is no number from 0 to 1.
    Confidence(Score),
}

impl Fault {
    /// What is wrong, where a number that is out of range is written `shown`.
    pub open spec fn message(self, shown: Seq<char>) -> Seq<char> {
        match self {
            Fault::EmptyContent => "content must not be empty"@,
            Fault::Importance(_) => "importance must be in [0.0, 1.0], got "@ + shown,
            Fault::Confidence(_) => "confidence must be in [0.0, 1.0], got "@ + shown,
        }
    }

    /// The call is refused for this reason, with a number that is out of range told as
    /// `show` writes it.
    pub open spec fn refuses<T, F: Fn(Score) -> String>(self, show: F, r: Result<T>) -> bool {
        match self {
            Fault::EmptyContent => refused(r, self.message(seq![])),
            Fault::Importance(s) => exists|shown: String| #[trigger]
                call_ensures(show, (s,), shown) && refused(r, self.message(shown@)),
            Fault::Confidence(s) => exists|shown: String| #[trigger]
                call_ensures(show, (s,), shown) && refused(r, self.message(shown@)),
        }
    }

    /// The error that tells what is wrong, with a number that is out of range as `show`
    /// writes it.
    pub fn error<F: Fn(Score) -> String>(self, show: F) -> (r: MemoryError)
        requires
            forall|s: Score| call_requires(show, (s,)),
        ensures
            self.refuses(show, Err::<MemoryEntry, MemoryError>(r)),
    {
        let message: String = match self {
            Fault::EmptyContent => "content must not be empty".to_owned(),
            Fault::Importance(s) => {
                let shown = show(s);
                concat("importance must be in [0.0, 1.0], got ", shown.as_str())
            },
            Fault::Confidence(s) => {
                let shown = show(s);
                concat("confidence must be in [0.0, 1.0], got ", shown.as_str())
            },
        };
        MemoryError::InvalidInput(message)
    }
}

impl BuilderView {
    /// Why no entry can be built, if so: the first thing that is wrong.
    pub open spec fn fault(self) -> Option<Fault> {
        if self.content.len() == 0 {
            Some(Fault::EmptyContent)
        } else if !self.importance.unit() {
            Some(Fault::Importance(self.importance))
        } else if !self.confidence.unit() {
            Some(Fault::Confidence(self.confidence))
        } else {
            None
        }
    }

    /// The entry that is built.
    pub open spec fn entry(self, memory_id: u128, created_at: Timestamp) -> EntryView {
        EntryView {
            memory_id,
            issue_number: None,
            content: self.content,
            memory_type: self.memory_type,
            user_id: self.user_id,
            agent_id: self.agent_id,
            session_id: self.session_id,
            importance: self.importance,
            confidence: self.confidence,
            access_count: 0,
            last_accessed: None,
            created_at,
            entities: self.entities,
            tags: self.tags,
            structured_data: self.structured_data,
            supersedes: self.supersedes,
            related_to: self.related_to,
        }
    }
}

/// `r` is what comes of building an entry with a fresh identifier at the current time,
/// where numbers that are out of range are told as `show` writes them.
pub open spec fn builds<F: Fn(Score) -> String>(
    show: F,
    b: BuilderView,
    r: Result<MemoryEntry>,
) -> bool {
    match b.fault() {
        None => r is Ok && freshly_built(b, r->Ok_0@),
        Some(fault) => fault.refuses(show, r),
    }
}

/// `e` is the entry that `b` describes, with a random identifier and a time of creation
/// that the clock has shown.
pub open spec fn freshly_built(b: BuilderView, e: EntryView) -> bool {
    &&& is_random_id(e.memory_id)
    &&& e.created_at.held()
    &&& e == b.entry(e.memory_id, e.created_at)
}

impl MemoryEntryBuilder {
    fn new(content: &str, memory_type: MemoryType) -> (r: MemoryEntryBuilder)
        ensures
            r@ == fresh_builder(content@, memory_type),
    {
        let r = MemoryEntryBuilder {
            content: content.to_owned(),
            memory_type,
            user_id: None,
            agent_id: None,
            session_id: None,
            importance: Score::from_bits(DEFAULT_IMPORTANCE),
            confidence: Score::from_bits(DEFAULT_CONFIDENCE),
            entities: Vec::new(),
            tags: Vec::new(),
            structured_data: Json::Object(Vec::new()),
            supersedes: Vec::new(),
            related_to: Vec::new(),
        };
        assert(r.structured_data@->Object_0 =~= seq![]);
        assert(r@ =~= fresh_builder(content@, memory_type));
        r
    }

    /// Sets the user identifier.
    pub fn user_id(self, user_id: &str) -> (r: MemoryEntryBuilder)
        ensures
            r@ == (BuilderView { user_id: Some(user_id@), ..self@ }),
    {
        MemoryEntryBuilder { user_id: Some(user_id.to_owned()), ..self }
    }

    /// Sets the agent identifier.
    pub fn agent_id(self, agent_id: &str) -> (r: MemoryEntryBuilder)
        ensures
            r@ == (BuilderView { agent_id: Some(agent_id@), ..self@ }),
    {
        MemoryEntryBuilder { agent_id: Some(agent_id.to_owned()), ..self }
    }

    /// Sets the session identifier.
    pub fn session_id(self, session_id: &str) -> (r: MemoryEntryBuilder)
        ensures
            r@ == (BuilderView { session_id: Some(session_id@), ..self@ }),
    {
        MemoryEntryBuilder { session_id: Some(session_id.to_owned()), ..self }
    }

    /// Sets the importance.
    pub fn importance(self, importance: Score) -> (r: MemoryEntryBuilder)
        ensures
            r@ == (BuilderView { importance, ..self@ }),
    {
        MemoryEntryBuilder { importance, ..self }
    }

    /// Sets the confidence.
    pub fn confidence(self, confidence: Score) -> (r: MemoryEntryBuilder)
        ensures
            r@ == (BuilderView { confidence, ..self@ }),
    {
        MemoryEntryBuilder { confidence, ..self }
    }

    /// Sets the named entities.
    pub fn entities(self, entities: Vec<String>) -> (r: MemoryEntryBuilder)
        ensures
            r@ == (BuilderView { entities: texts(entities@), ..self@ }),
    {
        MemoryEntryBuilder { entities, ..self }
    }

    /// Sets the tags.
    pub fn tags(self, tags: Vec<String>) -> (r: MemoryEntryBuilder)
        ensures
            r@ == (BuilderView { tags: texts(tags@), ..self@ }),
    {
        MemoryEntryBuilder { tags, ..self }
    }

    /// Attaches structured data.
    pub fn structured_data(self, data: Json) -> (r: MemoryEntryBuilder)
        ensures
            r@ == (BuilderView { structured_data: data@, ..self@ }),
    {
        MemoryEntryBuilder { structured_data: data, ..self }
    }

    /// Sets the issue numbers that the memory supersedes.
    pub fn supersedes(self, supersedes: Vec<u64>) -> (r: MemoryEntryBuilder)
        ensures
            r@ == (BuilderView { supersedes: supersedes@, ..self@ }),
    {
        MemoryEntryBuilder { supersedes, ..self }
    }

    /// Sets the issue numbers that the memory is related to.
    pub fn related_to(self, related_to: Vec<u64>) -> (r: MemoryEntryBuilder)
        ensures
            r@ == (BuilderView { related_to: related_to@, ..self@ }),
    {
        MemoryEntryBuilder { related_to, ..self }
    }

    /// Why no entry can be built, if so.
    pub fn fault(&self) -> (r: Option<Fault>)
        ensures
            r == self@.fault(),
    {
        if self.content.as_str().is_empty() {
            Some(Fault::EmptyContent)
        } else if !self.importance.in_unit_range() {
            Some(Fault::Importance(self.importance))
        } else if !self.confidence.in_unit_range() {
            Some(Fault::Confidence(self.confidence))
        } else {
            None
        }
    }

    /// The entry with a given identifier and time of creation.
    ///
    /// Refused if the content is empty, or if importance or confidence is no number from
    /// 0 to 1; the error tells the number as `show` writes it.
    pub fn build_with<F: Fn(Score) -> String>(
        self,
        memory_id: u128,
        created_at: Timestamp,
        show: F,
    ) -> (r: Result<MemoryEntry>)
        requires
            forall|s: Score| call_requires(show, (s,)),
        ensures
            match self@.fault() {
                Some(fault) => fault.refuses(show, r),
                None => r is Ok && r->Ok_0@ == self@.entry(memory_id, created_at),
            },
    {
        match self.fault() {
            Some(fault) => Err(fault.error(show)),
            None => Ok(self.complete(memory_id, created_at)),
        }
    }

    /// The entry, with a fresh random identifier and the current time as its creation.
    ///
    /// Refused as [`MemoryEntryBuilder::build_with`] refuses it.
    pub fn build<F: Fn(Score) -> String>(self, show: F) -> (r: Result<MemoryEntry>)
        requires
            forall|s: Score| call_requires(show, (s,)),
        ensures
            builds(show, self@, r),
    {
        self.build_with(random_id(), current_time(), show)
    }

    /// The entry, with a fresh random identifier and the current time as its creation, where
    /// nothing is wrong.
    pub(crate) fn build_sound(self) -> (r: MemoryEntry)
        requires
            self@.fault() is None,
        ensures
            freshly_built(self@, r@),
    {
        self.complete(random_id(), current_time())
    }

    fn complete(self, memory_id: u128, created_at: Timestamp) -> (r: MemoryEntry)
        ensures
            r@ == self@.entry(memory_id, created_at),
    {
        MemoryEntry {
            memory_id,
            issue_number: None,
            content: self.content,
            memory_type: self.memory_type,
            user_id: self.user_id,
            agent_id: self.agent_id,
            session_id: self.session_id,
            importance: self.importance,
            confidence: self.confidence,
            access_count: 0,
            last_accessed: None,
            created_at,
            entities: self.entities,
            tags: self.tags,
            structured_data: self.structured_data,
            supersedes: self.supersedes,
            related_to: self.related_to,
        }
    }
}

/// A new entry has an age at every time that can be told.
pub proof fn law_new_entry_has_age(b: BuilderView, e: EntryView, now: Timestamp)
    requires
        freshly_built(b, e),
        now.held(),
    ensures
        e.has_age(now),
{
}

// ---------------------------------------------------------------------------
// Patching
// ---------------------------------------------------------------------------

/// A partial update to a [`MemoryEntry`].
///
/// Only `Some` fields are applied; what is `None` is left unchanged.
#[derive(Debug)]
pub struct MemoryPatch {
    /// New content, if any.
    pub content: Option<String>,
    /// New memory type, if any.
    pub memory_type: Option<MemoryType>,
    /// New user identifier, if any.
    pub user_id: Option<String>,
    /// New agent identifier, if any.
    pub agent_id: Option<String>,
    /// New session identifier, if any.
    pub session_id: Option<String>,
    /// New importance, if any.
    pub importance: Option<Score>,
    /// New confidence, if any.
    pub confidence: Option<Score>,
    /// New access count, if any.
    pub access_count: Option<u32>,
    /// New time of the last access, if any.
    pub last_accessed: Option<Timestamp>,
    /// New entities, if any.
    pub entities: Option<Vec<String>>,
    /// New tags, if any.
    pub tags: Option<Vec<String>>,
    /// New structured data, if any.
    pub structured_data: Option<Json>,
    /// New superseded issue numbers, if any.
    pub supersedes: Option<Vec<u64>>,
    /// New related issue numbers, if any.
    pub related_to: Option<Vec<u64>>,
}

impl Default for MemoryPatch {
    /// The patch that changes nothing.
    fn default() -> (r: MemoryPatch)
        ensures
            r == empty_patch(),
    {
        MemoryPatch {
            content: None,
            memory_type: None,
            user_id: None,
            agent_id: None,
            session_id: None,
            importance: None,
            confidence: None,
            access_count: None,
            last_accessed: None,
            entities: None,
            tags: None,
            structured_data: None,
            supersedes: None,
            related_to: None,
        }
    }
}

/// The patch that changes nothing.
pub open spec fn empty_patch() -> MemoryPatch {
    MemoryPatch {
        content: None,
        memory_type: None,
        user_id: None,
        agent_id: None,
        session_id: None,
        importance: None,
        confidence: None,
        access_count: None,
        last_accessed: None,
        entities: None,
        tags: None,
        structured_data: None,
        supersedes: None,
        related_to: None,
    }
}

/// The new value if there is one, else the old one.
pub open spec fn newer<T>(new: Option<T>, old_value: T) -> T {
    match new {
        Some(v) => v,
        None => old_value,
    }
}

/// `e` with the fields that `p` holds in place of its own.
pub open spec fn patched(e: EntryView, p: MemoryPatch) -> EntryView {
    EntryView {
        memory_id: e.memory_id,
        issue_number: e.issue_number,
        content: match p.content {
            Some(v) => v@,
            None => e.content,
        },
        memory_type: newer(p.memory_type, e.memory_type),
        user_id: match p.user_id {
            Some(v) => Some(v@),
            None => e.user_id,
        },
        agent_id: match p.agent_id {
            Some(v) => Some(v@),
            None => e.agent_id,
        },
        session_id: match p.session_id {
            Some(v) => Some(v@),
            None => e.session_id,
        },
        importance: newer(p.importance, e.importance),
        confidence: newer(p.confidence, e.confidence),
        access_count: newer(p.access_count, e.access_count),
        last_accessed: match p.last_accessed {
            Some(v) => Some(v),
            None => e.last_accessed,
        },
        created_at: e.created_at,
        entities: match p.entities {
            Some(v) => texts(v@),
            None => e.entities,
        },
        tags: match p.tags {
            Some(v) => texts(v@),
            None => e.tags,
        },
        structured_data: match p.structured_data {
            Some(v) => v@,
            None => e.structured_data,
        },
        supersedes: match p.supersedes {
            Some(v) => v@,
            None => e.supersedes,
        },
        related_to: match p.related_to {
            Some(v) => v@,
            None => e.related_to,
        },
    }
}

/// A patch without fields leaves the entry as it is.
pub proof fn law_empty_patch(e: EntryView)
    ensures
        patched(e, empty_patch()) == e,
{
}

/// A patch never touches the identifier, the issue number or the time of creation, and
/// applying it a second time changes nothing more.
pub proof fn law_patch_again(e: EntryView, p: MemoryPatch)
    ensures
        patched(e, p).memory_id == e.memory_id,
        patched(e, p).issue_number == e.issue_number,
        patched(e, p).created_at == e.created_at,
        patched(patched(e, p), p) == patched(e, p),
{
}

} // verus!
