//! Memories out of conversation transcripts.
//!
//! A transcript is a text with one JSON object per line. Its turns are either handed to an
//! extractor, or searched for statements worth remembering by a few rules.

use std::str::FromStr;

use vstd::prelude::*;
use vstd::string::StringExecFns;
use vstd::utf8::encode_utf8;

use crate::api::items_in;
use crate::json::{json_in, json_views, parse_json, Json, JsonView, Number};
use crate::models::MemoryType;
use crate::score::Score;
use crate::text::{
    byte_len, chars_of, contains, has, join, join_strings, line_bounds, lines, lowercase, ranges,
    same, string_of, texts, to_lowercase, to_uppercase, trim, trim_bounds, trim_end,
    trim_end_bound, uppercase,
};

verus! {

// ---------------------------------------------------------------------------
// Turns
// ---------------------------------------------------------------------------

/// The texts of the text blocks among the items.
pub open spec fn text_blocks(items: Seq<JsonView>) -> Seq<Seq<char>>
    decreases items.len(),
{
    if items.len() == 0 {
        seq![]
    } else {
        let before = text_blocks(items.drop_last());
        let last = items.last();
        match last.text_field("text"@) {
            Some(t) => if last.text_field("type"@) == Some("text"@) {
                before.push(t)
            } else {
                before
            },
            None => before,
        }
    }
}

/// The text of a message: a string, or the text blocks of an array with blanks between
/// them.
pub open spec fn message_text(content: JsonView) -> Option<Seq<char>> {
    match content {
        JsonView::Text(s) => Some(s),
        JsonView::Array(items) => Some(join(text_blocks(items), " "@)),
        _ => None,
    }
}

/// The content of the message in a line.
pub open spec fn message_content(j: JsonView) -> Option<JsonView> {
    match j.field("message"@) {
        Some(m) => m.field("content"@),
        None => None,
    }
}

/// Who speaks in a line: `user` or `assistant`.
pub open spec fn speaker(j: JsonView) -> Option<Seq<char>> {
    match j.text_field("type"@) {
        Some(kind) => if kind == "user"@ || kind == "assistant"@ {
            Some(kind)
        } else {
            None
        },
        None => None,
    }
}

/// The turn that a JSON value describes: who speaks, and what is said.
pub open spec fn turn_in(j: JsonView) -> Option<(Seq<char>, Seq<char>)> {
    match (speaker(j), message_content(j)) {
        (Some(role), Some(content)) => match message_text(content) {
            Some(t) => if t.len() > 0 {
                Some((role, t))
            } else {
                None
            },
            None => None,
        },
        _ => None,
    }
}

/// The turn that a line describes.
pub open spec fn turn_of(line: Seq<char>) -> Option<(Seq<char>, Seq<char>)> {
    if trim(line).len() == 0 {
        None
    } else {
        match json_in(trim(line)) {
            Some(j) => turn_in(j),
            None => None,
        }
    }
}

/// The turns that the lines describe. Lines that describe none are skipped.
pub open spec fn turns_of(all: Seq<Seq<char>>) -> Seq<(Seq<char>, Seq<char>)>
    decreases all.len(),
{
    if all.len() == 0 {
        seq![]
    } else {
        let before = turns_of(all.drop_last());
        match turn_of(all.last()) {
            Some(t) => before.push(t),
            None => before,
        }
    }
}

/// What the turns hold.
pub open spec fn turn_views(v: Seq<(String, String)>) -> Seq<(Seq<char>, Seq<char>)> {
    Seq::new(v.len(), |i: int| (v[i].0@, v[i].1@))
}

/// The text of a message.
fn read_text(content: &Json) -> (r: Option<String>)
    ensures
        match r {
            Some(s) => message_text(content@) == Some(s@),
            None => message_text(content@) is None,
        },
{
    match content {
        Json::Text(s) => Some(s.clone()),
        Json::Array(items) => {
            let ghost all = json_views(items@);
            assert(content@->Array_0 =~= all);
            let mut parts: Vec<String> = Vec::new();
            let mut i: usize = 0;
            assert(texts(parts@) =~= text_blocks(all.take(0)));
            while i < items.len()
                invariant
                    i <= items.len(),
                    all == json_views(items@),
                    texts(parts@) == text_blocks(all.take(i as int)),
                decreases items.len() - i,
            {
                let ghost before = parts@;
                let block = &items[i];
                assert(all.take(i + 1).drop_last() =~= all.take(i as int));
                assert(all.take(i + 1).last() == block@);
                if let Some(kind) = block.text_at("type") {
                    if same(kind, "text") {
                        if let Some(t) = block.text_at("text") {
                            parts.push(t.to_owned());
                            assert(texts(parts@) =~= texts(before).push(t@));
                        }
                    }
                }
                i += 1;
            }
            assert(all.take(i as int) =~= all);
            Some(join_strings(&parts, " "))
        },
        _ => None,
    }
}

/// The turn that a JSON value describes.
pub fn read_turn(json: &Json) -> (r: Option<(String, String)>)
    ensures
        match r {
            Some((role, t)) => turn_in(json@) == Some((role@, t@)),
            None => turn_in(json@) is None,
        },
{
    let kind = match json.text_at("type") {
        Some(kind) => kind,
        None => return None,
    };
    if !same(kind, "user") && !same(kind, "assistant") {
        return None;
    }
    let message = match json.get("message") {
        Some(m) => m,
        None => return None,
    };
    let content = match message.get("content") {
        Some(c) => c,
        None => return None,
    };
    match read_text(content) {
        Some(t) => if t.as_str().is_empty() {
            None
        } else {
            Some((kind.to_owned(), t))
        },
        None => None,
    }
}

/// Parses a JSONL transcript into `(role, text)` pairs.
///
/// Lines with a `type` other than `"user"` or `"assistant"` are skipped, and so are lines
/// that are not JSON. The `content` field may be a string or an array of content blocks.
pub fn parse_transcript(raw: &str) -> (r: Vec<(String, String)>)
    ensures
        turn_views(r@) == turns_of(lines(raw@)),
{
    let chars = chars_of(raw);
    assert(chars@.subrange(0, chars@.len() as int) =~= raw@);
    let bounds = line_bounds(&chars, 0, chars.len());
    let ghost all = lines(raw@);
    let mut turns: Vec<(String, String)> = Vec::new();
    let mut i: usize = 0;
    assert(turn_views(turns@) =~= turns_of(all.take(0)));
    while i < bounds.len()
        invariant
            i <= bounds.len(),
            all == ranges(chars@, bounds@),
            forall|i: int|
                0 <= i < bounds.len() ==> 0 <= (#[trigger] bounds@[i]).0 <= bounds@[i].1
                    <= chars.len(),
            turn_views(turns@) == turns_of(all.take(i as int)),
        decreases bounds.len() - i,
    {
        let ghost before = turns@;
        let (a, b) = bounds[i];
        assert(all.take(i + 1).drop_last() =~= all.take(i as int));
        assert(all.take(i + 1).last() == chars@.subrange(a as int, b as int));
        let (from, to) = trim_bounds(&chars, a, b);
        if from < to {
            let line = string_of(&chars, from, to);
            if let Ok(json) = parse_json(line.as_str()) {
                if let Some(turn) = read_turn(&json) {
                    turns.push(turn);
                    assert(turn_views(turns@) =~= turn_views(before).push((turn.0@, turn.1@)));
                }
            }
        }
        i += 1;
    }
    assert(all.take(i as int) =~= all);
    turns
}

/// The conversation as an extractor reads it: one `ROLE: text` line for each turn.
pub open spec fn conversation(turns: Seq<(Seq<char>, Seq<char>)>) -> Seq<char>
    decreases turns.len(),
{
    if turns.len() == 0 {
        seq![]
    } else {
        conversation(turns.drop_last()) + uppercase(turns.last().0) + ": "@ + turns.last().1
            + "\n"@
    }
}

/// Formats the conversation for an extractor.
pub fn format_conversation(turns: &Vec<(String, String)>) -> (r: String)
    ensures
        r@ == conversation(turn_views(turns@)),
{
    let ghost all = turn_views(turns@);
    let mut r = String::new();
    let mut i: usize = 0;
    assert(r@ =~= conversation(all.take(0)));
    while i < turns.len()
        invariant
            i <= turns.len(),
            all == turn_views(turns@),
            r@ == conversation(all.take(i as int)),
        decreases turns.len() - i,
    {
        r.append(to_uppercase(turns[i].0.as_str()).as_str());
        r.append(": ");
        r.append(turns[i].1.as_str());
        r.append("\n");
        i += 1;
        assert(all.take(i as int).drop_last() =~= all.take(i - 1));
        assert(all.take(i as int).last() == (turns@[i - 1].0@, turns@[i - 1].1@));
    }
    assert(all.take(i as int) =~= all);
    r
}

// ---------------------------------------------------------------------------
// Candidates
// ---------------------------------------------------------------------------

/// A candidate memory extracted from a transcript.
#[derive(Debug)]
pub struct ExtractCandidate {
    /// What to remember.
    pub content: String,
    /// The name of the memory type.
    pub memory_type: String,
    /// How important it is.
    pub importance: Score,
}

/// What an [`ExtractCandidate`] holds.
#[verifier::ext_equal]
pub struct CandidateView {
    pub content: Seq<char>,
    pub memory_type: Seq<char>,
    pub importance: Score,
}

impl View for ExtractCandidate {
    type V = CandidateView;

    open spec fn view(&self) -> CandidateView {
        CandidateView {
            content: self.content@,
            memory_type: self.memory_type@,
            importance: self.importance,
        }
    }
}

/// What the candidates hold.
pub open spec fn candidate_views(v: Seq<ExtractCandidate>) -> Seq<CandidateView> {
    Seq::new(v.len(), |i: int| v[i]@)
}

/// The bit pattern of the importance of a preference: 0.7.
pub const PREFERENCE: u32 = 0x3f33_3333;

/// The bit pattern of the importance of a fact about the stack: 0.8.
pub const STACK: u32 = 0x3f4c_cccd;

/// The bit pattern of the importance of a procedure: 0.75.
pub const PROCEDURE: u32 = 0x3f40_0000;

/// The bit pattern of the importance of an event: 0.4.
pub const EVENT: u32 = 0x3ecc_cccd;

/// The bit pattern of the importance where an extractor gives none: 0.5.
pub const UNRATED: u32 = 0x3f00_0000;

/// The text speaks of a preference or a standing constraint.
pub open spec fn states_preference(lower: Seq<char>) -> bool {
    ||| contains(lower, "prefer"@)
    ||| contains(lower, "always"@)
    ||| contains(lower, "like"@)
    ||| contains(lower, "want"@)
    ||| contains(lower, "love"@)
    ||| contains(lower, "never"@)
    ||| contains(lower, "don't"@)
    ||| contains(lower, "shouldn't"@)
    ||| contains(lower, "avoid"@)
    ||| contains(lower, "hate"@)
}

/// The text speaks of the stack or the tooling.
pub open spec fn states_stack(lower: Seq<char>) -> bool {
    ||| contains(lower, "we use"@)
    ||| contains(lower, "our stack"@)
    ||| contains(lower, "our repo"@)
    ||| contains(lower, "our db"@)
    ||| contains(lower, "we deploy"@)
}

/// The text speaks of a procedure.
pub open spec fn states_procedure(lower: Seq<char>) -> bool {
    ||| contains(lower, "to deploy"@)
    ||| contains(lower, "to build"@)
    ||| contains(lower, "to test"@)
    ||| contains(lower, "to run"@)
    ||| contains(lower, "steps to"@)
}

/// The text is worth no rule: it is shorter than 15 bytes, or a question.
pub open spec fn is_passed_over(t: Seq<char>) -> bool {
    encode_utf8(t).len() < 15 || (trim_end(t).len() > 0 && trim_end(t).last() == '?')
}

/// The memory type and the importance that the rules give a text.
pub open spec fn rule_for(t: Seq<char>) -> Option<(Seq<char>, u32)> {
    let lower = lowercase(t);
    if is_passed_over(t) {
        None
    } else if states_preference(lower) {
        Some(("semantic"@, PREFERENCE))
    } else if states_stack(lower) {
        Some(("semantic"@, STACK))
    } else if states_procedure(lower) {
        Some(("procedural"@, PROCEDURE))
    } else if encode_utf8(t).len() > 30 {
        Some(("episodic"@, EVENT))
    } else {
        None
    }
}

/// The candidates that the rules find in the turns of the user.
pub open spec fn found_by_rules(turns: Seq<(Seq<char>, Seq<char>)>) -> Seq<CandidateView>
    decreases turns.len(),
{
    if turns.len() == 0 {
        seq![]
    } else {
        let before = found_by_rules(turns.drop_last());
        let (role, t) = turns.last();
        match rule_for(t) {
            Some((memory_type, bits)) => if role == "user"@ {
                before.push(
                    CandidateView { content: t, memory_type, importance: Score { bits } },
                )
            } else {
                before
            },
            None => before,
        }
    }
}

/// The memory type and the importance that the rules give a text.
pub fn classify(t: &str) -> (r: Option<(&'static str, Score)>)
    ensures
        match r {
            Some((memory_type, importance)) => rule_for(t@) == Some(
                (memory_type@, importance.bits),
            ),
            None => rule_for(t@) is None,
        },
{
    let len: usize = byte_len(t);
    if len < 15 {
        return None;
    }
    let chars = chars_of(t);
    assert(chars@.subrange(0, chars@.len() as int) =~= t@);
    let end = trim_end_bound(&chars, 0, chars.len());
    if end > 0 && chars[end - 1] == '?' {
        assert(trim_end(t@).last() == '?');
        return None;
    }
    assert(!is_passed_over(t@));
    let lowered = to_lowercase(t);
    let lower = chars_of(lowered.as_str());
    if has(&lower, "prefer") || has(&lower, "always") || has(&lower, "like") || has(&lower, "want")
        || has(&lower, "love") || has(&lower, "never") || has(&lower, "don't") || has(
        &lower,
        "shouldn't",
    ) || has(&lower, "avoid") || has(&lower, "hate") {
        Some(("semantic", Score::from_bits(PREFERENCE)))
    } else if has(&lower, "we use") || has(&lower, "our stack") || has(&lower, "our repo") || has(
        &lower,
        "our db",
    ) || has(&lower, "we deploy") {
        Some(("semantic", Score::from_bits(STACK)))
    } else if has(&lower, "to deploy") || has(&lower, "to build") || has(&lower, "to test") || has(
        &lower,
        "to run",
    ) || has(&lower, "steps to") {
        Some(("procedural", Score::from_bits(PROCEDURE)))
    } else if len > 30 {
        Some(("episodic", Score::from_bits(EVENT)))
    } else {
        None
    }
}

/// Applies heuristic rules to user turns and returns extraction candidates.
pub fn heuristic_extract(turns: &Vec<(String, String)>) -> (r: Vec<ExtractCandidate>)
    ensures
        candidate_views(r@) == found_by_rules(turn_views(turns@)),
{
    let ghost all = turn_views(turns@);
    let mut found: Vec<ExtractCandidate> = Vec::new();
    let mut i: usize = 0;
    assert(candidate_views(found@) =~= found_by_rules(all.take(0)));
    while i < turns.len()
        invariant
            i <= turns.len(),
            all == turn_views(turns@),
            candidate_views(found@) == found_by_rules(all.take(i as int)),
        decreases turns.len() - i,
    {
        let ghost before = found@;
        assert(all.take(i + 1).drop_last() =~= all.take(i as int));
        assert(all.take(i + 1).last() == (turns@[i as int].0@, turns@[i as int].1@));
        if same(turns[i].0.as_str(), "user") {
            if let Some((memory_type, importance)) = classify(turns[i].1.as_str()) {
                let candidate = ExtractCandidate {
                    content: turns[i].1.clone(),
                    memory_type: memory_type.to_owned(),
                    importance,
                };
                found.push(candidate);
                assert(candidate_views(found@) =~= candidate_views(before).push(candidate@));
            }
        }
        i += 1;
    }
    assert(all.take(i as int) =~= all);
    found
}

/// Rules find candidates only in what the user says, never in a short text or a question.
pub proof fn law_rules_pass_over(turns: Seq<(Seq<char>, Seq<char>)>, i: int)
    requires
        0 <= i < found_by_rules(turns).len(),
    ensures
        !is_passed_over(found_by_rules(turns)[i].content),
        turns.contains(("user"@, found_by_rules(turns)[i].content)),
    decreases turns.len(),
{
    let front = turns.drop_last();
    let before = found_by_rules(front);
    if i < before.len() {
        law_rules_pass_over(front, i);
        let k = choose|k: int|
            0 <= k < front.len() && front[k] == ("user"@, before[i].content);
        assert(turns[k] == ("user"@, before[i].content));
    } else {
        assert(turns[turns.len() - 1] == turns.last());
    }
}

/// The importance that an extractor gives, as `single` reads the number; one half if it
/// gives none.
pub open spec fn importance_read<F: Fn(Number) -> Score>(
    single: F,
    item: JsonView,
    importance: Score,
) -> bool {
    let given = match item.field("importance"@) {
        Some(v) => v.numeric(),
        None => None,
    };
    match given {
        Some(n) => call_ensures(single, (n,), importance),
        None => importance.bits == UNRATED,
    }
}

/// The candidates that an extractor has found: the items with a content, with a type that
/// is episodic unless given.
pub open spec fn found_by_extractor(items: Seq<JsonView>, importances: Seq<Score>) -> Seq<
    CandidateView,
>
    decreases items.len(),
{
    if items.len() == 0 || importances.len() == 0 {
        seq![]
    } else {
        let before = found_by_extractor(items.drop_last(), importances.drop_last());
        match items.last().text_field("content"@) {
            Some(content) => before.push(
                CandidateView {
                    content,
                    memory_type: match items.last().text_field("type"@) {
                        Some(t) => t,
                        None => "episodic"@,
                    },
                    importance: importances.last(),
                },
            ),
            None => before,
        }
    }
}

/// The importances of all items.
pub open spec fn all_importances<F: Fn(Number) -> Score>(
    single: F,
    items: Seq<JsonView>,
    importances: Seq<Score>,
) -> bool {
    &&& importances.len() == items.len()
    &&& forall|i: int|
        0 <= i < items.len() ==> importance_read(single, items[i], #[trigger] importances[i])
}

/// The candidates among the items that an extractor lists. Numbers are read by `single`.
pub fn listed_candidates<F: Fn(Number) -> Score>(items: &Vec<Json>, single: F) -> (r: Vec<
    ExtractCandidate,
>)
    requires
        forall|n: Number| call_requires(single, (n,)),
    ensures
        exists|importances: Seq<Score>| #[trigger]
            all_importances(single, json_views(items@), importances) && candidate_views(r@)
                == found_by_extractor(json_views(items@), importances),
{
    let ghost all = json_views(items@);
    let ghost mut importances: Seq<Score> = seq![];
    let mut found: Vec<ExtractCandidate> = Vec::new();
    let mut i: usize = 0;
    assert(candidate_views(found@) =~= found_by_extractor(all.take(0), importances));
    while i < items.len()
        invariant
            i <= items.len(),
            all == json_views(items@),
            importances.len() == i,
            forall|n: Number| call_requires(single, (n,)),
            forall|j: int|
                0 <= j < i ==> importance_read(single, all[j], #[trigger] importances[j]),
            candidate_views(found@) == found_by_extractor(all.take(i as int), importances),
        decreases items.len() - i,
    {
        let ghost before = found@;
        let item = &items[i];
        let given: Option<Number> = match item.get("importance") {
            Some(v) => v.as_number(),
            None => None,
        };
        let importance: Score = match given {
            Some(n) => single(n),
            None => Score::from_bits(UNRATED),
        };
        proof {
            assert(all[i as int] == item@);
            assert(importance_read(single, all[i as int], importance));
            assert(importances.push(importance).drop_last() =~= importances);
            importances = importances.push(importance);
            assert(all.take(i + 1).drop_last() =~= all.take(i as int));
            assert(all.take(i + 1).last() == item@);
        }
        if let Some(content) = item.text_at("content") {
            let memory_type: String = match item.text_at("type") {
                Some(t) => t.to_owned(),
                None => "episodic".to_owned(),
            };
            let candidate = ExtractCandidate {
                content: content.to_owned(),
                memory_type,
                importance,
            };
            found.push(candidate);
            assert(candidate_views(found@) =~= candidate_views(before).push(candidate@));
        }
        i += 1;
    }
    assert(all.take(i as int) =~= all);
    assert(all_importances(single, all, importances));
    found
}

/// The candidates in the output of an extractor; none if it is no JSON array. Numbers are
/// read by `single`.
pub fn read_extractor_output<F: Fn(Number) -> Score>(output: &str, single: F) -> (r: Option<
    Vec<ExtractCandidate>,
>)
    requires
        forall|n: Number| call_requires(single, (n,)),
    ensures
        match items_in(output@) {
            Some(items) => match r {
                Some(v) => exists|importances: Seq<Score>| #[trigger]
                    all_importances(single, items, importances) && candidate_views(v@)
                        == found_by_extractor(items, importances),
                None => false,
            },
            None => r is None,
        },
{
    match parse_json(output) {
        Ok(json) => match json.as_array() {
            Some(items) => {
                let found = listed_candidates(items, single);
                assert(items_in(output@) == Some(json_views(items@)));
                let ghost importances = choose|importances: Seq<Score>| #[trigger]
                    all_importances(single, json_views(items@), importances) && candidate_views(
                        found@,
                    ) == found_by_extractor(json_views(items@), importances);
                assert(all_importances(single, items_in(output@)->0, importances));
                Some(found)
            },
            None => None,
        },
        Err(_) => None,
    }
}

// ---------------------------------------------------------------------------
// What becomes of a candidate
// ---------------------------------------------------------------------------

/// What becomes of a candidate.
#[derive(Debug, Clone, Copy, PartialEq, Eq, Structural)]
pub enum Verdict {
    /// It is known already, and skipped.
    Duplicate,
    /// It is only shown.
    Preview,
    /// It is remembered, as a memory of this type.
    Store(MemoryType),
}

/// The candidate is known: what was recalled for it holds its content.
pub open spec fn is_known(content: Seq<char>, recalled: Seq<char>) -> bool {
    recalled.len() > 0 && contains(recalled, content)
}

/// The type by this name, in upper or lower case; episodic if there is none.
pub open spec fn type_by_name(name: Seq<char>) -> MemoryType {
    if exists|t: MemoryType| lowercase(name) == #[trigger] t.name() {
        choose|t: MemoryType| lowercase(name) == #[trigger] t.name()
    } else {
        MemoryType::Episodic
    }
}

/// What becomes of a candidate, given what was recalled for its content.
pub fn judge(candidate: &ExtractCandidate, recalled: &str, dry_run: bool) -> (r: Verdict)
    ensures
        r == if is_known(candidate@.content, recalled@) {
            Verdict::Duplicate
        } else if dry_run {
            Verdict::Preview
        } else {
            Verdict::Store(type_by_name(candidate@.memory_type))
        },
{
    let text = chars_of(recalled);
    if text.len() > 0 && has(&text, candidate.content.as_str()) {
        return Verdict::Duplicate;
    }
    if dry_run {
        return Verdict::Preview;
    }
    match MemoryType::from_str(candidate.memory_type.as_str()) {
        Ok(t) => {
            proof {
                let chosen = type_by_name(candidate@.memory_type);
                assert(lowercase(candidate@.memory_type) == t.name());
                crate::models::law_type_names(t, chosen);
            }
            Verdict::Store(t)
        },
        Err(_) => Verdict::Store(MemoryType::Episodic),
    }
}

} // verus!
