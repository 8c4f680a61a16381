//! What the command line asks of the library, and what it prints.

use vstd::prelude::*;
use vstd::string::StringExecFns;

use crate::consolidation::{ConsolidationStats, EvictionStats};
use crate::error::{MemoryError, Result};
use crate::json::{
    array, json_views, number, object, object_of, text, Json, JsonView, Number,
};
use crate::models::{refused, EntryView, MemoryEntry};
use crate::text::{
    chars_of, concat, decimal, lemma_split_parts, lemma_trim_again, lemma_trim_part, number_text,
    split, split_on, string_of, texts, trim, trim_bounds,
};
use crate::transcript::{
    candidate_views, is_known, judge, type_by_name, CandidateView, ExtractCandidate, Verdict,
};

verus! {

// ---------------------------------------------------------------------------
// Arguments
// ---------------------------------------------------------------------------

/// Returns the user ID, or an error if it was not provided.
pub fn require_user(user: Option<String>) -> (r: Result<String>)
    ensures
        match user {
            Some(u) => r is Ok && r->Ok_0@ == u@,
            None => refused(
                r,
                "GIMEM_USER is required for this command (--user or env var GIMEM_USER)"@,
            ),
        },
{
    match user {
        Some(u) => Ok(u),
        None => Err(
            MemoryError::InvalidInput(
                "GIMEM_USER is required for this command (--user or env var GIMEM_USER)".to_owned(),
            ),
        ),
    }
}

/// The parts without the white space around them, as far as anything is left.
pub open spec fn trimmed_parts(parts: Seq<Seq<char>>) -> Seq<Seq<char>>
    decreases parts.len(),
{
    if parts.len() == 0 {
        seq![]
    } else {
        let before = trimmed_parts(parts.drop_last());
        let last = trim(parts.last());
        if last.len() == 0 {
            before
        } else {
            before.push(last)
        }
    }
}

/// What is split off is never empty, has no white space around it, and holds no comma.
pub proof fn law_csv_parts(s: Seq<char>, i: int)
    requires
        0 <= i < trimmed_parts(split(s, ',')).len(),
    ensures
        ({
            let part = trimmed_parts(split(s, ','))[i];
            part.len() > 0 && trim(part) == part && !part.contains(',')
        }),
{
    assert forall|k: int| 0 <= k < split(s, ',').len() implies !(
    #[trigger] split(s, ',')[k]).contains(',') by {
        lemma_split_parts(s, ',', k);
    }
    lemma_trimmed_parts(split(s, ','), i);
}

proof fn lemma_trimmed_parts(parts: Seq<Seq<char>>, i: int)
    requires
        0 <= i < trimmed_parts(parts).len(),
        forall|k: int| 0 <= k < parts.len() ==> !(#[trigger] parts[k]).contains(','),
    ensures
        ({
            let part = trimmed_parts(parts)[i];
            part.len() > 0 && trim(part) == part && !part.contains(',')
        }),
    decreases parts.len(),
{
    let front = parts.drop_last();
    let before = trimmed_parts(front);
    if i < before.len() {
        assert forall|k: int| 0 <= k < front.len() implies !(#[trigger] front[k]).contains(',') by {
            assert(front[k] == parts[k]);
        }
        lemma_trimmed_parts(front, i);
    } else {
        let last = parts.last();
        assert(last == parts[parts.len() - 1]);
        lemma_trim_again(last);
        if trim(last).contains(',') {
            lemma_trim_part(last, ',');
        }
    }
}

/// Splits a comma-separated string, filtering empty parts.
pub fn split_csv(s: &str) -> (r: Vec<String>)
    ensures
        texts(r@) == trimmed_parts(split(s@, ',')),
{
    let parts = split_on(s, ',');
    let ghost all = split(s@, ',');
    let mut r: Vec<String> = Vec::new();
    let mut i: usize = 0;
    assert(texts(r@) =~= trimmed_parts(all.take(0)));
    while i < parts.len()
        invariant
            i <= parts.len(),
            all == texts(parts@),
            texts(r@) == trimmed_parts(all.take(i as int)),
        decreases parts.len() - i,
    {
        let ghost before = r@;
        let chars = chars_of(parts[i].as_str());
        assert(chars@.subrange(0, chars@.len() as int) =~= parts@[i as int]@);
        let (from, to) = trim_bounds(&chars, 0, chars.len());
        assert(all.take(i + 1).drop_last() =~= all.take(i as int));
        assert(all.take(i + 1).last() == parts@[i as int]@);
        if from < to {
            r.push(string_of(&chars, from, to));
            assert(texts(r@) =~= texts(before).push(trim(parts@[i as int]@)));
        }
        i += 1;
    }
    assert(all.take(i as int) =~= all);
    r
}

// ---------------------------------------------------------------------------
// Output
// ---------------------------------------------------------------------------

/// What a command prints.
#[derive(Debug)]
pub enum Output {
    /// A line for people.
    Human(String),
    /// A JSON value for programs.
    Machine(Json),
}

/// The output is `json` for programs, and `line` for people.
pub open spec fn prints(r: Output, json: bool, line: Seq<char>, value: JsonView) -> bool {
    match r {
        Output::Human(s) => !json && s@ == line,
        Output::Machine(j) => json && j@ == value,
    }
}

/// Chooses between the two forms.
fn output(json: bool, line: String, value: Json) -> (r: Output)
    ensures
        prints(r, json, line@, value@),
{
    if json {
        Output::Machine(value)
    } else {
        Output::Human(line)
    }
}

/// The object with the one member `ok`, which is true.
pub open spec fn ok_value() -> JsonView {
    JsonView::Object(seq![("ok"@, JsonView::Bool(true))])
}

/// A count.
pub open spec fn count(n: usize) -> JsonView {
    JsonView::Number(Number::Unsigned(n as u64))
}

/// An issue number, or null.
pub open spec fn issue_value(n: Option<u64>) -> JsonView {
    match n {
        Some(n) => JsonView::Number(Number::Unsigned(n)),
        None => JsonView::Null,
    }
}

/// An issue number, or zero.
pub open spec fn number_or_zero(n: Option<u64>) -> u64 {
    match n {
        Some(n) => n,
        None => 0,
    }
}

/// An entry that was stored.
pub open spec fn entry_value(e: EntryView) -> JsonView {
    JsonView::Object(
        seq![
            ("issue_number"@, issue_value(e.issue_number)),
            ("content"@, JsonView::Text(e.content)),
            ("memory_type"@, JsonView::Text(e.memory_type.name())),
        ],
    )
}

fn issue_json(n: Option<u64>) -> (r: Json)
    ensures
        r@ == issue_value(n),
{
    match n {
        Some(n) => number(n),
        None => Json::Null,
    }
}

fn entry_json(entry: &MemoryEntry) -> (r: Json)
    ensures
        r@ == entry_value(entry@),
{
    let mut members: Vec<(String, Json)> = Vec::new();
    members.push(("issue_number".to_owned(), issue_json(entry.issue_number)));
    members.push(("content".to_owned(), text(entry.content.as_str())));
    members.push(("memory_type".to_owned(), text(entry.memory_type.as_str())));
    let r = object(members);
    assert(r@->Object_0 =~= entry_value(entry@)->Object_0);
    r
}

fn issue_or_zero(n: Option<u64>) -> (r: u64)
    ensures
        r == number_or_zero(n),
{
    match n {
        Some(n) => n,
        None => 0,
    }
}

/// What `bootstrap` prints.
pub fn bootstrap_output(json: bool) -> (r: Output)
    ensures
        prints(r, json, "Bootstrap complete."@, ok_value()),
{
    output(json, "Bootstrap complete.".to_owned(), object_of("ok", Json::Bool(true)))
}

/// What `remember` prints.
pub fn remember_output(entry: &MemoryEntry, json: bool) -> (r: Output)
    ensures
        prints(
            r,
            json,
            "Stored memory #"@ + decimal(number_or_zero(entry@.issue_number) as nat) + " ("@
                + entry@.memory_type.name() + ")."@,
            entry_value(entry@),
        ),
{
    let n: u64 = issue_or_zero(entry.issue_number);
    let mut line = concat("Stored memory #", number_text(n).as_str());
    line.append(" (");
    line.append(entry.memory_type.as_str());
    line.append(").");
    output(json, line, entry_json(entry))
}

/// What `recall` prints.
pub fn recall_output(context: &str, json: bool) -> (r: Output)
    ensures
        prints(
            r,
            json,
            context@,
            JsonView::Object(seq![("context"@, JsonView::Text(context@))]),
        ),
{
    output(json, context.to_owned(), object_of("context", text(context)))
}

/// What `forget` prints.
pub fn forget_output(issue_number: u64, json: bool) -> (r: Output)
    ensures
        prints(
            r,
            json,
            "Deleted memory #"@ + decimal(issue_number as nat) + "."@,
            JsonView::Object(
                seq![
                    ("ok"@, JsonView::Bool(true)),
                    ("issue_number"@, JsonView::Number(Number::Unsigned(issue_number))),
                ],
            ),
        ),
{
    let mut line = concat("Deleted memory #", number_text(issue_number).as_str());
    line.append(".");
    let mut members: Vec<(String, Json)> = Vec::new();
    members.push(("ok".to_owned(), Json::Bool(true)));
    members.push(("issue_number".to_owned(), number(issue_number)));
    let value = object(members);
    assert(value@->Object_0 =~= seq![
        ("ok"@, JsonView::Bool(true)),
        ("issue_number"@, JsonView::Number(Number::Unsigned(issue_number))),
    ]);
    output(json, line, value)
}

/// What `set-working` prints.
pub fn set_working_output(entry: &MemoryEntry, json: bool) -> (r: Output)
    ensures
        prints(
            r,
            json,
            "Working memory set (issue #"@ + decimal(number_or_zero(entry@.issue_number) as nat)
                + ")."@,
            entry_value(entry@),
        ),
{
    let n: u64 = issue_or_zero(entry.issue_number);
    let mut line = concat("Working memory set (issue #", number_text(n).as_str());
    line.append(").");
    output(json, line, entry_json(entry))
}

/// What `clear-working` prints.
pub fn clear_working_output(json: bool) -> (r: Output)
    ensures
        prints(r, json, "Working memory cleared."@, ok_value()),
{
    output(json, "Working memory cleared.".to_owned(), object_of("ok", Json::Bool(true)))
}

/// What `start-session` prints.
pub fn start_session_output(session_id: &str, json: bool) -> (r: Output)
    ensures
        prints(
            r,
            json,
            session_id@,
            JsonView::Object(seq![("session_id"@, JsonView::Text(session_id@))]),
        ),
{
    output(json, session_id.to_owned(), object_of("session_id", text(session_id)))
}

/// What `end-session` and `consolidate` print, after a word on what was done.
pub fn consolidation_output(stats: &ConsolidationStats, json: bool, done: &str) -> (r: Output)
    ensures
        prints(
            r,
            json,
            done@ + " consolidated="@ + decimal(stats.consolidated as nat) + " promoted="@ + decimal(
                stats.promoted as nat,
            ) + " evicted="@ + decimal(stats.evicted as nat),
            JsonView::Object(
                seq![
                    ("consolidated"@, count(stats.consolidated)),
                    ("promoted"@, count(stats.promoted)),
                    ("evicted"@, count(stats.evicted)),
                ],
            ),
        ),
{
    let mut line = concat(done, " consolidated=");
    line.append(number_text(stats.consolidated as u64).as_str());
    line.append(" promoted=");
    line.append(number_text(stats.promoted as u64).as_str());
    line.append(" evicted=");
    line.append(number_text(stats.evicted as u64).as_str());
    let mut members: Vec<(String, Json)> = Vec::new();
    members.push(("consolidated".to_owned(), number(stats.consolidated as u64)));
    members.push(("promoted".to_owned(), number(stats.promoted as u64)));
    members.push(("evicted".to_owned(), number(stats.evicted as u64)));
    let value = object(members);
    assert(value@->Object_0 =~= seq![
        ("consolidated"@, count(stats.consolidated)),
        ("promoted"@, count(stats.promoted)),
        ("evicted"@, count(stats.evicted)),
    ]);
    output(json, line, value)
}

/// What `evict` prints.
pub fn evict_output(stats: &EvictionStats, dry_run: bool, json: bool) -> (r: Output)
    ensures
        prints(
            r,
            json,
            (if dry_run {
                "[dry-run] "@
            } else {
                seq![]
            }) + "Eviction done. evicted="@ + decimal(stats.evicted as nat) + " candidates="@
                + decimal(stats.candidates as nat),
            JsonView::Object(
                seq![
                    ("evicted"@, count(stats.evicted)),
                    ("candidates"@, count(stats.candidates)),
                    ("dry_run"@, JsonView::Bool(dry_run)),
                ],
            ),
        ),
{
    let mut line = String::new();
    if dry_run {
        line.append("[dry-run] ");
    }
    let ghost front = line@;
    line.append("Eviction done. evicted=");
    line.append(number_text(stats.evicted as u64).as_str());
    line.append(" candidates=");
    line.append(number_text(stats.candidates as u64).as_str());
    assert(front =~= if dry_run {
        "[dry-run] "@
    } else {
        seq![]
    });
    let mut members: Vec<(String, Json)> = Vec::new();
    members.push(("evicted".to_owned(), number(stats.evicted as u64)));
    members.push(("candidates".to_owned(), number(stats.candidates as u64)));
    members.push(("dry_run".to_owned(), Json::Bool(dry_run)));
    let value = object(members);
    assert(value@->Object_0 =~= seq![
        ("evicted"@, count(stats.evicted)),
        ("candidates"@, count(stats.candidates)),
        ("dry_run"@, JsonView::Bool(dry_run)),
    ]);
    output(json, line, value)
}

// ---------------------------------------------------------------------------
// Extraction
// ---------------------------------------------------------------------------

/// The token budget with which is recalled what is known of a candidate.
pub const EXTRACT_BUDGET: usize = 500;

/// The line that tells of a candidate that is known already.
pub fn duplicate_line(candidate: &ExtractCandidate) -> (r: String)
    ensures
        r@ == "  ["@ + candidate@.memory_type + "] Skipped (duplicate): "@ + candidate@.content,
{
    let mut line = concat("  [", candidate.memory_type.as_str());
    line.append("] Skipped (duplicate): ");
    line.append(candidate.content.as_str());
    line
}

/// The line that tells of a candidate that is stored, or would be. Its importance is
/// written `importance`.
pub fn candidate_line(candidate: &ExtractCandidate, importance: &str) -> (r: String)
    ensures
        r@ == "  ["@ + candidate@.memory_type + "] "@ + candidate@.content + " (importance: "@
            + importance@ + ")"@,
{
    let mut line = concat("  [", candidate.memory_type.as_str());
    line.append("] ");
    line.append(candidate.content.as_str());
    line.append(" (importance: ");
    line.append(importance);
    line.append(")");
    line
}

/// A candidate that was only shown.
pub open spec fn preview_value(c: CandidateView) -> JsonView {
    JsonView::Object(
        seq![
            ("content"@, JsonView::Text(c.content)),
            ("memory_type"@, JsonView::Text(c.memory_type)),
            ("importance"@, JsonView::Number(Number::Single(c.importance))),
            ("dry_run"@, JsonView::Bool(true)),
        ],
    )
}

/// A candidate that was stored.
pub open spec fn stored_value(c: CandidateView, issue_number: Option<u64>) -> JsonView {
    JsonView::Object(
        seq![
            ("issue_number"@, issue_value(issue_number)),
            ("content"@, JsonView::Text(c.content)),
            ("memory_type"@, JsonView::Text(c.memory_type)),
            ("importance"@, JsonView::Number(Number::Single(c.importance))),
        ],
    )
}

/// A candidate that was only shown, as JSON.
pub fn preview_json(candidate: &ExtractCandidate) -> (r: Json)
    ensures
        r@ == preview_value(candidate@),
{
    let mut members: Vec<(String, Json)> = Vec::new();
    members.push(("content".to_owned(), text(candidate.content.as_str())));
    members.push(("memory_type".to_owned(), text(candidate.memory_type.as_str())));
    members.push(("importance".to_owned(), Json::Number(Number::Single(candidate.importance))));
    members.push(("dry_run".to_owned(), Json::Bool(true)));
    let r = object(members);
    assert(r@->Object_0 =~= preview_value(candidate@)->Object_0);
    r
}

/// A candidate that was stored, as JSON.
pub fn stored_json(candidate: &ExtractCandidate, issue_number: Option<u64>) -> (r: Json)
    ensures
        r@ == stored_value(candidate@, issue_number),
{
    let mut members: Vec<(String, Json)> = Vec::new();
    members.push(("issue_number".to_owned(), issue_json(issue_number)));
    members.push(("content".to_owned(), text(candidate.content.as_str())));
    members.push(("memory_type".to_owned(), text(candidate.memory_type.as_str())));
    members.push(("importance".to_owned(), Json::Number(Number::Single(candidate.importance))));
    let r = object(members);
    assert(r@->Object_0 =~= stored_value(candidate@, issue_number)->Object_0);
    r
}

/// What `extract-from-transcript` prints at the end.
pub fn extract_output(
    stored: Vec<Json>,
    skipped: usize,
    total_candidates: usize,
    dry_run: bool,
    json: bool,
) -> (r: Output)
    requires
        skipped <= total_candidates,
    ensures
        prints(
            r,
            json,
            (if dry_run {
                "Would extract"@
            } else {
                "Extracted"@
            }) + " "@ + decimal((total_candidates - skipped) as nat)
                + " memories from transcript."@,
            JsonView::Object(
                seq![
                    ("stored"@, JsonView::Array(json_views(stored@))),
                    ("skipped"@, count(skipped)),
                    ("total_candidates"@, count(total_candidates)),
                    ("dry_run"@, JsonView::Bool(dry_run)),
                ],
            ),
        ),
{
    let action: &'static str = if dry_run {
        "Would extract"
    } else {
        "Extracted"
    };
    let mut line = concat(action, " ");
    line.append(number_text((total_candidates - skipped) as u64).as_str());
    line.append(" memories from transcript.");
    let ghost items = json_views(stored@);
    let mut members: Vec<(String, Json)> = Vec::new();
    members.push(("stored".to_owned(), array(stored)));
    members.push(("skipped".to_owned(), number(skipped as u64)));
    members.push(("total_candidates".to_owned(), number(total_candidates as u64)));
    members.push(("dry_run".to_owned(), Json::Bool(dry_run)));
    let value = object(members);
    assert(value@->Object_0 =~= seq![
        ("stored"@, JsonView::Array(items)),
        ("skipped"@, count(skipped)),
        ("total_candidates"@, count(total_candidates)),
        ("dry_run"@, JsonView::Bool(dry_run)),
    ]);
    output(json, line, value)
}

/// How far an extraction has come.
#[verifier::ext_equal]
pub struct ExtractionView {
    /// The candidates.
    pub candidates: Seq<CandidateView>,
    /// How many of them are settled.
    pub at: int,
    /// What was stored, or would be, as JSON.
    pub stored: Seq<JsonView>,
    /// How many were known already.
    pub skipped: int,
    /// Whether nothing is to be stored.
    pub dry_run: bool,
}

impl ExtractionView {
    /// Each settled candidate was either stored (or would be) or skipped.
    pub open spec fn sound(self) -> bool {
        0 <= self.at <= self.candidates.len() && 0 <= self.skipped && self.stored.len()
            + self.skipped == self.at
    }

    /// What becomes of the next candidate, given what was recalled for it.
    pub open spec fn verdict(self, recalled: Seq<char>) -> Verdict {
        let c = self.candidates[self.at];
        if is_known(c.content, recalled) {
            Verdict::Duplicate
        } else if self.dry_run {
            Verdict::Preview
        } else {
            Verdict::Store(type_by_name(c.memory_type))
        }
    }

    /// The next candidate was known already.
    pub open spec fn after_duplicate(self) -> ExtractionView {
        ExtractionView { at: self.at + 1, skipped: self.skipped + 1, ..self }
    }

    /// The next candidate was stored, or would be, as `value`.
    pub open spec fn after_stored(self, value: JsonView) -> ExtractionView {
        ExtractionView { at: self.at + 1, stored: self.stored.push(value), ..self }
    }
}

/// An extraction in progress.
///
/// For each candidate that [`Extraction::current`] gives, what is recalled for its content
/// goes to [`Extraction::settle`]; if it is to be stored, the issue goes to
/// [`Extraction::record`].
pub struct Extraction {
    candidates: Vec<ExtractCandidate>,
    at: usize,
    stored: Vec<Json>,
    skipped: usize,
    dry_run: bool,
}

impl View for Extraction {
    type V = ExtractionView;

    closed spec fn view(&self) -> ExtractionView {
        ExtractionView {
            candidates: candidate_views(self.candidates@),
            at: self.at as int,
            stored: json_views(self.stored@),
            skipped: self.skipped as int,
            dry_run: self.dry_run,
        }
    }
}

impl Extraction {
    /// Starts to settle the candidates.
    pub fn new(candidates: Vec<ExtractCandidate>, dry_run: bool) -> (r: Extraction)
        ensures
            r@.sound(),
            r@ == (ExtractionView {
                candidates: candidate_views(candidates@),
                at: 0,
                stored: seq![],
                skipped: 0,
                dry_run,
            }),
    {
        let r = Extraction { candidates, at: 0, stored: Vec::new(), skipped: 0, dry_run };
        assert(r@.stored =~= seq![]);
        r
    }

    /// The next candidate; none if all are settled.
    pub fn current(&self) -> (r: Option<&ExtractCandidate>)
        requires
            self@.sound(),
        ensures
            match r {
                Some(c) => self@.at < self@.candidates.len() && c@ == self@.candidates[self@.at],
                None => self@.at == self@.candidates.len(),
            },
    {
        if self.at < self.candidates.len() {
            Some(&self.candidates[self.at])
        } else {
            None
        }
    }

    /// Decides on the next candidate, given what was recalled for its content. It is settled
    /// unless it is to be stored.
    pub fn settle(&mut self, recalled: &str) -> (r: Verdict)
        requires
            old(self)@.sound(),
            old(self)@.at < old(self)@.candidates.len(),
        ensures
            final(self)@.sound(),
            r == old(self)@.verdict(recalled@),
            final(self)@ == match r {
                Verdict::Duplicate => old(self)@.after_duplicate(),
                Verdict::Preview => old(self)@.after_stored(
                    preview_value(old(self)@.candidates[old(self)@.at]),
                ),
                Verdict::Store(_) => old(self)@,
            },
    {
        assert(self.skipped <= self.at < self.candidates.len());
        let candidate = &self.candidates[self.at];
        assert(candidate@ == self@.candidates[self@.at]);
        let verdict = judge(candidate, recalled, self.dry_run);
        match verdict {
            Verdict::Duplicate => {
                self.skipped = self.skipped + 1;
                self.at = self.at + 1;
            },
            Verdict::Preview => {
                let value = preview_json(candidate);
                let ghost before = self.stored@;
                self.stored.push(value);
                self.at = self.at + 1;
                assert(json_views(self.stored@) =~= json_views(before).push(value@));
            },
            Verdict::Store(_) => {},
        }
        verdict
    }

    /// Settles the next candidate, which was stored as the issue `issue_number`.
    pub fn record(&mut self, issue_number: Option<u64>)
        requires
            old(self)@.sound(),
            old(self)@.at < old(self)@.candidates.len(),
        ensures
            final(self)@.sound(),
            final(self)@ == old(self)@.after_stored(
                stored_value(old(self)@.candidates[old(self)@.at], issue_number),
            ),
    {
        assert(self.skipped <= self.at < self.candidates.len());
        let candidate = &self.candidates[self.at];
        assert(candidate@ == self@.candidates[self@.at]);
        let value = stored_json(candidate, issue_number);
        let ghost before = self.stored@;
        self.stored.push(value);
        self.at = self.at + 1;
        assert(json_views(self.stored@) =~= json_views(before).push(value@));
    }

    /// What is printed once all candidates are settled.
    pub fn finish(self, json: bool) -> (r: Output)
        requires
            self@.sound(),
        ensures
            prints(
                r,
                json,
                (if self@.dry_run {
                    "Would extract"@
                } else {
                    "Extracted"@
                }) + " "@ + decimal((self@.candidates.len() - self@.skipped) as nat)
                    + " memories from transcript."@,
                JsonView::Object(
                    seq![
                        ("stored"@, JsonView::Array(self@.stored)),
                        ("skipped"@, JsonView::Number(Number::Unsigned(self@.skipped as u64))),
                        (
                            "total_candidates"@,
                            JsonView::Number(Number::Unsigned(self@.candidates.len() as u64)),
                        ),
                        ("dry_run"@, JsonView::Bool(self@.dry_run)),
                    ],
                ),
            ),
    {
        let total: usize = self.candidates.len();
        extract_output(self.stored, self.skipped, total, self.dry_run, json)
    }
}

/// The line on the error output that tells why a command failed.
pub fn error_line(error: &MemoryError) -> (r: String)
    ensures
        r@ == match *error {
            MemoryError::RateLimit { .. } => error.text(),
            _ => "Error: "@ + error.text(),
        },
{
    match error {
        MemoryError::RateLimit { .. } => error.to_string(),
        _ => concat("Error: ", error.to_string().as_str()),
    }
}

} // verus!
