//! Laws of what commands read and print.

use vstd::prelude::*;

use crate::cli::{
    count, entry_value, issue_value, number_or_zero, ok_value, preview_value, prints,
    stored_value, trimmed_parts, ExtractionView, Output, EXTRACT_BUDGET,
};
use crate::json::{JsonView, Number};
use crate::laws::{lemma_selects_none, lemma_selects_one_more, selects};
use crate::models::EntryView;
use crate::text::{contains, trim};
use crate::transcript::{type_by_name, CandidateView, Verdict};

verus! {

/// Of the parts of a list, each that is not blank is kept, in order, without the white space
/// around it.
pub proof fn law_parts(parts: Seq<Seq<char>>)
    ensures
        selects(
            parts,
            |p: Seq<char>| trim(p).len() > 0,
            |p: Seq<char>| trim(p),
            trimmed_parts(parts),
        ),
    decreases parts.len(),
{
    let keep = |p: Seq<char>| trim(p).len() > 0;
    let made = |p: Seq<char>| trim(p);
    if parts.len() == 0 {
        lemma_selects_none(parts, keep, made);
    } else {
        law_parts(parts.drop_last());
        lemma_selects_one_more(parts, keep, made, trimmed_parts(parts.drop_last()));
    }
}

/// A command prints the value where JSON is wanted, and the line where it is not.
pub proof fn law_prints(r: Output, json: bool, line: Seq<char>, value: JsonView)
    ensures
        prints(r, json, line, value) && json ==> r is Machine && r->Machine_0@ == value,
        prints(r, json, line, value) && !json ==> r is Human && r->Human_0@ == line,
{
}

/// The values that commands print: numbers as they are, a missing issue as null, in a line as
/// zero.
pub proof fn law_values(n: usize, issue: Option<u64>)
    ensures
        ok_value() == JsonView::Object(seq![("ok"@, JsonView::Bool(true))]),
        count(n) == JsonView::Number(Number::Unsigned(n as u64)),
        issue matches Some(k) ==> issue_value(issue) == JsonView::Number(Number::Unsigned(k))
            && number_or_zero(issue) == k,
        issue is None ==> issue_value(issue) is Null && number_or_zero(issue) == 0,
{
}

/// An entry is printed with its issue, its content and its type.
pub proof fn law_entry_value(e: EntryView)
    ensures
        entry_value(e) is Object,
        entry_value(e)->Object_0.len() == 3,
        entry_value(e)->Object_0[0] == ("issue_number"@, issue_value(e.issue_number)),
        entry_value(e)->Object_0[1] == ("content"@, JsonView::Text(e.content)),
        entry_value(e)->Object_0[2] == ("memory_type"@, JsonView::Text(e.memory_type.name())),
{
}

/// A candidate is printed with its content, type and importance: marked as a dry run, or with
/// the issue in which it was stored.
pub proof fn law_candidate_values(c: CandidateView, issue: Option<u64>)
    ensures
        preview_value(c) is Object,
        preview_value(c)->Object_0.len() == 4,
        preview_value(c)->Object_0[0] == ("content"@, JsonView::Text(c.content)),
        preview_value(c)->Object_0[1] == ("memory_type"@, JsonView::Text(c.memory_type)),
        preview_value(c)->Object_0[2] == (
            "importance"@,
            JsonView::Number(Number::Single(c.importance)),
        ),
        preview_value(c)->Object_0[3] == ("dry_run"@, JsonView::Bool(true)),
        stored_value(c, issue) is Object,
        stored_value(c, issue)->Object_0.len() == 4,
        stored_value(c, issue)->Object_0[0] == ("issue_number"@, issue_value(issue)),
        stored_value(c, issue)->Object_0[1] == ("content"@, JsonView::Text(c.content)),
        stored_value(c, issue)->Object_0[2] == ("memory_type"@, JsonView::Text(c.memory_type)),
        stored_value(c, issue)->Object_0[3] == (
            "importance"@,
            JsonView::Number(Number::Single(c.importance)),
        ),
{
}

/// The candidate at hand is a duplicate exactly when what was recalled holds its content. Else
/// it is previewed in a dry run, and stored under its type if it is none.
pub proof fn law_verdict(v: ExtractionView, recalled: Seq<char>)
    ensures
        v.verdict(recalled) is Duplicate <==> recalled.len() > 0 && contains(
            recalled,
            v.candidates[v.at].content,
        ),
        v.verdict(recalled) is Preview <==> v.dry_run && !(v.verdict(recalled) is Duplicate),
        v.verdict(recalled) matches Verdict::Store(t) ==> !v.dry_run && t == type_by_name(
            v.candidates[v.at].memory_type,
        ),
{
}

/// A duplicate is counted as skipped and nothing is stored for it; what is stored adds one
/// value. Either way it goes on with the next candidate.
pub proof fn law_extraction_goes_on(v: ExtractionView, value: JsonView)
    ensures
        v.after_duplicate().candidates == v.candidates,
        v.after_duplicate().at == v.at + 1,
        v.after_duplicate().stored == v.stored,
        v.after_duplicate().skipped == v.skipped + 1,
        v.after_duplicate().dry_run == v.dry_run,
        v.after_stored(value).candidates == v.candidates,
        v.after_stored(value).at == v.at + 1,
        v.after_stored(value).stored == v.stored.push(value),
        v.after_stored(value).skipped == v.skipped,
        v.after_stored(value).dry_run == v.dry_run,
{
}

/// Every candidate up to the one at hand was either stored or skipped.
pub proof fn law_extraction_counts(v: ExtractionView)
    ensures
        v.sound() <==> 0 <= v.at <= v.candidates.len() && v.skipped >= 0 && v.stored.len()
            == v.at - v.skipped,
{
}

/// How many tokens are recalled to find duplicates.
pub proof fn law_extract_budget()
    ensures
        EXTRACT_BUDGET == 500,
{
}

} // verus!
