//! Laws of reading transcripts and extracting memories from them.

use vstd::prelude::*;
use vstd::utf8::encode_utf8;

use crate::json::{json_in, JsonView, Number};
use crate::laws::{
    lemma_selects_none, lemma_selects_one_more, lemma_selects_one_more_place, places, selects,
};
use crate::models::{law_type_names, MemoryType};
use crate::score::Score;
use crate::text::{contains, join, lowercase, trim, trim_end, uppercase};
use crate::transcript::{
    all_importances, candidate_views, conversation, found_by_extractor, found_by_rules,
    importance_read, is_known, is_passed_over, message_content, message_text, rule_for, speaker,
    states_preference, states_procedure, states_stack, text_blocks, turn_in, turn_of, turn_views,
    turns_of, type_by_name, CandidateView, ExtractCandidate, EVENT, PREFERENCE, PROCEDURE, STACK,
    UNRATED,
};

verus! {

/// The texts of a message are those of its blocks of type `text`, each that has one, in order.
pub proof fn law_text_blocks(items: Seq<JsonView>)
    ensures
        selects(
            items,
            |j: JsonView|
                j.text_field("type"@) == Some("text"@) && j.text_field("text"@) is Some,
            |j: JsonView| j.text_field("text"@)->0,
            text_blocks(items),
        ),
    decreases items.len(),
{
    let keep = |j: JsonView|
        j.text_field("type"@) == Some("text"@) && j.text_field("text"@) is Some;
    let made = |j: JsonView| j.text_field("text"@)->0;
    if items.len() == 0 {
        lemma_selects_none(items, keep, made);
    } else {
        law_text_blocks(items.drop_last());
        lemma_selects_one_more(items, keep, made, text_blocks(items.drop_last()));
    }
}

/// The text of a message is its content, or the texts of its blocks with a space between two.
pub proof fn law_message_text(content: JsonView)
    ensures
        content matches JsonView::Text(s) ==> message_text(content) == Some(s),
        content matches JsonView::Array(items) ==> message_text(content) == Some(
            join(text_blocks(items), " "@),
        ),
        !(content is Text) && !(content is Array) ==> message_text(content) is None,
{
}

/// A record is a turn exactly when its type is `user` or `assistant` and its message has a
/// text that is not empty; the turn is that speaker with that text.
pub proof fn law_turn_in(j: JsonView)
    ensures
        j.text_field("type"@) == Some("user"@) ==> speaker(j) == Some("user"@),
        j.text_field("type"@) == Some("assistant"@) ==> speaker(j) == Some("assistant"@),
        j.text_field("type"@) != Some("user"@) && j.text_field("type"@) != Some("assistant"@)
            ==> speaker(j) is None,
        j.field("message"@) matches Some(m) ==> message_content(j) == m.field("content"@),
        j.field("message"@) is None ==> message_content(j) is None,
        turn_in(j) is Some <==> speaker(j) is Some && message_content(j) is Some && message_text(
            message_content(j)->0,
        ) is Some && message_text(message_content(j)->0)->0.len() > 0,
        turn_in(j) is Some ==> (turn_in(j)->0).0 == speaker(j)->0 && (turn_in(j)->0).1
            == message_text(message_content(j)->0)->0,
{
}

/// A line is read as the JSON in it, without the white space around it. Blank lines and lines
/// that are no JSON hold no turn.
pub proof fn law_turn_of(line: Seq<char>)
    ensures
        trim(line).len() == 0 ==> turn_of(line) is None,
        trim(line).len() > 0 && json_in(trim(line)) is None ==> turn_of(line) is None,
        trim(line).len() > 0 && json_in(trim(line)) is Some ==> turn_of(line) == turn_in(
            json_in(trim(line))->0,
        ),
{
}

/// The turns of a transcript are those of its lines: of each that holds one, in order.
pub proof fn law_turns(all: Seq<Seq<char>>)
    ensures
        selects(
            all,
            |line: Seq<char>| turn_of(line) is Some,
            |line: Seq<char>| turn_of(line)->0,
            turns_of(all),
        ),
    decreases all.len(),
{
    let keep = |line: Seq<char>| turn_of(line) is Some;
    let made = |line: Seq<char>| turn_of(line)->0;
    if all.len() == 0 {
        lemma_selects_none(all, keep, made);
    } else {
        law_turns(all.drop_last());
        lemma_selects_one_more(all, keep, made, turns_of(all.drop_last()));
    }
}

/// A conversation has a line for each turn: the speaker in capitals, a colon and the text.
pub proof fn law_conversation(
    turns: Seq<(Seq<char>, Seq<char>)>,
    role: Seq<char>,
    text: Seq<char>,
)
    ensures
        turns.len() == 0 ==> conversation(turns).len() == 0,
        conversation(turns.push((role, text))) == conversation(turns) + uppercase(role) + ": "@
            + text + "\n"@,
{
    assert(turns.push((role, text)).drop_last() =~= turns);
}

/// What lists of turns and of candidates hold is what each of them holds.
pub proof fn law_turns_hold_each(v: Seq<(String, String)>, c: Seq<ExtractCandidate>)
    ensures
        turn_views(v).len() == v.len(),
        forall|i: int| 0 <= i < v.len() ==> #[trigger] turn_views(v)[i] == (v[i].0@, v[i].1@),
        candidate_views(c).len() == c.len(),
        forall|i: int|
            0 <= i < c.len() ==> {
                &&& (#[trigger] candidate_views(c)[i]).content == c[i].content@
                &&& candidate_views(c)[i].memory_type == c[i].memory_type@
                &&& candidate_views(c)[i].importance == c[i].importance
            },
{
}

/// A text of less than fifteen bytes and a question are passed over, and nothing else is.
pub proof fn law_passed_over(t: Seq<char>)
    ensures
        encode_utf8(t).len() < 15 ==> is_passed_over(t),
        trim_end(t).len() > 0 && trim_end(t).last() == '?' ==> is_passed_over(t),
        encode_utf8(t).len() >= 15 && (trim_end(t).len() == 0 || trim_end(t).last() != '?')
            ==> !is_passed_over(t),
{
}

/// The words by which a preference, a fact about the stack and a procedure are told.
pub proof fn law_words(lower: Seq<char>)
    ensures
        ({
            let words = seq![
                "prefer"@,
                "always"@,
                "like"@,
                "want"@,
                "love"@,
                "never"@,
                "don't"@,
                "shouldn't"@,
                "avoid"@,
                "hate"@,
            ];
            states_preference(lower) <==> exists|i: int|
                0 <= i < 10 && contains(lower, #[trigger] words[i])
        }),
        ({
            let words = seq!["we use"@, "our stack"@, "our repo"@, "our db"@, "we deploy"@];
            states_stack(lower) <==> exists|i: int|
                0 <= i < 5 && contains(lower, #[trigger] words[i])
        }),
        ({
            let words = seq!["to deploy"@, "to build"@, "to test"@, "to run"@, "steps to"@];
            states_procedure(lower) <==> exists|i: int|
                0 <= i < 5 && contains(lower, #[trigger] words[i])
        }),
{
    let a = seq![
        "prefer"@,
        "always"@,
        "like"@,
        "want"@,
        "love"@,
        "never"@,
        "don't"@,
        "shouldn't"@,
        "avoid"@,
        "hate"@,
    ];
    assert(a[0] == "prefer"@ && a[1] == "always"@ && a[2] == "like"@ && a[3] == "want"@ && a[4]
        == "love"@ && a[5] == "never"@ && a[6] == "don't"@ && a[7] == "shouldn't"@ && a[8]
        == "avoid"@ && a[9] == "hate"@);
    let b = seq!["we use"@, "our stack"@, "our repo"@, "our db"@, "we deploy"@];
    assert(b[0] == "we use"@ && b[1] == "our stack"@ && b[2] == "our repo"@ && b[3] == "our db"@
        && b[4] == "we deploy"@);
    let c = seq!["to deploy"@, "to build"@, "to test"@, "to run"@, "steps to"@];
    assert(c[0] == "to deploy"@ && c[1] == "to build"@ && c[2] == "to test"@ && c[3] == "to run"@
        && c[4] == "steps to"@);
}

/// What a statement is taken for: a preference before a fact about the stack, that before a
/// procedure, and else an event, if it is longer than thirty bytes. The words are looked for
/// in the text in lower case.
pub proof fn law_rule(t: Seq<char>)
    ensures
        is_passed_over(t) ==> rule_for(t) is None,
        !is_passed_over(t) && states_preference(lowercase(t)) ==> rule_for(t) == Some(
            ("semantic"@, 0x3f33_3333u32),
        ),
        !is_passed_over(t) && !states_preference(lowercase(t)) && states_stack(lowercase(t))
            ==> rule_for(t) == Some(("semantic"@, 0x3f4c_cccdu32)),
        !is_passed_over(t) && !states_preference(lowercase(t)) && !states_stack(lowercase(t))
            && states_procedure(lowercase(t)) ==> rule_for(t) == Some(
            ("procedural"@, 0x3f40_0000u32),
        ),
        !is_passed_over(t) && !states_preference(lowercase(t)) && !states_stack(lowercase(t))
            && !states_procedure(lowercase(t)) && encode_utf8(t).len() > 30 ==> rule_for(t) == Some(
            ("episodic"@, 0x3ecc_cccdu32),
        ),
        !is_passed_over(t) && !states_preference(lowercase(t)) && !states_stack(lowercase(t))
            && !states_procedure(lowercase(t)) && encode_utf8(t).len() <= 30 ==> rule_for(
            t,
        ) is None,
        PREFERENCE == 0x3f33_3333,
        STACK == 0x3f4c_cccd,
        PROCEDURE == 0x3f40_0000,
        EVENT == 0x3ecc_cccd,
        UNRATED == 0x3f00_0000,
{
}

/// Every statement of the user for which there is a rule becomes a candidate, with the type and
/// the importance of the rule; nothing that the assistant says does. The order stays.
pub proof fn law_found_by_rules(turns: Seq<(Seq<char>, Seq<char>)>)
    ensures
        selects(
            turns,
            |t: (Seq<char>, Seq<char>)| t.0 == "user"@ && rule_for(t.1) is Some,
            |t: (Seq<char>, Seq<char>)|
                CandidateView {
                    content: t.1,
                    memory_type: (rule_for(t.1)->0).0,
                    importance: Score { bits: (rule_for(t.1)->0).1 },
                },
            found_by_rules(turns),
        ),
    decreases turns.len(),
{
    let keep = |t: (Seq<char>, Seq<char>)| t.0 == "user"@ && rule_for(t.1) is Some;
    let made = |t: (Seq<char>, Seq<char>)|
        CandidateView {
            content: t.1,
            memory_type: (rule_for(t.1)->0).0,
            importance: Score { bits: (rule_for(t.1)->0).1 },
        };
    if turns.len() == 0 {
        lemma_selects_none(turns, keep, made);
    } else {
        law_found_by_rules(turns.drop_last());
        lemma_selects_one_more(turns, keep, made, found_by_rules(turns.drop_last()));
    }
}

/// The importance of an item is the number under `importance`, as `single` reads it; without
/// one it is one half.
pub proof fn law_importance_read<F: Fn(Number) -> Score>(
    single: F,
    item: JsonView,
    importance: Score,
)
    requires
        importance_read(single, item, importance),
    ensures
        item.field("importance"@) matches Some(v) ==> {
            &&& v.numeric() matches Some(n) ==> call_ensures(single, (n,), importance)
            &&& v.numeric() is None ==> importance.bits == 0x3f00_0000
        },
        item.field("importance"@) is None ==> importance.bits == 0x3f00_0000,
{
}

/// The importance of every item is read.
pub proof fn law_importances<F: Fn(Number) -> Score>(
    single: F,
    items: Seq<JsonView>,
    importances: Seq<Score>,
)
    ensures
        all_importances(single, items, importances) <==> importances.len() == items.len()
            && forall|i: int|
            0 <= i < items.len() ==> importance_read(single, items[i], #[trigger] importances[i]),
{
}

/// Every item that has a content becomes a candidate, in order: with its content, its type, or
/// `episodic` where it has none, and its importance.
pub proof fn law_found_by_extractor(items: Seq<JsonView>, importances: Seq<Score>)
    requires
        items.len() == importances.len(),
    ensures
        selects(
            places(items.len()),
            |i: int| items[i].text_field("content"@) is Some,
            |i: int|
                CandidateView {
                    content: items[i].text_field("content"@)->0,
                    memory_type: if items[i].text_field("type"@) is Some {
                        items[i].text_field("type"@)->0
                    } else {
                        "episodic"@
                    },
                    importance: importances[i],
                },
            found_by_extractor(items, importances),
        ),
    decreases items.len(),
{
    let keep = |i: int| items[i].text_field("content"@) is Some;
    let made = |i: int|
        CandidateView {
            content: items[i].text_field("content"@)->0,
            memory_type: if items[i].text_field("type"@) is Some {
                items[i].text_field("type"@)->0
            } else {
                "episodic"@
            },
            importance: importances[i],
        };
    if items.len() == 0 {
        lemma_selects_none(places(0), keep, made);
    } else {
        let a = items.drop_last();
        let b = importances.drop_last();
        law_found_by_extractor(a, b);
        lemma_selects_one_more_place(
            a.len(),
            |i: int| a[i].text_field("content"@) is Some,
            |i: int|
                CandidateView {
                    content: a[i].text_field("content"@)->0,
                    memory_type: if a[i].text_field("type"@) is Some {
                        a[i].text_field("type"@)->0
                    } else {
                        "episodic"@
                    },
                    importance: b[i],
                },
            keep,
            made,
            found_by_extractor(a, b),
        );
    }
}

/// A content is known exactly when what was recalled holds it and is not empty.
pub proof fn law_known(content: Seq<char>, recalled: Seq<char>)
    ensures
        is_known(content, recalled) <==> recalled.len() > 0 && contains(recalled, content),
{
}

/// A type is found by its name, in whatever case; any other name is taken for episodic.
pub proof fn law_type_by_name(name: Seq<char>, t: MemoryType)
    ensures
        lowercase(name) == t.name() ==> type_by_name(name) == t,
        (forall|u: MemoryType| lowercase(name) != #[trigger] u.name()) ==> type_by_name(name)
            == MemoryType::Episodic,
{
    if lowercase(name) == t.name() {
        law_type_names(type_by_name(name), t);
    }
}

} // verus!
