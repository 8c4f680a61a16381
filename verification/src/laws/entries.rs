//! Laws of memory entries: how they are built, changed, named and aged.

use vstd::prelude::*;

use crate::error::Result;
use crate::json::JsonView;
use crate::models::{
    builds, entry_views, fresh_builder, id_text, leap_nanos, newer, patched, refused, whole_days,
    BuilderView, EntryView, Fault, MemoryEntry, MemoryPatch, MemoryTier, MemoryType, Timestamp,
};
use crate::score::Score;

verus! {

/// What an entry holds is what its fields hold.
pub proof fn law_entry_holds_its_fields(e: MemoryEntry)
    ensures
        e@.memory_id == e.memory_id,
        e@.issue_number == e.issue_number,
        e@.content == e.content@,
        e@.memory_type == e.memory_type,
        e.user_id matches Some(v) ==> e@.user_id == Some(v@),
        e.user_id is None ==> e@.user_id is None,
        e.agent_id matches Some(v) ==> e@.agent_id == Some(v@),
        e.agent_id is None ==> e@.agent_id is None,
        e.session_id matches Some(v) ==> e@.session_id == Some(v@),
        e.session_id is None ==> e@.session_id is None,
        e@.importance == e.importance,
        e@.confidence == e.confidence,
        e@.access_count == e.access_count,
        e@.last_accessed == e.last_accessed,
        e@.created_at == e.created_at,
        e@.entities.len() == e.entities@.len(),
        forall|i: int| 0 <= i < e.entities@.len() ==> #[trigger] e@.entities[i] == e.entities@[i]@,
        e@.tags.len() == e.tags@.len(),
        forall|i: int| 0 <= i < e.tags@.len() ==> #[trigger] e@.tags[i] == e.tags@[i]@,
        e@.structured_data == e.structured_data@,
        e@.supersedes == e.supersedes@,
        e@.related_to == e.related_to@,
{
}

/// A new value takes the place of the old one; without a new one, the old one stays.
pub proof fn law_newer<T>(v: T, old_value: T)
    ensures
        newer(Some(v), old_value) == v,
        newer(None, old_value) == old_value,
{
}

/// What a list of entries holds is what each of them holds, in their order.
pub proof fn law_entries_hold_each(v: Seq<MemoryEntry>)
    ensures
        entry_views(v).len() == v.len(),
        forall|i: int| 0 <= i < v.len() ==> #[trigger] entry_views(v)[i] == v[i]@,
{
}

/// The names of the types and of the tiers.
pub proof fn law_names()
    ensures
        MemoryType::Episodic.name() == "episodic"@,
        MemoryType::Semantic.name() == "semantic"@,
        MemoryType::Procedural.name() == "procedural"@,
        MemoryType::Working.name() == "working"@,
        MemoryTier::Hot.name() == "hot"@,
        MemoryTier::Warm.name() == "warm"@,
        MemoryTier::Cold.name() == "cold"@,
{
}

/// An input is refused with a message exactly when the result is that error with that text.
pub proof fn law_refusal<T>(r: Result<T>, message: Seq<char>)
    ensures
        refused(r, message) <==> r is Err && r->Err_0 is InvalidInput && r->Err_0->InvalidInput_0@
            == message,
{
}

/// Working memories are hot, semantic ones are warm, and the others are warm once they were
/// accessed more than five times and cold until then.
pub proof fn law_tier(e: EntryView)
    ensures
        e.tier() == MemoryTier::Hot <==> e.memory_type == MemoryType::Working,
        e.memory_type == MemoryType::Semantic ==> e.tier() == MemoryTier::Warm,
        e.memory_type == MemoryType::Episodic || e.memory_type == MemoryType::Procedural ==> {
            &&& e.access_count > 5 ==> e.tier() == MemoryTier::Warm
            &&& e.access_count <= 5 ==> e.tier() == MemoryTier::Cold
        },
{
}

/// Only an episodic or procedural memory that was accessed at most five times is outdated, and
/// it is so exactly when its age in whole days is greater than the limit. Where an age cannot
/// be told, nothing is outdated.
pub proof fn law_outdated(e: EntryView, now: Timestamp, days: u32)
    ensures
        e.outdated(now, days) ==> e.access_count <= 5 && (e.memory_type == MemoryType::Episodic
            || e.memory_type == MemoryType::Procedural),
        e.outdated(now, days) ==> now.held() && e.created_at.held(),
        e.outdated(now, days) ==> whole_days(now, e.created_at) > days,
        e.access_count <= 5 && (e.memory_type == MemoryType::Episodic || e.memory_type
            == MemoryType::Procedural) && now.held() && e.created_at.held() && whole_days(
            now,
            e.created_at,
        ) > days ==> e.outdated(now, days),
{
}

/// Between two times outside leap seconds lie `n` whole days exactly when at least `n` and
/// less than `n + 1` times twenty-four hours lie between them, and as many lie between them
/// the other way round, counted below zero.
pub proof fn law_whole_days(later: Timestamp, earlier: Timestamp, n: int)
    requires
        later.nanos < 1_000_000_000,
        earlier.nanos < 1_000_000_000,
        n >= 0,
        later.secs * 1_000_000_000 + later.nanos >= earlier.secs * 1_000_000_000 + earlier.nanos,
    ensures
        whole_days(later, earlier) == n <==> n * 86_400_000_000_000 <= (later.secs
            * 1_000_000_000 + later.nanos) - (earlier.secs * 1_000_000_000 + earlier.nanos) < (n
            + 1) * 86_400_000_000_000,
        whole_days(earlier, later) == -whole_days(later, earlier),
{
    let d = later.in_nanos() - earlier.in_nanos();
    assert(d / 86_400_000_000_000 == n <==> n * 86_400_000_000_000 <= d < (n + 1)
        * 86_400_000_000_000) by (nonlinear_arith)
        requires
            d >= 0,
            n >= 0,
    ;
}

/// Whole days are counted toward zero. Where the earlier time lies in a leap second and the
/// later one at a later time of day, a second more lies between them; where the later time
/// lies in a leap second and the earlier one at a later time of day, a second less does.
pub proof fn law_whole_days_around_leaps(later: Timestamp, earlier: Timestamp)
    ensures
        ({
            let behind = later.secs as int % 86_400 > earlier.secs as int % 86_400;
            let before = later.secs as int % 86_400 < earlier.secs as int % 86_400;
            let leap = if behind && earlier.nanos >= 1_000_000_000 {
                1_000_000_000int
            } else if before && later.nanos >= 1_000_000_000 {
                -1_000_000_000
            } else {
                0
            };
            let d = (later.secs - earlier.secs) * 1_000_000_000 + later.nanos - earlier.nanos
                + leap;
            let n = whole_days(later, earlier);
            &&& d >= 0 ==> n * 86_400_000_000_000 <= d < (n + 1) * 86_400_000_000_000
            &&& d < 0 ==> (n - 1) * 86_400_000_000_000 < d <= n * 86_400_000_000_000
        }),
{
    let d = later.in_nanos() - earlier.in_nanos() + leap_nanos(later, earlier);
    let day: int = 86_400_000_000_000;
    if d >= 0 {
        assert((d / day) * day <= d < (d / day + 1) * day) by (nonlinear_arith)
            requires
                day > 0,
        ;
    } else {
        let m = -d;
        assert((m / day) * day <= m < (m / day + 1) * day) by (nonlinear_arith)
            requires
                day > 0,
        ;
    }
}

/// An age can be told exactly when both times are held.
pub proof fn law_age_told(e: EntryView, now: Timestamp)
    ensures
        e.has_age(now) <==> now.held() && e.created_at.held(),
        now.leaping() <==> now.nanos >= 1_000_000_000,
{
}

/// The text of an identifier: its thirty-two hexadecimal digits in lower case, the highest
/// first, with hyphens behind the eighth, twelfth, sixteenth and twentieth.
pub proof fn law_id_text(id: u128, d: int)
    requires
        0 <= d < 32,
    ensures
        id_text(id).len() == 36,
        id_text(id)[8] == '-',
        id_text(id)[13] == '-',
        id_text(id)[18] == '-',
        id_text(id)[23] == '-',
        ({
            let at = if d < 8 {
                d
            } else if d < 12 {
                d + 1
            } else if d < 16 {
                d + 2
            } else if d < 20 {
                d + 3
            } else {
                d + 4
            };
            let digits = seq![
                '0', '1', '2', '3', '4', '5', '6', '7', '8', '9', 'a', 'b', 'c', 'd', 'e', 'f',
            ];
            let digit = (id >> ((4 * (31 - d)) as u128)) & 0xf;
            digit <= 15 && id_text(id)[at] == digits[digit as int]
        }),
{
    let digit = (id >> ((4 * (31 - d)) as u128)) & 0xf;
    let shifted = id >> ((4 * (31 - d)) as u128);
    assert(shifted & 0xf <= 15) by (bit_vector);
}

/// The times that are held: some 262 thousand years to either side, and a leap second only as
/// the last of a minute.
pub proof fn law_held(t: Timestamp)
    ensures
        t.held() ==> -8_334_601_228_800 <= t.secs <= 8_210_266_876_799 && t.nanos < 2_000_000_000,
        t.held() && t.nanos >= 1_000_000_000 ==> t.secs % 60 == 59,
        -8_334_601_228_800 <= t.secs <= 8_210_266_876_799 && t.nanos < 1_000_000_000 ==> t.held(),
        -8_334_601_228_800 <= t.secs <= 8_210_266_876_799 && t.nanos < 2_000_000_000 && t.secs
            % 60 == 59 ==> t.held(),
{
}

/// A builder starts with its content and type, with an importance of one half, a confidence of
/// four fifths, and nothing else.
pub proof fn law_builder_starts(content: Seq<char>, memory_type: MemoryType)
    ensures
        fresh_builder(content, memory_type).content == content,
        fresh_builder(content, memory_type).memory_type == memory_type,
        fresh_builder(content, memory_type).user_id is None,
        fresh_builder(content, memory_type).agent_id is None,
        fresh_builder(content, memory_type).session_id is None,
        fresh_builder(content, memory_type).importance.bits == 0x3f00_0000,
        fresh_builder(content, memory_type).confidence.bits == 0x3f4c_cccd,
        fresh_builder(content, memory_type).entities.len() == 0,
        fresh_builder(content, memory_type).tags.len() == 0,
        fresh_builder(content, memory_type).structured_data == JsonView::Object(seq![]),
        fresh_builder(content, memory_type).supersedes.len() == 0,
        fresh_builder(content, memory_type).related_to.len() == 0,
{
}

/// An entry is built exactly when the content is not empty and importance and confidence lie
/// between zero and one.
pub proof fn law_when_built<F: Fn(Score) -> String>(
    show: F,
    b: BuilderView,
    r: Result<MemoryEntry>,
)
    requires
        builds(show, b, r),
    ensures
        r is Ok <==> b.content.len() > 0 && (b.importance.bits <= 0x3f80_0000 || b.importance.bits
            == 0x8000_0000) && (b.confidence.bits <= 0x3f80_0000 || b.confidence.bits
            == 0x8000_0000),
{
}

/// An entry that was built has what the builder was given under the same name, no issue, and
/// was never accessed.
pub proof fn law_built_as_given<F: Fn(Score) -> String>(
    show: F,
    b: BuilderView,
    r: Result<MemoryEntry>,
)
    requires
        builds(show, b, r),
        r is Ok,
    ensures
        r->Ok_0@.content == b.content,
        r->Ok_0@.memory_type == b.memory_type,
        r->Ok_0@.user_id == b.user_id,
        r->Ok_0@.agent_id == b.agent_id,
        r->Ok_0@.session_id == b.session_id,
        r->Ok_0@.importance == b.importance,
        r->Ok_0@.confidence == b.confidence,
        r->Ok_0@.entities == b.entities,
        r->Ok_0@.tags == b.tags,
        r->Ok_0@.structured_data == b.structured_data,
        r->Ok_0@.supersedes == b.supersedes,
        r->Ok_0@.related_to == b.related_to,
        r->Ok_0.issue_number is None,
        r->Ok_0.access_count == 0,
        r->Ok_0.last_accessed is None,
        r->Ok_0.created_at.held(),
        (r->Ok_0.memory_id >> 76) & 0xf == 4,
        (r->Ok_0.memory_id >> 62) & 3 == 2,
{
}

/// What is refused is refused for its first fault: empty content, then the importance, then
/// the confidence. The text of the error says which, with the number as it is shown.
pub proof fn law_why_not_built<F: Fn(Score) -> String>(
    show: F,
    b: BuilderView,
    r: Result<MemoryEntry>,
)
    requires
        builds(show, b, r),
        r is Err,
    ensures
        r->Err_0 is InvalidInput,
        b.content.len() == 0 ==> r->Err_0->InvalidInput_0@ == "content must not be empty"@,
        b.content.len() > 0 && b.importance.bits > 0x3f80_0000 && b.importance.bits
            != 0x8000_0000 ==> exists|shown: String| #[trigger]
            call_ensures(show, (b.importance,), shown) && r->Err_0->InvalidInput_0@
                == "importance must be in [0.0, 1.0], got "@ + shown@,
        b.content.len() > 0 && (b.importance.bits <= 0x3f80_0000 || b.importance.bits
            == 0x8000_0000) ==> exists|shown: String| #[trigger]
            call_ensures(show, (b.confidence,), shown) && r->Err_0->InvalidInput_0@
                == "confidence must be in [0.0, 1.0], got "@ + shown@,
{
    if b.content.len() > 0 && !b.importance.unit() {
        let shown = choose|shown: String| #[trigger]
            call_ensures(show, (b.importance,), shown) && refused(
                r,
                Fault::Importance(b.importance).message(shown@),
            );
        assert(call_ensures(show, (b.importance,), shown));
    } else if b.content.len() > 0 {
        let shown = choose|shown: String| #[trigger]
            call_ensures(show, (b.confidence,), shown) && refused(
                r,
                Fault::Confidence(b.confidence).message(shown@),
            );
        assert(call_ensures(show, (b.confidence,), shown));
    }
}

/// The first fault of what a builder was given: empty content, then the importance, then the
/// confidence, each with the number that is out of range.
pub proof fn law_first_fault(b: BuilderView)
    ensures
        b.content.len() == 0 ==> b.fault() == Some(Fault::EmptyContent),
        b.content.len() > 0 && b.importance.bits > 0x3f80_0000 && b.importance.bits
            != 0x8000_0000 ==> b.fault() == Some(Fault::Importance(b.importance)),
        b.content.len() > 0 && (b.importance.bits <= 0x3f80_0000 || b.importance.bits
            == 0x8000_0000) && b.confidence.bits > 0x3f80_0000 && b.confidence.bits
            != 0x8000_0000 ==> b.fault() == Some(Fault::Confidence(b.confidence)),
        b.content.len() > 0 && (b.importance.bits <= 0x3f80_0000 || b.importance.bits
            == 0x8000_0000) && (b.confidence.bits <= 0x3f80_0000 || b.confidence.bits
            == 0x8000_0000) ==> b.fault() is None,
{
}

/// The error of a fault says what is wrong, with the number as it is shown.
pub proof fn law_fault_told<T, F: Fn(Score) -> String>(fault: Fault, show: F, r: Result<T>)
    requires
        fault.refuses(show, r),
    ensures
        r is Err,
        r->Err_0 is InvalidInput,
        fault is EmptyContent ==> r->Err_0->InvalidInput_0@ == "content must not be empty"@,
        fault matches Fault::Importance(s) ==> exists|shown: String| #[trigger]
            call_ensures(show, (s,), shown) && r->Err_0->InvalidInput_0@
                == "importance must be in [0.0, 1.0], got "@ + shown@,
        fault matches Fault::Confidence(s) ==> exists|shown: String| #[trigger]
            call_ensures(show, (s,), shown) && r->Err_0->InvalidInput_0@
                == "confidence must be in [0.0, 1.0], got "@ + shown@,
{
    match fault {
        Fault::EmptyContent => {},
        Fault::Importance(s) => {
            let shown = choose|shown: String| #[trigger]
                call_ensures(show, (s,), shown) && refused(r, fault.message(shown@));
            assert(call_ensures(show, (s,), shown));
        },
        Fault::Confidence(s) => {
            let shown = choose|shown: String| #[trigger]
                call_ensures(show, (s,), shown) && refused(r, fault.message(shown@));
            assert(call_ensures(show, (s,), shown));
        },
    }
}

/// The entry that a builder makes has the identifier and the time that are given, what the
/// builder was given under the same name, no issue, and was never accessed.
pub proof fn law_entry_of_builder(b: BuilderView, memory_id: u128, created_at: Timestamp)
    ensures
        b.entry(memory_id, created_at).memory_id == memory_id,
        b.entry(memory_id, created_at).created_at == created_at,
        b.entry(memory_id, created_at).content == b.content,
        b.entry(memory_id, created_at).memory_type == b.memory_type,
        b.entry(memory_id, created_at).user_id == b.user_id,
        b.entry(memory_id, created_at).agent_id == b.agent_id,
        b.entry(memory_id, created_at).session_id == b.session_id,
        b.entry(memory_id, created_at).importance == b.importance,
        b.entry(memory_id, created_at).confidence == b.confidence,
        b.entry(memory_id, created_at).entities == b.entities,
        b.entry(memory_id, created_at).tags == b.tags,
        b.entry(memory_id, created_at).structured_data == b.structured_data,
        b.entry(memory_id, created_at).supersedes == b.supersedes,
        b.entry(memory_id, created_at).related_to == b.related_to,
        b.entry(memory_id, created_at).issue_number is None,
        b.entry(memory_id, created_at).access_count == 0,
        b.entry(memory_id, created_at).last_accessed is None,
{
}

/// A patch sets each field for which it holds a value to that value and leaves each other
/// field as it was. Identifier, issue and time of creation always stay.
pub proof fn law_patch_field_by_field(e: EntryView, p: MemoryPatch)
    ensures
        patched(e, p).memory_id == e.memory_id,
        patched(e, p).issue_number == e.issue_number,
        patched(e, p).created_at == e.created_at,
        p.content matches Some(v) ==> patched(e, p).content == v@,
        p.content is None ==> patched(e, p).content == e.content,
        p.memory_type matches Some(v) ==> patched(e, p).memory_type == v,
        p.memory_type is None ==> patched(e, p).memory_type == e.memory_type,
        p.user_id matches Some(v) ==> patched(e, p).user_id == Some(v@),
        p.user_id is None ==> patched(e, p).user_id == e.user_id,
        p.agent_id matches Some(v) ==> patched(e, p).agent_id == Some(v@),
        p.agent_id is None ==> patched(e, p).agent_id == e.agent_id,
        p.session_id matches Some(v) ==> patched(e, p).session_id == Some(v@),
        p.session_id is None ==> patched(e, p).session_id == e.session_id,
        p.importance matches Some(v) ==> patched(e, p).importance == v,
        p.importance is None ==> patched(e, p).importance == e.importance,
        p.confidence matches Some(v) ==> patched(e, p).confidence == v,
        p.confidence is None ==> patched(e, p).confidence == e.confidence,
        p.access_count matches Some(v) ==> patched(e, p).access_count == v,
        p.access_count is None ==> patched(e, p).access_count == e.access_count,
        p.last_accessed matches Some(v) ==> patched(e, p).last_accessed == Some(v),
        p.last_accessed is None ==> patched(e, p).last_accessed == e.last_accessed,
        p.entities matches Some(v) ==> patched(e, p).entities == v@.map_values(|s: String| s@),
        p.entities is None ==> patched(e, p).entities == e.entities,
        p.tags matches Some(v) ==> patched(e, p).tags == v@.map_values(|s: String| s@),
        p.tags is None ==> patched(e, p).tags == e.tags,
        p.structured_data matches Some(v) ==> patched(e, p).structured_data == v@,
        p.structured_data is None ==> patched(e, p).structured_data == e.structured_data,
        p.supersedes matches Some(v) ==> patched(e, p).supersedes == v@,
        p.supersedes is None ==> patched(e, p).supersedes == e.supersedes,
        p.related_to matches Some(v) ==> patched(e, p).related_to == v@,
        p.related_to is None ==> patched(e, p).related_to == e.related_to,
{
}

} // verus!
