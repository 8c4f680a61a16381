//! Laws of how a memory is written as an issue and read again.

use vstd::prelude::*;

use crate::error::{MemoryError, Result};
use crate::laws::texts::{law_first_occurrence, law_lines};
use crate::models::{EntryView, MemoryEntry, MemoryType};
use crate::schema::{
    body_reads, body_text, content_in, encoded, entry_of, header_line, is_helper, kept, meta_of,
    meta_text, plain, stripped, title_text, titled, MemoryMeta, MetaView,
};
use crate::text::{
    contains, first_at, join, lemma_trim_drop_last, lines, occurs_at, starts_with, trim,
};

verus! {

/// What the metadata holds is what its fields hold.
pub proof fn law_meta_holds_its_fields(m: MemoryMeta)
    ensures
        m@.memory_id == m.memory_id,
        m@.memory_type == m.memory_type,
        m@.importance == m.importance,
        m@.confidence == m.confidence,
        m.user_id matches Some(v) ==> m@.user_id == Some(v@),
        m.user_id is None ==> m@.user_id is None,
        m.agent_id matches Some(v) ==> m@.agent_id == Some(v@),
        m.agent_id is None ==> m@.agent_id is None,
        m.session_id matches Some(v) ==> m@.session_id == Some(v@),
        m.session_id is None ==> m@.session_id is None,
        m@.access_count == m.access_count,
        m@.last_accessed == m.last_accessed,
        m@.created_at == m.created_at,
        m@.entities == m.entities@.map_values(|s: String| s@),
        m@.tags == m.tags@.map_values(|s: String| s@),
        m@.supersedes == m.supersedes@,
        m@.related_to == m.related_to@,
        m@.structured_data == m.structured_data@,
{
}

/// The metadata of an entry has all its fields but content and issue number.
pub proof fn law_meta_of_entry(e: EntryView)
    ensures
        meta_of(e).memory_id == e.memory_id,
        meta_of(e).memory_type == e.memory_type,
        meta_of(e).importance == e.importance,
        meta_of(e).confidence == e.confidence,
        meta_of(e).user_id == e.user_id,
        meta_of(e).agent_id == e.agent_id,
        meta_of(e).session_id == e.session_id,
        meta_of(e).access_count == e.access_count,
        meta_of(e).last_accessed == e.last_accessed,
        meta_of(e).created_at == e.created_at,
        meta_of(e).entities == e.entities,
        meta_of(e).tags == e.tags,
        meta_of(e).supersedes == e.supersedes,
        meta_of(e).related_to == e.related_to,
        meta_of(e).structured_data == e.structured_data,
{
}

/// An entry made of metadata has its fields, the content that is given, and no issue number.
pub proof fn law_entry_of_meta(content: Seq<char>, m: MetaView)
    ensures
        entry_of(content, m).content == content,
        entry_of(content, m).issue_number is None,
        entry_of(content, m).memory_id == m.memory_id,
        entry_of(content, m).memory_type == m.memory_type,
        entry_of(content, m).importance == m.importance,
        entry_of(content, m).confidence == m.confidence,
        entry_of(content, m).user_id == m.user_id,
        entry_of(content, m).agent_id == m.agent_id,
        entry_of(content, m).session_id == m.session_id,
        entry_of(content, m).access_count == m.access_count,
        entry_of(content, m).last_accessed == m.last_accessed,
        entry_of(content, m).created_at == m.created_at,
        entry_of(content, m).entities == m.entities,
        entry_of(content, m).tags == m.tags,
        entry_of(content, m).supersedes == m.supersedes,
        entry_of(content, m).related_to == m.related_to,
        entry_of(content, m).structured_data == m.structured_data,
{
}

/// What is encoded are the entry's own metadata.
pub proof fn law_encoded<F: Fn(&MemoryMeta) -> String>(encode: F, e: EntryView, json: Seq<char>)
    ensures
        encoded(encode, e, json) <==> exists|m: MemoryMeta, s: String|
            m@ == meta_of(e) && s@ == json && #[trigger] call_ensures(encode, (&m,), s),
{
}

/// The title of an entry: its type in brackets and the first line of its content, without the
/// white space around it, up to a hundred characters.
pub proof fn law_title(e: EntryView, line: Seq<char>, rest: Seq<char>)
    requires
        !line.contains('\n'),
        e.content == line || e.content == line + seq!['\n'] + rest,
    ensures
        trim(line).len() <= 100 ==> title_text(e) == "["@ + e.memory_type.name() + "] "@ + trim(
            line,
        ),
        trim(line).len() > 100 ==> title_text(e) == "["@ + e.memory_type.name() + "] "@ + trim(
            line,
        ).take(100),
{
    law_lines(line, rest);
    let first = if lines(e.content).len() > 0 {
        lines(e.content)[0]
    } else {
        seq![]
    };
    if line.len() > 0 && line.last() == '\r' {
        lemma_trim_drop_last(line);
    }
    if e.content == line && line.len() == 0 {
        assert(e.content =~= Seq::<char>::empty());
        assert(first =~= line);
    }
    assert(trim(first) == trim(line));
}

/// A title tells a type exactly when it starts with the name of the type in brackets.
pub proof fn law_titled(title: Seq<char>, t: MemoryType)
    ensures
        titled(title, t) <==> starts_with(title, "["@ + t.name() + "]"@),
{
}

/// A header line lists its items behind the header; without items it is the header alone.
pub proof fn law_header(header: Seq<char>, items: Seq<Seq<char>>)
    ensures
        items.len() == 0 ==> header_line(header, items) == header,
        items.len() > 0 ==> header_line(header, items) == header + " "@ + join(items, ", "@),
{
}

/// The body of an entry: its content, a line each with its entities and its tags, and the
/// metadata in a comment, with an empty line before and behind the two lines.
pub proof fn law_body(e: EntryView, json: Seq<char>)
    ensures
        body_text(e, json) == e.content + "\n\n"@ + header_line("**Entities:**"@, e.entities)
            + "\n"@ + header_line("**Tags:**"@, e.tags) + "\n\n"@ + "<!-- MEMORY_META\n"@ + json
            + "\n-->"@,
{
}

/// The metadata in a body are what stands between the first start of a block and the first end
/// behind it, and the content is made of what stands before it. Where there is no start, or no
/// end behind the first start, there are no metadata.
pub proof fn law_meta_in_body(body: Seq<char>)
    ensures
        meta_text(body) matches Some(json) ==> exists|start: int|
            {
                &&& #[trigger] occurs_at(body, "<!-- MEMORY_META\n"@, start)
                &&& forall|i: int|
                    0 <= i < start ==> !#[trigger] occurs_at(body, "<!-- MEMORY_META\n"@, i)
                &&& json == body.subrange(start + 17, start + 17 + json.len())
                &&& occurs_at(body, "\n-->"@, start + 17 + json.len())
                &&& forall|i: int|
                    start + 17 <= i < start + 17 + json.len() ==> !#[trigger] occurs_at(
                        body,
                        "\n-->"@,
                        i,
                    )
                &&& content_in(body) == stripped(trim(body.take(start)))
            },
        meta_text(body) is None ==> forall|start: int, end: int|
            #[trigger] occurs_at(body, "<!-- MEMORY_META\n"@, start) && #[trigger] occurs_at(
                body,
                "\n-->"@,
                end,
            ) && (
            forall|i: int|
                0 <= i < start ==> !#[trigger] occurs_at(body, "<!-- MEMORY_META\n"@, i)) ==> end
                < start + 17,
{
    reveal_strlit("<!-- MEMORY_META\n");
    reveal_strlit("\n-->");
    let mark = "<!-- MEMORY_META\n"@;
    let close = "\n-->"@;
    law_first_occurrence(body, mark, 0);
    match first_at(body, mark, 0) {
        Some(start) => {
            law_first_occurrence(body, close, start + 17);
            match first_at(body, close, start + 17) {
                Some(end) => {
                    let json = body.subrange(start + 17, end);
                    assert(meta_text(body) == Some(json));
                    assert(occurs_at(body, mark, start));
                    assert(start + 17 + json.len() == end);
                },
                None => {},
            }
        },
        None => {},
    }
}

/// A line is a helper line if it is blank or lists entities or tags.
pub proof fn law_helper_line(line: Seq<char>)
    ensures
        is_helper(line) <==> trim(line).len() == 0 || starts_with(trim(line), "**Entities:**"@)
            || starts_with(trim(line), "**Tags:**"@),
{
}

/// Helper lines at the end are taken away, all of them and nothing else.
pub proof fn law_stripped(raw: Seq<char>)
    ensures
        exists|n: int|
            {
                &&& 0 <= n <= lines(raw).len()
                &&& stripped(raw) == join(#[trigger] lines(raw).take(n), "\n"@)
                &&& n > 0 ==> !is_helper(lines(raw)[n - 1])
                &&& forall|i: int| n <= i < lines(raw).len() ==> is_helper(#[trigger] lines(raw)[i])
            },
{
    lemma_kept(lines(raw));
    let n = kept(lines(raw)).len() as int;
    assert(kept(lines(raw)) == lines(raw).take(n));
}

proof fn lemma_kept(all: Seq<Seq<char>>)
    ensures
        kept(all).len() <= all.len(),
        kept(all) == all.take(kept(all).len() as int),
        kept(all).len() > 0 ==> !is_helper(all[kept(all).len() - 1]),
        forall|i: int| kept(all).len() <= i < all.len() ==> is_helper(#[trigger] all[i]),
    decreases all.len(),
{
    if all.len() > 0 && is_helper(all.last()) {
        let front = all.drop_last();
        lemma_kept(front);
        assert(kept(all) =~= all.take(kept(all).len() as int));
        assert forall|i: int| kept(all).len() <= i < all.len() implies is_helper(
            #[trigger] all[i],
        ) by {
            if i < front.len() {
                assert(front[i] == all[i]);
            }
        }
        if kept(all).len() > 0 {
            assert(front[kept(all).len() - 1] == all[kept(all).len() - 1]);
        }
    } else {
        assert(all.take(all.len() as int) =~= all);
    }
}

/// An entry is plain if white space does not surround its content, carriage returns do not
/// occur in it, its last line lists neither entities nor tags, and no block of metadata is
/// opened in its content, its entities or its tags, which have one line each.
pub proof fn law_plain_entry(e: EntryView)
    requires
        trim(e.content) == e.content,
        !e.content.contains('\r'),
        e.content.len() > 0 ==> !starts_with(trim(lines(e.content).last()), "**Entities:**"@)
            && !starts_with(trim(lines(e.content).last()), "**Tags:**"@),
        !contains(e.content, "<!-- MEMORY_META"@),
        forall|i: int|
            0 <= i < e.entities.len() ==> !(#[trigger] e.entities[i]).contains('\n') && !contains(
                e.entities[i],
                "<!-- MEMORY_META"@,
            ),
        forall|i: int|
            0 <= i < e.tags.len() ==> !(#[trigger] e.tags[i]).contains('\n') && !contains(
                e.tags[i],
                "<!-- MEMORY_META"@,
            ),
    ensures
        plain(e),
{
}

/// A body without metadata is refused. Else it is read as its metadata are decoded: with the
/// same error, or as the entry made of them and of the content of the body.
pub proof fn law_body_read<F: Fn(&str) -> Result<MemoryMeta>>(
    decode: F,
    body: Seq<char>,
    r: Result<MemoryEntry>,
)
    requires
        body_reads(decode, body, r),
    ensures
        meta_text(body) is None ==> r is Err && r->Err_0 is InvalidInput
            && r->Err_0->InvalidInput_0@ == "no MEMORY_META block found"@,
        meta_text(body) matches Some(json) ==> exists|text: &str, meta: Result<MemoryMeta>|
            {
                &&& text@ == json
                &&& #[trigger] call_ensures(decode, (text,), meta)
                &&& meta matches Err(error) ==> r == Err::<MemoryEntry, MemoryError>(error)
                &&& meta matches Ok(m) ==> r is Ok && r->Ok_0@ == entry_of(content_in(body), m@)
            },
{
    if meta_text(body) is Some {
        let json = meta_text(body)->0;
        let (text, meta) = choose|text: &str, meta: Result<MemoryMeta>|
            text@ == json && #[trigger] call_ensures(decode, (text,), meta) && match meta {
                Err(error) => r == Err::<MemoryEntry, MemoryError>(error),
                Ok(m) => r is Ok && r->Ok_0@ == entry_of(content_in(body), m@),
            };
        assert(call_ensures(decode, (text,), meta));
    }
}

} // verus!
