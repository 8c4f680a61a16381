//! Between a [`MemoryEntry`] and the text of a GitHub Issue.
//!
//! # Format
//!
//! ```text
//! {natural language content}
//!
//! **Entities:** Alice, Python
//! **Tags:** preferences
//!
//! <!-- MEMORY_META
//! {json}
//! -->
//! ```
//!
//! The HTML comment is invisible in GitHub's rendered view. It carries all structured
//! metadata, while the natural-language content stands first for semantic indexing.

use vstd::prelude::*;
use vstd::string::StringExecFns;

use crate::error::{MemoryError, Result};
use crate::json::{Json, JsonView};
use crate::models::{
    copy_numbers, refused, EntryView, MemoryEntry, MemoryType, Timestamp,
};
use crate::score::Score;
use crate::text::{
    chars_of, concat, contains, copy_strings, copy_text, find_from, first_at, first_chars, is_space,
    join, join_strings, lemma_contains_apart, lemma_contains_behind, lemma_first_at,
    lemma_first_at_is, lemma_join_lines, lemma_last_line, lemma_lines_append, lemma_not_blank,
    lemma_trim_again, lemma_trim_drop_last, lemma_trim_end_append, lemma_up_to, lemma_up_to_is,
    line_bounds, lines,
    occurs_at, optional_text, prefix, range_starts_with, ranges, returns_stay, starts_with,
    string_of, texts, trim, trim_bounds, trim_end, trim_start, without_return, up_to,
};

verus! {

// ---------------------------------------------------------------------------
// MemoryMeta
// ---------------------------------------------------------------------------

/// Structured metadata stored in the HTML comment of a GitHub Issue body.
///
/// These are the fields of a [`MemoryEntry`] but for `content`, which stands in the
/// visible body, and `issue_number`, which is a property of the issue.
#[derive(Debug)]
pub struct MemoryMeta {
    /// Unique identifier of the memory entry.
    pub memory_id: u128,
    /// The cognitive type of the memory.
    pub memory_type: MemoryType,
    /// Importance, from 0 to 1.
    pub importance: Score,
    /// Confidence, from 0 to 1.
    pub confidence: Score,
    /// User that the memory belongs to.
    pub user_id: Option<String>,
    /// Agent that created the memory.
    pub agent_id: Option<String>,
    /// Session in which the memory was created.
    pub session_id: Option<String>,
    /// Number of times the memory has been accessed.
    pub access_count: u32,
    /// When the memory was last accessed.
    pub last_accessed: Option<Timestamp>,
    /// When the memory was created.
    pub created_at: Timestamp,
    /// Named entities referenced in the memory.
    pub entities: Vec<String>,
    /// Tags of the memory.
    pub tags: Vec<String>,
    /// Issue numbers that the memory supersedes.
    pub supersedes: Vec<u64>,
    /// Issue numbers related to the memory.
    pub related_to: Vec<u64>,
    /// Arbitrary structured data.
    pub structured_data: Json,
}

/// What a [`MemoryMeta`] holds.
#[verifier::ext_equal]
pub struct MetaView {
    pub memory_id: u128,
    pub memory_type: MemoryType,
    pub importance: Score,
    pub confidence: Score,
    pub user_id: Option<Seq<char>>,
    pub agent_id: Option<Seq<char>>,
    pub session_id: Option<Seq<char>>,
    pub access_count: u32,
    pub last_accessed: Option<Timestamp>,
    pub created_at: Timestamp,
    pub entities: Seq<Seq<char>>,
    pub tags: Seq<Seq<char>>,
    pub supersedes: Seq<u64>,
    pub related_to: Seq<u64>,
    pub structured_data: JsonView,
}

impl View for MemoryMeta {
    type V = MetaView;

    open spec fn view(&self) -> MetaView {
        MetaView {
            memory_id: self.memory_id,
            memory_type: self.memory_type,
            importance: self.importance,
            confidence: self.confidence,
            user_id: optional_text(self.user_id),
            agent_id: optional_text(self.agent_id),
            session_id: optional_text(self.session_id),
            access_count: self.access_count,
            last_accessed: self.last_accessed,
            created_at: self.created_at,
            entities: texts(self.entities@),
            tags: texts(self.tags@),
            supersedes: self.supersedes@,
            related_to: self.related_to@,
            structured_data: self.structured_data@,
        }
    }
}

/// The metadata of an entry.
pub open spec fn meta_of(e: EntryView) -> MetaView {
    MetaView {
        memory_id: e.memory_id,
        memory_type: e.memory_type,
        importance: e.importance,
        confidence: e.confidence,
        user_id: e.user_id,
        agent_id: e.agent_id,
        session_id: e.session_id,
        access_count: e.access_count,
        last_accessed: e.last_accessed,
        created_at: e.created_at,
        entities: e.entities,
        tags: e.tags,
        supersedes: e.supersedes,
        related_to: e.related_to,
        structured_data: e.structured_data,
    }
}

/// The entry with the content `content` and the metadata `m`, not tied to an issue.
pub open spec fn entry_of(content: Seq<char>, m: MetaView) -> EntryView {
    EntryView {
        memory_id: m.memory_id,
        issue_number: None,
        content,
        memory_type: m.memory_type,
        user_id: m.user_id,
        agent_id: m.agent_id,
        session_id: m.session_id,
        importance: m.importance,
        confidence: m.confidence,
        access_count: m.access_count,
        last_accessed: m.last_accessed,
        created_at: m.created_at,
        entities: m.entities,
        tags: m.tags,
        structured_data: m.structured_data,
        supersedes: m.supersedes,
        related_to: m.related_to,
    }
}

// ---------------------------------------------------------------------------
// The format
// ---------------------------------------------------------------------------

/// What a metadata block opens with.
pub open spec fn block_start() -> Seq<char> {
    "<!-- MEMORY_META\n"@
}

/// What a metadata block closes with.
pub open spec fn block_end() -> Seq<char> {
    "\n-->"@
}

/// A header, and behind it the items, if there are any.
pub open spec fn header_line(header: Seq<char>, items: Seq<Seq<char>>) -> Seq<char> {
    if items.len() == 0 {
        header
    } else {
        header + " "@ + join(items, ", "@)
    }
}

/// What stands in the body before the metadata block.
pub open spec fn visible_part(
    content: Seq<char>,
    entities: Seq<Seq<char>>,
    tags: Seq<Seq<char>>,
) -> Seq<char> {
    content + "\n\n"@ + header_line("**Entities:**"@, entities) + "\n"@ + header_line(
        "**Tags:**"@,
        tags,
    ) + "\n\n"@
}

/// The body of an entry whose metadata is `json` in JSON.
pub open spec fn body_text(e: EntryView, json: Seq<char>) -> Seq<char> {
    visible_part(e.content, e.entities, e.tags) + block_start() + json + block_end()
}

/// The title of an entry.
pub open spec fn title_text(e: EntryView) -> Seq<char> {
    let first = if lines(e.content).len() > 0 {
        lines(e.content)[0]
    } else {
        seq![]
    };
    "["@ + e.memory_type.name() + "] "@ + prefix(trim(first), 100)
}

/// Where the metadata block of `body` starts, and where its JSON ends: the block is the
/// first that opens, and reaches to where it first closes.
pub open spec fn meta_block(body: Seq<char>) -> Option<(int, int)> {
    match first_at(body, block_start(), 0) {
        None => None,
        Some(start) => match first_at(body, block_end(), start + block_start().len()) {
            None => None,
            Some(end) => Some((start, end)),
        },
    }
}

/// The JSON of the metadata block of `body`.
pub open spec fn meta_text(body: Seq<char>) -> Option<Seq<char>> {
    match meta_block(body) {
        None => None,
        Some((start, end)) => Some(body.subrange(start + block_start().len(), end)),
    }
}

/// The line is blank or one of the two header lines.
pub open spec fn is_helper(line: Seq<char>) -> bool {
    let t = trim(line);
    t.len() == 0 || starts_with(t, "**Entities:**"@) || starts_with(t, "**Tags:**"@)
}

/// The lines without the helper lines that they end with.
pub open spec fn kept(all: Seq<Seq<char>>) -> Seq<Seq<char>>
    decreases all.len(),
{
    if all.len() > 0 && is_helper(all.last()) {
        kept(all.drop_last())
    } else {
        all
    }
}

/// The text without the helper lines that it ends with.
pub open spec fn stripped(raw: Seq<char>) -> Seq<char> {
    join(kept(lines(raw)), "\n"@)
}

/// The content of a body that has a metadata block.
pub open spec fn content_in(body: Seq<char>) -> Seq<char> {
    match meta_block(body) {
        None => seq![],
        Some((start, _)) => stripped(trim(body.take(start))),
    }
}

// ---------------------------------------------------------------------------
// Laws
// ---------------------------------------------------------------------------

/// Every line of the text is a helper line.
pub open spec fn helper_only(s: Seq<char>) -> bool {
    forall|i: int| 0 <= i < lines(s).len() ==> is_helper(#[trigger] lines(s)[i])
}

/// The content reads back unchanged: it is empty, or it does not start with white space,
/// has no carriage return at the end of a line, and does not end with a helper line.
pub open spec fn content_stays(content: Seq<char>) -> bool {
    content.len() == 0 || {
        &&& !is_space(content[0])
        &&& returns_stay(content)
        &&& !is_helper(lines(content.push('\n')).last())
    }
}

/// Helper lines at the end are dropped.
proof fn lemma_kept_append(a: Seq<Seq<char>>, b: Seq<Seq<char>>)
    requires
        forall|i: int| 0 <= i < b.len() ==> is_helper(#[trigger] b[i]),
    ensures
        kept(a + b) == kept(a),
    decreases b.len(),
{
    if b.len() == 0 {
        assert(a + b =~= a);
    } else {
        assert((a + b).last() == b.last());
        assert((a + b).drop_last() =~= a + b.drop_last());
        lemma_kept_append(a, b.drop_last());
    }
}

/// A line feed at the end adds no line that is no helper line.
proof fn lemma_helper_push(s: Seq<char>)
    requires
        helper_only(s),
    ensures
        helper_only(s.push('\n')),
    decreases s.len(),
{
    let t = s.push('\n');
    let i = up_to(t, '\n');
    lemma_up_to(t, '\n');
    assert(i <= s.len()) by {
        if i > s.len() {
            assert(t[s.len() as int] != '\n');
        }
    }
    let first = t.take(i);
    assert(first =~= s.take(i));
    lemma_up_to(s, '\n');
    if i == s.len() {
        assert(up_to(s, '\n') == i) by {
            assert forall|j: int| 0 <= j < i implies s[j] != '\n' by {
                assert(t[j] == s[j]);
            }
            lemma_up_to_is(s, '\n', i);
        }
        assert(first =~= s);
        assert(t.skip(i + 1) =~= seq![]);
        assert(lines(t.skip(i + 1)) =~= seq![]);
        assert(lines(t) =~= seq![without_return(s)]);
        if s.len() > 0 {
            assert(lines(s) =~= seq![s]);
            assert(is_helper(lines(s)[0]));
            if s.last() == '\r' {
                lemma_trim_drop_last(s);
            }
        }
    } else {
        assert forall|j: int| 0 <= j < i implies s[j] != '\n' by {
            assert(t[j] == s[j]);
        }
        lemma_up_to_is(s, '\n', i);
        let rest = s.skip(i + 1);
        assert(t.skip(i + 1) =~= rest.push('\n'));
        assert(lines(s) =~= seq![without_return(first)] + lines(rest));
        assert(lines(t) =~= seq![without_return(first)] + lines(rest.push('\n')));
        assert(helper_only(rest)) by {
            assert forall|k: int| 0 <= k < lines(rest).len() implies is_helper(
                #[trigger] lines(rest)[k],
            ) by {
                assert(lines(s)[k + 1] == lines(rest)[k]);
            }
        }
        lemma_helper_push(rest);
        assert forall|k: int| 0 <= k < lines(t).len() implies is_helper(#[trigger] lines(t)[k]) by {
            if k == 0 {
                assert(is_helper(lines(s)[0]));
            } else {
                assert(lines(t)[k] == lines(rest.push('\n'))[k - 1]);
            }
        }
    }
}

/// Without a white-space character at the end, helper lines are helper lines still.
proof fn lemma_helper_drop(s: Seq<char>)
    requires
        helper_only(s),
        s.len() > 0,
        is_space(s.last()),
    ensures
        helper_only(s.drop_last()),
    decreases s.len(),
{
    let d = s.drop_last();
    let i = up_to(s, '\n');
    lemma_up_to(s, '\n');
    if i >= s.len() - 1 {
        assert(up_to(d, '\n') == d.len()) by {
            assert forall|j: int| 0 <= j < d.len() implies d[j] != '\n' by {
                assert(s[j] != '\n');
            }
            lemma_up_to_is(d, '\n', d.len() as int);
        }
        if d.len() > 0 {
            assert(lines(d) =~= seq![d]);
            assert(is_helper(lines(s)[0]));
            if i == s.len() {
                assert(lines(s) =~= seq![s]);
                lemma_trim_drop_last(s);
            } else {
                assert(s.take(i) =~= d);
                assert(lines(s)[0] == without_return(d));
                if d.last() == '\r' {
                    lemma_trim_drop_last(d);
                }
            }
        }
    } else {
        lemma_up_to_is(d, '\n', i);
        let rest = s.skip(i + 1);
        assert(d.skip(i + 1) =~= rest.drop_last());
        assert(d.take(i) =~= s.take(i));
        assert(rest.last() == s.last());
        assert(helper_only(rest)) by {
            assert forall|k: int| 0 <= k < lines(rest).len() implies is_helper(
                #[trigger] lines(rest)[k],
            ) by {
                assert(lines(s)[k + 1] == lines(rest)[k]);
            }
        }
        lemma_helper_drop(rest);
        assert forall|k: int| 0 <= k < lines(d).len() implies is_helper(#[trigger] lines(d)[k]) by {
            if k == 0 {
                assert(is_helper(lines(s)[0]));
            } else {
                assert(lines(d)[k] == lines(rest.drop_last())[k - 1]);
            }
        }
    }
}

/// Without the white space at the end, helper lines are helper lines still.
proof fn lemma_helper_trim_end(s: Seq<char>)
    requires
        helper_only(s),
    ensures
        helper_only(trim_end(s)),
    decreases s.len(),
{
    if s.len() > 0 && is_space(s.last()) {
        lemma_helper_drop(s);
        lemma_helper_trim_end(s.drop_last());
    }
}

/// What is read back of the visible part is the content.
proof fn lemma_content_back(content: Seq<char>, entities: Seq<Seq<char>>, tags: Seq<Seq<char>>)
    requires
        content_stays(content),
        helper_only(header_line("**Entities:**"@, entities)),
        helper_only(header_line("**Tags:**"@, tags)),
    ensures
        stripped(trim(visible_part(content, entities, tags))) == content,
{
    reveal_strlit("**Entities:**");
    reveal_strlit("**Tags:**");
    reveal_strlit("\n");
    reveal_strlit("\n\n");
    let el = header_line("**Entities:**"@, entities);
    let tl = header_line("**Tags:**"@, tags);
    assert(el.len() > 0 && el[0] == '*');
    assert(tl.len() > 0 && tl[0] == '*');
    let head = visible_part(content, entities, tags);
    let tail = trim_end(tl);
    // The helper lines and what they turn into.
    let middle = el.push('\n');
    lemma_helper_push(el);
    lemma_helper_trim_end(tl);
    lemma_trim_end_append(seq!['*'], tl.skip(1));
    assert(seq!['*'] + tl.skip(1) =~= tl);
    assert(tail.len() > 0);
    let end = tl.push('\n').push('\n');
    assert(trim_end(end) == tail) by {
        assert(tl.push('\n').drop_last() =~= tl);
        assert(trim_end(tl.push('\n')) == tail);
        assert(end.drop_last() =~= tl.push('\n'));
    }
    lemma_lines_append(middle, tail);
    if content.len() == 0 {
        let rest = middle + end;
        assert(head =~= seq!['\n', '\n'] + rest);
        assert(trim_start(head) == rest) by {
            assert(rest[0] == '*');
            let once = seq!['\n'] + rest;
            assert(once.skip(1) =~= rest);
            assert(trim_start(rest) == rest);
            assert(is_space(once[0]));
            assert(trim_start(once) == rest);
            assert(head.skip(1) =~= once);
        }
        lemma_trim_end_append(middle, end);
        assert(trim(head) == middle + tail);
        lemma_kept_append(seq![], lines(middle) + lines(tail));
        assert(seq![] + (lines(middle) + lines(tail)) =~= lines(middle) + lines(tail));
        assert(kept(lines(trim(head))) =~= seq![]);
        assert(stripped(trim(head)) =~= content);
    } else {
        let first = content.push('\n');
        let front = first + seq!['\n'] + middle;
        assert(head =~= front + end);
        assert(head[0] == content[0]);
        assert(trim_start(head) == head);
        lemma_trim_end_append(front, end);
        assert(trim(head) == front + tail);
        assert(front + tail =~= first + (seq!['\n'] + (middle + tail)));
        lemma_lines_append(first, seq!['\n'] + (middle + tail));
        lemma_lines_append(seq!['\n'], middle + tail);
        let blank = lines(seq!['\n']);
        assert(helper_only(seq!['\n'])) by {
            assert(helper_only(seq![]));
            lemma_helper_push(seq![]);
            assert(Seq::<char>::empty().push('\n') =~= seq!['\n']);
        }
        let back = blank + (lines(middle) + lines(tail));
        assert forall|i: int| 0 <= i < back.len() implies is_helper(#[trigger] back[i]) by {
            if i < blank.len() {
                assert(back[i] == lines(seq!['\n'])[i]);
            } else if i < blank.len() + lines(middle).len() {
                assert(back[i] == lines(middle)[i - blank.len()]);
            } else {
                assert(back[i] == lines(tail)[i - blank.len() - lines(middle).len()]);
            }
        }
        lemma_kept_append(lines(first), back);
        lemma_join_lines(content);
        assert("\n"@ =~= seq!['\n']);
    }
}

/// A header line whose items have no line feed is one helper line.
pub proof fn law_header_lines(items: Seq<Seq<char>>)
    requires
        forall|i: int, j: int| 0 <= i < items.len() && 0 <= j < items[i].len() ==> items[i][j] != '\n',
    ensures
        helper_only(header_line("**Entities:**"@, items)),
        helper_only(header_line("**Tags:**"@, items)),
{
    reveal_strlit("**Entities:**");
    reveal_strlit("**Tags:**");
    reveal_strlit(" ");
    lemma_joined_line(items);
    lemma_header_line("**Entities:**"@, items);
    lemma_header_line("**Tags:**"@, items);
}

proof fn lemma_joined_line(items: Seq<Seq<char>>)
    requires
        forall|i: int, j: int| 0 <= i < items.len() && 0 <= j < items[i].len() ==> items[i][j] != '\n',
    ensures
        forall|j: int| 0 <= j < join(items, ", "@).len() ==> join(items, ", "@)[j] != '\n',
    decreases items.len(),
{
    reveal_strlit(", ");
    if items.len() > 1 {
        let front = items.drop_last();
        assert forall|i: int, j: int| 0 <= i < front.len() && 0 <= j < front[i].len() implies
            front[i][j] != '\n' by {
            assert(front[i] == items[i]);
        }
        lemma_joined_line(front);
        let last = items.last();
        assert forall|j: int| 0 <= j < last.len() implies last[j] != '\n' by {
            assert(items[items.len() - 1][j] != '\n');
        }
        let all = join(items, ", "@);
        let a = join(front, ", "@);
        assert(all == a + ", "@ + last);
        assert forall|j: int| 0 <= j < all.len() implies all[j] != '\n' by {
            if j < a.len() {
                assert(all[j] == a[j]);
            } else if j >= a.len() + 2 {
                assert(all[j] == last[j - a.len() - 2]);
            }
        }
    } else if items.len() == 1 {
        assert(join(items, ", "@) == items[0]);
    }
}

proof fn lemma_header_line(header: Seq<char>, items: Seq<Seq<char>>)
    requires
        header == "**Entities:**"@ || header == "**Tags:**"@,
        forall|j: int| 0 <= j < join(items, ", "@).len() ==> join(items, ", "@)[j] != '\n',
    ensures
        helper_only(header_line(header, items)),
{
    reveal_strlit("**Entities:**");
    reveal_strlit("**Tags:**");
    reveal_strlit(" ");
    let line = header_line(header, items);
    let rest = line.skip(header.len() as int);
    assert(line =~= header + rest);
    assert(line.subrange(0, header.len() as int) =~= header);
    assert forall|j: int| 0 <= j < line.len() implies line[j] != '\n' by {
        if j >= header.len() {
            if items.len() == 0 {
            } else {
                assert(rest =~= " "@ + join(items, ", "@));
            }
        } else {
            assert(line[j] == header[j]);
        }
    }
    lemma_up_to_is(line, '\n', line.len() as int);
    assert(lines(line) =~= seq![line]);
    lemma_trim_end_append(header, rest);
    assert(trim_end(header) == header);
    let t = trim(line);
    assert(t.subrange(0, header.len() as int) =~= header);
    assert(is_helper(line));
}

/// The first occurrence of `mark` in `head + mark + rest` is behind `head`, if `head` does
/// not hold it and `mark` starts with a character that it has nowhere else.
proof fn lemma_first_mark(head: Seq<char>, mark: Seq<char>, rest: Seq<char>, from: int)
    requires
        mark.len() > 0,
        0 <= from <= head.len(),
        forall|k: int| 0 < k < mark.len() ==> #[trigger] mark[k] != mark[0],
        !contains(head.skip(from), mark),
    ensures
        first_at(head + mark + rest, mark, from) == Some(head.len() as int),
{
    let s = head + mark + rest;
    let n = head.len() as int;
    assert(s.subrange(n, n + mark.len()) =~= mark);
    assert forall|j: int| from <= j < n implies !#[trigger] occurs_at(s, mark, j) by {
        if occurs_at(s, mark, j) {
            let o = s.subrange(j, j + mark.len());
            if j + mark.len() <= n {
                assert(head.skip(from).subrange(j - from, j - from + mark.len()) =~= o);
                assert(occurs_at(head.skip(from), mark, j - from));
            } else {
                assert(o[n - j] == s[n]);
                assert(s[n] == mark[0]);
            }
        }
    }
    lemma_first_at_is(s, mark, from, n);
}

/// An entry survives the way into a body and back: the metadata block holds the JSON that
/// was put in, and the content and the metadata make up the entry again, but for the issue
/// number, which no body holds.
///
/// The visible part must not itself hold the start of a metadata block nor the JSON the end
/// of one, the content must not look like what the format adds around it, and the entities
/// and tags must not break out of their header lines.
pub proof fn law_round_trip(e: EntryView, json: Seq<char>)
    requires
        !contains(visible_part(e.content, e.entities, e.tags), block_start()),
        !contains(json, block_end()),
        content_stays(e.content),
        helper_only(header_line("**Entities:**"@, e.entities)),
        helper_only(header_line("**Tags:**"@, e.tags)),
    ensures
        meta_text(body_text(e, json)) == Some(json),
        content_in(body_text(e, json)) == e.content,
        entry_of(content_in(body_text(e, json)), meta_of(e)) == (EntryView {
            issue_number: None,
            ..e
        }),
{
    reveal_strlit("<!-- MEMORY_META\n");
    reveal_strlit("\n-->");
    let head = visible_part(e.content, e.entities, e.tags);
    let mark = block_start();
    let end = block_end();
    let body = body_text(e, json);
    assert(head.skip(0) =~= head);
    assert(head + mark + (json + end) =~= body);
    lemma_first_mark(head, mark, json + end, 0);
    let n = head.len() + mark.len();
    let front = head + mark + json;
    assert(front + end + seq![] =~= body);
    assert(front.skip(n as int) =~= json);
    lemma_first_mark(front, end, seq![], n as int);
    assert(body.subrange(n as int, front.len() as int) =~= json);
    assert(body.take(head.len() as int) =~= head);
    lemma_content_back(e.content, e.entities, e.tags);
}

/// `decode` reads what `encode` writes of the metadata `meta`, and gets the same metadata.
pub open spec fn undoes<F: Fn(&MemoryMeta) -> String, G: Fn(&str) -> Result<MemoryMeta>>(
    decode: G,
    encode: F,
    meta: MetaView,
) -> bool {
    forall|m: MemoryMeta, s: String, text: &str, read: Result<MemoryMeta>|
        m@ == meta && #[trigger] call_ensures(encode, (&m,), s) && text@ == s@
            && #[trigger] call_ensures(decode, (text,), read) ==> read is Ok && read->Ok_0@
            == meta
}

/// What [`format_body`] writes, [`parse_body`] reads: with a `decode` that undoes `encode` on
/// the metadata of the entry, it succeeds and gives the entry again, but for the issue
/// number. The entries are those of [`law_round_trip`].
pub proof fn law_body_read_back<
    F: Fn(&MemoryMeta) -> String,
    G: Fn(&str) -> Result<MemoryMeta>,
>(encode: F, decode: G, e: EntryView, json: Seq<char>, r: Result<MemoryEntry>)
    requires
        undoes(decode, encode, meta_of(e)),
        encoded(encode, e, json),
        body_reads(decode, body_text(e, json), r),
        !contains(visible_part(e.content, e.entities, e.tags), block_start()),
        !contains(json, block_end()),
        content_stays(e.content),
        helper_only(header_line("**Entities:**"@, e.entities)),
        helper_only(header_line("**Tags:**"@, e.tags)),
    ensures
        r is Ok,
        r->Ok_0@ == (EntryView { issue_number: None, ..e }),
{
    law_round_trip(e, json);
    let (m, s) = choose|m: MemoryMeta, s: String|
        m@ == meta_of(e) && s@ == json && #[trigger] call_ensures(encode, (&m,), s);
    let (text, read) = choose|text: &str, read: Result<MemoryMeta>|
        text@ == json && #[trigger] call_ensures(decode, (text,), read) && match read {
            Err(error) => r == Err::<MemoryEntry, MemoryError>(error),
            Ok(m) => r is Ok && r->Ok_0@ == entry_of(content_in(body_text(e, json)), m@),
        };
    assert(read is Ok && read->Ok_0@ == m@);
}

/// What a metadata block is told by.
pub open spec fn block_mark() -> Seq<char> {
    "<!-- MEMORY_META"@
}

/// The items stay on one line each, and none holds the mark of a metadata block.
pub open spec fn plain_items(items: Seq<Seq<char>>) -> bool {
    forall|i: int|
        0 <= i < items.len() ==> !(#[trigger] items[i]).contains('\n') && !contains(
            items[i],
            block_mark(),
        )
}

/// The entry holds nothing that could be taken for what the format adds: its content has no
/// white space around it, no carriage return, and no header line as its last line; entities
/// and tags stay on one line each; and the mark of a metadata block stands nowhere.
pub open spec fn plain(e: EntryView) -> bool {
    &&& trim(e.content) == e.content
    &&& !e.content.contains('\r')
    &&& e.content.len() > 0 ==> {
        let last = trim(lines(e.content).last());
        !starts_with(last, "**Entities:**"@) && !starts_with(last, "**Tags:**"@)
    }
    &&& !contains(e.content, block_mark())
    &&& plain_items(e.entities)
    &&& plain_items(e.tags)
}

/// Every plain entry is read back as it was written: with a `decode` that undoes `encode` on
/// its metadata, and JSON that does not itself close a metadata block, [`parse_body`] makes
/// of what [`format_body`] writes the entry again, but for the issue number.
pub proof fn law_plain_entry_read_back<
    F: Fn(&MemoryMeta) -> String,
    G: Fn(&str) -> Result<MemoryMeta>,
>(encode: F, decode: G, e: EntryView, json: Seq<char>, r: Result<MemoryEntry>)
    requires
        plain(e),
        undoes(decode, encode, meta_of(e)),
        encoded(encode, e, json),
        !contains(json, block_end()),
        body_reads(decode, body_text(e, json), r),
    ensures
        r is Ok,
        r->Ok_0@ == (EntryView { issue_number: None, ..e }),
{
    lemma_plain_content(e.content);
    lemma_plain_items(e.entities);
    lemma_plain_items(e.tags);
    lemma_no_mark(e.content, e.entities, e.tags);
    law_body_read_back(encode, decode, e, json, r);
}

proof fn lemma_plain_content(content: Seq<char>)
    requires
        trim(content) == content,
        !content.contains('\r'),
        content.len() > 0 ==> {
            let last = trim(lines(content).last());
            !starts_with(last, "**Entities:**"@) && !starts_with(last, "**Tags:**"@)
        },
    ensures
        content_stays(content),
{
    if content.len() > 0 {
        lemma_trim_again(content);
        assert(is_space('\n'));
        lemma_last_line(content);
        lemma_not_blank(lines(content).last());
        assert(returns_stay(content)) by {
            assert forall|j: int| 0 <= j < content.len() implies #[trigger] content[j]
                != '\r' by {
                assert(content.contains(content[j]));
            }
        }
    }
}

proof fn lemma_plain_items(items: Seq<Seq<char>>)
    requires
        plain_items(items),
    ensures
        helper_only(header_line("**Entities:**"@, items)),
        helper_only(header_line("**Tags:**"@, items)),
        !contains(header_line("**Entities:**"@, items), block_mark()),
        !contains(header_line("**Tags:**"@, items), block_mark()),
{
    assert forall|i: int, j: int| 0 <= i < items.len() && 0 <= j < items[i].len() implies items[i][j]
        != '\n' by {
        assert(items[i].contains(items[i][j]));
    }
    law_header_lines(items);
    reveal_strlit("**Entities:**");
    reveal_strlit("**Tags:**");
    reveal_strlit(" ");
    lemma_header_unmarked("**Entities:**"@, items);
    lemma_header_unmarked("**Tags:**"@, items);
}

proof fn lemma_header_unmarked(header: Seq<char>, items: Seq<Seq<char>>)
    requires
        plain_items(items),
        !header.contains('<'),
    ensures
        !contains(header_line(header, items), block_mark()),
{
    let mark = block_mark();
    let none: Seq<char> = seq![];
    reveal_strlit("<!-- MEMORY_META");
    reveal_strlit(" ");
    let line = header_line(header, items);
    if contains(line, mark) {
        if items.len() == 0 {
            assert(line =~= header + none);
            lemma_contains_behind(header, none, mark);
        } else {
            let front = header + " "@;
            assert(!front.contains('<')) by {
                if front.contains('<') {
                    let k = choose|k: int| 0 <= k < front.len() && front[k] == '<';
                    if k < header.len() {
                        assert(header[k] == '<');
                    }
                }
            }
            lemma_contains_behind(front, join(items, ", "@), mark);
            lemma_joined_unmarked(items);
        }
    }
}

proof fn lemma_joined_unmarked(items: Seq<Seq<char>>)
    requires
        plain_items(items),
    ensures
        !contains(join(items, ", "@), block_mark()),
    decreases items.len(),
{
    let mark = block_mark();
    reveal_strlit("<!-- MEMORY_META");
    reveal_strlit(", ");
    if items.len() > 1 {
        let front = items.drop_last();
        assert forall|i: int| 0 <= i < front.len() implies !(#[trigger] front[i]).contains('\n')
            && !contains(front[i], mark) by {
            assert(front[i] == items[i]);
        }
        lemma_joined_unmarked(front);
        let last = items.last();
        assert(last == items[items.len() - 1]);
        let before = join(front, ", "@);
        if contains(join(items, ", "@), mark) {
            assert(join(items, ", "@) =~= before + seq![','] + (seq![' '] + last));
            lemma_contains_apart(before, ',', seq![' '] + last, mark);
            lemma_contains_behind(seq![' '], last, mark);
        }
    } else if items.len() == 1 {
        assert(!contains(items[0], mark));
    }
}

/// Where no part of it holds the mark of a metadata block, what stands before the block does
/// not hold its start.
proof fn lemma_no_mark(content: Seq<char>, entities: Seq<Seq<char>>, tags: Seq<Seq<char>>)
    requires
        !contains(content, block_mark()),
        !contains(header_line("**Entities:**"@, entities), block_mark()),
        !contains(header_line("**Tags:**"@, tags), block_mark()),
    ensures
        !contains(visible_part(content, entities, tags), block_start()),
{
    let mark = block_mark();
    let s = visible_part(content, entities, tags);
    let el = header_line("**Entities:**"@, entities);
    let tl = header_line("**Tags:**"@, tags);
    let none: Seq<char> = seq![];
    reveal_strlit("<!-- MEMORY_META");
    reveal_strlit("<!-- MEMORY_META\n");
    reveal_strlit("\n\n");
    reveal_strlit("\n");
    if contains(s, block_start()) {
        let i = choose|i: int| #[trigger] occurs_at(s, block_start(), i);
        assert(s.subrange(i, i + mark.len()) =~= s.subrange(
            i,
            i + block_start().len(),
        ).take(mark.len() as int));
        assert(block_start().take(mark.len() as int) =~= mark);
        assert(occurs_at(s, mark, i));
        let rest3 = none + seq!['\n'] + none;
        let rest2 = tl + seq!['\n'] + rest3;
        let rest1 = el + seq!['\n'] + rest2;
        let rest0 = none + seq!['\n'] + rest1;
        assert(s =~= content + seq!['\n'] + rest0);
        lemma_contains_apart(content, '\n', rest0, mark);
        if contains(none, mark) {
            let k = choose|k: int| #[trigger] occurs_at(none, mark, k);
        }
        lemma_contains_apart(none, '\n', rest1, mark);
        lemma_contains_apart(el, '\n', rest2, mark);
        lemma_contains_apart(tl, '\n', rest3, mark);
        lemma_contains_apart(none, '\n', none, mark);
    }
}

/// The title opens with the name of the type in brackets.
pub open spec fn titled(title: Seq<char>, t: MemoryType) -> bool {
    starts_with(title, "["@ + t.name() + "]"@)
}

/// No title names two types.
pub proof fn law_one_type(title: Seq<char>, a: MemoryType, b: MemoryType)
    requires
        titled(title, a),
        titled(title, b),
    ensures
        a == b,
{
    reveal_strlit("[");
    reveal_strlit("]");
    reveal_strlit("episodic");
    reveal_strlit("semantic");
    reveal_strlit("procedural");
    reveal_strlit("working");
    let p = "["@ + a.name() + "]"@;
    let q = "["@ + b.name() + "]"@;
    assert(title.subrange(0, p.len() as int)[1] == title[1]);
    assert(title.subrange(0, q.len() as int)[1] == title[1]);
    assert(p[1] == a.name()[0]);
    assert(q[1] == b.name()[0]);
}

/// The title of an entry names the type of the entry, and no other.
pub proof fn law_title_names_type(e: EntryView, t: MemoryType)
    ensures
        titled(title_text(e), t) <==> t == e.memory_type,
{
    reveal_strlit("] ");
    reveal_strlit("]");
    let p = "["@ + e.memory_type.name() + "]"@;
    assert(title_text(e).subrange(0, p.len() as int) =~= p);
    assert(titled(title_text(e), e.memory_type));
    if titled(title_text(e), t) {
        law_one_type(title_text(e), t, e.memory_type);
    }
}

// ---------------------------------------------------------------------------
// Writing
// ---------------------------------------------------------------------------

/// Formats the GitHub Issue title for a [`MemoryEntry`].
///
/// Format: `"[{type}] {first line of content, at most 100 characters}"`
pub fn format_title(entry: &MemoryEntry) -> (r: String)
    ensures
        r@ == title_text(entry@),
{
    let chars = chars_of(entry.content.as_str());
    assert(chars@.subrange(0, chars@.len() as int) =~= entry.content@);
    let bounds = line_bounds(&chars, 0, chars.len());
    let first: (usize, usize) = if bounds.len() > 0 {
        assert(ranges(chars@, bounds@)[0] == lines(entry.content@)[0]);
        bounds[0]
    } else {
        assert(chars@.subrange(0, 0) =~= seq![]);
        assert(lines(entry.content@).len() == 0);
        (0, 0)
    };
    let (from, to) = trim_bounds(&chars, first.0, first.1);
    let summary = first_chars(string_of(&chars, from, to).as_str(), 100);
    let mut title = String::new();
    title.append("[");
    title.append(entry.memory_type.as_str());
    title.append("] ");
    title.append(summary.as_str());
    assert(title@ =~= title_text(entry@));
    title
}

/// Formats a single bold header line with a comma-joined item list.
///
/// Returns `"**Header:**"` when there are no items, and `"**Header:** a, b, c"` otherwise.
pub fn format_header_line(header: &str, items: &Vec<String>) -> (r: String)
    ensures
        r@ == header_line(header@, texts(items@)),
{
    if items.len() == 0 {
        header.to_owned()
    } else {
        let mut line = concat(header, " ");
        line.append(join_strings(items, ", ").as_str());
        line
    }
}

impl MemoryMeta {
    /// The metadata of an entry.
    pub fn of(entry: &MemoryEntry) -> (r: MemoryMeta)
        ensures
            r@ == meta_of(entry@),
    {
        MemoryMeta {
            memory_id: entry.memory_id,
            memory_type: entry.memory_type,
            importance: entry.importance,
            confidence: entry.confidence,
            user_id: copy_text(&entry.user_id),
            agent_id: copy_text(&entry.agent_id),
            session_id: copy_text(&entry.session_id),
            access_count: entry.access_count,
            last_accessed: entry.last_accessed,
            created_at: entry.created_at,
            entities: copy_strings(&entry.entities),
            tags: copy_strings(&entry.tags),
            supersedes: copy_numbers(&entry.supersedes),
            related_to: copy_numbers(&entry.related_to),
            structured_data: entry.structured_data.copy(),
        }
    }

    /// The entry with this metadata and the given content.
    pub fn into_entry(self, content: String) -> (r: MemoryEntry)
        ensures
            r@ == entry_of(content@, self@),
    {
        MemoryEntry {
            memory_id: self.memory_id,
            issue_number: None,
            content,
            memory_type: self.memory_type,
            user_id: self.user_id,
            agent_id: self.agent_id,
            session_id: self.session_id,
            importance: self.importance,
            confidence: self.confidence,
            access_count: self.access_count,
            last_accessed: self.last_accessed,
            created_at: self.created_at,
            entities: self.entities,
            tags: self.tags,
            structured_data: self.structured_data,
            supersedes: self.supersedes,
            related_to: self.related_to,
        }
    }
}

/// Formats the GitHub Issue body for a [`MemoryEntry`], whose metadata `encode` writes
/// as JSON.
///
/// Structure:
/// 1. Natural-language content
/// 2. Blank line
/// 3. `**Entities:** …`
/// 4. `**Tags:** …`
/// 5. HTML comment block with JSON metadata
pub fn format_body<F: Fn(&MemoryMeta) -> String>(entry: &MemoryEntry, encode: F) -> (r: String)
    requires
        encodes_all(encode),
    ensures
        exists|json: Seq<char>|
            #[trigger] encoded(encode, entry@, json) && r@ == body_text(entry@, json),
{
    let meta = MemoryMeta::of(entry);
    let json = encode(&meta);
    let mut body = entry.content.clone();
    body.append("\n\n");
    body.append(format_header_line("**Entities:**", &entry.entities).as_str());
    body.append("\n");
    body.append(format_header_line("**Tags:**", &entry.tags).as_str());
    body.append("\n\n");
    body.append("<!-- MEMORY_META\n");
    body.append(json.as_str());
    body.append("\n-->");
    assert(body@ =~= body_text(entry@, json@));
    assert(encoded(encode, entry@, json@));
    body
}

// ---------------------------------------------------------------------------
// Reading
// ---------------------------------------------------------------------------

/// Removes trailing `**Entities:**` and `**Tags:**` lines (and blank lines between them
/// and the real content).
pub fn strip_helper_lines(raw: &str) -> (r: String)
    ensures
        r@ == stripped(raw@),
{
    let chars = chars_of(raw);
    assert(chars@.subrange(0, chars@.len() as int) =~= raw@);
    let bounds = line_bounds(&chars, 0, chars.len());
    let ghost all = lines(raw@);
    let mut end: usize = bounds.len();
    assert(all.take(end as int) =~= all);
    while end > 0
        invariant
            end <= bounds.len(),
            all == ranges(chars@, bounds@),
            forall|i: int|
                0 <= i < bounds.len() ==> 0 <= (#[trigger] bounds@[i]).0 <= bounds@[i].1
                    <= chars.len(),
            kept(all) == kept(all.take(end as int)),
        ensures
            end <= bounds.len(),
            kept(all) == all.take(end as int),
        decreases end,
    {
        let (a, b) = bounds[end - 1];
        let (from, to) = trim_bounds(&chars, a, b);
        let ghost line = all.take(end as int).last();
        assert(line == chars@.subrange(a as int, b as int));
        assert(all.take(end as int).drop_last() =~= all.take(end - 1));
        if from == to || range_starts_with(&chars, from, to, "**Entities:**")
            || range_starts_with(&chars, from, to, "**Tags:**") {
            assert(is_helper(line));
            end -= 1;
        } else {
            assert(!is_helper(line));
            break;
        }
    }
    let mut content = String::new();
    let mut i: usize = 0;
    while i < end
        invariant
            i <= end <= bounds.len(),
            all == ranges(chars@, bounds@),
            forall|i: int|
                0 <= i < bounds.len() ==> 0 <= (#[trigger] bounds@[i]).0 <= bounds@[i].1
                    <= chars.len(),
            content@ == join(all.take(i as int), "\n"@),
        decreases end - i,
    {
        if i > 0 {
            content.append("\n");
        }
        let (a, b) = bounds[i];
        content.append(string_of(&chars, a, b).as_str());
        i += 1;
        let ghost now = all.take(i as int);
        assert(now.drop_last() =~= all.take(i - 1));
        assert(now.last() == chars@.subrange(a as int, b as int));
        if i == 1 {
            assert(content@ =~= now[0]);
        } else {
            assert(content@ =~= join(now.drop_last(), "\n"@) + "\n"@ + now.last());
        }
    }
    content
}

/// The bounds of the metadata block: where it starts, where its JSON starts and ends.
fn find_block(chars: &Vec<char>) -> (r: Option<(usize, usize, usize)>)
    ensures
        match r {
            Some((start, from, to)) => {
                &&& start <= from <= to <= chars.len()
                &&& from == start + block_start().len()
                &&& meta_block(chars@) == Some((start as int, to as int))
            },
            None => meta_block(chars@) is None,
        },
{
    let open = chars_of("<!-- MEMORY_META\n");
    let close = chars_of("\n-->");
    match find_from(chars, &open, 0) {
        None => None,
        Some(start) => {
            proof {
                lemma_first_at(chars@, block_start(), 0);
                assert(start + open@.len() <= chars.len());
            }
            let from: usize = start + open.len();
            proof {
                lemma_first_at(chars@, block_end(), from as int);
            }
            match find_from(chars, &close, from) {
                None => None,
                Some(to) => Some((start, from, to)),
            }
        },
    }
}

/// `r` is what comes of reading `body` when `decode` reads the metadata.
pub open spec fn body_reads<F: Fn(&str) -> Result<MemoryMeta>>(
    decode: F,
    body: Seq<char>,
    r: Result<MemoryEntry>,
) -> bool {
    match meta_text(body) {
        None => refused(r, "no MEMORY_META block found"@),
        Some(json) => exists|text: &str, meta: Result<MemoryMeta>|
            text@ == json && #[trigger] call_ensures(decode, (text,), meta) && match meta {
                Err(error) => r == Err::<MemoryEntry, MemoryError>(error),
                Ok(m) => r is Ok && r->Ok_0@ == entry_of(content_in(body), m@),
            },
    }
}

/// `decode` accepts every text.
pub open spec fn decodes_all<F: Fn(&str) -> Result<MemoryMeta>>(decode: F) -> bool {
    forall|text: &str| call_requires(decode, (text,))
}

/// `encode` accepts all metadata.
pub open spec fn encodes_all<F: Fn(&MemoryMeta) -> String>(encode: F) -> bool {
    forall|m: MemoryMeta| call_requires(encode, (&m,))
}

/// `json` is what `encode` may make of the metadata of `e`.
pub open spec fn encoded<F: Fn(&MemoryMeta) -> String>(
    encode: F,
    e: EntryView,
    json: Seq<char>,
) -> bool {
    exists|m: MemoryMeta, s: String|
        m@ == meta_of(e) && s@ == json && #[trigger] call_ensures(encode, (&m,), s)
}

/// Parses a GitHub Issue `_title` and `body` back into a [`MemoryEntry`], whose metadata
/// `decode` reads from JSON.
///
/// The title is accepted for symmetry with [`format_title`]; type and content come from
/// the body.
///
/// # Errors
///
/// - [`MemoryError::InvalidInput`] if no metadata block is found.
/// - The error of `decode`, if it fails on the JSON inside the block.
pub fn parse_body<F: Fn(&str) -> Result<MemoryMeta>>(_title: &str, body: &str, decode: F) -> (r:
    Result<MemoryEntry>)
    requires
        decodes_all(decode),
    ensures
        body_reads(decode, body@, r),
{
    let chars = chars_of(body);
    match find_block(&chars) {
        None => Err(MemoryError::InvalidInput("no MEMORY_META block found".to_owned())),
        Some((start, from, to)) => {
            let json = string_of(&chars, from, to);
            let text = json.as_str();
            let decoded = decode(text);
            assert(call_ensures(decode, (text,), decoded));
            match decoded {
                Err(error) => Err(error),
                Ok(meta) => {
                    let (a, b) = trim_bounds(&chars, 0, start);
                    assert(chars@.subrange(0, start as int) =~= body@.take(start as int));
                    let raw = string_of(&chars, a, b);
                    Ok(meta.into_entry(strip_helper_lines(raw.as_str())))
                },
            }
        },
    }
}

/// Parses the `[type]` prefix from an issue title, returning `None` if absent.
///
/// Examples:
/// - `"[semantic] User prefers Python"` gives `Some(MemoryType::Semantic)`
/// - `"no bracket"` gives `None`
pub fn parse_type_from_title(title: &str) -> (r: Option<MemoryType>)
    ensures
        match r {
            Some(t) => titled(title@, t),
            None => forall|t: MemoryType| !titled(title@, t),
        },
{
    let chars = chars_of(title);
    assert(chars@.subrange(0, chars@.len() as int) =~= title@);
    if opens_with(&chars, MemoryType::Episodic) {
        Some(MemoryType::Episodic)
    } else if opens_with(&chars, MemoryType::Semantic) {
        Some(MemoryType::Semantic)
    } else if opens_with(&chars, MemoryType::Procedural) {
        Some(MemoryType::Procedural)
    } else if opens_with(&chars, MemoryType::Working) {
        Some(MemoryType::Working)
    } else {
        None
    }
}

/// Whether the title opens with the name of the type in brackets.
fn opens_with(title: &Vec<char>, t: MemoryType) -> (r: bool)
    ensures
        r == titled(title@, t),
{
    let mut mark = concat("[", t.as_str());
    mark.append("]");
    assert(title@.subrange(0, title@.len() as int) =~= title@);
    range_starts_with(title, 0, title.len(), mark.as_str())
}

} // verus!
