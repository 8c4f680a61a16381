//! Text as a sequence of characters: the vocabulary of every other module.
//!
//! The first half defines what trimming, splitting, joining and searching mean
//! on `Seq<char>`; the second half computes them.

use vstd::prelude::*;
use vstd::string::StringExecFns;
use vstd::utf8::encode_utf8;
use vstd::utf8::is_ascii_chars;

verus! {

// ---------------------------------------------------------------------------
// Models
// ---------------------------------------------------------------------------

/// The characters with the Unicode `White_Space` property.
pub open spec fn is_space(c: char) -> bool {
    let u = c as u32;
    ||| 0x09 <= u <= 0x0d
    ||| u == 0x20
    ||| u == 0x85
    ||| u == 0xa0
    ||| u == 0x1680
    ||| 0x2000 <= u <= 0x200a
    ||| u == 0x2028
    ||| u == 0x2029
    ||| u == 0x202f
    ||| u == 0x205f
    ||| u == 0x3000
}

/// `s` without the white space it starts with.
pub open spec fn trim_start(s: Seq<char>) -> Seq<char>
    decreases s.len(),
{
    if s.len() > 0 && is_space(s[0]) {
        trim_start(s.skip(1))
    } else {
        s
    }
}

/// `s` without the white space it ends with.
pub open spec fn trim_end(s: Seq<char>) -> Seq<char>
    decreases s.len(),
{
    if s.len() > 0 && is_space(s.last()) {
        trim_end(s.drop_last())
    } else {
        s
    }
}

/// `s` without the white space around it.
pub open spec fn trim(s: Seq<char>) -> Seq<char> {
    trim_end(trim_start(s))
}

/// `p` stands in `s` at position `i`.
pub open spec fn occurs_at(s: Seq<char>, p: Seq<char>, i: int) -> bool {
    0 <= i && i + p.len() <= s.len() && s.subrange(i, i + p.len()) == p
}

/// `p` stands somewhere in `s`.
pub open spec fn contains(s: Seq<char>, p: Seq<char>) -> bool {
    exists|i: int| #[trigger] occurs_at(s, p, i)
}

/// `s` starts with `p`.
pub open spec fn starts_with(s: Seq<char>, p: Seq<char>) -> bool {
    occurs_at(s, p, 0)
}

/// The first position at or after `from` at which `p` stands in `s`.
pub open spec fn first_at(s: Seq<char>, p: Seq<char>, from: int) -> Option<int>
    decreases s.len() + 1 - from,
{
    if from < 0 || from + p.len() > s.len() {
        None
    } else if occurs_at(s, p, from) {
        Some(from)
    } else {
        first_at(s, p, from + 1)
    }
}

/// The position of the first `c` in `s`, or the length of `s` if there is none.
pub open spec fn up_to(s: Seq<char>, c: char) -> int
    decreases s.len(),
{
    if s.len() == 0 || s[0] == c {
        0
    } else {
        1 + up_to(s.skip(1), c)
    }
}

/// The pieces of `s` between the separators `c`: always one more than there are separators.
pub open spec fn split(s: Seq<char>, c: char) -> Seq<Seq<char>>
    decreases s.len(),
    via split_decreases
{
    let i = up_to(s, c);
    if i >= s.len() {
        seq![s]
    } else {
        seq![s.take(i)] + split(s.skip(i + 1), c)
    }
}

#[via_fn]
proof fn split_decreases(s: Seq<char>, c: char) {
    lemma_up_to(s, c);
}

/// `line` without the carriage return it ends with, if it does.
pub open spec fn without_return(line: Seq<char>) -> Seq<char> {
    if line.len() > 0 && line.last() == '\r' {
        line.drop_last()
    } else {
        line
    }
}

/// The lines of `s`: what stands before each line feed, less one carriage return
/// directly before it, and what stands after the last line feed unless that is empty.
pub open spec fn lines(s: Seq<char>) -> Seq<Seq<char>>
    decreases s.len(),
    via lines_decreases
{
    let i = up_to(s, '\n');
    if s.len() == 0 {
        seq![]
    } else if i >= s.len() {
        seq![s]
    } else {
        seq![without_return(s.take(i))] + lines(s.skip(i + 1))
    }
}

#[via_fn]
proof fn lines_decreases(s: Seq<char>) {
    lemma_up_to(s, '\n');
}

/// The texts `parts` with `sep` between each two neighbours.
pub open spec fn join(parts: Seq<Seq<char>>, sep: Seq<char>) -> Seq<char>
    decreases parts.len(),
{
    if parts.len() == 0 {
        seq![]
    } else if parts.len() == 1 {
        parts[0]
    } else {
        join(parts.drop_last(), sep) + sep + parts.last()
    }
}

/// The first `n` characters of `s`, or all of them if there are fewer.
pub open spec fn prefix(s: Seq<char>, n: int) -> Seq<char> {
    if s.len() <= n {
        s
    } else {
        s.take(n)
    }
}

/// The digit that stands for `d`.
pub open spec fn digit(d: nat) -> char {
    (48 + d) as char
}

/// `n` in decimal.
pub open spec fn decimal(n: nat) -> Seq<char>
    decreases n,
{
    if n < 10 {
        seq![digit(n)]
    } else {
        decimal(n / 10).push(digit(n % 10))
    }
}

/// The texts that the strings hold.
pub open spec fn texts(v: Seq<String>) -> Seq<Seq<char>> {
    Seq::new(v.len(), |i: int| v[i]@)
}

/// The text that the string holds, if there is one.
pub open spec fn optional_text(s: Option<String>) -> Option<Seq<char>> {
    match s {
        Some(t) => Some(t@),
        None => None,
    }
}

/// `c` with an upper-case ASCII letter replaced by its lower-case form.
pub open spec fn ascii_lower(c: char) -> char {
    if 'A' <= c <= 'Z' {
        (c as u32 + 32) as char
    } else {
        c
    }
}

/// `c` with a lower-case ASCII letter replaced by its upper-case form.
pub open spec fn ascii_upper(c: char) -> char {
    if 'a' <= c <= 'z' {
        (c as u32 - 32) as char
    } else {
        c
    }
}

// ---------------------------------------------------------------------------
// Facts about the models
// ---------------------------------------------------------------------------

pub proof fn lemma_up_to(s: Seq<char>, c: char)
    ensures
        0 <= up_to(s, c) <= s.len(),
        up_to(s, c) < s.len() ==> s[up_to(s, c)] == c,
        forall|j: int| 0 <= j < up_to(s, c) ==> s[j] != c,
    decreases s.len(),
{
    if s.len() > 0 && s[0] != c {
        lemma_up_to(s.skip(1), c);
        assert forall|j: int| 0 <= j < up_to(s, c) implies s[j] != c by {
            if j > 0 {
                assert(s[j] == s.skip(1)[j - 1]);
            }
        }
    }
}

/// `up_to` is the only position before which `c` does not stand and at which it does
/// (or the end).
pub proof fn lemma_up_to_is(s: Seq<char>, c: char, i: int)
    requires
        0 <= i <= s.len(),
        i < s.len() ==> s[i] == c,
        forall|j: int| 0 <= j < i ==> s[j] != c,
    ensures
        up_to(s, c) == i,
{
    lemma_up_to(s, c);
    let u = up_to(s, c);
    if u < i {
        assert(s[u] != c);
    } else if i < u {
        assert(s[i] != c);
    }
}

pub proof fn lemma_trim_start_keeps(s: Seq<char>)
    requires
        s.len() > 0 ==> !is_space(s[0]),
    ensures
        trim_start(s) == s,
{
}

/// What `first_at` returns is the least position at which `p` stands.
pub proof fn lemma_first_at(s: Seq<char>, p: Seq<char>, from: int)
    requires
        0 <= from,
    ensures
        match first_at(s, p, from) {
            Some(i) => from <= i && occurs_at(s, p, i) && forall|j: int|
                from <= j < i ==> !#[trigger] occurs_at(s, p, j),
            None => forall|j: int| from <= j ==> !#[trigger] occurs_at(s, p, j),
        },
    decreases s.len() + 1 - from,
{
    if from + p.len() > s.len() || occurs_at(s, p, from) {
    } else {
        lemma_first_at(s, p, from + 1);
    }
}

/// The least position at which `p` stands is what `first_at` returns.
pub proof fn lemma_first_at_is(s: Seq<char>, p: Seq<char>, from: int, i: int)
    requires
        0 <= from <= i,
        occurs_at(s, p, i),
        forall|j: int| from <= j < i ==> !#[trigger] occurs_at(s, p, j),
    ensures
        first_at(s, p, from) == Some(i),
{
    lemma_first_at(s, p, from);
    match first_at(s, p, from) {
        Some(k) => {
            assert(!(k < i));
            assert(!(i < k));
        },
        None => {
            assert(!occurs_at(s, p, i));
        },
    }
}

/// Dropping white space from the end does not reach past a character that is none.
pub proof fn lemma_trim_end_append(a: Seq<char>, b: Seq<char>)
    ensures
        trim_end(b).len() > 0 ==> trim_end(a + b) == a + trim_end(b),
        trim_end(b).len() == 0 ==> trim_end(a + b) == trim_end(a),
    decreases b.len(),
{
    let s = a + b;
    if b.len() == 0 {
        assert(s =~= a);
    } else {
        assert(s.last() == b.last());
        if is_space(b.last()) {
            assert(s.drop_last() =~= a + b.drop_last());
            lemma_trim_end_append(a, b.drop_last());
        }
    }
}

/// White space at the end does not matter to [`trim`].
pub proof fn lemma_trim_drop_last(s: Seq<char>)
    requires
        s.len() > 0,
        is_space(s.last()),
    ensures
        trim(s.drop_last()) == trim(s),
    decreases s.len(),
{
    let d = s.drop_last();
    if is_space(s[0]) {
        if s.len() == 1 {
            assert(s.skip(1) =~= seq![]);
            assert(d =~= seq![]);
        } else {
            assert(s.skip(1).drop_last() =~= d.skip(1));
            assert(d[0] == s[0]);
            lemma_trim_drop_last(s.skip(1));
        }
    } else {
        assert(d.len() > 0);
        assert(d[0] == s[0]);
    }
}

/// The lines of a text up to and with a line feed, and of what follows, are the lines of
/// the whole.
pub proof fn lemma_lines_append(a: Seq<char>, b: Seq<char>)
    requires
        a.len() > 0,
        a.last() == '\n',
    ensures
        lines(a + b) == lines(a) + lines(b),
    decreases a.len(),
{
    let s = a + b;
    let i = up_to(a, '\n');
    lemma_up_to(a, '\n');
    assert(i < a.len());
    assert forall|j: int| 0 <= j < i implies s[j] != '\n' by {
        assert(s[j] == a[j]);
    }
    lemma_up_to_is(s, '\n', i);
    assert(s.take(i) =~= a.take(i));
    let rest = a.skip(i + 1);
    assert(s.skip(i + 1) =~= rest + b);
    if rest.len() > 0 {
        assert(rest.last() == a.last());
        lemma_lines_append(rest, b);
        assert(lines(s) =~= lines(a) + lines(b));
    } else {
        assert(rest + b =~= b);
        assert(lines(rest) =~= seq![]);
        assert(lines(s) =~= lines(a) + lines(b));
    }
}

/// A joined text starts with the first part.
pub proof fn lemma_join_first(first: Seq<char>, rest: Seq<Seq<char>>, sep: Seq<char>)
    requires
        rest.len() > 0,
    ensures
        join(seq![first] + rest, sep) == first + sep + join(rest, sep),
    decreases rest.len(),
{
    let all = seq![first] + rest;
    assert(all.last() == rest.last());
    assert(all.drop_last() =~= seq![first] + rest.drop_last());
    if rest.len() == 1 {
        assert(all.drop_last() =~= seq![first]);
        assert(join(all.drop_last(), sep) =~= first);
        assert(join(rest, sep) =~= rest[0]);
    } else {
        lemma_join_first(first, rest.drop_last(), sep);
    }
    assert(join(all, sep) =~= first + sep + join(rest, sep));
}

/// `s` has a carriage return nowhere before a line feed and not at its end.
pub open spec fn returns_stay(s: Seq<char>) -> bool {
    forall|j: int| 0 <= j < s.len() && #[trigger] s[j] == '\r' ==> j + 1 < s.len() && s[j + 1] != '\n'
}

/// Joined by line feeds, the lines of a text make up the text again.
pub proof fn lemma_join_lines(s: Seq<char>)
    requires
        returns_stay(s),
    ensures
        lines(s.push('\n')).len() > 0,
        join(lines(s.push('\n')), seq!['\n']) == s,
    decreases s.len(),
{
    let t = s.push('\n');
    let i = up_to(t, '\n');
    lemma_up_to(t, '\n');
    assert(i <= s.len()) by {
        if i > s.len() {
            assert(t[s.len() as int] != '\n');
        }
    }
    let first = t.take(i);
    assert(without_return(first) == first) by {
        if first.len() > 0 && first.last() == '\r' {
            assert(s[i - 1] == '\r');
            assert(t[i] == '\n');
        }
    }
    assert(first =~= s.take(i));
    if i == s.len() {
        assert(t.skip(i + 1) =~= seq![]);
        assert(lines(t.skip(i + 1)) =~= seq![]);
        assert(lines(t) =~= seq![first]);
        assert(first =~= s);
    } else {
        let rest = s.skip(i + 1);
        assert(t.skip(i + 1) =~= rest.push('\n'));
        assert(returns_stay(rest)) by {
            assert forall|j: int| 0 <= j < rest.len() && #[trigger] rest[j] == '\r' implies j + 1
                < rest.len() && rest[j + 1] != '\n' by {
                assert(s[j + i + 1] == '\r');
            }
        }
        lemma_join_lines(rest);
        lemma_join_first(first, lines(rest.push('\n')), seq!['\n']);
        assert(s =~= first + seq!['\n'] + rest);
    }
}

/// Without the white space around it, a text has none around it.
pub proof fn lemma_trim_again(s: Seq<char>)
    ensures
        trim(trim(s)) == trim(s),
        trim(s).len() > 0 ==> !is_space(trim(s)[0]) && !is_space(trim(s).last()),
{
    let a = trim_start(s);
    lemma_trim_start_ends(s);
    lemma_trim_end_ends(a);
    let t = trim(s);
    if t.len() > 0 {
        assert(t[0] == a[0]);
        lemma_trim_start_keeps(t);
    }
}

proof fn lemma_trim_start_ends(s: Seq<char>)
    ensures
        trim_start(s).len() > 0 ==> !is_space(trim_start(s)[0]),
        forall|i: int| 0 <= i < trim_start(s).len() ==> s.contains(#[trigger] trim_start(s)[i]),
    decreases s.len(),
{
    if s.len() > 0 && is_space(s[0]) {
        lemma_trim_start_ends(s.skip(1));
        assert forall|i: int| 0 <= i < trim_start(s).len() implies s.contains(
            #[trigger] trim_start(s)[i],
        ) by {
            let k = choose|k: int|
                0 <= k < s.skip(1).len() && s.skip(1)[k] == trim_start(s)[i];
            assert(s[k + 1] == trim_start(s)[i]);
        }
    }
}

proof fn lemma_trim_end_ends(s: Seq<char>)
    ensures
        trim_end(s).len() <= s.len(),
        trim_end(s) == s.take(trim_end(s).len() as int),
        trim_end(s).len() > 0 ==> !is_space(trim_end(s).last()),
    decreases s.len(),
{
    if s.len() > 0 && is_space(s.last()) {
        lemma_trim_end_ends(s.drop_last());
        assert(s.drop_last().take(trim_end(s).len() as int) =~= s.take(
            trim_end(s).len() as int,
        ));
    } else {
        assert(s.take(s.len() as int) =~= s);
    }
}

/// Trimming adds no character.
pub proof fn lemma_trim_part(s: Seq<char>, c: char)
    requires
        trim(s).contains(c),
    ensures
        s.contains(c),
{
    let a = trim_start(s);
    lemma_trim_start_ends(s);
    lemma_trim_end_ends(a);
    let i = choose|i: int| 0 <= i < trim(s).len() && trim(s)[i] == c;
    assert(trim(s)[i] == a[i]);
    assert(s.contains(a[i]));
}

/// What stands between separators holds none.
pub proof fn lemma_split_parts(s: Seq<char>, c: char, i: int)
    requires
        0 <= i < split(s, c).len(),
    ensures
        !split(s, c)[i].contains(c),
    decreases s.len(),
{
    let u = up_to(s, c);
    lemma_up_to(s, c);
    if u < s.len() {
        if i > 0 {
            lemma_split_parts(s.skip(u + 1), c, i - 1);
        }
    }
}

/// Two texts cut at the first separator are the same before it and after it.
pub proof fn lemma_cut(a: Seq<char>, x: Seq<char>, b: Seq<char>, y: Seq<char>, c: char)
    requires
        a + seq![c] + x == b + seq![c] + y,
        !a.contains(c),
        !b.contains(c),
    ensures
        a == b,
        x == y,
{
    let s = a + seq![c] + x;
    let t = b + seq![c] + y;
    if a.len() < b.len() {
        assert(t[a.len() as int] == b[a.len() as int]);
        assert(s[a.len() as int] == c);
    } else if b.len() < a.len() {
        assert(s[b.len() as int] == a[b.len() as int]);
        assert(t[b.len() as int] == c);
    }
    assert(a =~= s.take(a.len() as int));
    assert(b =~= t.take(a.len() as int));
    assert(x =~= s.skip((a.len() + 1) as int));
    assert(y =~= t.skip((a.len() + 1) as int));
}

/// A text that does not end with white space is not blank.
pub proof fn lemma_not_blank(s: Seq<char>)
    requires
        s.len() > 0,
        !is_space(s.last()),
    ensures
        trim(s).len() > 0,
    decreases s.len(),
{
    if is_space(s[0]) {
        assert(s.skip(1).last() == s.last());
        lemma_not_blank(s.skip(1));
    }
}

/// Where a text ends in the middle of a line, a line feed behind it adds no line, and the
/// last line ends as the text does.
pub proof fn lemma_last_line(s: Seq<char>)
    requires
        s.len() > 0,
        s.last() != '\n',
        !s.contains('\r'),
    ensures
        lines(s.push('\n')) == lines(s),
        lines(s).len() > 0,
        lines(s).last().len() > 0,
        lines(s).last().last() == s.last(),
    decreases s.len(),
{
    let t = s.push('\n');
    let i = up_to(s, '\n');
    lemma_up_to(s, '\n');
    lemma_up_to(t, '\n');
    if i >= s.len() {
        assert forall|j: int| 0 <= j < s.len() implies t[j] != '\n' by {
            assert(s[j] != '\n');
        }
        lemma_up_to_is(t, '\n', s.len() as int);
        assert(t.take(s.len() as int) =~= s);
        let rest = t.skip((s.len() + 1) as int);
        assert(rest =~= seq![]);
        assert(lines(rest) =~= seq![]);
        assert(without_return(s) == s) by {
            assert(s.contains(s.last()));
        }
        assert(lines(t) =~= seq![without_return(s)] + lines(rest));
        assert(lines(t) =~= seq![s]);
    } else {
        assert forall|j: int| 0 <= j < i implies t[j] != '\n' by {
            assert(s[j] != '\n');
        }
        assert(t[i] == '\n');
        lemma_up_to_is(t, '\n', i);
        let rest = s.skip(i + 1);
        assert(rest.len() > 0);
        assert(rest.last() == s.last());
        assert(!rest.contains('\r')) by {
            if rest.contains('\r') {
                let k = choose|k: int| 0 <= k < rest.len() && rest[k] == '\r';
                assert(s[k + i + 1] == '\r');
            }
        }
        lemma_last_line(rest);
        assert(t.take(i) =~= s.take(i));
        assert(t.skip(i + 1) =~= rest.push('\n'));
        assert(lines(s).last() == lines(rest).last());
    }
}

/// What stands somewhere behind a text that does not hold its first character, stands
/// there without that text.
pub proof fn lemma_contains_behind(a: Seq<char>, b: Seq<char>, p: Seq<char>)
    requires
        contains(a + b, p),
        p.len() > 0,
        !a.contains(p[0]),
    ensures
        contains(b, p),
{
    let s = a + b;
    let i = choose|i: int| #[trigger] occurs_at(s, p, i);
    assert(s.subrange(i, i + p.len())[0] == s[i]);
    assert(s[i] == p[0]);
    if i < a.len() {
        assert(a[i] == p[0]);
    }
    let k = i - a.len();
    assert(b.subrange(k, k + p.len()) =~= s.subrange(i, i + p.len()));
    assert(occurs_at(b, p, k));
}

/// What stands somewhere in two texts with a character between them that it does not hold,
/// stands in one of them.
pub proof fn lemma_contains_apart(a: Seq<char>, c: char, b: Seq<char>, p: Seq<char>)
    requires
        contains(a + seq![c] + b, p),
        !p.contains(c),
    ensures
        contains(a, p) || contains(b, p),
{
    let s = a + seq![c] + b;
    let n = a.len() as int;
    let i = choose|i: int| #[trigger] occurs_at(s, p, i);
    if i + p.len() <= n {
        assert(a.subrange(i, i + p.len()) =~= s.subrange(i, i + p.len()));
        assert(occurs_at(a, p, i));
    } else if i > n {
        let k = i - n - 1;
        assert(b.subrange(k, k + p.len()) =~= s.subrange(i, i + p.len()));
        assert(occurs_at(b, p, k));
    } else {
        assert(s[n] == c);
        assert(s.subrange(i, i + p.len())[n - i] == s[n]);
        assert(p[n - i] == c);
    }
}

/// Two texts cut at the last separator are the same before it and after it.
pub proof fn lemma_cut_last(x: Seq<char>, a: Seq<char>, y: Seq<char>, b: Seq<char>, c: char)
    requires
        x + seq![c] + a == y + seq![c] + b,
        !a.contains(c),
        !b.contains(c),
    ensures
        x == y,
        a == b,
{
    let s = x + seq![c] + a;
    let t = y + seq![c] + b;
    assert(s.len() == x.len() + 1 + a.len());
    assert(t.len() == y.len() + 1 + b.len());
    if x.len() < y.len() {
        let i = y.len() as int;
        assert(t[i] == (y + seq![c])[i]);
        assert(s[i] == a[i - (x + seq![c]).len()]);
    } else if y.len() < x.len() {
        let i = x.len() as int;
        assert(s[i] == (x + seq![c])[i]);
        assert(t[i] == b[i - (y + seq![c]).len()]);
    }
    assert(x =~= s.take(x.len() as int));
    assert(y =~= t.take(x.len() as int));
    assert(a =~= s.skip((x.len() + 1) as int));
    assert(b =~= t.skip((x.len() + 1) as int));
}

/// A joined text holds a character only if a part or the separator does.
pub proof fn lemma_join_part(parts: Seq<Seq<char>>, sep: Seq<char>, c: char)
    requires
        forall|i: int| 0 <= i < parts.len() ==> !(#[trigger] parts[i]).contains(c),
        !sep.contains(c),
    ensures
        !join(parts, sep).contains(c),
    decreases parts.len(),
{
    if parts.len() > 1 {
        let front = parts.drop_last();
        assert forall|i: int| 0 <= i < front.len() implies !(#[trigger] front[i]).contains(c) by {
            assert(front[i] == parts[i]);
        }
        lemma_join_part(front, sep, c);
        let last = parts.last();
        assert(last == parts[parts.len() - 1]);
        let all = join(parts, sep);
        let f = join(front, sep);
        if all.contains(c) {
            let k = choose|k: int| 0 <= k < all.len() && all[k] == c;
            if k < f.len() {
                assert(f[k] == c);
            } else if k < f.len() + sep.len() {
                assert(sep[k - f.len()] == c);
            } else {
                assert(last[k - f.len() - sep.len()] == c);
            }
        }
    }
}

/// Parts that hold no separator can be told from the joined text.
pub proof fn lemma_join_apart(a: Seq<Seq<char>>, b: Seq<Seq<char>>, c: char)
    requires
        join(a, seq![c]) == join(b, seq![c]),
        forall|i: int| 0 <= i < a.len() ==> !(#[trigger] a[i]).contains(c) && a[i].len() > 0,
        forall|i: int| 0 <= i < b.len() ==> !(#[trigger] b[i]).contains(c) && b[i].len() > 0,
    ensures
        a == b,
    decreases a.len(),
{
    let sep = seq![c];
    if a.len() == 0 || b.len() == 0 {
        if a.len() > 0 {
            lemma_join_nonempty(a, sep);
        }
        if b.len() > 0 {
            lemma_join_nonempty(b, sep);
        }
        assert(a =~= b);
    } else {
        let p = a.skip(1);
        let q = b.skip(1);
        assert(seq![a[0]] + p =~= a);
        assert(seq![b[0]] + q =~= b);
        assert(!a[0].contains(c) && !b[0].contains(c));
        if p.len() > 0 {
            lemma_join_first(a[0], p, sep);
            assert(join(a, sep).contains(c)) by {
                assert(join(a, sep)[a[0].len() as int] == c);
            }
        }
        if q.len() > 0 {
            lemma_join_first(b[0], q, sep);
            assert(join(b, sep).contains(c)) by {
                assert(join(b, sep)[b[0].len() as int] == c);
            }
        }
        if p.len() == 0 || q.len() == 0 {
            assert(p.len() == 0 && q.len() == 0);
            assert(a =~= b);
        } else {
            lemma_cut(a[0], join(p, sep), b[0], join(q, sep), c);
            assert forall|i: int| 0 <= i < p.len() implies !(#[trigger] p[i]).contains(c)
                && p[i].len() > 0 by {
                assert(p[i] == a[i + 1]);
            }
            assert forall|i: int| 0 <= i < q.len() implies !(#[trigger] q[i]).contains(c)
                && q[i].len() > 0 by {
                assert(q[i] == b[i + 1]);
            }
            lemma_join_apart(p, q, c);
            assert(a =~= b);
        }
    }
}

proof fn lemma_join_nonempty(parts: Seq<Seq<char>>, sep: Seq<char>)
    requires
        parts.len() > 0,
        forall|i: int| 0 <= i < parts.len() ==> (#[trigger] parts[i]).len() > 0,
    ensures
        join(parts, sep).len() > 0,
{
    assert(parts[0].len() > 0);
    assert(parts[parts.len() - 1].len() > 0);
}

/// No two numbers are written alike.
pub proof fn lemma_decimal_apart(a: nat, b: nat)
    requires
        decimal(a) == decimal(b),
    ensures
        a == b,
    decreases a,
{
    lemma_decimal_len(a);
    lemma_decimal_len(b);
    assert(digit(a % 10) == decimal(a).last());
    assert(digit(b % 10) == decimal(b).last());
    assert(a % 10 == b % 10);
    if a >= 10 {
        assert(decimal(a).drop_last() =~= decimal(a / 10));
        assert(decimal(b).drop_last() =~= decimal(b / 10));
        lemma_decimal_apart(a / 10, b / 10);
    }
}

/// A number is written in digits.
pub proof fn lemma_decimal_digits(n: nat, c: char)
    requires
        decimal(n).contains(c),
    ensures
        '0' <= c <= '9',
    decreases n,
{
    if n >= 10 {
        let i = choose|i: int| 0 <= i < decimal(n).len() && decimal(n)[i] == c;
        if i < decimal(n / 10).len() {
            assert(decimal(n / 10)[i] == c);
            lemma_decimal_digits(n / 10, c);
        }
    }
}

proof fn lemma_decimal_len(n: nat)
    ensures
        decimal(n).len() >= 1,
        n < 10 <==> decimal(n).len() == 1,
        decimal(n).last() == digit(n % 10),
    decreases n,
{
    if n >= 10 {
        lemma_decimal_len(n / 10);
    }
}

/// The bytes of two texts, one after the other, are the bytes of the whole.
pub proof fn lemma_bytes_append(a: Seq<char>, b: Seq<char>)
    ensures
        encode_utf8(a + b) == encode_utf8(a) + encode_utf8(b),
    decreases a.len(),
{
    let s = a + b;
    if a.len() == 0 {
        assert(s =~= b);
        assert(encode_utf8(s) =~= encode_utf8(a) + encode_utf8(b));
    } else {
        assert(s.drop_first() =~= a.drop_first() + b);
        lemma_bytes_append(a.drop_first(), b);
        assert(encode_utf8(s) =~= encode_utf8(a) + encode_utf8(b));
    }
}

// ---------------------------------------------------------------------------
// Outside functions
// ---------------------------------------------------------------------------

/// `String::push` appends the character to the end of the string.
pub assume_specification[ String::push ](s: &mut String, c: char)
    ensures
        final(s)@ == old(s)@.push(c),
;

/// What `str::to_lowercase` makes of a text.
pub uninterp spec fn lowercase(s: Seq<char>) -> Seq<char>;

/// Calls `str::to_lowercase`, which lower-cases by the Unicode rules. On a text of
/// ASCII characters it replaces the letters `A` to `Z` and nothing else.
#[verifier::external_body]
pub(crate) fn to_lowercase(s: &str) -> (r: String)
    ensures
        r@ == lowercase(s@),
        is_ascii_chars(s@) ==> r@ == s@.map_values(|c: char| ascii_lower(c)),
{
    s.to_lowercase()
}

/// What `str::to_uppercase` makes of a text.
pub uninterp spec fn uppercase(s: Seq<char>) -> Seq<char>;

/// Calls `str::to_uppercase`, which upper-cases by the Unicode rules. On a text of
/// ASCII characters it replaces the letters `a` to `z` and nothing else.
#[verifier::external_body]
pub(crate) fn to_uppercase(s: &str) -> (r: String)
    ensures
        r@ == uppercase(s@),
        is_ascii_chars(s@) ==> r@ == s@.map_values(|c: char| ascii_upper(c)),
{
    s.to_uppercase()
}

/// A text as `format!("{:?}")` writes it: between quotes, with escapes.
pub uninterp spec fn quoted(s: Seq<char>) -> Seq<char>;

/// Writes `s` with the `Debug` formatting of `str`.
#[verifier::external_body]
pub(crate) fn quote(s: &str) -> (r: String)
    ensures
        r@ == quoted(s@),
{
    format!("{:?}", s)
}

// ---------------------------------------------------------------------------
// Computing
// ---------------------------------------------------------------------------

/// Whether `c` has the Unicode `White_Space` property.
pub fn is_white_space(c: char) -> (r: bool)
    ensures
        r == is_space(c),
{
    let u: u32 = c as u32;
    (0x09 <= u && u <= 0x0d) || u == 0x20 || u == 0x85 || u == 0xa0 || u == 0x1680 || (0x2000 <= u
        && u <= 0x200a) || u == 0x2028 || u == 0x2029 || u == 0x202f || u == 0x205f || u == 0x3000
}

/// The characters of `s`, in order.
pub(crate) fn chars_of(s: &str) -> (r: Vec<char>)
    ensures
        r@ == s@,
{
    let mut r: Vec<char> = Vec::new();
    for c in it: s.chars()
        invariant
            it.seq() == s@,
            r@ == s@.take(it.index() as int),
    {
        r.push(c);
    }
    r
}

/// The string that holds the characters `chars[from..to]`.
pub(crate) fn string_of(chars: &Vec<char>, from: usize, to: usize) -> (r: String)
    requires
        from <= to <= chars.len(),
    ensures
        r@ == chars@.subrange(from as int, to as int),
{
    let mut r = String::new();
    let mut i: usize = from;
    while i < to
        invariant
            from <= i <= to <= chars.len(),
            r@ == chars@.subrange(from as int, i as int),
        decreases to - i,
    {
        r.push(chars[i]);
        i += 1;
        assert(chars@.subrange(from as int, i as int) =~= chars@.subrange(
            from as int,
            i - 1,
        ).push(chars@[i - 1]));
    }
    r
}

/// The number of bytes of `s` in UTF-8.
pub(crate) fn byte_len(s: &str) -> (n: usize)
    ensures
        n == encode_utf8(s@).len(),
{
    s.as_bytes().len()
}

/// Whether `a` and `b` hold the same text.
pub(crate) fn same(a: &str, b: &str) -> (r: bool)
    ensures
        r == (a@ == b@),
{
    let x = chars_of(a);
    let y = chars_of(b);
    if x.len() != y.len() {
        return false;
    }
    let mut i: usize = 0;
    while i < x.len()
        invariant
            i <= x.len(),
            x.len() == y.len(),
            x@ == a@,
            y@ == b@,
            forall|j: int| 0 <= j < i ==> x@[j] == y@[j],
        decreases x.len() - i,
    {
        if x[i] != y[i] {
            return false;
        }
        i += 1;
    }
    assert(a@ =~= b@);
    true
}

/// The two texts, one after the other.
pub(crate) fn concat(a: &str, b: &str) -> (r: String)
    ensures
        r@ == a@ + b@,
{
    let mut r = String::new();
    r.append(a);
    r.append(b);
    assert(r@ =~= a@ + b@);
    r
}

/// Whether `p` stands in `s` at position `i`.
pub(crate) fn stands_at(s: &Vec<char>, p: &Vec<char>, i: usize) -> (r: bool)
    ensures
        r == occurs_at(s@, p@, i as int),
{
    if i > s.len() || p.len() > s.len() - i {
        return false;
    }
    let mut k: usize = 0;
    while k < p.len()
        invariant
            k <= p.len(),
            i + p.len() <= s.len(),
            forall|j: int| 0 <= j < k ==> s@[i + j] == p@[j],
        decreases p.len() - k,
    {
        if s[i + k] != p[k] {
            assert(s@.subrange(i as int, i + p@.len())[k as int] != p@[k as int]);
            return false;
        }
        k += 1;
    }
    assert(s@.subrange(i as int, i + p@.len()) =~= p@);
    true
}

/// The first position at or after `from` at which `p` stands in `s`.
pub(crate) fn find_from(s: &Vec<char>, p: &Vec<char>, from: usize) -> (r: Option<usize>)
    ensures
        match r {
            Some(i) => first_at(s@, p@, from as int) == Some(i as int),
            None => first_at(s@, p@, from as int) is None,
        },
{
    let mut i: usize = from;
    while i <= s.len() && p.len() <= s.len() - i
        invariant
            from <= i,
            first_at(s@, p@, from as int) == first_at(s@, p@, i as int),
            i <= s.len() + 1 || i == from,
        decreases s.len() + 1 - i,
    {
        if stands_at(s, p, i) {
            return Some(i);
        }
        if i == s.len() {
            assert(first_at(s@, p@, i + 1) is None);
            return None;
        }
        i += 1;
    }
    None
}

/// Whether `p` stands somewhere in `s`.
pub(crate) fn has(s: &Vec<char>, p: &str) -> (r: bool)
    ensures
        r == contains(s@, p@),
{
    let pattern = chars_of(p);
    proof {
        lemma_first_at(s@, p@, 0);
    }
    match find_from(s, &pattern, 0) {
        Some(i) => {
            assert(occurs_at(s@, p@, i as int));
            true
        },
        None => {
            assert forall|i: int| !#[trigger] occurs_at(s@, p@, i) by {}
            false
        },
    }
}

/// Whether `chars[from..to]` starts with `p`.
pub(crate) fn range_starts_with(chars: &Vec<char>, from: usize, to: usize, p: &str) -> (r: bool)
    requires
        from <= to <= chars.len(),
    ensures
        r == starts_with(chars@.subrange(from as int, to as int), p@),
{
    let pattern = chars_of(p);
    let ghost s = chars@.subrange(from as int, to as int);
    if pattern.len() > to - from {
        return false;
    }
    let r = stands_at(chars, &pattern, from);
    assert(s.subrange(0, p@.len() as int) =~= chars@.subrange(from as int, from + p@.len()));
    r
}

/// The bounds of `chars[from..to]` less the white space around it.
pub(crate) fn trim_bounds(chars: &Vec<char>, from: usize, to: usize) -> (r: (usize, usize))
    requires
        from <= to <= chars.len(),
    ensures
        from <= r.0 <= r.1 <= to,
        chars@.subrange(r.0 as int, r.1 as int) == trim(chars@.subrange(from as int, to as int)),
{
    let ghost all = chars@.subrange(from as int, to as int);
    let mut a: usize = from;
    while a < to && is_white_space(chars[a])
        invariant
            from <= a <= to <= chars.len(),
            trim_start(all) == trim_start(chars@.subrange(a as int, to as int)),
        decreases to - a,
    {
        assert(chars@.subrange(a as int, to as int).skip(1) =~= chars@.subrange(
            a + 1,
            to as int,
        ));
        a += 1;
    }
    let ghost front = chars@.subrange(a as int, to as int);
    assert(trim_start(all) == front);
    let b = trim_end_bound(chars, a, to);
    (a, b)
}

/// The end of `chars[from..to]` less the white space it ends with.
pub(crate) fn trim_end_bound(chars: &Vec<char>, from: usize, to: usize) -> (b: usize)
    requires
        from <= to <= chars.len(),
    ensures
        from <= b <= to,
        chars@.subrange(from as int, b as int) == trim_end(
            chars@.subrange(from as int, to as int),
        ),
{
    let ghost all = chars@.subrange(from as int, to as int);
    let mut b: usize = to;
    while b > from && is_white_space(chars[b - 1])
        invariant
            from <= b <= to <= chars.len(),
            trim_end(all) == trim_end(chars@.subrange(from as int, b as int)),
        decreases b - from,
    {
        assert(chars@.subrange(from as int, b as int).drop_last() =~= chars@.subrange(
            from as int,
            b - 1,
        ));
        b -= 1;
    }
    b
}

/// The position of the first `c` in `chars[from..]`, or the length of `chars`.
pub(crate) fn position_from(chars: &Vec<char>, c: char, from: usize) -> (i: usize)
    requires
        from <= chars.len(),
    ensures
        from <= i <= chars.len(),
        i - from == up_to(chars@.skip(from as int), c),
{
    let mut i: usize = from;
    while i < chars.len() && chars[i] != c
        invariant
            from <= i <= chars.len(),
            forall|j: int| from <= j < i ==> chars@[j] != c,
        decreases chars.len() - i,
    {
        i += 1;
    }
    proof {
        lemma_up_to_is(chars@.skip(from as int), c, i - from);
    }
    i
}

/// The pieces of `s` between the separators `c`.
pub(crate) fn split_on(s: &str, c: char) -> (r: Vec<String>)
    ensures
        texts(r@) == split(s@, c),
{
    let chars = chars_of(s);
    let mut r: Vec<String> = Vec::new();
    let mut from: usize = 0;
    assert(chars@.skip(0) =~= s@);
    assert(texts(r@) + split(s@, c) =~= split(s@, c));
    loop
        invariant
            from <= chars.len(),
            chars@ == s@,
            texts(r@) + split(chars@.skip(from as int), c) == split(s@, c),
        decreases chars.len() - from,
    {
        let i = position_from(&chars, c, from);
        let ghost rest = chars@.skip(from as int);
        let ghost before = r@;
        r.push(string_of(&chars, from, i));
        assert(chars@.subrange(from as int, i as int) =~= rest.take(i - from));
        assert(texts(r@) =~= texts(before).push(rest.take(i - from)));
        if i == chars.len() {
            assert(rest.take(i - from) =~= rest);
            assert(texts(r@) =~= texts(before) + split(rest, c));
            return r;
        }
        assert(rest.skip(i - from + 1) =~= chars@.skip(i + 1));
        assert(texts(r@) + split(chars@.skip(i + 1), c) =~= texts(before) + split(rest, c));
        from = i + 1;
    }
}

/// The lines of `chars[from..to]`, as bounds into `chars`.
pub(crate) fn line_bounds(chars: &Vec<char>, from: usize, to: usize) -> (r: Vec<(usize, usize)>)
    requires
        from <= to <= chars.len(),
    ensures
        forall|i: int| 0 <= i < r.len() ==> from <= (#[trigger] r@[i]).0 <= r@[i].1 <= to,
        ranges(chars@, r@) == lines(chars@.subrange(from as int, to as int)),
{
    let ghost all = chars@.subrange(from as int, to as int);
    let mut r: Vec<(usize, usize)> = Vec::new();
    let mut at: usize = from;
    assert(ranges(chars@, r@) + lines(all) =~= lines(all));
    while at < to
        invariant
            from <= at <= to <= chars.len(),
            all == chars@.subrange(from as int, to as int),
            forall|i: int| 0 <= i < r.len() ==> from <= (#[trigger] r@[i]).0 <= r@[i].1 <= to,
            ranges(chars@, r@) + lines(chars@.subrange(at as int, to as int)) == lines(all),
        decreases to - at,
    {
        let ghost rest = chars@.subrange(at as int, to as int);
        let ghost before = r@;
        let mut i: usize = at;
        while i < to && chars[i] != '\n'
            invariant
                at <= i <= to <= chars.len(),
                forall|j: int| at <= j < i ==> chars@[j] != '\n',
            decreases to - i,
        {
            i += 1;
        }
        proof {
            lemma_up_to_is(rest, '\n', i - at);
        }
        if i == to {
            r.push((at, to));
            assert(ranges(chars@, r@) =~= ranges(chars@, before).push(rest));
            assert(ranges(chars@, r@) =~= ranges(chars@, before) + lines(rest));
            assert(ranges(chars@, r@) =~= lines(all));
            return r;
        }
        let end: usize = if i > at && chars[i - 1] == '\r' {
            i - 1
        } else {
            i
        };
        r.push((at, end));
        assert(chars@.subrange(at as int, end as int) =~= without_return(rest.take(i - at)));
        assert(ranges(chars@, r@) =~= ranges(chars@, before).push(
            without_return(rest.take(i - at)),
        ));
        assert(rest.skip(i - at + 1) =~= chars@.subrange(i + 1, to as int));
        assert(ranges(chars@, r@) + lines(chars@.subrange(i + 1, to as int)) =~= ranges(
            chars@,
            before,
        ) + lines(rest));
        at = i + 1;
    }
    assert(lines(chars@.subrange(at as int, to as int)) =~= seq![]);
    assert(ranges(chars@, r@) =~= lines(all));
    r
}

/// The texts that stand in `chars` between the bounds.
pub open spec fn ranges(chars: Seq<char>, bounds: Seq<(usize, usize)>) -> Seq<Seq<char>> {
    Seq::new(bounds.len(), |i: int| chars.subrange(bounds[i].0 as int, bounds[i].1 as int))
}

/// The strings with `sep` between each two neighbours.
pub(crate) fn join_strings(parts: &Vec<String>, sep: &str) -> (r: String)
    ensures
        r@ == join(texts(parts@), sep@),
{
    let mut r = String::new();
    let mut i: usize = 0;
    while i < parts.len()
        invariant
            i <= parts.len(),
            r@ == join(texts(parts@).take(i as int), sep@),
        decreases parts.len() - i,
    {
        if i > 0 {
            r.append(sep);
        }
        r.append(parts[i].as_str());
        i += 1;
        let ghost now = texts(parts@).take(i as int);
        assert(now.drop_last() =~= texts(parts@).take(i - 1));
        if i == 1 {
            assert(r@ =~= now[0]);
        } else {
            assert(r@ =~= join(now.drop_last(), sep@) + sep@ + now.last());
        }
    }
    assert(texts(parts@).take(i as int) =~= texts(parts@));
    r
}

/// The first `n` characters of `s`, or all of them if there are fewer.
pub(crate) fn first_chars(s: &str, n: usize) -> (r: String)
    ensures
        r@ == prefix(s@, n as int),
{
    let chars = chars_of(s);
    let to: usize = if chars.len() <= n {
        chars.len()
    } else {
        n
    };
    assert(chars@.subrange(0, to as int) =~= prefix(s@, n as int));
    string_of(&chars, 0, to)
}

/// `n` in decimal.
pub(crate) fn number_text(n: u64) -> (r: String)
    ensures
        r@ == decimal(n as nat),
    decreases n,
{
    let low: char = digit_char((n % 10) as u8);
    if n < 10 {
        let mut r = String::new();
        r.push(low);
        assert(r@ =~= seq![digit(n as nat)]);
        r
    } else {
        let mut r = number_text(n / 10);
        r.push(low);
        r
    }
}

fn digit_char(d: u8) -> (c: char)
    requires
        d < 10,
    ensures
        c == digit(d as nat),
{
    (48 + d) as char
}

/// The strings, each copied.
pub(crate) fn copy_strings(v: &Vec<String>) -> (r: Vec<String>)
    ensures
        texts(r@) == texts(v@),
        r@ == v@,
{
    let mut r: Vec<String> = Vec::new();
    let mut i: usize = 0;
    while i < v.len()
        invariant
            i <= v.len(),
            r@ == v@.take(i as int),
        decreases v.len() - i,
    {
        r.push(v[i].clone());
        i += 1;
        assert(v@.take(i as int) =~= v@.take(i - 1).push(v@[i - 1]));
    }
    assert(v@.take(i as int) =~= v@);
    r
}

/// The string, copied, if there is one.
pub(crate) fn copy_text(s: &Option<String>) -> (r: Option<String>)
    ensures
        r == *s,
{
    match s {
        Some(t) => Some(t.clone()),
        None => None,
    }
}

} // verus!
