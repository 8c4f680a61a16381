//! Laws of texts.

use vstd::prelude::*;

use crate::text::{
    ascii_lower, ascii_upper, contains, decimal, first_at, is_space, join, lemma_first_at,
    lemma_join_first, lemma_split_parts, lemma_up_to, lemma_up_to_is, lines, occurs_at,
    optional_text, prefix, split, starts_with, texts, trim, trim_end, trim_start, up_to,
};

verus! {

/// The characters that count as white space.
pub proof fn law_spaces(c: char)
    ensures
        is_space(c) <==> c == '\t' || c == '\n' || c == '\u{b}' || c == '\u{c}' || c == '\r' || c
            == ' ' || c == '\u{85}' || c == '\u{a0}' || c == '\u{1680}' || ('\u{2000}' <= c
            <= '\u{200a}') || c == '\u{2028}' || c == '\u{2029}' || c == '\u{202f}' || c
            == '\u{205f}' || c == '\u{3000}',
{
}

/// Trimming takes away white space at both ends and nothing else, until none is left there.
pub proof fn law_trim(s: Seq<char>)
    ensures
        exists|a: int, b: int|
            {
                &&& 0 <= a <= b <= s.len()
                &&& trim(s) == #[trigger] s.subrange(a, b)
                &&& forall|i: int| 0 <= i < a ==> is_space(#[trigger] s[i])
                &&& forall|i: int| b <= i < s.len() ==> is_space(#[trigger] s[i])
            },
        trim(s).len() > 0 ==> !is_space(trim(s)[0]) && !is_space(trim(s).last()),
{
    law_trim_start(s);
    let t = trim_start(s);
    let a = s.len() - t.len();
    law_trim_end(t);
    let b = a + trim_end(t).len();
    assert(trim(s) =~= s.subrange(a, b));
    assert forall|i: int| b <= i < s.len() implies is_space(#[trigger] s[i]) by {
        assert(t[i - a] == s[i]);
    }
    if trim(s).len() > 0 {
        assert(trim(s)[0] == t[0]);
    }
}

/// Trimming the start takes away white space there and nothing else, until none is left.
pub proof fn law_trim_start(s: Seq<char>)
    ensures
        trim_start(s).len() <= s.len(),
        trim_start(s) == s.skip(s.len() - trim_start(s).len()),
        forall|i: int| 0 <= i < s.len() - trim_start(s).len() ==> is_space(#[trigger] s[i]),
        trim_start(s).len() > 0 ==> !is_space(trim_start(s)[0]),
    decreases s.len(),
{
    if s.len() > 0 && is_space(s[0]) {
        let rest = s.skip(1);
        law_trim_start(rest);
        assert(trim_start(s) =~= s.skip(s.len() - trim_start(s).len()));
        assert forall|i: int| 0 <= i < s.len() - trim_start(s).len() implies is_space(
            #[trigger] s[i],
        ) by {
            if i > 0 {
                assert(rest[i - 1] == s[i]);
            }
        }
    } else {
        assert(s.skip(0) =~= s);
    }
}

/// Trimming the end takes away white space there and nothing else, until none is left.
pub proof fn law_trim_end(s: Seq<char>)
    ensures
        trim_end(s).len() <= s.len(),
        trim_end(s) == s.take(trim_end(s).len() as int),
        forall|i: int| trim_end(s).len() <= i < s.len() ==> is_space(#[trigger] s[i]),
        trim_end(s).len() > 0 ==> !is_space(trim_end(s).last()),
    decreases s.len(),
{
    if s.len() > 0 && is_space(s.last()) {
        let rest = s.drop_last();
        law_trim_end(rest);
        assert(trim_end(s) =~= s.take(trim_end(s).len() as int));
        assert forall|i: int| trim_end(s).len() <= i < s.len() implies is_space(
            #[trigger] s[i],
        ) by {
            if i < rest.len() {
                assert(rest[i] == s[i]);
            }
        }
    } else {
        assert(s.take(s.len() as int) =~= s);
    }
}

/// A text occurs in another at a position exactly when the other is some text of that length,
/// then the text, then some more.
pub proof fn law_occurrence(s: Seq<char>, p: Seq<char>, before: Seq<char>, after: Seq<char>)
    ensures
        s == before + p + after ==> occurs_at(s, p, before.len() as int) && contains(s, p),
        s == p + after ==> starts_with(s, p),
        contains(s, p) ==> exists|i: int|
            {
                &&& 0 <= i <= s.len() - p.len()
                &&& s == #[trigger] s.take(i) + p + s.skip(i + p.len())
            },
        starts_with(s, p) ==> s == p + s.skip(p.len() as int),
        forall|i: int| #[trigger]
            occurs_at(s, p, i) ==> 0 <= i <= s.len() - p.len() && s == s.take(i) + p + s.skip(
                i + p.len(),
            ),
{
    if s == before + p + after {
        let i = before.len() as int;
        assert(s.subrange(i, i + p.len()) =~= p);
        assert(occurs_at(s, p, i));
    }
    if s == p + after {
        assert(s.subrange(0, p.len() as int) =~= p);
    }
    assert forall|i: int| #[trigger] occurs_at(s, p, i) implies 0 <= i <= s.len() - p.len() && s
        == s.take(i) + p + s.skip(i + p.len()) by {
        assert forall|j: int| 0 <= j < p.len() implies s[i + j] == p[j] by {
            assert(s.subrange(i, i + p.len())[j] == s[i + j]);
        }
        assert(s =~= s.take(i) + p + s.skip(i + p.len()));
    }
    if contains(s, p) {
        let i = choose|i: int| #[trigger] occurs_at(s, p, i);
        assert(s == s.take(i) + p + s.skip(i + p.len()));
    }
    if starts_with(s, p) {
        assert(occurs_at(s, p, 0));
        assert(s.take(0) + p + s.skip(0int + p.len()) =~= p + s.skip(p.len() as int));
    }
}

/// The first occurrence from a position on: a text occurs there, and nowhere between.
pub proof fn law_first_occurrence(s: Seq<char>, p: Seq<char>, from: int)
    requires
        0 <= from,
    ensures
        first_at(s, p, from) matches Some(i) ==> from <= i && occurs_at(s, p, i) && forall|j: int|
            from <= j < i ==> !#[trigger] occurs_at(s, p, j),
        first_at(s, p, from) is None ==> forall|j: int|
            from <= j ==> !#[trigger] occurs_at(s, p, j),
{
    lemma_first_at(s, p, from);
}

/// Splitting at a character gives parts that do not hold it and that it joins again to the
/// whole.
pub proof fn law_split(s: Seq<char>, c: char)
    ensures
        split(s, c).len() > 0,
        forall|i: int| 0 <= i < split(s, c).len() ==> !(#[trigger] split(s, c)[i]).contains(c),
        join(split(s, c), seq![c]) == s,
    decreases s.len(),
{
    assert forall|i: int| 0 <= i < split(s, c).len() implies !(#[trigger] split(s, c)[i]).contains(
        c,
    ) by {
        lemma_split_parts(s, c, i);
    }
    lemma_up_to(s, c);
    let i = up_to(s, c);
    if i < s.len() {
        let rest = s.skip(i + 1);
        law_split(rest, c);
        lemma_join_first(s.take(i), split(rest, c), seq![c]);
        assert(s =~= s.take(i) + seq![c] + rest);
    } else {
        assert(split(s, c) =~= seq![s]);
        assert(join(seq![s], seq![c]) == s);
    }
}

/// Joined texts stand one behind the other, with the separator between two.
pub proof fn law_join(parts: Seq<Seq<char>>, sep: Seq<char>, last: Seq<char>)
    ensures
        parts.len() == 0 ==> join(parts, sep).len() == 0,
        parts.len() == 0 ==> join(parts.push(last), sep) == last,
        parts.len() > 0 ==> join(parts.push(last), sep) == join(parts, sep) + sep + last,
{
    assert(parts.push(last).drop_last() =~= parts);
}

/// A text without a line feed is one line, if it is not empty. In front of a line feed it is a
/// line too, less a carriage return at its end; what comes behind the line feed has its own
/// lines.
pub proof fn law_lines(line: Seq<char>, rest: Seq<char>)
    requires
        !line.contains('\n'),
    ensures
        lines(Seq::<char>::empty()).len() == 0,
        line.len() > 0 ==> lines(line) == seq![line],
        line.len() > 0 && line.last() == '\r' ==> lines(line + seq!['\n'] + rest)
            == seq![line.drop_last()] + lines(rest),
        line.len() == 0 || line.last() != '\r' ==> lines(line + seq!['\n'] + rest) == seq![line]
            + lines(rest),
{
    assert forall|j: int| 0 <= j < line.len() implies line[j] != '\n' by {
        if line[j] == '\n' {
            assert(line.contains(line[j]));
        }
    }
    lemma_up_to_is(line, '\n', line.len() as int);
    let s = line + seq!['\n'] + rest;
    assert(s[line.len() as int] == '\n');
    lemma_up_to_is(s, '\n', line.len() as int);
    assert(s.take(line.len() as int) =~= line);
    assert(s.skip(line.len() as int + 1) =~= rest);
}

/// The first `n` characters of a text, or all of it if it has no more.
pub proof fn law_prefix(s: Seq<char>, n: int)
    requires
        n >= 0,
    ensures
        s.len() <= n ==> prefix(s, n) == s,
        s.len() > n ==> prefix(s, n).len() == n,
        forall|i: int| 0 <= i < prefix(s, n).len() ==> #[trigger] prefix(s, n)[i] == s[i],
{
}

/// The decimal digits of a number: one digit below ten, and each further digit behind those of
/// the number without it.
pub proof fn law_decimal(n: nat, d: nat)
    requires
        d < 10,
    ensures
        decimal(d) == seq![(48 + d) as char],
        n > 0 ==> decimal(10 * n + d) == decimal(n).push((48 + d) as char),
{
    if n > 0 {
        assert((10 * n + d) / 10 == n);
        assert((10 * n + d) % 10 == d);
    }
}

/// What a list of strings and an optional string hold.
pub proof fn law_texts(v: Seq<String>, s: Option<String>)
    ensures
        texts(v).len() == v.len(),
        forall|i: int| 0 <= i < v.len() ==> #[trigger] texts(v)[i] == v[i]@,
        s matches Some(t) ==> optional_text(s) == Some(t@),
        s is None ==> optional_text(s) is None,
{
}

/// Letters from A to Z have a lower case, letters from a to z an upper case, thirty-two apart;
/// no other character changes.
pub proof fn law_ascii_case(c: char)
    ensures
        'A' <= c <= 'Z' ==> ascii_lower(c) as u32 == c as u32 + 32,
        !('A' <= c <= 'Z') ==> ascii_lower(c) == c,
        'a' <= c <= 'z' ==> ascii_upper(c) as u32 == c as u32 - 32,
        !('a' <= c <= 'z') ==> ascii_upper(c) == c,
{
}

} // verus!
