//! Laws of the store that is kept in memory.

use vstd::prelude::*;

use crate::models::EntryView;
use crate::store::testutil::MockView;

verus! {

/// A new store is empty, and its first issue has the number one.
pub proof fn law_new_store(number: u64)
    ensures
        MockView::fresh().entry(number) is None,
        !MockView::fresh().archived.contains_key(number),
        MockView::fresh().comments_on(number).len() == 0,
        MockView::fresh().labels_on(number).len() == 0,
        MockView::fresh().next == 1,
{
}

/// A new entry is stored as it is, under the next number. No archive, comment or label changes.
pub proof fn law_created(m: MockView, e: EntryView)
    ensures
        m.numbered(e).issue_number == Some(m.next),
        m.numbered(e) == (EntryView { issue_number: m.numbered(e).issue_number, ..e }),
        m.next < u64::MAX ==> m.with_new(e).next == m.next + 1,
        m.with_new(e).archived == m.archived,
        m.with_new(e).comments == m.comments,
        m.with_new(e).labels == m.labels,
{
}

/// An update or a deletion changes entries only.
pub proof fn law_updated_and_deleted(m: MockView, number: u64, e: EntryView)
    ensures
        m.with_entry(number, e).archived == m.archived,
        m.with_entry(number, e).comments == m.comments,
        m.with_entry(number, e).labels == m.labels,
        m.with_entry(number, e).next == m.next,
        m.without(number).archived == m.archived,
        m.without(number).comments == m.comments,
        m.without(number).labels == m.labels,
        m.without(number).next == m.next,
{
}

/// What is archived is archived for the reason that is given; all else stays.
pub proof fn law_archived(m: MockView, number: u64, reason: Seq<char>, other: u64)
    ensures
        m.with_archived(number, reason).archived.contains_key(number),
        m.with_archived(number, reason).archived[number] == reason,
        other != number ==> m.with_archived(number, reason).archived.contains_key(other)
            == m.archived.contains_key(other) && m.with_archived(number, reason).archived[other]
            == m.archived[other],
        m.with_archived(number, reason).entries == m.entries,
        m.with_archived(number, reason).comments == m.comments,
        m.with_archived(number, reason).labels == m.labels,
        m.with_archived(number, reason).next == m.next,
{
}

/// A comment comes behind those that are on the issue; all else stays.
pub proof fn law_commented(m: MockView, number: u64, body: Seq<char>, other: u64)
    ensures
        m.with_comment(number, body).comments_on(number) == m.comments_on(number).push(body),
        other != number ==> m.with_comment(number, body).comments_on(other) == m.comments_on(other),
        m.with_comment(number, body).entries == m.entries,
        m.with_comment(number, body).archived == m.archived,
        m.with_comment(number, body).labels == m.labels,
        m.with_comment(number, body).next == m.next,
{
}

/// Labels that are set take the place of those on the issue; all else stays.
pub proof fn law_labelled(m: MockView, number: u64, labels: Seq<Seq<char>>, other: u64)
    ensures
        m.with_labels(number, labels).labels_on(number) == labels,
        other != number ==> m.with_labels(number, labels).labels_on(other) == m.labels_on(other),
        m.with_labels(number, labels).entries == m.entries,
        m.with_labels(number, labels).archived == m.archived,
        m.with_labels(number, labels).comments == m.comments,
        m.with_labels(number, labels).next == m.next,
{
}

} // verus!
