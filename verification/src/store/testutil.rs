//! A store in memory, for tests.

use std::collections::HashMap;

use vstd::prelude::*;
use vstd::std_specs::hash::group_hash_axioms;

use crate::error::{MemoryError, Result};
use crate::models::{refused, EntryView, MemoryEntry};
use crate::text::{copy_strings, texts};

verus! {

/// An in-memory store.
///
/// Issues are numbered starting from 1 and never reused.
pub struct MockMemoryStore {
    entries: HashMap<u64, MemoryEntry>,
    archived: HashMap<u64, String>,
    comments: HashMap<u64, Vec<String>>,
    labels: HashMap<u64, Vec<String>>,
    next: u64,
}

/// What a [`MockMemoryStore`] holds.
#[verifier::ext_equal]
pub struct MockView {
    pub entries: Map<u64, EntryView>,
    pub archived: Map<u64, Seq<char>>,
    pub comments: Map<u64, Seq<Seq<char>>>,
    pub labels: Map<u64, Seq<Seq<char>>>,
    /// The number of the next issue.
    pub next: u64,
}

impl View for MockMemoryStore {
    type V = MockView;

    closed spec fn view(&self) -> MockView {
        MockView {
            entries: self.entries@.map_values(|e: MemoryEntry| e@),
            archived: self.archived@.map_values(|s: String| s@),
            comments: self.comments@.map_values(|v: Vec<String>| texts(v@)),
            labels: self.labels@.map_values(|v: Vec<String>| texts(v@)),
            next: self.next,
        }
    }
}

impl MockView {
    /// The store without issues.
    pub open spec fn fresh() -> MockView {
        MockView {
            entries: Map::empty(),
            archived: Map::empty(),
            comments: Map::empty(),
            labels: Map::empty(),
            next: 1,
        }
    }

    /// The entry as it is stored under the next number.
    pub open spec fn numbered(self, e: EntryView) -> EntryView {
        EntryView { issue_number: Some(self.next), ..e }
    }

    /// The store with one more entry.
    pub open spec fn with_new(self, e: EntryView) -> MockView {
        MockView {
            entries: self.entries.insert(self.next, self.numbered(e)),
            next: if self.next == u64::MAX {
                0
            } else {
                (self.next + 1) as u64
            },
            ..self
        }
    }

    /// The store with `e` as the entry of the issue `number`.
    pub open spec fn with_entry(self, number: u64, e: EntryView) -> MockView {
        MockView { entries: self.entries.insert(number, e), ..self }
    }

    /// The store without the entry of the issue `number`.
    pub open spec fn without(self, number: u64) -> MockView {
        MockView { entries: self.entries.remove(number), ..self }
    }

    /// The store in which the issue `number` is archived for `reason`.
    pub open spec fn with_archived(self, number: u64, reason: Seq<char>) -> MockView {
        MockView { archived: self.archived.insert(number, reason), ..self }
    }

    /// The store with one more comment on the issue `number`.
    pub open spec fn with_comment(self, number: u64, body: Seq<char>) -> MockView {
        MockView {
            comments: self.comments.insert(number, self.comments_on(number).push(body)),
            ..self
        }
    }

    /// The store in which the issue `number` has these labels.
    pub open spec fn with_labels(self, number: u64, labels: Seq<Seq<char>>) -> MockView {
        MockView { labels: self.labels.insert(number, labels), ..self }
    }

    /// The comments on the issue `number`.
    pub open spec fn comments_on(self, number: u64) -> Seq<Seq<char>> {
        if self.comments.contains_key(number) {
            self.comments[number]
        } else {
            seq![]
        }
    }

    /// The labels of the issue `number`.
    pub open spec fn labels_on(self, number: u64) -> Seq<Seq<char>> {
        if self.labels.contains_key(number) {
            self.labels[number]
        } else {
            seq![]
        }
    }

    /// The entry of the issue `number`.
    pub open spec fn entry(self, number: u64) -> Option<EntryView> {
        if self.entries.contains_key(number) {
            Some(self.entries[number])
        } else {
            None
        }
    }
}

/// What was created is read back, with its number; no other entry changes.
pub proof fn law_get_after_create(m: MockView, e: EntryView, other: u64)
    ensures
        m.with_new(e).entry(m.next) == Some(m.numbered(e)),
        other != m.next ==> m.with_new(e).entry(other) == m.entry(other),
{
}

/// What was updated is read back; no other entry changes.
pub proof fn law_get_after_update(m: MockView, number: u64, e: EntryView, other: u64)
    ensures
        m.with_entry(number, e).entry(number) == Some(e),
        other != number ==> m.with_entry(number, e).entry(other) == m.entry(other),
{
}

/// What was deleted is gone; no other entry changes.
pub proof fn law_get_after_delete(m: MockView, number: u64, other: u64)
    ensures
        m.without(number).entry(number) is None,
        other != number ==> m.without(number).entry(other) == m.entry(other),
{
}

/// The number of a new issue is larger than that of every issue created before, so none
/// is given out twice.
pub proof fn law_numbers_grow(m: MockView, first: EntryView, second: EntryView)
    requires
        m.next < u64::MAX,
    ensures
        m.numbered(first).issue_number->0 < m.with_new(first).numbered(second).issue_number->0,
{
}

/// A call that changes the store.
pub enum MockCall {
    /// An entry is created.
    Create(EntryView),
    /// An entry of this number is overwritten.
    Update(u64, EntryView),
    /// An issue is archived.
    Archive(u64, Seq<char>),
    /// An issue is deleted.
    Delete(u64),
    /// A comment is added to an issue.
    Comment(u64, Seq<char>),
    /// The labels of an issue are replaced.
    Labels(u64, Seq<Seq<char>>),
}

/// The store after one call.
pub open spec fn after_call(m: MockView, call: MockCall) -> MockView {
    match call {
        MockCall::Create(e) => m.with_new(e),
        MockCall::Update(number, e) => m.with_entry(number, e),
        MockCall::Archive(number, reason) => m.with_archived(number, reason),
        MockCall::Delete(number) => m.without(number),
        MockCall::Comment(number, body) => m.with_comment(number, body),
        MockCall::Labels(number, labels) => m.with_labels(number, labels),
    }
}

/// A new store after these calls.
pub open spec fn after_calls(calls: Seq<MockCall>) -> MockView
    decreases calls.len(),
{
    if calls.len() == 0 {
        MockView::fresh()
    } else {
        after_call(after_calls(calls.drop_last()), calls.last())
    }
}

/// How many of the calls create an entry.
pub open spec fn creations(calls: Seq<MockCall>) -> int
    decreases calls.len(),
{
    if calls.len() == 0 {
        0
    } else {
        creations(calls.drop_last()) + if calls.last() is Create {
            1int
        } else {
            0int
        }
    }
}

/// Whatever calls came before, the issues are numbered from 1 on in the order in which they
/// are created, and no number is given out again: after `k` creations the next entry gets
/// the number `k + 1`, is read back under it, and changes no other entry.
pub proof fn law_numbers_count_creations(calls: Seq<MockCall>, e: EntryView, other: u64)
    requires
        creations(calls) < u64::MAX,
    ensures
        0 <= creations(calls),
        ({
            let m = after_calls(calls);
            let number = (creations(calls) + 1) as u64;
            &&& m.numbered(e) == (EntryView { issue_number: Some(number), ..e })
            &&& m.with_new(e).entry(number) == Some(m.numbered(e))
            &&& other != number ==> m.with_new(e).entry(other) == m.entry(other)
        }),
{
    lemma_next_number(calls);
}

proof fn lemma_next_number(calls: Seq<MockCall>)
    requires
        creations(calls) < u64::MAX,
    ensures
        0 <= creations(calls),
        after_calls(calls).next == creations(calls) + 1,
    decreases calls.len(),
{
    if calls.len() > 0 {
        lemma_next_number(calls.drop_last());
    }
}

impl Default for MockMemoryStore {
    /// A store without issues.
    fn default() -> (r: MockMemoryStore)
        ensures
            r@ == MockView::fresh(),
    {
        MockMemoryStore::new()
    }
}

impl MockMemoryStore {
    /// Creates a new empty store.
    pub fn new() -> (r: MockMemoryStore)
        ensures
            r@ == MockView::fresh(),
    {
        broadcast use group_hash_axioms;
        let r = MockMemoryStore {
            entries: HashMap::new(),
            archived: HashMap::new(),
            comments: HashMap::new(),
            labels: HashMap::new(),
            next: 1,
        };
        assert(r@ =~= MockView::fresh());
        r
    }

    /// Returns `true` if the issue has been archived.
    pub fn is_archived(&self, issue_number: u64) -> (r: bool)
        ensures
            r == self@.archived.contains_key(issue_number),
    {
        broadcast use group_hash_axioms;
        self.archived.contains_key(&issue_number)
    }

    /// Returns all comments posted to an issue.
    pub fn comments_for(&self, issue_number: u64) -> (r: Vec<String>)
        ensures
            texts(r@) == self@.comments_on(issue_number),
    {
        broadcast use group_hash_axioms;
        match self.comments.get(&issue_number) {
            Some(v) => copy_strings(v),
            None => {
                let r: Vec<String> = Vec::new();
                assert(texts(r@) =~= seq![]);
                r
            },
        }
    }

    /// Returns the labels currently set on an issue.
    pub fn labels_for(&self, issue_number: u64) -> (r: Vec<String>)
        ensures
            texts(r@) == self@.labels_on(issue_number),
    {
        broadcast use group_hash_axioms;
        match self.labels.get(&issue_number) {
            Some(v) => copy_strings(v),
            None => {
                let r: Vec<String> = Vec::new();
                assert(texts(r@) =~= seq![]);
                r
            },
        }
    }

    /// Persists a new entry under the next number. Past the largest number, numbers start
    /// again at 0.
    pub fn create(&mut self, entry: &mut MemoryEntry) -> (r: Result<()>)
        ensures
            r is Ok,
            final(entry)@ == old(self)@.numbered(old(entry)@),
            final(self)@ == old(self)@.with_new(old(entry)@),
    {
        broadcast use group_hash_axioms;
        let n: u64 = self.next;
        self.next = n.wrapping_add(1);
        entry.issue_number = Some(n);
        self.entries.insert(n, entry.clone());
        assert(self@ =~= old(self)@.with_new(old(entry)@));
        Ok(())
    }

    /// The entry of an issue.
    pub fn get(&self, issue_number: u64) -> (r: Result<Option<MemoryEntry>>)
        ensures
            r is Ok,
            match self@.entry(issue_number) {
                Some(e) => r->Ok_0 is Some && r->Ok_0->0@ == e,
                None => r->Ok_0 is None,
            },
    {
        broadcast use group_hash_axioms;
        match self.entries.get(&issue_number) {
            Some(e) => Ok(Some(e.clone())),
            None => Ok(None),
        }
    }

    /// Overwrites the stored content of an entry. Refused for an entry that was never
    /// created.
    pub fn update(&mut self, entry: &MemoryEntry) -> (r: Result<()>)
        ensures
            match entry@.issue_number {
                None => refused(r, "entry has no issue_number; call create first"@) && final(self)@
                    == old(self)@,
                Some(n) => r is Ok && final(self)@ == old(self)@.with_entry(n, entry@),
            },
    {
        broadcast use group_hash_axioms;
        match entry.issue_number {
            None => Err(
                MemoryError::InvalidInput(
                    "entry has no issue_number; call create first".to_owned(),
                ),
            ),
            Some(n) => {
                self.entries.insert(n, entry.clone());
                assert(self@ =~= old(self)@.with_entry(n, entry@));
                Ok(())
            },
        }
    }

    /// Archives an issue, for the reason given.
    pub fn archive(&mut self, issue_number: u64, reason: &str) -> (r: Result<()>)
        ensures
            r is Ok,
            final(self)@ == old(self)@.with_archived(issue_number, reason@),
    {
        broadcast use group_hash_axioms;
        self.archived.insert(issue_number, reason.to_owned());
        assert(self@.archived =~= old(self)@.archived.insert(issue_number, reason@));
        Ok(())
    }

    /// Deletes an issue.
    pub fn delete(&mut self, issue_number: u64) -> (r: Result<()>)
        ensures
            r is Ok,
            final(self)@ == old(self)@.without(issue_number),
    {
        broadcast use group_hash_axioms;
        self.entries.remove(&issue_number);
        assert(self@ =~= old(self)@.without(issue_number));
        Ok(())
    }

    /// Appends a comment to an issue.
    pub fn add_comment(&mut self, issue_number: u64, body: &str) -> (r: Result<()>)
        ensures
            r is Ok,
            final(self)@ == old(self)@.with_comment(issue_number, body@),
    {
        broadcast use group_hash_axioms;
        let mut all = self.comments_for(issue_number);
        all.push(body.to_owned());
        assert(texts(all@) =~= old(self)@.comments_on(issue_number).push(body@));
        self.comments.insert(issue_number, all);
        assert(self@.comments =~= old(self)@.comments.insert(
            issue_number,
            old(self)@.comments_on(issue_number).push(body@),
        ));
        Ok(())
    }

    /// Replaces the label set of an issue.
    pub fn set_labels(&mut self, issue_number: u64, labels: &Vec<String>) -> (r: Result<()>)
        ensures
            r is Ok,
            final(self)@ == old(self)@.with_labels(issue_number, texts(labels@)),
    {
        broadcast use group_hash_axioms;
        self.labels.insert(issue_number, copy_strings(labels));
        assert(self@.labels =~= old(self)@.labels.insert(issue_number, texts(labels@)));
        Ok(())
    }
}

} // verus!
