//! JSON values as a tree that the crate can read and build.

use serde_json::Value;

use vstd::prelude::*;

use crate::score::Score;
use crate::text::{same, texts};

verus! {

/// A JSON number.
#[derive(Debug, Clone, Copy, PartialEq, Eq, Structural)]
pub enum Number {
    /// An integer that is not negative.
    Unsigned(u64),
    /// A negative integer.
    Negative(i64),
    /// A double-precision number, as its IEEE 754 bit pattern.
    Double(u64),
    /// A single-precision number.
    Single(Score),
}

/// A JSON value.
#[derive(Debug)]
pub enum Json {
    /// `null`
    Null,
    /// `true` or `false`
    Bool(bool),
    /// A number.
    Number(Number),
    /// A string.
    Text(String),
    /// An array.
    Array(Vec<Json>),
    /// An object: its members, in order.
    Object(Vec<(String, Json)>),
}

/// What a [`Json`] holds.
pub enum JsonView {
    Null,
    Bool(bool),
    Number(Number),
    Text(Seq<char>),
    Array(Seq<JsonView>),
    Object(Seq<(Seq<char>, JsonView)>),
}

impl View for Json {
    type V = JsonView;

    open spec fn view(&self) -> JsonView {
        json_tree(*self)
    }
}

/// What `json` holds, member by member.
pub open spec fn json_tree(json: Json) -> JsonView
    decreases json,
{
    match json {
        Json::Null => JsonView::Null,
        Json::Bool(b) => JsonView::Bool(b),
        Json::Number(n) => JsonView::Number(n),
        Json::Text(s) => JsonView::Text(s@),
        Json::Array(items) => JsonView::Array(
            Seq::new(
                items@.len(),
                |i: int|
                    if 0 <= i < items@.len() {
                        json_tree(items@[i])
                    } else {
                        JsonView::Null
                    },
            ),
        ),
        Json::Object(members) => JsonView::Object(
            Seq::new(
                members@.len(),
                |i: int|
                    if 0 <= i < members@.len() {
                        (members@[i].0@, json_tree(members@[i].1))
                    } else {
                        (seq![], JsonView::Null)
                    },
            ),
        ),
    }
}

impl JsonView {
    /// The string, if this is one.
    pub open spec fn text(self) -> Option<Seq<char>> {
        match self {
            JsonView::Text(s) => Some(s),
            _ => None,
        }
    }

    /// The number, if this is an integer that is not negative.
    pub open spec fn unsigned(self) -> Option<u64> {
        match self {
            JsonView::Number(Number::Unsigned(n)) => Some(n),
            _ => None,
        }
    }

    /// The number, if this is one.
    pub open spec fn numeric(self) -> Option<Number> {
        match self {
            JsonView::Number(n) => Some(n),
            _ => None,
        }
    }

    /// The items, if this is an array.
    pub open spec fn items(self) -> Option<Seq<JsonView>> {
        match self {
            JsonView::Array(items) => Some(items),
            _ => None,
        }
    }

    /// The value of the first member called `key`, if this is an object that has one.
    pub open spec fn field(self, key: Seq<char>) -> Option<JsonView> {
        match self {
            JsonView::Object(members) => member(members, key),
            _ => None,
        }
    }

    /// The string that the member called `key` holds, if this is an object in which it does.
    pub open spec fn text_field(self, key: Seq<char>) -> Option<Seq<char>> {
        match self.field(key) {
            Some(v) => v.text(),
            None => None,
        }
    }
}

/// The value of the first member called `key`.
pub open spec fn member(members: Seq<(Seq<char>, JsonView)>, key: Seq<char>) -> Option<JsonView>
    decreases members.len(),
{
    if members.len() == 0 {
        None
    } else if members[0].0 == key {
        Some(members[0].1)
    } else {
        member(members.skip(1), key)
    }
}

/// What the value in a view is, if there is one.
pub open spec fn optional_json(j: Option<&Json>) -> Option<JsonView> {
    match j {
        Some(v) => Some(v@),
        None => None,
    }
}

impl Json {
    /// The string, if this is one.
    pub fn as_str(&self) -> (r: Option<&str>)
        ensures
            match r {
                Some(s) => self@.text() == Some(s@),
                None => self@.text() is None,
            },
    {
        match self {
            Json::Text(s) => Some(s.as_str()),
            _ => None,
        }
    }

    /// The number, if this is an integer that is not negative.
    pub fn as_u64(&self) -> (r: Option<u64>)
        ensures
            r == self@.unsigned(),
    {
        match self {
            Json::Number(Number::Unsigned(n)) => Some(*n),
            _ => None,
        }
    }

    /// The number, if this is one.
    pub fn as_number(&self) -> (r: Option<Number>)
        ensures
            r == self@.numeric(),
    {
        match self {
            Json::Number(n) => Some(*n),
            _ => None,
        }
    }

    /// The items, if this is an array.
    pub fn as_array(&self) -> (r: Option<&Vec<Json>>)
        ensures
            match r {
                Some(items) => self@.items() == Some(json_views(items@)),
                None => self@.items() is None,
            },
    {
        match self {
            Json::Array(items) => {
                assert(self@.items().unwrap() =~= json_views(items@));
                Some(items)
            },
            _ => None,
        }
    }

    /// The value of the first member called `key`, if this is an object that has one.
    pub fn get(&self, key: &str) -> (r: Option<&Json>)
        ensures
            optional_json(r) == self@.field(key@),
    {
        match self {
            Json::Object(members) => {
                let ghost all = self@->Object_0;
                let mut i: usize = 0;
                assert(all.skip(0) =~= all);
                while i < members.len()
                    invariant
                        i <= members.len(),
                        self@ == JsonView::Object(all),
                        all.len() == members.len(),
                        forall|j: int|
                            0 <= j < members.len() ==> (#[trigger] all[j]) == (
                                members@[j].0@,
                                members@[j].1@,
                            ),
                        member(all, key@) == member(all.skip(i as int), key@),
                    decreases members.len() - i,
                {
                    assert(all.skip(i as int)[0] == all[i as int]);
                    if same(members[i].0.as_str(), key) {
                        assert(all[i as int].0 == key@);
                        assert(self@.field(key@) == Some(all[i as int].1));
                        return Some(&members[i].1);
                    }
                    assert(all.skip(i as int).skip(1) =~= all.skip(i + 1));
                    i += 1;
                }
                None
            },
            _ => None,
        }
    }

    /// The string that the member called `key` holds, if this is an object in which it does.
    pub fn text_at(&self, key: &str) -> (r: Option<&str>)
        ensures
            match r {
                Some(s) => self@.text_field(key@) == Some(s@),
                None => self@.text_field(key@) is None,
            },
    {
        match self.get(key) {
            Some(v) => v.as_str(),
            None => None,
        }
    }

    /// A copy of the value.
    pub fn copy(&self) -> (r: Json)
        ensures
            r@ == self@,
        decreases self,
    {
        match self {
            Json::Null => Json::Null,
            Json::Bool(b) => Json::Bool(*b),
            Json::Number(n) => Json::Number(*n),
            Json::Text(s) => Json::Text(s.clone()),
            Json::Array(items) => {
                let mut r: Vec<Json> = Vec::new();
                let mut i: usize = 0;
                while i < items.len()
                    invariant
                        i <= items.len(),
                        r.len() == i,
                        *self == Json::Array(*items),
                        forall|j: int| 0 <= j < i ==> (#[trigger] r@[j])@ == items@[j]@,
                    decreases items.len() - i,
                {
                    proof {
                        assert(decreases_to!(*self => self->Array_0));
                        assert(decreases_to!(*items => items@));
                        assert(decreases_to!(items@ => items@[i as int]));
                    }
                    r.push(items[i].copy());
                    i += 1;
                }
                let j = Json::Array(r);
                assert(j@->Array_0 =~= self@->Array_0);
                j
            },
            Json::Object(members) => {
                let mut r: Vec<(String, Json)> = Vec::new();
                let mut i: usize = 0;
                while i < members.len()
                    invariant
                        i <= members.len(),
                        r.len() == i,
                        *self == Json::Object(*members),
                        forall|j: int|
                            0 <= j < i ==> (#[trigger] r@[j]).0@ == members@[j].0@ && r@[j].1@
                                == members@[j].1@,
                    decreases members.len() - i,
                {
                    proof {
                        assert(decreases_to!(*self => self->Object_0));
                        assert(decreases_to!(*members => members@));
                        assert(decreases_to!(members@ => members@[i as int]));
                        assert(decreases_to!(members@[i as int] => members@[i as int].1));
                    }
                    r.push((members[i].0.clone(), members[i].1.copy()));
                    i += 1;
                }
                let j = Json::Object(r);
                assert(j@->Object_0 =~= self@->Object_0);
                j
            },
        }
    }
}

/// What the values hold.
pub open spec fn json_views(v: Seq<Json>) -> Seq<JsonView> {
    Seq::new(v.len(), |i: int| v[i]@)
}

// ---------------------------------------------------------------------------
// Building
// ---------------------------------------------------------------------------

/// What the members hold.
pub open spec fn member_views(v: Seq<(String, Json)>) -> Seq<(Seq<char>, JsonView)> {
    Seq::new(v.len(), |i: int| (v[i].0@, v[i].1@))
}

/// The array of these strings.
pub open spec fn text_array(v: Seq<Seq<char>>) -> JsonView {
    JsonView::Array(Seq::new(v.len(), |i: int| JsonView::Text(v[i])))
}

/// A string.
pub(crate) fn text(s: &str) -> (r: Json)
    ensures
        r@ == JsonView::Text(s@),
{
    Json::Text(s.to_owned())
}

/// An integer that is not negative.
pub(crate) fn number(n: u64) -> (r: Json)
    ensures
        r@ == JsonView::Number(Number::Unsigned(n)),
{
    Json::Number(Number::Unsigned(n))
}

/// The object with these members.
pub(crate) fn object(members: Vec<(String, Json)>) -> (r: Json)
    ensures
        r@ == JsonView::Object(member_views(members@)),
{
    let r = Json::Object(members);
    assert(r@->Object_0 =~= member_views(members@));
    r
}

/// The array of these values.
pub(crate) fn array(items: Vec<Json>) -> (r: Json)
    ensures
        r@ == JsonView::Array(json_views(items@)),
{
    let r = Json::Array(items);
    assert(r@->Array_0 =~= json_views(items@));
    r
}

/// The array of these strings.
pub(crate) fn array_of_texts(items: &Vec<String>) -> (r: Json)
    ensures
        r@ == text_array(texts(items@)),
{
    let mut values: Vec<Json> = Vec::new();
    let mut i: usize = 0;
    while i < items.len()
        invariant
            i <= items.len(),
            values.len() == i,
            forall|j: int| 0 <= j < i ==> (#[trigger] values@[j])@ == JsonView::Text(items@[j]@),
        decreases items.len() - i,
    {
        values.push(text(items[i].as_str()));
        i += 1;
    }
    let r = array(values);
    assert(r@->Array_0 =~= text_array(texts(items@))->Array_0);
    r
}

/// The object with one member.
pub(crate) fn object_of(key: &str, value: Json) -> (r: Json)
    ensures
        r@ == JsonView::Object(seq![(key@, value@)]),
{
    let mut members: Vec<(String, Json)> = Vec::new();
    members.push((key.to_owned(), value));
    let r = object(members);
    assert(r@->Object_0 =~= seq![(key@, value@)]);
    r
}

// ---------------------------------------------------------------------------
// Reading
// ---------------------------------------------------------------------------

/// `serde_json::Value`, which nothing here looks into.
#[verifier::external_type_specification]
#[verifier::external_body]
pub struct ExValue(Value);

/// `serde_json::Error`, which nothing here looks into.
#[verifier::external_type_specification]
#[verifier::external_body]
pub struct ExError(serde_json::Error);

/// What a `serde_json::Value` holds.
pub uninterp spec fn value_contents(value: Value) -> JsonView;

/// The value that `serde_json::from_str` reads from a text; none if it refuses the text.
pub uninterp spec fn json_in(text: Seq<char>) -> Option<JsonView>;

/// Calls `serde_json::from_str`. Whether it accepts the text, and the value it reads, are
/// settled by the text.
#[verifier::external_body]
fn read_value(text: &str) -> (r: std::result::Result<Value, serde_json::Error>)
    ensures
        match r {
            Ok(value) => json_in(text@) == Some(value_contents(value)),
            Err(_) => json_in(text@) is None,
        },
{
    serde_json::from_str(text)
}

/// The outermost layer of a `serde_json::Value`.
enum Layer {
    Null,
    Bool(bool),
    Number(Number),
    Text(String),
    Array(Vec<Value>),
    Object(Vec<(String, Value)>),
}

/// What the layer and the values under it hold.
spec fn layer_contents(layer: Layer) -> JsonView {
    match layer {
        Layer::Null => JsonView::Null,
        Layer::Bool(b) => JsonView::Bool(b),
        Layer::Number(n) => JsonView::Number(n),
        Layer::Text(s) => JsonView::Text(s@),
        Layer::Array(items) => JsonView::Array(
            Seq::new(items@.len(), |i: int| value_contents(items@[i])),
        ),
        Layer::Object(members) => JsonView::Object(
            Seq::new(
                members@.len(),
                |i: int| (members@[i].0@, value_contents(members@[i].1)),
            ),
        ),
    }
}

/// Takes the outermost layer off a `serde_json::Value`, variant by variant: the items of
/// an array and the members of an object are handed out as they are.
#[verifier::external_body]
fn open_value(value: Value) -> (r: Layer)
    ensures
        layer_contents(r) == value_contents(value),
{
    match value {
        Value::Null => Layer::Null,
        Value::Bool(b) => Layer::Bool(b),
        Value::Number(n) => Layer::Number(match (n.as_u64(), n.as_i64()) {
            (Some(u), _) => Number::Unsigned(u),
            (None, Some(i)) => Number::Negative(i),
            (None, None) => Number::Double(n.as_f64().unwrap_or_default().to_bits()),
        }),
        Value::String(s) => Layer::Text(s),
        Value::Array(a) => Layer::Array(a),
        Value::Object(m) => Layer::Object(m.into_iter().collect()),
    }
}

/// What a `serde_json::Value` holds, as a [`Json`].
fn contents_of(value: Value) -> (r: Json)
    ensures
        r@ == value_contents(value),
    decreases value_contents(value),
{
    let ghost whole = value_contents(value);
    match open_value(value) {
        Layer::Null => Json::Null,
        Layer::Bool(b) => Json::Bool(b),
        Layer::Number(n) => Json::Number(n),
        Layer::Text(s) => Json::Text(s),
        Layer::Array(items) => {
            let ghost all = items@;
            let mut r: Vec<Json> = Vec::new();
            for v in it: items
                invariant
                    it.seq() == all,
                    whole == JsonView::Array(Seq::new(all.len(), |i: int| value_contents(all[i]))),
                    whole == value_contents(value),
                    r.len() == it.index(),
                    forall|j: int| 0 <= j < r.len() ==> (#[trigger] r@[j])@ == value_contents(all[j]),
            {
                proof {
                    let i = it.index() as int;
                    assert(whole->Array_0[i] == value_contents(v));
                    assert(decreases_to!(whole => whole->Array_0));
                    assert(decreases_to!(whole->Array_0 => whole->Array_0[i]));
                }
                r.push(contents_of(v));
            }
            let j = array(r);
            assert(j@->Array_0 =~= whole->Array_0);
            j
        },
        Layer::Object(members) => {
            let ghost all = members@;
            let mut r: Vec<(String, Json)> = Vec::new();
            for m in it: members
                invariant
                    it.seq() == all,
                    whole == JsonView::Object(
                        Seq::new(all.len(), |i: int| (all[i].0@, value_contents(all[i].1))),
                    ),
                    whole == value_contents(value),
                    r.len() == it.index(),
                    forall|j: int|
                        0 <= j < r.len() ==> (#[trigger] r@[j]).0@ == all[j].0@ && r@[j].1@
                            == value_contents(all[j].1),
            {
                proof {
                    let i = it.index() as int;
                    assert(whole->Object_0[i] == (m.0@, value_contents(m.1)));
                    assert(decreases_to!(whole => whole->Object_0));
                    assert(decreases_to!(whole->Object_0 => whole->Object_0[i]));
                    assert(decreases_to!(whole->Object_0[i] => whole->Object_0[i].1));
                }
                let (key, v) = m;
                r.push((key, contents_of(v)));
            }
            let j = object(r);
            assert(j@->Object_0 =~= whole->Object_0);
            j
        },
    }
}

/// Reads a JSON value from a text.
pub fn parse_json(text: &str) -> (r: std::result::Result<Json, serde_json::Error>)
    ensures
        match r {
            Ok(j) => json_in(text@) == Some(j@),
            Err(_) => json_in(text@) is None,
        },
{
    match read_value(text) {
        Ok(value) => Ok(contents_of(value)),
        Err(e) => Err(e),
    }
}

} // verus!
