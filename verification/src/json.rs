//! A JSON value model: the shape intents carry their filters and payloads
//! in, and artifacts carry their rows in.

use vstd::prelude::*;

use crate::strmap::StrMap;

verus! {

/// A JSON number as the wire format distinguishes it: a non-negative
/// integer, a negative integer, or any other number (kept as its text).
#[derive(Debug)]
pub enum JsonNumber {
    /// An integer `>= 0`.
    PosInt(u64),
    /// An integer `< 0`.
    NegInt(i64),
    /// Any other number, as its JSON text.
    Float(String),
}

/// A JSON value. Objects are ordered maps keyed by member name.
#[derive(Debug)]
pub enum JsonValue {
    /// `null`.
    Null,
    /// `true` / `false`.
    Bool(bool),
    /// A number.
    Number(JsonNumber),
    /// A string.
    String(String),
    /// An array.
    Array(Vec<JsonValue>),
    /// An object.
    Object(StrMap<JsonValue>),
}


/// A JSON number by value.
pub enum JsonNumberView {
    PosInt(u64),
    NegInt(i64),
    Float(Seq<char>),
}

/// A JSON value by value.
pub enum JsonView {
    Null,
    Bool(bool),
    Number(JsonNumberView),
    String(Seq<char>),
    Array(Seq<JsonView>),
    Object(Seq<(Seq<char>, JsonView)>),
}

pub open spec fn number_view(n: JsonNumber) -> JsonNumberView {
    match n {
        JsonNumber::PosInt(u) => JsonNumberView::PosInt(u),
        JsonNumber::NegInt(i) => JsonNumberView::NegInt(i),
        JsonNumber::Float(t) => JsonNumberView::Float(t@),
    }
}

/// The value a JSON value denotes.
pub closed spec fn json_view(v: JsonValue) -> JsonView
    decreases v, 0int,
{
    match v {
        JsonValue::Null => JsonView::Null,
        JsonValue::Bool(b) => JsonView::Bool(b),
        JsonValue::Number(n) => JsonView::Number(number_view(n)),
        JsonValue::String(s) => JsonView::String(s@),
        JsonValue::Array(items) => JsonView::Array(json_items_view(items@)),
        JsonValue::Object(m) => JsonView::Object(json_members_view(m.entries@)),
    }
}

pub open spec fn json_items_view(items: Seq<JsonValue>) -> Seq<JsonView>
    decreases items, 1int,
{
    if items.len() == 0 {
        Seq::empty()
    } else {
        json_items_view(items.drop_last()).push(json_view(items.last()))
    }
}

pub open spec fn json_members_view(members: Seq<(String, JsonValue)>) -> Seq<(Seq<char>, JsonView)>
    decreases members, 1int,
{
    if members.len() == 0 {
        Seq::empty()
    } else {
        json_members_view(members.drop_last()).push((members.last().0@, json_view(members.last().1)))
    }
}

/// The top-level shape of a value's view follows the value's own shape.
pub proof fn lemma_json_view_top(v: JsonValue)
    ensures
        (v is Null) == (json_view(v) is Null),
        (v is Bool) == (json_view(v) is Bool),
        (v is Number) == (json_view(v) is Number),
        (v is String) == (json_view(v) is String),
        (v is Array) == (json_view(v) is Array),
        (v is Object) == (json_view(v) is Object),
        v matches JsonValue::Bool(b) ==> json_view(v) == JsonView::Bool(b),
        v matches JsonValue::Number(n) ==> json_view(v) == JsonView::Number(number_view(n)),
        v matches JsonValue::String(s) ==> json_view(v) == JsonView::String(s@),
        v matches JsonValue::Array(items) ==> json_view(v) == JsonView::Array(json_items_view(items@)),
        v matches JsonValue::Object(m) ==> json_view(v) == JsonView::Object(json_members_view(m.entries())),
{
    if let JsonValue::Object(m) = v {
        m.lemma_entries();
    }
}

/// The view of a member list is the list of each member's name and view.
pub proof fn lemma_members_view(members: Seq<(String, JsonValue)>)
    ensures
        json_members_view(members).len() == members.len(),
        forall|i: int|
            0 <= i < members.len() ==> #[trigger] json_members_view(members)[i] == (members[i].0@, json_view(members[i].1)),
    decreases members.len(),
{
    if members.len() > 0 {
        lemma_members_view(members.drop_last());
    }
}

/// The view of an item list is the list of each item's view.
pub proof fn lemma_items_view(items: Seq<JsonValue>)
    ensures
        json_items_view(items).len() == items.len(),
        forall|i: int| 0 <= i < items.len() ==> #[trigger] json_items_view(items)[i] == json_view(items[i]),
    decreases items.len(),
{
    if items.len() > 0 {
        lemma_items_view(items.drop_last());
    }
}


impl JsonNumber {
    /// A copy of this number.
    pub fn copy(&self) -> (r: JsonNumber)
        ensures
            number_view(r) == number_view(*self),
    {
        match self {
            JsonNumber::PosInt(u) => JsonNumber::PosInt(*u),
            JsonNumber::NegInt(i) => JsonNumber::NegInt(*i),
            JsonNumber::Float(t) => JsonNumber::Float(t.clone()),
        }
    }
}

/// A deep copy of a JSON value.
pub fn json_clone(v: &JsonValue) -> (r: JsonValue)
    ensures
        json_view(r) == json_view(*v),
    decreases v,
{
    match v {
        JsonValue::Null => JsonValue::Null,
        JsonValue::Bool(b) => JsonValue::Bool(*b),
        JsonValue::Number(n) => JsonValue::Number(n.copy()),
        JsonValue::String(s) => JsonValue::String(s.clone()),
        JsonValue::Array(items) => {
            let mut out: Vec<JsonValue> = Vec::new();
            let mut i: usize = 0;
            while i < items.len()
                invariant
                    *v == JsonValue::Array(*items),
                    i <= items@.len(),
                    json_items_view(out@) == json_items_view(items@.take(i as int)),
                decreases items@.len() - i,
            {
                assert(decreases_to!(*v => v->Array_0));
                assert(decreases_to!(*items => items@));
                assert(decreases_to!(items@ => items@[i as int]));
                let c = json_clone(&items[i]);
                let ghost before = out@;
                out.push(c);
                proof {
                    assert(out@.drop_last() =~= before);
                    assert(items@.take(i + 1).drop_last() =~= items@.take(i as int));
                }
                i = i + 1;
            }
            assert(items@.take(items@.len() as int) =~= items@);
            assert(json_view(JsonValue::Array(out)) == JsonView::Array(json_items_view(out@)));
            assert(json_view(*v) == JsonView::Array(json_items_view(items@)));
            JsonValue::Array(out)
        },
        JsonValue::Object(m) => {
            let n = m.len();
            proof {
                m.lemma_entries();
            }
            let mut out: Vec<(String, JsonValue)> = Vec::new();
            let mut i: usize = 0;
            while i < n
                invariant
                    *v == JsonValue::Object(*m),
                    n == m.spec_len(),
                    i <= n,
                    out@.map_values(|e: (String, JsonValue)| e.0@) == m.keys().take(i as int),
                    m.entries() == m.entries@,
                    json_members_view(out@) == json_members_view(m.entries@.take(i as int)),
                decreases n - i,
            {
                let (k, val) = m.entry_at(i);
                assert(decreases_to!(*v => v->Object_0));
                assert(decreases_to!(*m => m.entries));
                assert(decreases_to!(m.entries => m.entries@));
                assert(decreases_to!(m.entries@ => m.entries@[i as int]));
                assert(decreases_to!(m.entries@[i as int] => m.entries@[i as int].1));
                let c = json_clone(val);
                let ghost before = out@;
                out.push((k.clone(), c));
                proof {
                    assert(out@.drop_last() =~= before);
                    assert(m.entries@.take(i + 1).drop_last() =~= m.entries@.take(i as int));
                    assert(out@.map_values(|e: (String, JsonValue)| e.0@) =~= before.map_values(|e: (String, JsonValue)| e.0@).push(k@));
                    assert(m.keys().take(i + 1) =~= m.keys().take(i as int).push(k@));
                }
                i = i + 1;
            }
            let _ = m.len();
            assert(m.entries@.take(n as int) =~= m.entries@);
            assert(m.keys().take(n as int) =~= m.keys());
            let ghost outv = out@;
            let built = StrMap::from_sorted_entries(out);
            proof {
                built.lemma_entries();
                assert(built.entries@ == outv);
            }
            JsonValue::Object(built)
        },
    }
}

} // verus!
