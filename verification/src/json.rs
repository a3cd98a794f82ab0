//! JSON documents as plain values, and the call into `serde_json` that reads
//! one from text.

use crate::text::same_text;
use vstd::prelude::*;

verus! {

/// A JSON document.
#[derive(Debug)]
pub enum JsonValue {
    Null,
    Bool(bool),
    /// A number; the field holds its value where it is an unsigned integer
    /// that fits in 64 bits.
    Number(Option<u64>),
    Text(String),
    Array(Vec<JsonValue>),
    /// The members in the order in which the document's reader hands them out.
    Object(Vec<(String, JsonValue)>),
}

/// The mathematical model of a [`JsonValue`].
pub enum JsonView {
    Null,
    Bool(bool),
    Number(Option<u64>),
    Text(Seq<char>),
    Array(Seq<JsonView>),
    Object(Seq<(Seq<char>, JsonView)>),
}

/// The model of `v`: the same document over mathematical sequences.
pub open spec fn json_view(v: JsonValue) -> JsonView
    decreases v,
{
    match v {
        JsonValue::Null => JsonView::Null,
        JsonValue::Bool(b) => JsonView::Bool(b),
        JsonValue::Number(n) => JsonView::Number(n),
        JsonValue::Text(s) => JsonView::Text(s@),
        JsonValue::Array(items) => JsonView::Array(
            Seq::new(
                items@.len(),
                |i: int|
                    if 0 <= i < items@.len() {
                        json_view(items@[i])
                    } else {
                        JsonView::Null
                    },
            ),
        ),
        JsonValue::Object(members) => JsonView::Object(
            Seq::new(
                members@.len(),
                |i: int|
                    if 0 <= i < members@.len() {
                        (members@[i].0@, json_view(members@[i].1))
                    } else {
                        (Seq::empty(), JsonView::Null)
                    },
            ),
        ),
    }
}

impl DeepView for JsonValue {
    type V = JsonView;

    open spec fn deep_view(&self) -> JsonView {
        json_view(*self)
    }
}

/// The index of the first member at or after `i` whose key is `key`, or the
/// number of members.
pub open spec fn member_index(members: Seq<(Seq<char>, JsonView)>, key: Seq<char>, i: int) -> int
    decreases members.len() - i,
{
    if 0 <= i < members.len() && members[i].0 != key {
        member_index(members, key, i + 1)
    } else if i < members.len() {
        i
    } else {
        members.len() as int
    }
}

impl JsonView {
    /// The first member called `key`, where `self` is an object that has one.
    pub open spec fn member(self, key: Seq<char>) -> Option<JsonView> {
        match self {
            JsonView::Object(members) => {
                let at = member_index(members, key, 0);
                if 0 <= at < members.len() {
                    Some(members[at].1)
                } else {
                    None
                }
            },
            _ => None,
        }
    }

    /// The member called `key`, or `Null` where there is none.
    pub open spec fn member_or_null(self, key: Seq<char>) -> JsonView {
        match self.member(key) {
            Some(v) => v,
            None => JsonView::Null,
        }
    }

    /// The text, where `self` is a string; the empty text otherwise.
    pub open spec fn text_or_empty(self) -> Seq<char> {
        match self {
            JsonView::Text(s) => s,
            _ => Seq::empty(),
        }
    }

    /// The items, where `self` is an array; none otherwise.
    pub open spec fn items_or_none(self) -> Seq<JsonView> {
        match self {
            JsonView::Array(items) => items,
            _ => Seq::empty(),
        }
    }

    /// The value, where `self` is an unsigned integer of 64 bits; zero otherwise.
    pub open spec fn unsigned_or_zero(self) -> u64 {
        match self {
            JsonView::Number(Some(n)) => n,
            _ => 0,
        }
    }
}

impl JsonValue {
    /// The first member called `key`, where `self` is an object that has one.
    pub fn member(&self, key: &str) -> (r: Option<&JsonValue>)
        ensures
            match r {
                Some(v) => self.deep_view().member(key@) == Some(v.deep_view()),
                None => self.deep_view().member(key@) is None,
            },
    {
        match self {
            JsonValue::Object(members) => {
                let ghost model = self.deep_view()->Object_0;
                let mut i: usize = 0;
                while i < members.len()
                    invariant
                        i <= members.len(),
                        self.deep_view() == JsonView::Object(model),
                        model.len() == members@.len(),
                        forall|k: int|
                            0 <= k < members@.len() ==> model[k] == (
                                #[trigger] members@[k].0@,
                                members@[k].1.deep_view(),
                            ),
                        member_index(model, key@, i as int) == member_index(model, key@, 0),
                    decreases members.len() - i,
                {
                    if same_text(members[i].0.as_str(), key) {
                        return Some(&members[i].1);
                    }
                    i = i + 1;
                }
                None
            },
            _ => None,
        }
    }

    /// The text, where `self` is a string.
    pub fn as_text(&self) -> (r: Option<&String>)
        ensures
            match r {
                Some(s) => self.deep_view() == JsonView::Text(s@),
                None => !(self.deep_view() is Text),
            },
    {
        match self {
            JsonValue::Text(s) => Some(s),
            _ => None,
        }
    }

    /// The items, where `self` is an array.
    pub fn as_items(&self) -> (r: Option<&Vec<JsonValue>>)
        ensures
            match r {
                Some(items) => self.deep_view() == JsonView::Array(items.deep_view()),
                None => !(self.deep_view() is Array),
            },
    {
        match self {
            JsonValue::Array(items) => {
                assert(self.deep_view()->Array_0 =~= items.deep_view());
                Some(items)
            },
            _ => None,
        }
    }

    /// The value, where `self` is an unsigned integer of 64 bits.
    pub fn as_unsigned(&self) -> (r: Option<u64>)
        ensures
            match r {
                Some(n) => self.deep_view() == JsonView::Number(Some(n)),
                None => !(self.deep_view() matches JsonView::Number(Some(_))),
            },
    {
        match self {
            JsonValue::Number(Some(n)) => Some(*n),
            _ => None,
        }
    }
}

/// `serde_json::Value`, the document tree that `serde_json` builds.
#[verifier::external_type_specification]
#[verifier::external_body]
pub struct ExSerdeValue(serde_json::Value);

/// What `serde_json::from_str` makes of `text` when asked for a
/// `serde_json::Value`: the document, or the message of its error.
pub uninterp spec fn json_parse(text: Seq<char>) -> Result<JsonView, Seq<char>>;

/// The model of what reading a document gave.
pub open spec fn parsed_view(r: Result<JsonValue, String>) -> Result<JsonView, Seq<char>> {
    match r {
        Ok(v) => Ok(v.deep_view()),
        Err(e) => Err(e@),
    }
}

/// Copies a `serde_json::Value` into a [`JsonValue`], variant by variant: a
/// number through `Number::as_u64`, the members of an object in the order of
/// `Map::iter`. Nothing is claimed of the copy here; [`read_json`] names the
/// whole result.
#[verifier::external_body]
fn value_from_serde(v: &serde_json::Value) -> JsonValue {
    match v {
        serde_json::Value::Null => JsonValue::Null,
        serde_json::Value::Bool(b) => JsonValue::Bool(*b),
        serde_json::Value::Number(n) => JsonValue::Number(n.as_u64()),
        serde_json::Value::String(s) => JsonValue::Text(s.clone()),
        serde_json::Value::Array(a) => JsonValue::Array(a.iter().map(value_from_serde).collect()),
        serde_json::Value::Object(m) => JsonValue::Object(
            m.iter().map(|(k, x)| (k.clone(), value_from_serde(x))).collect(),
        ),
    }
}

/// Calls `serde_json::from_str` for a `serde_json::Value`. The result is the
/// document that the call read, copied by [`value_from_serde`], or the text
/// of the call's error; it depends on `text` alone and is named
/// [`json_parse`].
#[verifier::external_body]
pub(crate) fn read_json(text: &str) -> (r: Result<JsonValue, String>)
    ensures
        parsed_view(r) == json_parse(text@),
{
    match serde_json::from_str::<serde_json::Value>(text) {
        Ok(v) => Ok(value_from_serde(&v)),
        Err(e) => Err(e.to_string()),
    }
}

} // verus!
