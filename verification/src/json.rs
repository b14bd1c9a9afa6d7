//! JSON values.

use vstd::prelude::*;
use crate::text::same_text;

verus! {

/// A JSON value. A number is held as the text that it is printed as; an object is held as its
/// fields, in order.
#[derive(Debug, PartialEq, Eq)]
pub enum Json {
    Null,
    Bool(bool),
    Number(String),
    Text(String),
    Array(Vec<Json>),
    Object(Vec<(String, Json)>),
}

/// The mathematical form of a JSON value.
pub enum JsonView {
    Null,
    Bool(bool),
    Number(Seq<char>),
    Text(Seq<char>),
    Array(Seq<JsonView>),
    Object(Seq<(Seq<char>, JsonView)>),
}

impl Json {
    pub open spec fn model(self) -> JsonView
        decreases self,
    {
        match self {
            Json::Null => JsonView::Null,
            Json::Bool(b) => JsonView::Bool(b),
            Json::Number(n) => JsonView::Number(n@),
            Json::Text(s) => JsonView::Text(s@),
            Json::Array(items) => JsonView::Array(
                Seq::new(
                    items@.len(),
                    |i: int|
                        if 0 <= i < items@.len() {
                            items@[i].model()
                        } else {
                            JsonView::Null
                        },
                ),
            ),
            Json::Object(fields) => JsonView::Object(
                Seq::new(
                    fields@.len(),
                    |i: int|
                        if 0 <= i < fields@.len() {
                            (fields@[i].0@, fields@[i].1.model())
                        } else {
                            (Seq::empty(), JsonView::Null)
                        },
                ),
            ),
        }
    }
}

impl View for Json {
    type V = JsonView;

    open spec fn view(&self) -> JsonView {
        self.model()
    }
}

/// The views of a list of JSON values.
pub open spec fn values(items: Seq<Json>) -> Seq<JsonView> {
    Seq::new(items.len(), |i: int| items[i]@)
}

/// The views of the fields of an object.
pub open spec fn members(fields: Seq<(String, Json)>) -> Seq<(Seq<char>, JsonView)> {
    Seq::new(fields.len(), |i: int| (fields[i].0@, fields[i].1@))
}

/// The view of an array is the array of the views of its items.
pub broadcast proof fn lemma_array_view(items: Vec<Json>)
    ensures
        #[trigger] (Json::Array(items)@) == JsonView::Array(values(items@)),
{
    let viewed = Json::Array(items)@;
    assert(viewed->Array_0 =~= values(items@));
}

/// The view of an object is the object of the views of its fields.
pub broadcast proof fn lemma_object_view(fields: Vec<(String, Json)>)
    ensures
        #[trigger] (Json::Object(fields)@) == JsonView::Object(members(fields@)),
{
    let viewed = Json::Object(fields)@;
    assert(viewed->Object_0 =~= members(fields@));
}

/// The value of the first field with that name.
pub open spec fn lookup(fields: Seq<(Seq<char>, JsonView)>, key: Seq<char>) -> Option<JsonView>
    decreases fields.len(),
{
    if fields.len() == 0 {
        None
    } else if fields[0].0 == key {
        Some(fields[0].1)
    } else {
        lookup(fields.drop_first(), key)
    }
}

impl JsonView {
    /// The value of a field, where this is an object that has it.
    pub open spec fn get(self, key: Seq<char>) -> Option<JsonView> {
        match self {
            JsonView::Object(fields) => lookup(fields, key),
            _ => None,
        }
    }

    /// The text, where this is one.
    pub open spec fn as_str(self) -> Option<Seq<char>> {
        match self {
            JsonView::Text(s) => Some(s),
            _ => None,
        }
    }

    /// The text of a field, where this is an object that has it and it is a text.
    pub open spec fn text_field(self, key: Seq<char>) -> Option<Seq<char>> {
        match self.get(key) {
            Some(value) => value.as_str(),
            None => None,
        }
    }
}

/// The view of a JSON value that may be missing.
pub open spec fn borrowed_json(value: Option<&Json>) -> Option<JsonView> {
    match value {
        Some(value) => Some(value@),
        None => None,
    }
}

impl Json {
    /// The value of a field, where this is an object that has it.
    pub fn get(&self, key: &str) -> (found: Option<&Json>)
        ensures
            borrowed_json(found) == self@.get(key@),
    {
        broadcast use lemma_object_view;

        match self {
            Json::Object(fields) => {
                let mut i: usize = 0;
                assert(members(fields@).skip(0) =~= members(fields@));
                while i < fields.len()
                    invariant
                        i <= fields@.len(),
                        *self == Json::Object(*fields),
                        lookup(members(fields@).skip(i as int), key@) == self@.get(key@),
                    decreases fields@.len() - i,
                {
                    let ghost rest = members(fields@).skip(i as int);
                    assert(rest.drop_first() =~= members(fields@).skip(i + 1));
                    assert(rest[0] == members(fields@)[i as int]);
                    if same_text(fields[i].0.as_str(), key) {
                        return Some(&fields[i].1);
                    }
                    i += 1;
                }
                None
            },
            _ => None,
        }
    }

    /// The text, where this is one.
    pub fn as_str(&self) -> (found: Option<&str>)
        ensures
            crate::text::borrowed_text(found) == self@.as_str(),
    {
        match self {
            Json::Text(s) => Some(s.as_str()),
            _ => None,
        }
    }

    /// A copy of the text of a field, where this is an object that has it and it is a text.
    pub fn text_field(&self, key: &str) -> (found: Option<String>)
        ensures
            crate::text::owned_text(found) == self@.text_field(key@),
    {
        match self.get(key) {
            Some(value) => match value.as_str() {
                Some(s) => Some(s.to_string()),
                None => None,
            },
            None => None,
        }
    }

    /// A copy of this value.
    pub fn copy(&self) -> (out: Json)
        ensures
            out@ == self@,
        decreases self,
    {
        broadcast use {lemma_array_view, lemma_object_view};

        match self {
            Json::Null => Json::Null,
            Json::Bool(b) => Json::Bool(*b),
            Json::Number(n) => Json::Number(n.clone()),
            Json::Text(s) => Json::Text(s.clone()),
            Json::Array(items) => {
                let mut out: Vec<Json> = Vec::new();
                let mut i: usize = 0;
                while i < items.len()
                    invariant
                        i <= items@.len(),
                        *self == Json::Array(*items),
                        values(out@) == values(items@).take(i as int),
                    decreases items@.len() - i,
                {
                    let ghost was = values(out@);
                    assert(decreases_to!(*self => self->Array_0@[i as int]));
                    let item = items[i].copy();
                    out.push(item);
                    assert(values(out@) =~= was.push(item@));
                    i += 1;
                }
                assert(values(out@) =~= values(items@));
                Json::Array(out)
            },
            Json::Object(fields) => {
                let mut out: Vec<(String, Json)> = Vec::new();
                let mut i: usize = 0;
                while i < fields.len()
                    invariant
                        i <= fields@.len(),
                        *self == Json::Object(*fields),
                        members(out@) == members(fields@).take(i as int),
                    decreases fields@.len() - i,
                {
                    let ghost was = members(out@);
                    assert(decreases_to!(*self => self->Object_0@[i as int].1));
                    let key = fields[i].0.clone();
                    let value = fields[i].1.copy();
                    out.push((key, value));
                    assert(members(out@) =~= was.push((key@, value@)));
                    i += 1;
                }
                assert(members(out@) =~= members(fields@));
                Json::Object(out)
            },
        }
    }
}

/// A field of an object.
pub fn member(name: &str, value: Json) -> (out: (String, Json))
    ensures
        (out.0@, out.1@) == (name@, value@),
{
    (name.to_string(), value)
}

/// A JSON text with a copy of `s`.
pub fn text(s: &str) -> (out: Json)
    ensures
        out@ == JsonView::Text(s@),
{
    Json::Text(s.to_string())
}

/// A value as `serde_json` holds it.
#[verifier::external_type_specification]
#[verifier::external_body]
pub struct ExValue(serde_json::Value);

/// What `serde_json::from_str` reads a text as: a value, or the message of its error.
pub uninterp spec fn read_value(text: Seq<char>) -> Result<serde_json::Value, Seq<char>>;

/// What a `serde_json` value holds, a number being the text that `serde_json` prints it as.
pub uninterp spec fn value_content(value: serde_json::Value) -> JsonView;

/// `serde_json::from_str::<Value>`: the value that the text stands for, or, where it is no JSON,
/// the message of the error. What JSON is and how the message reads is `serde_json`'s to say.
#[verifier::external_body]
fn value_from_str(text: &str) -> (out: Result<serde_json::Value, String>)
    ensures
        match out {
            Ok(value) => read_value(text@) == Ok::<serde_json::Value, Seq<char>>(value),
            Err(message) => read_value(text@) == Err::<serde_json::Value, Seq<char>>(message@),
        },
{
    serde_json::from_str::<serde_json::Value>(text).map_err(|err| err.to_string())
}

/// Takes a `serde_json::Value` apart, variant by variant, into a value of the same shape; a number
/// becomes the text that its `Display` gives.
#[verifier::external_body]
fn json_from_value(value: serde_json::Value) -> (out: Json)
    ensures
        out@ == value_content(value),
{
    match value {
        serde_json::Value::Null => Json::Null,
        serde_json::Value::Bool(b) => Json::Bool(b),
        serde_json::Value::Number(n) => Json::Number(n.to_string()),
        serde_json::Value::String(s) => Json::Text(s),
        serde_json::Value::Array(items) => {
            Json::Array(items.into_iter().map(json_from_value).collect())
        },
        serde_json::Value::Object(fields) => {
            Json::Object(fields.into_iter().map(|(k, v)| (k, json_from_value(v))).collect())
        },
    }
}

/// The JSON value that a text stands for, or the message of the error.
pub open spec fn json_document(text: Seq<char>) -> Result<JsonView, Seq<char>> {
    match read_value(text) {
        Ok(value) => Ok(value_content(value)),
        Err(message) => Err(message),
    }
}

/// The view of what reading a JSON text gave.
pub open spec fn json_result(out: Result<Json, String>) -> Result<JsonView, Seq<char>> {
    match out {
        Ok(value) => Ok(value@),
        Err(message) => Err(message@),
    }
}

/// Reads a JSON text.
pub fn parse_json(text: &str) -> (out: Result<Json, String>)
    ensures
        json_result(out) == json_document(text@),
{
    match value_from_str(text) {
        Ok(value) => Ok(json_from_value(value)),
        Err(message) => Err(message),
    }
}

} // verus!
