//! JSON values, as far as the library reads and writes them.
use crate::text::same;
use vstd::prelude::*;
use vstd::string::*;

verus! {

/// A JSON value. Of a number only its value as an unsigned integer of 64 bits
/// is kept, where it has one.
#[derive(Debug, PartialEq, Eq)]
pub enum Json {
    Null,
    Bool(bool),
    Number(Option<u64>),
    Text(String),
    Array(Vec<Json>),
    Object(Vec<(String, Json)>),
}

/// What a JSON value holds.
pub enum JsonView {
    Null,
    Bool(bool),
    Number(Option<u64>),
    Text(Seq<char>),
    Array(Seq<JsonView>),
    Object(Seq<(Seq<char>, JsonView)>),
}

impl Json {
    pub open spec fn model(self) -> JsonView
        decreases self,
    {
        match self {
            Json::Null => JsonView::Null,
            Json::Bool(b) => JsonView::Bool(b),
            Json::Number(n) => JsonView::Number(n),
            Json::Text(t) => JsonView::Text(t@),
            Json::Array(items) => JsonView::Array(
                Seq::new(
                    items@.len(),
                    |i: int|
                        if 0 <= i < items@.len() {
                            items@[i].model()
                        } else {
                            JsonView::Null
                        },
                ),
            ),
            Json::Object(fields) => JsonView::Object(
                Seq::new(
                    fields@.len(),
                    |i: int|
                        if 0 <= i < fields@.len() {
                            (fields@[i].0@, fields@[i].1.model())
                        } else {
                            (Seq::<char>::empty(), JsonView::Null)
                        },
                ),
            ),
        }
    }
}

/// The value under `key`; of several, the last.
pub open spec fn lookup(fields: Seq<(Seq<char>, JsonView)>, key: Seq<char>) -> Option<JsonView>
    decreases fields.len(),
{
    if fields.len() == 0 {
        None
    } else if fields.last().0 == key {
        Some(fields.last().1)
    } else {
        lookup(fields.drop_last(), key)
    }
}

/// The place of the last field `key`, or -1.
pub open spec fn field_index<T>(fields: Seq<(Seq<char>, T)>, key: Seq<char>) -> int
    decreases fields.len(),
{
    if fields.len() == 0 {
        -1
    } else if fields.last().0 == key {
        fields.len() - 1
    } else {
        field_index(fields.drop_last(), key)
    }
}

/// `lookup` gives the field that `field_index` finds.
pub proof fn lemma_field_index(fields: Seq<(Seq<char>, JsonView)>, key: Seq<char>)
    ensures
        -1 <= field_index(fields, key) < fields.len(),
        lookup(fields, key) == (if field_index(fields, key) >= 0 {
            Some(fields[field_index(fields, key)].1)
        } else {
            None
        }),
    decreases fields.len(),
{
    if fields.len() > 0 && fields.last().0 != key {
        lemma_field_index(fields.drop_last(), key);
    }
}

/// The keys of some fields.
pub open spec fn keys<T>(fields: Seq<(String, T)>) -> Seq<(Seq<char>, T)> {
    fields.map_values(|f: (String, T)| (f.0@, f.1))
}

/// Finds the last field `key`.
pub fn find_field<T>(fields: &Vec<(String, T)>, key: &str) -> (r: Option<usize>)
    ensures
        match r {
            Some(i) => i < fields@.len() && field_index(keys(fields@), key@) == i,
            None => field_index(keys(fields@), key@) == -1,
        },
{
    let ghost all = keys(fields@);
    let mut n: usize = fields.len();
    assert(all.take(n as int) =~= all);
    while n > 0
        invariant
            n <= fields@.len(),
            all == keys(fields@),
            field_index(all, key@) == field_index(all.take(n as int), key@),
        decreases n,
    {
        let ghost head = all.take(n as int);
        assert(head.last() == all[n - 1]);
        assert(head.drop_last() =~= all.take(n - 1));
        if same(fields[n - 1].0.as_str(), key) {
            return Some(n - 1);
        }
        n = n - 1;
    }
    None
}

/// Only the keys decide where a field is found.
pub proof fn lemma_same_keys<S, T>(
    a: Seq<(Seq<char>, S)>,
    b: Seq<(Seq<char>, T)>,
    key: Seq<char>,
)
    requires
        a.len() == b.len(),
        forall|i: int| 0 <= i < a.len() ==> (#[trigger] a[i]).0 == b[i].0,
    ensures
        field_index(a, key) == field_index(b, key),
    decreases a.len(),
{
    if a.len() > 0 {
        assert(a[a.len() - 1].0 == b[b.len() - 1].0);
        let x = a.drop_last();
        let y = b.drop_last();
        assert forall|i: int| 0 <= i < x.len() implies (#[trigger] x[i]).0 == y[i].0 by {
            assert(a[i].0 == b[i].0);
        }
        lemma_same_keys(x, y, key);
    }
}

impl JsonView {
    /// The field `key` of an object.
    pub open spec fn get(self, key: Seq<char>) -> Option<JsonView> {
        match self {
            JsonView::Object(fields) => lookup(fields, key),
            _ => None,
        }
    }

    pub open spec fn boolean(self) -> Option<bool> {
        match self {
            JsonView::Bool(b) => Some(b),
            _ => None,
        }
    }

    pub open spec fn number(self) -> Option<u64> {
        match self {
            JsonView::Number(n) => n,
            _ => None,
        }
    }

    pub open spec fn text(self) -> Option<Seq<char>> {
        match self {
            JsonView::Text(t) => Some(t),
            _ => None,
        }
    }

    pub open spec fn items(self) -> Option<Seq<JsonView>> {
        match self {
            JsonView::Array(items) => Some(items),
            _ => None,
        }
    }

    /// The field `key` as a truth value.
    pub open spec fn bool_at(self, key: Seq<char>) -> Option<bool> {
        match self.get(key) {
            Some(v) => v.boolean(),
            None => None,
        }
    }

    /// The field `key` as an unsigned number.
    pub open spec fn number_at(self, key: Seq<char>) -> Option<u64> {
        match self.get(key) {
            Some(v) => v.number(),
            None => None,
        }
    }

    /// The field `key` as a text.
    pub open spec fn text_at(self, key: Seq<char>) -> Option<Seq<char>> {
        match self.get(key) {
            Some(v) => v.text(),
            None => None,
        }
    }

    /// The field `key` as a list.
    pub open spec fn items_at(self, key: Seq<char>) -> Option<Seq<JsonView>> {
        match self.get(key) {
            Some(v) => v.items(),
            None => None,
        }
    }
}

/// What the values of a list hold.
pub open spec fn models(items: Seq<Json>) -> Seq<JsonView> {
    items.map_values(|v: Json| v.model())
}

impl Json {
    /// The field `key` of an object.
    pub fn get(&self, key: &str) -> (r: Option<&Json>)
        ensures
            match r {
                Some(v) => self.model().get(key@) == Some(v.model()),
                None => self.model().get(key@) is None,
            },
    {
        match self {
            Json::Object(fields) => {
                let ghost all = self.model()->Object_0;
                let found = find_field(fields, key);
                proof {
                    lemma_same_keys(keys(fields@), all, key@);
                    lemma_field_index(all, key@);
                }
                match found {
                    Some(i) => Some(&fields[i].1),
                    None => None,
                }
            },
            _ => None,
        }
    }

    pub fn as_bool(&self) -> (r: Option<bool>)
        ensures
            r == self.model().boolean(),
    {
        match self {
            Json::Bool(b) => Some(*b),
            _ => None,
        }
    }

    pub fn as_number(&self) -> (r: Option<u64>)
        ensures
            r == self.model().number(),
    {
        match self {
            Json::Number(n) => *n,
            _ => None,
        }
    }

    pub fn as_text(&self) -> (r: Option<&String>)
        ensures
            match r {
                Some(t) => self.model().text() == Some(t@),
                None => self.model().text() is None,
            },
    {
        match self {
            Json::Text(t) => Some(t),
            _ => None,
        }
    }

    pub fn as_items(&self) -> (r: Option<&Vec<Json>>)
        ensures
            match r {
                Some(items) => self.model().items() == Some(models(items@)),
                None => self.model().items() is None,
            },
    {
        match self {
            Json::Array(items) => {
                assert(self.model()->Array_0 =~= models(items@));
                Some(items)
            },
            _ => None,
        }
    }

    pub fn bool_at(&self, key: &str) -> (r: Option<bool>)
        ensures
            r == self.model().bool_at(key@),
    {
        match self.get(key) {
            Some(v) => v.as_bool(),
            None => None,
        }
    }

    pub fn number_at(&self, key: &str) -> (r: Option<u64>)
        ensures
            r == self.model().number_at(key@),
    {
        match self.get(key) {
            Some(v) => v.as_number(),
            None => None,
        }
    }

    pub fn text_at(&self, key: &str) -> (r: Option<&String>)
        ensures
            match r {
                Some(t) => self.model().text_at(key@) == Some(t@),
                None => self.model().text_at(key@) is None,
            },
    {
        match self.get(key) {
            Some(v) => v.as_text(),
            None => None,
        }
    }

    pub fn items_at(&self, key: &str) -> (r: Option<&Vec<Json>>)
        ensures
            match r {
                Some(items) => self.model().items_at(key@) == Some(models(items@)),
                None => self.model().items_at(key@) is None,
            },
    {
        match self.get(key) {
            Some(v) => v.as_items(),
            None => None,
        }
    }
}

// ---------------------------------------------------------------------------
// Reading
// ---------------------------------------------------------------------------

/// The value type of `serde_json`.
#[verifier::external_type_specification]
#[verifier::external_body]
pub struct ExJsonValue(serde_json::Value);

/// What a value of `serde_json` holds. The fields of an object stand in the
/// order in which its map hands them out.
pub uninterp spec fn value_content(value: serde_json::Value) -> JsonView;

/// What `serde_json::from_str` makes of a text: a value, or the words of its
/// error.
pub uninterp spec fn json_text(text: Seq<char>) -> Result<JsonView, Seq<char>>;

/// Calls `serde_json::from_str`. Its result depends on the text alone; an
/// error is kept as the words that it displays.
#[verifier::external_body]
fn json_value(text: &str) -> (r: Result<serde_json::Value, String>)
    ensures
        match r {
            Ok(v) => json_text(text@) == Ok::<JsonView, Seq<char>>(value_content(v)),
            Err(e) => json_text(text@) == Err::<JsonView, Seq<char>>(e@),
        },
{
    serde_json::from_str(text).map_err(|err| err.to_string())
}

/// Takes a `serde_json::Value` apart, variant by variant. A number becomes
/// what `Number::as_u64` gives.
#[verifier::external_body]
fn from_value(value: serde_json::Value) -> (r: Json)
    ensures
        r.model() == value_content(value),
{
    match value {
        serde_json::Value::Null => Json::Null,
        serde_json::Value::Bool(b) => Json::Bool(b),
        serde_json::Value::Number(n) => Json::Number(n.as_u64()),
        serde_json::Value::String(t) => Json::Text(t),
        serde_json::Value::Array(items) => Json::Array(items.into_iter().map(from_value).collect()),
        serde_json::Value::Object(fields) => {
            Json::Object(fields.into_iter().map(|(k, v)| (k, from_value(v))).collect())
        },
    }
}

/// Parses a JSON document. An error is the parser's own message.
pub fn parse_json(text: &str) -> (r: Result<Json, String>)
    ensures
        match r {
            Ok(v) => json_text(text@) == Ok::<JsonView, Seq<char>>(v.model()),
            Err(e) => json_text(text@) == Err::<JsonView, Seq<char>>(e@),
        },
{
    match json_value(text) {
        Ok(value) => Ok(from_value(value)),
        Err(err) => Err(err),
    }
}

// ---------------------------------------------------------------------------
// Writing
// ---------------------------------------------------------------------------

/// A value that a written object can hold.
#[derive(Debug, PartialEq, Eq)]
pub enum Scalar {
    Null,
    Bool(bool),
    Number(u64),
    Text(String),
}

impl Scalar {
    pub open spec fn model(self) -> JsonView {
        match self {
            Scalar::Null => JsonView::Null,
            Scalar::Bool(b) => JsonView::Bool(b),
            Scalar::Number(n) => JsonView::Number(Some(n)),
            Scalar::Text(t) => JsonView::Text(t@),
        }
    }
}

/// What the fields of an object hold.
pub open spec fn fields_model(fields: Seq<(String, Scalar)>) -> Seq<(Seq<char>, JsonView)> {
    fields.map_values(|f: (String, Scalar)| (f.0@, f.1.model()))
}

/// How `serde_json` writes an object with the given fields.
pub uninterp spec fn object_text(fields: Seq<(Seq<char>, JsonView)>) -> Seq<char>;

/// Writes an object with `to_string` of `serde_json::Value`. The text depends
/// on the fields alone, and `serde_json::from_str` reads it back as an object
/// with these fields: under each key the value that was given last for it.
#[verifier::external_body]
pub(crate) fn write_object(fields: &Vec<(String, Scalar)>) -> (r: String)
    ensures
        r@ == object_text(fields_model(fields@)),
        json_text(r@) is Ok,
        forall|key: Seq<char>| #[trigger]
            json_text(r@)->Ok_0.get(key) == lookup(fields_model(fields@), key),
{
    let object: serde_json::Map<String, serde_json::Value> = fields
        .iter()
        .map(|(key, value)| match value {
            Scalar::Null => (key.clone(), serde_json::Value::Null),
            Scalar::Bool(b) => (key.clone(), serde_json::Value::from(*b)),
            Scalar::Number(n) => (key.clone(), serde_json::Value::from(*n)),
            Scalar::Text(t) => (key.clone(), serde_json::Value::from(t.clone())),
        })
        .collect();
    serde_json::Value::Object(object).to_string()
}

/// Of several fields with the same key the last one counts, and fields with
/// other keys do not.
pub proof fn law_last_field_counts(
    fields: Seq<(Seq<char>, JsonView)>,
    key: Seq<char>,
    other: Seq<char>,
    value: JsonView,
)
    ensures
        JsonView::Object(fields.push((key, value))).get(key) == Some(value),
        other != key ==> JsonView::Object(fields.push((other, value))).get(key)
            == JsonView::Object(fields).get(key),
        JsonView::Object(seq![]).get(key) is None,
        !(value is Object) ==> value.get(key) is None,
{
    assert(fields.push((key, value)).drop_last() =~= fields);
    assert(fields.push((other, value)).drop_last() =~= fields);
}

/// A field is read as a text, a truth value, a number or a list where it is
/// one.
pub proof fn law_typed_fields(object: JsonView, key: Seq<char>)
    ensures
        object.text_at(key) == (match object.get(key) {
            Some(JsonView::Text(t)) => Some(t),
            _ => None,
        }),
        object.bool_at(key) == (match object.get(key) {
            Some(JsonView::Bool(b)) => Some(b),
            _ => None,
        }),
        object.number_at(key) == (match object.get(key) {
            Some(JsonView::Number(n)) => n,
            _ => None,
        }),
        object.items_at(key) == (match object.get(key) {
            Some(JsonView::Array(items)) => Some(items),
            _ => None,
        }),
{
}

} // verus!
