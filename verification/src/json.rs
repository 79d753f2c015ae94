use crate::text::same_text;
use serde_json::{Number, Value};
use vstd::prelude::*;
use vstd::string::StringExecFns;

verus! {

/// A JSON number: a non-negative integer, a negative integer, or any other
/// number, kept as the text that stands for it.
#[derive(Debug, PartialEq)]
pub enum JsonNumber {
    Unsigned(u64),
    Negative(i64),
    Real(String),
}

/// A JSON document.
#[derive(Debug, PartialEq)]
pub enum Json {
    Null,
    Bool(bool),
    Number(JsonNumber),
    Str(String),
    Array(Vec<Json>),
    Object(Vec<(String, Json)>),
}

/// What a `JsonNumber` stands for.
pub enum JsonNumberView {
    Unsigned(u64),
    Negative(i64),
    Real(Seq<char>),
}

/// What a `Json` stands for.
pub enum JsonView {
    Null,
    Bool(bool),
    Number(JsonNumberView),
    Str(Seq<char>),
    Array(Seq<JsonView>),
    Object(Seq<(Seq<char>, JsonView)>),
}

impl View for JsonNumber {
    type V = JsonNumberView;

    open spec fn view(&self) -> JsonNumberView {
        match self {
            JsonNumber::Unsigned(u) => JsonNumberView::Unsigned(*u),
            JsonNumber::Negative(i) => JsonNumberView::Negative(*i),
            JsonNumber::Real(t) => JsonNumberView::Real(t@),
        }
    }
}

/// What `j` stands for.
pub open spec fn json_view(j: Json) -> JsonView
    decreases j,
{
    match j {
        Json::Null => JsonView::Null,
        Json::Bool(b) => JsonView::Bool(b),
        Json::Number(n) => JsonView::Number(n@),
        Json::Str(s) => JsonView::Str(s@),
        Json::Array(items) => JsonView::Array(
            Seq::new(
                items.len() as nat,
                |i: int|
                    if 0 <= i < items.len() {
                        json_view(items[i])
                    } else {
                        JsonView::Null
                    },
            ),
        ),
        Json::Object(fields) => JsonView::Object(
            Seq::new(
                fields.len() as nat,
                |i: int|
                    if 0 <= i < fields.len() {
                        (fields[i].0@, json_view(fields[i].1))
                    } else {
                        (Seq::empty(), JsonView::Null)
                    },
            ),
        ),
    }
}

impl DeepView for Json {
    type V = JsonView;

    open spec fn deep_view(&self) -> JsonView {
        json_view(*self)
    }
}

impl View for Json {
    type V = JsonView;

    open spec fn view(&self) -> JsonView {
        json_view(*self)
    }
}

/// The value that `fields` gives to `key`: that of the last field of that
/// name.
pub open spec fn lookup(fields: Seq<(Seq<char>, JsonView)>, key: Seq<char>) -> Option<JsonView>
    decreases fields.len(),
{
    if fields.len() == 0 {
        None
    } else if fields.last().0 == key {
        Some(fields.last().1)
    } else {
        lookup(fields.drop_last(), key)
    }
}

/// The field at `i` decides the lookup of its name when no later field
/// has that name.
pub proof fn lemma_lookup_at(fields: Seq<(Seq<char>, JsonView)>, key: Seq<char>, i: int)
    requires
        0 <= i < fields.len(),
        fields[i].0 == key,
        forall|j: int| i < j < fields.len() ==> (#[trigger] fields[j]).0 != key,
    ensures
        lookup(fields, key) == Some(fields[i].1),
    decreases fields.len(),
{
    if i < fields.len() - 1 {
        lemma_lookup_at(fields.drop_last(), key, i);
    }
}

/// A name that no field has is not found.
pub proof fn lemma_lookup_none(fields: Seq<(Seq<char>, JsonView)>, key: Seq<char>)
    requires
        forall|j: int| 0 <= j < fields.len() ==> (#[trigger] fields[j]).0 != key,
    ensures
        lookup(fields, key) is None,
    decreases fields.len(),
{
    if fields.len() > 0 {
        lemma_lookup_none(fields.drop_last(), key);
    }
}

impl JsonView {
    /// The member `key` of an object; `None` for anything else.
    pub open spec fn field(self, key: Seq<char>) -> Option<JsonView> {
        match self {
            JsonView::Object(fields) => lookup(fields, key),
            _ => None,
        }
    }

    /// The text of a string; `None` for anything else.
    pub open spec fn text(self) -> Option<Seq<char>> {
        match self {
            JsonView::Str(s) => Some(s),
            _ => None,
        }
    }

    /// The value of a non-negative integer; `None` for anything else.
    pub open spec fn unsigned(self) -> Option<u64> {
        match self {
            JsonView::Number(JsonNumberView::Unsigned(u)) => Some(u),
            _ => None,
        }
    }

    /// The text of the string member `key`.
    pub open spec fn text_field(self, key: Seq<char>) -> Option<Seq<char>> {
        match self.field(key) {
            Some(v) => v.text(),
            None => None,
        }
    }

    /// The value of the non-negative integer member `key`.
    pub open spec fn unsigned_field(self, key: Seq<char>) -> Option<u64> {
        match self.field(key) {
            Some(v) => v.unsigned(),
            None => None,
        }
    }
}

/// What the members of an object stand for, one by one.
pub proof fn lemma_object_view(j: Json)
    requires
        j is Object,
    ensures
        j@ is Object,
        j@->Object_0.len() == j->Object_0.len(),
        forall|k: int|
            #![trigger j->Object_0@[k]]
            #![trigger j@->Object_0[k]]
            0 <= k < j->Object_0.len() ==> j@->Object_0[k] == (j->Object_0@[k].0@, j->Object_0@[k].1@),
{
    let fields = j->Object_0;
    assert(j == Json::Object(fields));
    let v = json_view(j)->Object_0;
    assert(v.len() == fields.len());
    assert forall|k: int| 0 <= k < fields.len() implies v[k] == (
        (#[trigger] fields@[k]).0@,
        fields@[k].1@,
    ) by {
        assert(v[k] == (fields[k].0@, json_view(fields[k].1)));
    }
}

/// What the items of an array stand for, one by one.
pub proof fn lemma_array_view(j: Json)
    requires
        j is Array,
    ensures
        j@ is Array,
        j@->Array_0.len() == j->Array_0.len(),
        forall|k: int|
            #![trigger j->Array_0@[k]]
            #![trigger j@->Array_0[k]]
            0 <= k < j->Array_0.len() ==> j@->Array_0[k] == j->Array_0@[k]@,
{
    let items = j->Array_0;
    assert(j == Json::Array(items));
    let v = json_view(j)->Array_0;
    assert(v.len() == items.len());
    assert forall|k: int| 0 <= k < items.len() implies v[k] == (#[trigger] items@[k])@ by {
        assert(v[k] == json_view(items[k]));
    }
}

/// The member `key` with the value `value`.
pub fn member(key: &str, value: Json) -> (pair: (String, Json))
    ensures
        pair.0@ == key@,
        pair.1 == value,
{
    (String::from_str(key), value)
}

/// The string `text` as a document.
pub fn json_str(text: &str) -> (doc: Json)
    ensures
        doc@ == JsonView::Str(text@),
{
    Json::Str(String::from_str(text))
}

/// The non-negative integer `n` as a document.
pub fn json_unsigned(n: u64) -> (doc: Json)
    ensures
        doc@ == JsonView::Number(JsonNumberView::Unsigned(n)),
{
    Json::Number(JsonNumber::Unsigned(n))
}

/// The object with the members `fields`, in their order.
pub fn json_object(fields: Vec<(String, Json)>) -> (doc: Json)
    ensures
        doc@ is Object,
        doc@->Object_0.len() == fields.len(),
        forall|k: int|
            #![trigger fields@[k]]
            #![trigger doc@->Object_0[k]]
            0 <= k < fields.len() ==> doc@->Object_0[k] == (fields@[k].0@, fields@[k].1@),
{
    let doc = Json::Object(fields);
    proof {
        lemma_object_view(doc);
    }
    doc
}

/// The array with the items `items`, in their order.
pub fn json_array(items: Vec<Json>) -> (doc: Json)
    ensures
        doc@ is Array,
        doc@->Array_0.len() == items.len(),
        forall|k: int|
            #![trigger items@[k]]
            #![trigger doc@->Array_0[k]]
            0 <= k < items.len() ==> doc@->Array_0[k] == items@[k]@,
{
    let doc = Json::Array(items);
    proof {
        lemma_array_view(doc);
    }
    doc
}

impl Clone for JsonNumber {
    fn clone(&self) -> (copy: JsonNumber)
        ensures
            copy@ == self@,
    {
        self.copy_of()
    }
}

impl Clone for Json {
    fn clone(&self) -> (copy: Json)
        ensures
            copy@ == self@,
    {
        self.copy_of()
    }
}

impl JsonNumber {
    /// A number that stands for the same as this one.
    pub fn copy_of(&self) -> (copy: JsonNumber)
        ensures
            copy@ == self@,
    {
        match self {
            JsonNumber::Unsigned(u) => JsonNumber::Unsigned(*u),
            JsonNumber::Negative(i) => JsonNumber::Negative(*i),
            JsonNumber::Real(t) => JsonNumber::Real(t.clone()),
        }
    }
}

impl Json {
    /// A document that stands for the same as this one.
    pub fn copy_of(&self) -> (copy: Json)
        ensures
            copy@ == self@,
        decreases self,
    {
        match self {
            Json::Null => Json::Null,
            Json::Bool(b) => Json::Bool(*b),
            Json::Number(n) => Json::Number(n.copy_of()),
            Json::Str(s) => Json::Str(s.clone()),
            Json::Array(items) => {
                let mut out: Vec<Json> = Vec::new();
                let mut i: usize = 0;
                while i < items.len()
                    invariant
                        i <= items.len(),
                        out.len() == i,
                        self is Array,
                        self->Array_0 == *items,
                        forall|k: int| 0 <= k < i ==> (#[trigger] out@[k])@ == items@[k]@,
                    decreases items.len() - i,
                {
                    let item = items[i].copy_of();
                    out.push(item);
                    i += 1;
                }
                let copy = Json::Array(out);
                proof {
                    lemma_array_view(*self);
                    lemma_array_view(copy);
                    assert(copy@->Array_0 =~= self@->Array_0);
                }
                copy
            },
            Json::Object(fields) => {
                let mut out: Vec<(String, Json)> = Vec::new();
                let mut i: usize = 0;
                while i < fields.len()
                    invariant
                        i <= fields.len(),
                        out.len() == i,
                        self is Object,
                        self->Object_0 == *fields,
                        forall|k: int|
                            0 <= k < i ==> (#[trigger] out@[k]).0@ == fields@[k].0@ && out@[k].1@
                                == fields@[k].1@,
                    decreases fields.len() - i,
                {
                    let value = fields[i].1.copy_of();
                    out.push((fields[i].0.clone(), value));
                    i += 1;
                }
                let copy = Json::Object(out);
                proof {
                    lemma_object_view(*self);
                    lemma_object_view(copy);
                    assert(copy@->Object_0 =~= self@->Object_0);
                }
                copy
            },
        }
    }

    /// The member `key` of an object.
    pub fn get(&self, key: &str) -> (found: Option<&Json>)
        ensures
            match found {
                Some(v) => self@.field(key@) == Some(v@),
                None => self@.field(key@) is None,
            },
    {
        match self {
            Json::Object(fields) => {
                let mut i: usize = fields.len();
                proof {
                    lemma_object_view(*self);
                    assert(self@->Object_0.take(i as int) =~= self@->Object_0);
                }
                while i > 0
                    invariant
                        i <= fields.len(),
                        self@ is Object,
                        self@->Object_0.len() == fields.len(),
                        forall|k: int|
                            0 <= k < fields.len() ==> self@->Object_0[k] == (
                                (#[trigger] fields@[k]).0@,
                                fields@[k].1@,
                            ),
                        lookup(self@->Object_0, key@) == lookup(
                            self@->Object_0.take(i as int),
                            key@,
                        ),
                    decreases i,
                {
                    i -= 1;
                    let ghost all = self@->Object_0;
                    assert(all.take(i + 1).drop_last() =~= all.take(i as int));
                    if same_text(fields[i].0.as_str(), key) {
                        return Some(&fields[i].1);
                    }
                }
                None
            },
            _ => None,
        }
    }

    /// The text of a string.
    pub fn as_str(&self) -> (found: Option<&str>)
        ensures
            match found {
                Some(s) => self@.text() == Some(s@),
                None => self@.text() is None,
            },
    {
        match self {
            Json::Str(s) => Some(s.as_str()),
            _ => None,
        }
    }

    /// The value of a non-negative integer.
    pub fn as_u64(&self) -> (found: Option<u64>)
        ensures
            found == self@.unsigned(),
    {
        match self {
            Json::Number(JsonNumber::Unsigned(u)) => Some(*u),
            _ => None,
        }
    }

    /// The text of the string member `key`.
    pub fn get_str(&self, key: &str) -> (found: Option<&str>)
        ensures
            match found {
                Some(s) => self@.text_field(key@) == Some(s@),
                None => self@.text_field(key@) is None,
            },
    {
        match self.get(key) {
            Some(v) => v.as_str(),
            None => None,
        }
    }

    /// The value of the non-negative integer member `key`.
    pub fn get_u64(&self, key: &str) -> (found: Option<u64>)
        ensures
            found == self@.unsigned_field(key@),
    {
        match self.get(key) {
            Some(v) => v.as_u64(),
            None => None,
        }
    }
}

/// `serde_json::Value`, the document tree of the JSON crate.
#[verifier::external_type_specification]
#[verifier::external_body]
pub struct ExValue(serde_json::Value);

/// What `serde_json::from_str` makes of `text` when it is asked for a
/// `serde_json::Value`: the document, or the message of its error.
pub uninterp spec fn json_from_text(text: Seq<char>) -> Result<JsonView, Seq<char>>;

/// The compact text that `serde_json` writes for a document (the `Display`
/// of `serde_json::Value`).
pub uninterp spec fn json_text(doc: JsonView) -> Seq<char>;

/// Copies a `serde_json::Value` into a `Json`, node by node: the members
/// of an object in the order in which the crate's map hands them out, an
/// integer as `as_u64` or `as_i64` gives it, any other number as its
/// `Display` text. It serves the wrappers below, which need it for every
/// node of a document.
#[verifier::external_body]
fn json_of_value(v: &Value) -> Json {
    match v {
        Value::Null => Json::Null,
        Value::Bool(b) => Json::Bool(*b),
        Value::Number(n) => Json::Number(match (n.as_u64(), n.as_i64()) {
            (Some(u), _) => JsonNumber::Unsigned(u),
            (_, Some(i)) => JsonNumber::Negative(i),
            _ => JsonNumber::Real(n.to_string()),
        }),
        Value::String(s) => Json::Str(s.clone()),
        Value::Array(a) => Json::Array(a.iter().map(json_of_value).collect()),
        Value::Object(m) => Json::Object(m.iter().map(|(k, x)| (k.clone(), json_of_value(x))).collect()),
    }
}

/// Copies a `Json` into a `serde_json::Value`, node by node: members are
/// inserted in order, so that the last of a name stays; the text of a real
/// number is read back by the `FromStr` of `serde_json::Number`, and
/// stands for `null` where that fails. It serves the wrappers below, which
/// need it for every node of a document.
#[verifier::external_body]
fn value_of_json(j: &Json) -> Value {
    match j {
        Json::Null => Value::Null,
        Json::Bool(b) => Value::Bool(*b),
        Json::Number(JsonNumber::Unsigned(u)) => Value::from(*u),
        Json::Number(JsonNumber::Negative(i)) => Value::from(*i),
        Json::Number(JsonNumber::Real(t)) => t.parse::<Number>().map_or(Value::Null, Value::Number),
        Json::Str(s) => Value::String(s.clone()),
        Json::Array(a) => Value::Array(a.iter().map(value_of_json).collect()),
        Json::Object(m) => Value::Object(m.iter().map(|(k, x)| (k.clone(), value_of_json(x))).collect()),
    }
}

/// `serde_json::from_str::<serde_json::Value>`: reads `text` as one JSON
/// document. The result is a function of the text alone; nothing else is
/// claimed of it.
#[verifier::external_body]
pub(crate) fn read_json(text: &str) -> (parsed: Result<Json, String>)
    ensures
        match parsed {
            Ok(doc) => json_from_text(text@) == Ok::<JsonView, Seq<char>>(doc@),
            Err(message) => json_from_text(text@) == Err::<JsonView, Seq<char>>(message@),
        },
{
    match serde_json::from_str::<Value>(text) {
        Ok(v) => Ok(json_of_value(&v)),
        Err(e) => Err(e.to_string()),
    }
}

/// What `serde_json::to_string_pretty` gives for a document: the indented
/// text, or nothing where it reports a failure.
pub uninterp spec fn json_pretty_text(doc: JsonView) -> Option<Seq<char>>;

/// `serde_json::to_string_pretty` of a `serde_json::Value`: the indented
/// JSON text of `doc`, or nothing where the crate reports a failure. The
/// result, text or failure, is a function of the document alone; nothing
/// else is claimed of it, and success least of all.
#[verifier::external_body]
pub(crate) fn write_json_pretty(doc: &Json) -> (text: Option<String>)
    ensures
        match text {
            Some(t) => json_pretty_text(doc@) == Some(t@),
            None => json_pretty_text(doc@) is None,
        },
{
    serde_json::to_string_pretty(&value_of_json(doc)).ok()
}

/// `to_string` of a `serde_json::Value`: the compact JSON text of `doc`.
/// The result is a function of the document alone; nothing else is claimed
/// of it.
#[verifier::external_body]
pub(crate) fn write_json(doc: &Json) -> (text: String)
    ensures
        text@ == json_text(doc@),
{
    value_of_json(doc).to_string()
}

/// Reads `text` as one JSON document.
pub fn parse_json(text: &str) -> (parsed: Result<Json, String>)
    ensures
        match parsed {
            Ok(doc) => json_from_text(text@) == Ok::<JsonView, Seq<char>>(doc@),
            Err(message) => json_from_text(text@) == Err::<JsonView, Seq<char>>(message@),
        },
{
    read_json(text)
}

/// The indented JSON text of `doc`: what the JSON crate writes for it, and
/// nothing exactly where the crate reports a failure.
pub fn render_json_pretty(doc: &Json) -> (text: Option<String>)
    ensures
        match text {
            Some(t) => json_pretty_text(doc@) == Some(t@),
            None => json_pretty_text(doc@) is None,
        },
{
    write_json_pretty(doc)
}

/// The compact JSON text of `doc`.
pub fn render_json(doc: &Json) -> (text: String)
    ensures
        text@ == json_text(doc@),
{
    write_json(doc)
}

} // verus!
