//! JSON documents: the payloads that messages carry.
//!
//! A document is what `serde_json` holds for it, told apart by its kind so
//! that the rules of the protocol can be stated and proved over it. Its
//! numbers, its arrays' items and its objects' maps are those of
//! `serde_json`, and reading a document from text and writing it back is the
//! work of `serde_json`.

use vstd::prelude::*;

verus! {

/// What `serde_json` holds for a document.
#[verifier::external_type_specification]
#[verifier::external_body]
pub struct ExValue(serde_json::Value);

/// What `serde_json` holds for a number.
#[verifier::external_type_specification]
#[verifier::external_body]
pub struct ExNumber(serde_json::Number);

/// The map in which `serde_json` holds the members of an object.
#[verifier::external_type_specification]
#[verifier::external_body]
#[verifier::reject_recursive_types(K)]
#[verifier::reject_recursive_types(V)]
pub struct ExMap<K, V>(serde_json::Map<K, V>);

/// A JSON document, told apart by its kind. The items of an array and the
/// members of an object are held as `serde_json` holds them.
#[derive(Debug, PartialEq, Eq)]
pub enum Json {
    Null,
    Bool(bool),
    Number(serde_json::Number),
    String(String),
    Array(Vec<serde_json::Value>),
    Object(serde_json::Map<String, serde_json::Value>),
}

/// The mathematical value of a [`Json`] document. An object is the map from
/// the names of its members to their values.
pub ghost enum JsonView {
    Null,
    Bool(bool),
    Number(serde_json::Number),
    String(Seq<char>),
    Array(Seq<JsonView>),
    Object(Map<Seq<char>, JsonView>),
}

/// What `serde_json::Number::as_u64` gives for a number: the number as an
/// unsigned integer of 64 bits, where it is one.
pub uninterp spec fn number_u64(n: serde_json::Number) -> Option<u64>;

/// What `serde_json::Number::as_i64` gives for a number: the number as a
/// signed integer of 64 bits, where it is one.
pub uninterp spec fn number_i64(n: serde_json::Number) -> Option<i64>;

/// The number that `serde_json` makes of an unsigned integer.
pub uninterp spec fn number_of(n: u64) -> serde_json::Number;

/// The value that `serde_json::from_slice` reads from `bytes`; `None` where
/// it reports an error.
pub uninterp spec fn value_parse(bytes: Seq<u8>) -> Option<serde_json::Value>;

/// The document that a `serde_json::Value` holds.
pub uninterp spec fn value_model(value: serde_json::Value) -> JsonView;

/// The members that a map of `serde_json` holds: each name with the document
/// that its value holds.
pub uninterp spec fn map_model(members: serde_json::Map<String, serde_json::Value>) -> Map<
    Seq<char>,
    JsonView,
>;

/// The `serde_json::Value` that holds a document.
pub uninterp spec fn value_of(doc: JsonView) -> serde_json::Value;

/// The text that `serde_json` prints for a value.
pub uninterp spec fn value_text(value: serde_json::Value) -> Seq<char>;

impl JsonView {
    /// The object without members.
    pub open spec fn empty_object() -> JsonView {
        JsonView::Object(Map::empty())
    }

    /// The members of an object; none for any other document.
    pub open spec fn members(self) -> Map<Seq<char>, JsonView> {
        match self {
            JsonView::Object(members) => members,
            _ => Map::empty(),
        }
    }

    /// Whether the document is an object with a member named `key`.
    pub open spec fn has(self, key: Seq<char>) -> bool {
        self.members().dom().contains(key)
    }

    /// The value of the member named `key`.
    pub open spec fn get(self, key: Seq<char>) -> Option<JsonView> {
        if self.has(key) {
            Some(self.members()[key])
        } else {
            None
        }
    }

    /// The object with the member `key` set to `value`. Any other document
    /// is left as it is.
    pub open spec fn insert(self, key: Seq<char>, value: JsonView) -> JsonView {
        match self {
            JsonView::Object(members) => JsonView::Object(members.insert(key, value)),
            other => other,
        }
    }

    /// The object without the member named `key`. Any other document is left
    /// as it is.
    pub open spec fn remove(self, key: Seq<char>) -> JsonView {
        match self {
            JsonView::Object(members) => JsonView::Object(members.remove(key)),
            other => other,
        }
    }

    /// The document with `value` in the place that `path` leads to, member
    /// by member; the document itself where the path leads nowhere.
    pub open spec fn replace_at(self, path: Seq<Seq<char>>, value: JsonView) -> JsonView
        decreases path.len(),
    {
        if path.len() == 0 {
            value
        } else {
            match self.get(path[0]) {
                Some(child) => self.insert(path[0], child.replace_at(path.skip(1), value)),
                None => self,
            }
        }
    }

    /// The document that `path` leads to, member by member.
    pub open spec fn at(self, path: Seq<Seq<char>>) -> Option<JsonView>
        decreases path.len(),
    {
        if path.len() == 0 {
            Some(self)
        } else {
            match self.get(path[0]) {
                Some(child) => child.at(path.skip(1)),
                None => None,
            }
        }
    }

    /// The number as an unsigned integer of 64 bits.
    pub open spec fn as_u64(self) -> Option<u64> {
        match self {
            JsonView::Number(n) => number_u64(n),
            _ => None,
        }
    }

    /// The number as a signed integer of 64 bits.
    pub open spec fn as_i64(self) -> Option<i64> {
        match self {
            JsonView::Number(n) => number_i64(n),
            _ => None,
        }
    }

    /// The characters of a string.
    pub open spec fn as_str(self) -> Option<Seq<char>> {
        match self {
            JsonView::String(text) => Some(text),
            _ => None,
        }
    }
}

/// After a member is set, it has the value that was set, and every member
/// of another name has the value that it had.
pub proof fn lemma_insert_get(doc: JsonView, key: Seq<char>, value: JsonView, other: Seq<char>)
    requires
        doc is Object,
    ensures
        doc.insert(key, value) is Object,
        doc.insert(key, value).get(other) == if other == key {
            Some(value)
        } else {
            doc.get(other)
        },
{
}

/// After the member of a name is taken out, the object has no member of
/// that name, and every member of another name has the value that it had.
pub proof fn lemma_remove_get(doc: JsonView, key: Seq<char>, other: Seq<char>)
    ensures
        doc.remove(key).get(other) == if other == key {
            None
        } else {
            doc.get(other)
        },
{
}

/// Where a path leads somewhere, a replacement at the path is found at the
/// path afterwards.
pub proof fn lemma_replace_at(doc: JsonView, path: Seq<Seq<char>>, value: JsonView)
    requires
        doc.at(path) is Some,
    ensures
        doc.replace_at(path, value).at(path) == Some(value),
    decreases path.len(),
{
    if path.len() > 0 {
        let child = doc.get(path[0])->0;
        lemma_replace_at(child, path.skip(1), value);
        lemma_insert_get(doc, path[0], child.replace_at(path.skip(1), value), path[0]);
    }
}

/// A replacement at a path leaves the members of other names than the
/// first of the path as they were.
pub proof fn lemma_replace_at_other(
    doc: JsonView,
    path: Seq<Seq<char>>,
    value: JsonView,
    other: Seq<char>,
)
    requires
        path.len() > 0,
        other != path[0],
    ensures
        doc.replace_at(path, value).get(other) == doc.get(other),
{
    if doc.get(path[0]) is Some {
        let child = doc.get(path[0])->0;
        lemma_insert_get(doc, path[0], child.replace_at(path.skip(1), value), other);
    }
}

/// The values of a list of documents.
pub open spec fn items_view(items: Seq<Json>) -> Seq<JsonView> {
    Seq::new(items.len(), |i: int| items[i]@)
}

/// The documents that a list of values of `serde_json` holds.
pub open spec fn values_model(items: Seq<serde_json::Value>) -> Seq<JsonView> {
    Seq::new(items.len(), |i: int| value_model(items[i]))
}

/// The names that a path is made of.
pub open spec fn path_view(path: Seq<String>) -> Seq<Seq<char>> {
    Seq::new(path.len(), |i: int| path[i]@)
}

impl View for Json {
    type V = JsonView;

    open spec fn view(&self) -> JsonView {
        match self {
            Json::Null => JsonView::Null,
            Json::Bool(b) => JsonView::Bool(*b),
            Json::Number(n) => JsonView::Number(*n),
            Json::String(text) => JsonView::String(text@),
            Json::Array(items) => JsonView::Array(values_model(items@)),
            Json::Object(members) => JsonView::Object(map_model(*members)),
        }
    }
}

/// The value of an optional document.
pub open spec fn option_view(doc: Option<Json>) -> Option<JsonView> {
    match doc {
        Some(d) => Some(d@),
        None => None,
    }
}

/// The document that `bytes` hold as JSON text; `None` where they hold none.
pub open spec fn json_parse(bytes: Seq<u8>) -> Option<JsonView> {
    match value_parse(bytes) {
        Some(value) => Some(value_model(value)),
        None => None,
    }
}

/// The JSON text of a document.
pub open spec fn json_text(doc: JsonView) -> Seq<char> {
    value_text(value_of(doc))
}

/// Calls `serde_json::Number::as_u64`. The result is named by `number_u64`:
/// it depends on the number alone.
#[verifier::external_body]
fn number_as_u64(n: &serde_json::Number) -> (r: Option<u64>)
    ensures
        r == number_u64(*n),
{
    n.as_u64()
}

/// Calls `serde_json::Number::as_i64`. The result is named by `number_i64`:
/// it depends on the number alone.
#[verifier::external_body]
fn number_as_i64(n: &serde_json::Number) -> (r: Option<i64>)
    ensures
        r == number_i64(*n),
{
    n.as_i64()
}

/// Makes a number with `serde_json::Number::from`. The result is named by
/// `number_of`. The number holds `n` as an unsigned integer, so that
/// `as_u64` gives `n` back.
#[verifier::external_body]
fn number_from_u64(n: u64) -> (r: serde_json::Number)
    ensures
        r == number_of(n),
        number_u64(r) == Some(n),
{
    serde_json::Number::from(n)
}

/// Copies a number with the `Clone` of `serde_json::Number`: the copy is the
/// same number.
#[verifier::external_body]
fn number_clone(n: &serde_json::Number) -> (r: serde_json::Number)
    ensures
        r == *n,
{
    n.clone()
}

/// Copies a value with the `Clone` of `serde_json::Value`: the copy is the
/// same value.
#[verifier::external_body]
fn value_clone(value: &serde_json::Value) -> (r: serde_json::Value)
    ensures
        r == *value,
{
    value.clone()
}

/// Copies a map with the `Clone` of `serde_json::Map`: the copy is the same
/// map.
#[verifier::external_body]
fn map_clone(members: &serde_json::Map<String, serde_json::Value>) -> (r: serde_json::Map<
    String,
    serde_json::Value,
>)
    ensures
        r == *members,
{
    members.clone()
}

/// Makes a map with `serde_json::Map::new`: it holds no member.
#[verifier::external_body]
fn map_new() -> (r: serde_json::Map<String, serde_json::Value>)
    ensures
        JsonView::Object(map_model(r)) == JsonView::empty_object(),
{
    serde_json::Map::new()
}

/// Looks a name up with `serde_json::Map::get`: the value of the member of
/// that name, where the map holds one.
#[verifier::external_body]
fn map_get<'a>(members: &'a serde_json::Map<String, serde_json::Value>, key: &str) -> (r: Option<
    &'a serde_json::Value,
>)
    ensures
        match r {
            Some(value) => map_model(*members).dom().contains(key@) && map_model(
                *members,
            )[key@] == value_model(*value),
            None => !map_model(*members).dom().contains(key@),
        },
{
    members.get(key)
}

/// Sets a member with `serde_json::Map::insert`: the map then holds the
/// value under the name, in the place of what it held under it, and its
/// other members as before.
#[verifier::external_body]
fn map_insert(
    members: &mut serde_json::Map<String, serde_json::Value>,
    key: String,
    value: serde_json::Value,
)
    ensures
        map_model(*final(members)) == map_model(*old(members)).insert(key@, value_model(value)),
{
    members.insert(key, value);
}

/// Takes a member out with `serde_json::Map::remove`: the map then holds no
/// member of the name, and its other members as before.
#[verifier::external_body]
fn map_remove(members: &mut serde_json::Map<String, serde_json::Value>, key: &str)
    ensures
        map_model(*final(members)) == map_model(*old(members)).remove(key@),
{
    members.remove(key);
}

/// Calls `serde_json::from_slice` for a `serde_json::Value`. The result is
/// named by `value_parse`: it depends on the bytes alone, and is `None` where
/// `serde_json` reports an error.
#[verifier::external_body]
fn parse_value(bytes: &[u8]) -> (r: Option<serde_json::Value>)
    ensures
        r == value_parse(bytes@),
{
    serde_json::from_slice::<serde_json::Value>(bytes).ok()
}

/// Tells the kinds of a `serde_json::Value` apart, variant by variant. The
/// document that the value holds is named by `value_model`; it is the
/// document that is returned.
#[verifier::external_body]
fn unpack(value: serde_json::Value) -> (r: Json)
    ensures
        r@ == value_model(value),
{
    match value {
        serde_json::Value::Null => Json::Null,
        serde_json::Value::Bool(b) => Json::Bool(b),
        serde_json::Value::Number(n) => Json::Number(n),
        serde_json::Value::String(s) => Json::String(s),
        serde_json::Value::Array(a) => Json::Array(a),
        serde_json::Value::Object(m) => Json::Object(m),
    }
}

/// Makes the `serde_json::Value` of a document, variant by variant. The
/// result is named by `value_of`: it depends on the document alone, and
/// holds the document.
#[verifier::external_body]
fn pack(doc: &Json) -> (r: serde_json::Value)
    ensures
        r == value_of(doc@),
        value_model(r) == doc@,
{
    match doc {
        Json::Null => serde_json::Value::Null,
        Json::Bool(b) => serde_json::Value::Bool(*b),
        Json::Number(n) => serde_json::Value::Number(n.clone()),
        Json::String(s) => serde_json::Value::String(s.clone()),
        Json::Array(a) => serde_json::Value::Array(a.clone()),
        Json::Object(m) => serde_json::Value::Object(m.clone()),
    }
}

/// Prints a value with the `Display` of `serde_json::Value`, which writes
/// compact JSON text. The result is named by `value_text`: it depends on the
/// value alone.
#[verifier::external_body]
fn write_value(value: &serde_json::Value) -> (r: String)
    ensures
        r@ == value_text(*value),
{
    value.to_string()
}

impl Clone for Json {
    fn clone(&self) -> (r: Self)
        ensures
            r@ == self@,
    {
        match self {
            Json::Null => Json::Null,
            Json::Bool(b) => Json::Bool(*b),
            Json::Number(n) => Json::Number(number_clone(n)),
            Json::String(text) => Json::String(text.clone()),
            Json::Array(items) => {
                let mut copy: Vec<serde_json::Value> = Vec::new();
                let mut i: usize = 0;
                while i < items.len()
                    invariant
                        i <= items.len(),
                        copy.len() == i,
                        forall|j: int| 0 <= j < i ==> copy@[j] == items@[j],
                    decreases items.len() - i,
                {
                    copy.push(value_clone(&items[i]));
                    i += 1;
                }
                assert(values_model(copy@) =~= values_model(items@));
                Json::Array(copy)
            },
            Json::Object(members) => Json::Object(map_clone(members)),
        }
    }
}

/// A copy of an optional document.
pub fn clone_option(doc: &Option<Json>) -> (r: Option<Json>)
    ensures
        option_view(r) == option_view(*doc),
{
    match doc {
        Some(d) => Some(d.clone()),
        None => None,
    }
}

impl Json {
    /// The object without members.
    pub fn object() -> (r: Json)
        ensures
            r@ == JsonView::empty_object(),
    {
        Json::Object(map_new())
    }

    /// The string document of `text`.
    pub fn string(text: &str) -> (r: Json)
        ensures
            r@ == JsonView::String(text@),
    {
        Json::String(text.to_owned())
    }

    /// The number document of `n`, which is read as `n`.
    pub fn number(n: u64) -> (r: Json)
        ensures
            r@ == JsonView::Number(number_of(n)),
            r@.as_u64() == Some(n),
    {
        Json::Number(number_from_u64(n))
    }

    /// The array of `items`.
    pub fn array(items: Vec<Json>) -> (r: Json)
        ensures
            r@ == JsonView::Array(items_view(items@)),
    {
        let mut values: Vec<serde_json::Value> = Vec::new();
        let mut i: usize = 0;
        while i < items.len()
            invariant
                i <= items.len(),
                values.len() == i,
                forall|j: int| 0 <= j < i ==> value_model(values@[j]) == items@[j]@,
            decreases items.len() - i,
        {
            values.push(pack(&items[i]));
            i += 1;
        }
        assert(values_model(values@) =~= items_view(items@));
        Json::Array(values)
    }

    /// The array of the string documents of `texts`.
    pub fn strings(texts: &Vec<String>) -> (r: Json)
        ensures
            r@ == JsonView::Array(Seq::new(texts@.len(), |i: int| JsonView::String(texts@[i]@))),
    {
        let mut items: Vec<Json> = Vec::new();
        let mut i: usize = 0;
        while i < texts.len()
            invariant
                i <= texts.len(),
                items.len() == i,
                forall|j: int| 0 <= j < i ==> items@[j]@ == JsonView::String(texts@[j]@),
            decreases texts.len() - i,
        {
            items.push(Json::String(texts[i].clone()));
            i += 1;
        }
        assert(items_view(items@) =~= Seq::new(
            texts@.len(),
            |i: int| JsonView::String(texts@[i]@),
        ));
        Json::array(items)
    }

    /// The items of an array; `None` for any other document.
    pub fn items(&self) -> (r: Option<Vec<Json>>)
        ensures
            match r {
                Some(items) => self@ == JsonView::Array(items_view(items@)),
                None => !(self@ is Array),
            },
    {
        match self {
            Json::Array(values) => {
                let mut items: Vec<Json> = Vec::new();
                let mut i: usize = 0;
                while i < values.len()
                    invariant
                        i <= values.len(),
                        items.len() == i,
                        forall|j: int| 0 <= j < i ==> items@[j]@ == value_model(values@[j]),
                    decreases values.len() - i,
                {
                    items.push(unpack(value_clone(&values[i])));
                    i += 1;
                }
                assert(items_view(items@) =~= values_model(values@));
                Some(items)
            },
            _ => None,
        }
    }

    /// Whether the document is `null`.
    pub fn is_null(&self) -> (r: bool)
        ensures
            r == (self@ == JsonView::Null),
    {
        match self {
            Json::Null => true,
            _ => false,
        }
    }

    /// Whether the document is an object.
    pub fn is_object(&self) -> (r: bool)
        ensures
            r == (self@ is Object),
    {
        match self {
            Json::Object(_) => true,
            _ => false,
        }
    }

    /// The number as an unsigned integer of 64 bits, where the document is a
    /// number that is one.
    pub fn as_u64(&self) -> (r: Option<u64>)
        ensures
            r == self@.as_u64(),
    {
        match self {
            Json::Number(n) => number_as_u64(n),
            _ => None,
        }
    }

    /// The number as a signed integer of 64 bits, where the document is a
    /// number that is one.
    pub fn as_i64(&self) -> (r: Option<i64>)
        ensures
            r == self@.as_i64(),
    {
        match self {
            Json::Number(n) => number_as_i64(n),
            _ => None,
        }
    }

    /// The text of a string document.
    pub fn as_str(&self) -> (r: Option<&str>)
        ensures
            match r {
                Some(text) => self@.as_str() == Some(text@),
                None => self@.as_str() is None,
            },
    {
        match self {
            Json::String(text) => Some(text.as_str()),
            _ => None,
        }
    }

    /// Whether the document is an object with a member named `key`.
    pub fn contains_key(&self, key: &str) -> (r: bool)
        ensures
            r == self@.has(key@),
    {
        match self {
            Json::Object(members) => map_get(members, key).is_some(),
            _ => false,
        }
    }

    /// The value of the member named `key`, where the document is an object
    /// that has one.
    pub fn get(&self, key: &str) -> (r: Option<Json>)
        ensures
            option_view(r) == self@.get(key@),
    {
        match self {
            Json::Object(members) => match map_get(members, key) {
                Some(value) => Some(unpack(value_clone(value))),
                None => None,
            },
            _ => None,
        }
    }

    /// Sets the member named `key` of an object to `value`.
    pub fn insert(&mut self, key: &str, value: Json)
        ensures
            final(self)@ == old(self)@.insert(key@, value@),
    {
        match self {
            Json::Object(members) => {
                map_insert(members, key.to_owned(), pack(&value));
            },
            _ => {},
        }
    }

    /// The document with `value` in the place that `path` leads to from
    /// `path[from]` on. Where the path leads nowhere, the document is
    /// returned as it is.
    pub fn replace_at(&self, path: &Vec<String>, from: usize, value: Json) -> (r: Json)
        requires
            from <= path.len(),
        ensures
            r@ == self@.replace_at(path_view(path@).skip(from as int), value@),
        decreases path.len() - from,
    {
        let ghost rest = path_view(path@).skip(from as int);
        if from == path.len() {
            value
        } else {
            proof {
                assert(rest[0] == path@[from as int]@);
                assert(rest.skip(1) =~= path_view(path@).skip(from as int + 1));
            }
            match self.get(path[from].as_str()) {
                Some(child) => {
                    let replaced = child.replace_at(path, from + 1, value);
                    let mut copy = self.clone();
                    copy.insert(path[from].as_str(), replaced);
                    copy
                },
                None => self.clone(),
            }
        }
    }

    /// Takes the member named `key` out of an object.
    pub fn remove(&mut self, key: &str)
        ensures
            final(self)@ == old(self)@.remove(key@),
    {
        match self {
            Json::Object(members) => {
                map_remove(members, key);
            },
            _ => {},
        }
    }

    /// Reads a document from JSON text. The result is `None` where the bytes
    /// are not the text of one document.
    pub fn parse(bytes: &[u8]) -> (r: Option<Json>)
        ensures
            option_view(r) == json_parse(bytes@),
    {
        match parse_value(bytes) {
            Some(value) => Some(unpack(value)),
            None => None,
        }
    }

    /// Writes the document as JSON text.
    pub fn to_text(&self) -> (r: String)
        ensures
            r@ == json_text(self@),
    {
        let value = pack(self);
        write_value(&value)
    }
}

} // verus!
