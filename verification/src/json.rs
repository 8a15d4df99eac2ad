//! JSON values, as `serde_json` holds them.

use vstd::prelude::*;

verus! {

/// What a JSON value holds.
pub enum JsonTree {
    Null,
    Bool(bool),
    /// A number, by its decimal text.
    Number(Seq<char>),
    Text(Seq<char>),
    Array(Seq<JsonTree>),
    Object(Map<Seq<char>, JsonTree>),
}

impl JsonTree {
    /// The value under a key of an object. A value that is no object has no keys.
    pub open spec fn field(self, key: Seq<char>) -> Option<JsonTree> {
        match self {
            JsonTree::Object(fields) => if fields.contains_key(key) {
                Some(fields[key])
            } else {
                None
            },
            _ => None,
        }
    }

    /// The text of a string.
    pub open spec fn text(self) -> Option<Seq<char>> {
        match self {
            JsonTree::Text(s) => Some(s),
            _ => None,
        }
    }

    /// The items of an array.
    pub open spec fn items(self) -> Option<Seq<JsonTree>> {
        match self {
            JsonTree::Array(items) => Some(items),
            _ => None,
        }
    }

    /// The text of the string under a key.
    pub open spec fn text_field(self, key: Seq<char>) -> Option<Seq<char>> {
        match self.field(key) {
            Some(value) => value.text(),
            None => None,
        }
    }

    /// The items of the array under a key.
    pub open spec fn array_field(self, key: Seq<char>) -> Option<Seq<JsonTree>> {
        match self.field(key) {
            Some(value) => value.items(),
            None => None,
        }
    }
}

/// `serde_json::Value`: a collection of nested JSON values, known only by `json_tree`.
#[verifier::external_type_specification]
#[verifier::external_body]
pub struct ExValue(serde_json::Value);

/// The contents of a `serde_json::Value`: its variant, with the text, items or fields in it.
pub uninterp spec fn json_tree(value: serde_json::Value) -> JsonTree;

/// The contents of a list of values.
pub open spec fn json_trees(values: Seq<serde_json::Value>) -> Seq<JsonTree> {
    values.map_values(|v: serde_json::Value| json_tree(v))
}

/// Whether no two of some key-value pairs have the same key.
pub open spec fn distinct_keys(pairs: Seq<(String, serde_json::Value)>) -> bool {
    forall|i: int, j: int| 0 <= i < j < pairs.len() ==> #[trigger] pairs[i].0@ != #[trigger] pairs[j].0@
}

/// The fields of an object made from key-value pairs with distinct keys.
pub open spec fn object_fields(pairs: Seq<(String, serde_json::Value)>) -> Map<
    Seq<char>,
    JsonTree,
>
    decreases pairs.len(),
{
    if pairs.len() == 0 {
        Map::empty()
    } else {
        object_fields(pairs.drop_last()).insert(pairs.last().0@, json_tree(pairs.last().1))
    }
}

/// What `serde_json::from_str` reads out of a text, or nothing where the text is no JSON that it
/// accepts.
pub uninterp spec fn parsed_json(text: Seq<char>) -> Option<JsonTree>;

/// The bytes that `serde_json::to_vec` writes for a value.
pub uninterp spec fn json_bytes(tree: JsonTree) -> Seq<u8>;

/// `serde_json::from_str`, into a `Value`. Whether the text is accepted and what the value then
/// holds depend on the text alone; which texts those are is only named here, by `parsed_json`.
#[verifier::external_body]
pub(crate) fn parse_json(text: &str) -> (r: Option<serde_json::Value>)
    ensures
        r is Some <==> parsed_json(text@) is Some,
        r matches Some(value) ==> json_tree(value) == parsed_json(text@)->0,
{
    serde_json::from_str(text).ok()
}

/// `serde_json::Value::get` with a string: the value under that key, where the value is an object
/// that has it.
#[verifier::external_body]
pub(crate) fn get_field<'a>(value: &'a serde_json::Value, key: &str) -> (r: Option<
    &'a serde_json::Value,
>)
    ensures
        r is Some <==> json_tree(*value).field(key@) is Some,
        r matches Some(found) ==> json_tree(*found) == json_tree(*value).field(key@)->0,
{
    value.get(key)
}

/// `serde_json::Value::as_str`: the text, where the value is a string.
pub assume_specification[ serde_json::Value::as_str ](value: &serde_json::Value) -> (r: Option<
    &str,
>)
    ensures
        r is Some <==> json_tree(*value).text() is Some,
        r matches Some(s) ==> s@ == json_tree(*value).text()->0,
;

/// `serde_json::Value::as_array`: the items in order, where the value is an array.
pub assume_specification[ serde_json::Value::as_array ](value: &serde_json::Value) -> (r: Option<
    &Vec<serde_json::Value>,
>)
    ensures
        r is Some <==> json_tree(*value).items() is Some,
        r matches Some(items) ==> json_trees(items@) == json_tree(*value).items()->0,
;

/// `serde_json::Value`'s `From<String>`: the string value with that text.
#[verifier::external_body]
pub(crate) fn text_value(text: String) -> (r: serde_json::Value)
    ensures
        json_tree(r) == JsonTree::Text(text@),
{
    serde_json::Value::from(text)
}

/// `serde_json::Value`'s `From<Vec<_>>`: the array value with those items.
#[verifier::external_body]
pub(crate) fn array_value(items: Vec<serde_json::Value>) -> (r: serde_json::Value)
    ensures
        json_tree(r) == JsonTree::Array(json_trees(items@)),
{
    serde_json::Value::from(items)
}

/// `serde_json::Value`'s `FromIterator` over key-value pairs: the object value with those fields.
/// Which of two values with the same key would stay is left out.
#[verifier::external_body]
pub(crate) fn object_value(pairs: Vec<(String, serde_json::Value)>) -> (r: serde_json::Value)
    requires
        distinct_keys(pairs@),
    ensures
        json_tree(r) == JsonTree::Object(object_fields(pairs@)),
{
    serde_json::Value::from_iter(pairs)
}

/// `serde_json::to_vec` on a `Value`, which it never refuses: object keys are always strings and
/// a byte vector takes every write. The bytes depend on the contents alone and are only named
/// here, by `json_bytes`.
#[verifier::external_body]
pub(crate) fn write_json(value: &serde_json::Value) -> (r: Option<Vec<u8>>)
    ensures
        r is Some,
        r->0@ == json_bytes(json_tree(*value)),
{
    serde_json::to_vec(value).ok()
}

/// The text of the string under a key.
pub fn text_field(value: &serde_json::Value, key: &str) -> (r: Option<String>)
    ensures
        crate::text::opt_text(r) == json_tree(*value).text_field(key@),
{
    match get_field(value, key) {
        Some(found) => match found.as_str() {
            Some(s) => Some(s.to_owned()),
            None => None,
        },
        None => None,
    }
}

/// The items of the array under a key.
pub fn array_field<'a>(value: &'a serde_json::Value, key: &str) -> (r: Option<
    &'a Vec<serde_json::Value>,
>)
    ensures
        r is Some <==> json_tree(*value).array_field(key@) is Some,
        r matches Some(items) ==> json_trees(items@) == json_tree(*value).array_field(key@)->0,
{
    match get_field(value, key) {
        Some(found) => found.as_array(),
        None => None,
    }
}

/// The text under a key is that of the string that stands there. Where something else stands there
/// or nothing, or where the value is no object, there is none.
pub proof fn law_text_field(fields: Map<Seq<char>, JsonTree>, key: Seq<char>, value: JsonTree)
    ensures
        JsonTree::Object(fields.insert(key, value)).text_field(key) == match value {
            JsonTree::Text(s) => Some(s),
            _ => None,
        },
        JsonTree::Object(fields.remove(key)).text_field(key) is None,
        !(value is Object) ==> value.text_field(key) is None,
{
}

/// The items under a key are those of the array that stands there. Where something else stands
/// there or nothing, or where the value is no object, there are none.
pub proof fn law_array_field(fields: Map<Seq<char>, JsonTree>, key: Seq<char>, value: JsonTree)
    ensures
        JsonTree::Object(fields.insert(key, value)).array_field(key) == match value {
            JsonTree::Array(items) => Some(items),
            _ => None,
        },
        JsonTree::Object(fields.remove(key)).array_field(key) is None,
        !(value is Object) ==> value.array_field(key) is None,
{
}

} // verus!
