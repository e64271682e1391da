//! JSON values as the language model returns them and as extractions store
//! them. The values themselves stay serde_json's; what the logic reads of a
//! value comes out through [`JsonCell`].
use vstd::prelude::*;

verus! {

#[verifier::external_type_specification]
#[verifier::external_body]
pub struct ExValue(serde_json::Value);

#[verifier::external_type_specification]
#[verifier::external_body]
#[verifier::reject_recursive_types(K)]
#[verifier::reject_recursive_types(V)]
pub struct ExMap<K, V>(serde_json::Map<K, V>);

/// The keys that a JSON object holds.
pub uninterp spec fn json_keys(m: serde_json::Map<String, serde_json::Value>) -> Set<Seq<char>>;

/// Whether serde_json reads a text as exactly one JSON object.
pub uninterp spec fn json_object_text(s: Seq<char>) -> bool;

/// The object serde_json reads from a text that holds one.
pub uninterp spec fn json_object_of(s: Seq<char>) -> serde_json::Map<String, serde_json::Value>;

/// The value an object holds under a key, if any.
pub uninterp spec fn map_get(m: serde_json::Map<String, serde_json::Value>, key: Seq<char>) -> Option<
    serde_json::Value,
>;

/// The value under a key of a JSON value, if it is an object that has the key.
pub uninterp spec fn value_get(v: serde_json::Value, key: Seq<char>) -> Option<serde_json::Value>;

/// The keys of a JSON value that is an object; none for any other value.
pub uninterp spec fn value_keys(v: serde_json::Value) -> Set<Seq<char>>;

/// A JSON string value holding a text.
pub uninterp spec fn string_value(s: Seq<char>) -> serde_json::Value;

/// An object as a JSON value.
pub uninterp spec fn object_value_of(m: serde_json::Map<String, serde_json::Value>) -> serde_json::Value;

/// What a JSON value reads as a cell.
pub uninterp spec fn cell_of(v: serde_json::Value) -> JsonCell;

/// A JSON value as indented JSON text.
pub uninterp spec fn pretty_of(v: serde_json::Value) -> Seq<char>;

/// An optional value read as a cell.
pub open spec fn cell_opt(o: Option<serde_json::Value>) -> Option<JsonCell> {
    match o {
        Some(v) => Some(cell_of(v)),
        None => None,
    }
}

/// One JSON value as a tabular export or the response logic reads it.
#[derive(Debug, Clone)]
pub enum JsonCell {
    /// A string, as it stands.
    Text(String),
    /// A number: its canonical text and, where it has one, the bit pattern of
    /// its value as a double.
    Number(String, Option<u64>),
    Bool(bool),
    Null,
    /// An array or an object, as compact JSON text.
    Nested(String),
}

/// Relies on `serde_json::from_str` into a `Map`: it succeeds exactly on the
/// texts that hold one JSON object.
#[verifier::external_body]
pub(crate) fn parse_json_object(s: &str) -> (r: Option<serde_json::Map<String, serde_json::Value>>)
    ensures
        r is Some <==> json_object_text(s@),
        r matches Some(m) ==> m == json_object_of(s@),
{
    serde_json::from_str::<serde_json::Map<String, serde_json::Value>>(s).ok()
}

/// Relies on `serde_json::Map::new`: an object without keys.
#[verifier::external_body]
pub(crate) fn object_new() -> (r: serde_json::Map<String, serde_json::Value>)
    ensures
        json_keys(r) == Set::<Seq<char>>::empty(),
        forall|k: Seq<char>| #[trigger] map_get(r, k) is None,
{
    serde_json::Map::new()
}

/// Relies on `serde_json::Map::insert` and `Value::String`: the key holds the
/// text afterwards, and no other key is added, removed or changed.
#[verifier::external_body]
pub(crate) fn object_insert_text(m: &mut serde_json::Map<String, serde_json::Value>, key: &str, value: &str)
    ensures
        json_keys(*final(m)) == json_keys(*old(m)).insert(key@),
        map_get(*final(m), key@) == Some(string_value(value@)),
        forall|k: Seq<char>| k != key@ ==> #[trigger] map_get(*final(m), k) == map_get(*old(m), k),
{
    m.insert(key.to_string(), serde_json::Value::String(value.to_string()));
}

/// Relies on `serde_json::Value::Object`: an object as a JSON value.
#[verifier::external_body]
pub(crate) fn object_value(m: serde_json::Map<String, serde_json::Value>) -> (r: serde_json::Value)
    ensures
        r == object_value_of(m),
{
    serde_json::Value::Object(m)
}

/// Relies on `serde_json::Value::get`: the value under a key of an object.
#[verifier::external_body]
pub(crate) fn json_field(v: &serde_json::Value, key: &str) -> (r: Option<serde_json::Value>)
    ensures
        r == value_get(*v, key@),
{
    v.get(key).cloned()
}

/// Relies on `serde_json::Map::get`: the value under a key of an object.
#[verifier::external_body]
pub(crate) fn object_field(m: &serde_json::Map<String, serde_json::Value>, key: &str) -> (r: Option<
    serde_json::Value,
>)
    ensures
        r == map_get(*m, key@),
{
    m.get(key).cloned()
}

/// Relies on `serde_json::Value::as_array`: the items of an array value,
/// none for any other value.
#[verifier::external_body]
pub(crate) fn json_array_items(v: &serde_json::Value) -> (r: Option<Vec<serde_json::Value>>) {
    v.as_array().cloned()
}

/// Relies on `serde_json::Value::as_object` and `Map::keys`: the keys of an
/// object value, none for any other value.
#[verifier::external_body]
pub(crate) fn json_object_keys(v: &serde_json::Value) -> (r: Vec<String>)
    ensures
        forall|i: int| 0 <= i < r@.len() ==> value_keys(*v).contains(#[trigger] r@[i]@),
        forall|x: Seq<char>|
            #[trigger] value_keys(*v).contains(x) ==> exists|i: int| 0 <= i < r@.len() && r@[i]@ == x,
{
    v.as_object().map(|o| o.keys().cloned().collect()).unwrap_or_default()
}

/// Relies on serde_json's variants of `Value` and on `Display` for `Number`
/// and `Value` (compact JSON) and on `Number::as_f64`.
#[verifier::external_body]
pub(crate) fn json_cell(v: &serde_json::Value) -> (r: JsonCell)
    ensures
        r == cell_of(*v),
{
    match v {
        serde_json::Value::String(s) => JsonCell::Text(s.clone()),
        serde_json::Value::Number(n) => JsonCell::Number(n.to_string(), n.as_f64().map(|x| x.to_bits())),
        serde_json::Value::Bool(b) => JsonCell::Bool(*b),
        serde_json::Value::Null => JsonCell::Null,
        _ => JsonCell::Nested(v.to_string()),
    }
}

/// Relies on `serde_json::to_string_pretty`: the value as indented JSON text.
#[verifier::external_body]
pub(crate) fn pretty_json(v: &serde_json::Value) -> (r: String)
    ensures
        r@ == pretty_of(*v),
{
    serde_json::to_string_pretty(v).unwrap_or_default()
}

} // verus!
