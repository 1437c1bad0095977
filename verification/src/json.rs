//! The JSON documents of `serde_json`, as this library sees them.
//!
//! A `serde_json::Value` is opaque to the verifier. What it holds is named by
//! [`value_model`], a mathematical tree, and every contract in this module states
//! what one function of `serde_json` does in terms of that tree. None of these
//! contracts is proved: they are read off the source of `serde_json`, built with
//! its default features (objects keep their keys in a `BTreeMap`).

use vstd::prelude::*;

verus! {

/// `serde_json::Value`, a JSON document. Nothing inside it is visible here.
#[verifier::external_type_specification]
#[verifier::external_body]
pub struct ExValue(serde_json::Value);

/// `serde_json::Map`, the members of a JSON object.
#[verifier::external_type_specification]
#[verifier::external_body]
#[verifier::reject_recursive_types(K)]
#[verifier::reject_recursive_types(V)]
pub struct ExObject<K, V>(serde_json::Map<K, V>);

/// `serde_json::Number`, a JSON number. It is carried through and never read.
#[verifier::external_type_specification]
#[verifier::external_body]
pub struct ExNumber(serde_json::Number);

/// `serde_json::Error`, what the parser and the serializer fail with.
#[verifier::external_type_specification]
#[verifier::external_body]
pub struct ExJsonError(serde_json::Error);

/// A JSON document as a mathematical value.
pub ghost enum JsonModel {
    Null,
    Bool(bool),
    Number(serde_json::Number),
    Text(Seq<char>),
    Array(Seq<JsonModel>),
    Object(Map<Seq<char>, JsonModel>),
}

/// The document that a `serde_json::Value` holds.
pub uninterp spec fn value_model(v: serde_json::Value) -> JsonModel;

/// The members that a `serde_json::Map` holds, by key.
pub uninterp spec fn object_model(m: serde_json::Map<String, serde_json::Value>) -> Map<Seq<char>, JsonModel>;

/// The document that `serde_json::from_str` reads from a text, `None` where it
/// rejects the text.
pub uninterp spec fn parsed_json(text: Seq<char>) -> Option<JsonModel>;

/// The text that `serde_json::to_string_pretty` writes for a document, `None`
/// where it reports an error.
pub uninterp spec fn pretty_json(doc: JsonModel) -> Option<Seq<char>>;

/// `serde_json::from_str` at type `Value`: the result is a function of the text
/// alone, an error exactly where [`parsed_json`] is `None`.
#[verifier::external_body]
pub(crate) fn parse(text: &str) -> (r: Result<serde_json::Value, serde_json::Error>)
    ensures
        match r {
            Ok(v) => parsed_json(text@) == Some(value_model(v)),
            Err(_) => parsed_json(text@) is None,
        },
{
    serde_json::from_str::<serde_json::Value>(text)
}

/// `serde_json::to_string_pretty` on a `Value`: the text is a function of the
/// document alone, an error exactly where [`pretty_json`] is `None`.
#[verifier::external_body]
pub(crate) fn to_pretty(v: &serde_json::Value) -> (r: Result<String, serde_json::Error>)
    ensures
        match r {
            Ok(s) => pretty_json(value_model(*v)) == Some(s@),
            Err(_) => pretty_json(value_model(*v)) is None,
        },
{
    serde_json::to_string_pretty(v)
}

/// The `Display` text of a `serde_json::Error`. Nothing is claimed of it.
#[verifier::external_body]
pub(crate) fn error_message(e: &serde_json::Error) -> (r: String) {
    format!("{}", e)
}

/// Takes the map out of a `Value::Object`, and hands any other value back as
/// it came.
#[verifier::external_body]
pub(crate) fn into_object(v: serde_json::Value) -> (r: Result<
    serde_json::Map<String, serde_json::Value>,
    serde_json::Value,
>)
    ensures
        match r {
            Ok(m) => value_model(v) == JsonModel::Object(object_model(m)),
            Err(other) => value_model(other) == value_model(v) && !(value_model(v) is Object),
        },
{
    match v {
        serde_json::Value::Object(m) => Ok(m),
        other => Err(other),
    }
}

/// `Value::Object` applied to a map: the object with that map's members.
#[verifier::external_body]
pub(crate) fn object_value(m: serde_json::Map<String, serde_json::Value>) -> (r: serde_json::Value)
    ensures
        value_model(r) == JsonModel::Object(object_model(m)),
{
    serde_json::Value::Object(m)
}

/// `Value::as_object`: the map of an object, `None` for any other value.
pub assume_specification[ serde_json::Value::as_object ](v: &serde_json::Value) -> (r: Option<
    &serde_json::Map<String, serde_json::Value>,
>)
    ensures
        match r {
            Some(m) => value_model(*v) == JsonModel::Object(object_model(*m)),
            None => !(value_model(*v) is Object),
        },
;

/// `Value::as_str`: the text of a string, `None` for any other value.
pub assume_specification[ serde_json::Value::as_str ](v: &serde_json::Value) -> (r: Option<&str>)
    ensures
        match r {
            Some(s) => value_model(*v) == JsonModel::Text(s@),
            None => !(value_model(*v) is Text),
        },
;

/// `Map::get` with a `&str` key: the member under that key, if there is one.
#[verifier::external_body]
pub(crate) fn object_get<'a>(m: &'a serde_json::Map<String, serde_json::Value>, key: &str) -> (r:
    Option<&'a serde_json::Value>)
    ensures
        match r {
            Some(v) => object_model(*m).contains_key(key@) && object_model(*m)[key@]
                == value_model(*v),
            None => !object_model(*m).contains_key(key@),
        },
{
    m.get(key)
}

/// `Map::remove` with a `&str` key: the member under that key leaves the map
/// and is returned; the other members stay.
#[verifier::external_body]
pub(crate) fn object_remove(m: &mut serde_json::Map<String, serde_json::Value>, key: &str) -> (r:
    Option<serde_json::Value>)
    ensures
        object_model(*final(m)) == object_model(*old(m)).remove(key@),
        match r {
            Some(v) => object_model(*old(m)).contains_key(key@) && object_model(*old(m))[key@]
                == value_model(v),
            None => !object_model(*old(m)).contains_key(key@),
        },
{
    m.remove(key)
}

/// `Map::insert`: the value stands under the key afterwards, in place of any
/// member that stood there, which is returned; the other members stay.
pub assume_specification[ serde_json::Map::<String, serde_json::Value>::insert ](
    m: &mut serde_json::Map<String, serde_json::Value>,
    k: String,
    v: serde_json::Value,
) -> (r: Option<serde_json::Value>)
    ensures
        object_model(*final(m)) == object_model(*old(m)).insert(k@, value_model(v)),
        match r {
            Some(earlier) => object_model(*old(m)).contains_key(k@) && object_model(*old(m))[k@]
                == value_model(earlier),
            None => !object_model(*old(m)).contains_key(k@),
        },
;

/// `Map::is_empty`: whether the map has no member.
pub assume_specification[ serde_json::Map::<String, serde_json::Value>::is_empty ](
    m: &serde_json::Map<String, serde_json::Value>,
) -> (r: bool)
    ensures
        r == (forall|k: Seq<char>| !object_model(*m).contains_key(k)),
;

/// The keys of a map, copied out through `Map::keys`: every key of the map
/// once, and nothing else.
#[verifier::external_body]
pub(crate) fn object_keys(m: &serde_json::Map<String, serde_json::Value>) -> (r: Vec<String>)
    ensures
        forall|i: int| 0 <= i < r@.len() ==> object_model(*m).contains_key(#[trigger] r@[i]@),
        forall|k: Seq<char>| object_model(*m).contains_key(k) ==> exists|i: int| 0 <= i < r@.len() && #[trigger] r@[i]@ == k,
        forall|i: int, j: int| 0 <= i < j < r@.len() ==> r@[i]@ != r@[j]@,
{
    m.keys().cloned().collect()
}

} // verus!
