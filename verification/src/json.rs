//! Reading JSON documents produced by the language model and by the model
//! store.  Parsing is done by `serde_json`; the library reads members of the
//! parsed document through the wrappers below.
use vstd::prelude::*;

verus! {

/// A JSON value as `serde_json` parses it.  A number is kept as the text that
/// `serde_json::Number` displays (its shortest round-trip decimal form).
pub enum JsonData {
    Null,
    Bool(bool),
    Number(Seq<char>),
    Str(Seq<char>),
    Array(Seq<JsonData>),
    /// The members of an object, one per key.
    Object(Seq<(Seq<char>, JsonData)>),
}

/// The value `serde_json::from_str::<serde_json::Value>` parses from `text`,
/// or `None` when it reports an error.
pub uninterp spec fn json_document(text: Seq<char>) -> Option<JsonData>;

/// The value stored under `key` among the members of an object.
pub open spec fn lookup(entries: Seq<(Seq<char>, JsonData)>, key: Seq<char>) -> Option<JsonData>
    decreases entries.len(),
{
    if entries.len() == 0 {
        None
    } else if entries[0].0 == key {
        Some(entries[0].1)
    } else {
        lookup(entries.drop_first(), key)
    }
}

/// `Value::get` with a string key: the member of an object, `None` for any
/// other value.
pub open spec fn member(d: JsonData, key: Seq<char>) -> Option<JsonData> {
    match d {
        JsonData::Object(entries) => lookup(entries, key),
        _ => None,
    }
}

/// What the library reads of a member: a string, a number (as text), some
/// other value, or nothing.
#[derive(Debug)]
pub enum JsonScalar {
    /// No such member.
    Absent,
    /// A string member.
    Str(String),
    /// A number member, as the text `serde_json::Number` displays.
    Number(String),
    /// A member that is neither a string nor a number.
    Other,
}

/// The view of a [`JsonScalar`].
pub enum ScalarView {
    Absent,
    Str(Seq<char>),
    Number(Seq<char>),
    Other,
}

impl View for JsonScalar {
    type V = ScalarView;

    open spec fn view(&self) -> ScalarView {
        match self {
            JsonScalar::Absent => ScalarView::Absent,
            JsonScalar::Str(s) => ScalarView::Str(s@),
            JsonScalar::Number(s) => ScalarView::Number(s@),
            JsonScalar::Other => ScalarView::Other,
        }
    }
}

/// How a member reads.
pub open spec fn scalar_of(m: Option<JsonData>) -> ScalarView {
    match m {
        None => ScalarView::Absent,
        Some(JsonData::Str(s)) => ScalarView::Str(s),
        Some(JsonData::Number(t)) => ScalarView::Number(t),
        Some(_) => ScalarView::Other,
    }
}

/// The views of a row of scalars.
pub open spec fn scalars_view(v: Seq<JsonScalar>) -> Seq<ScalarView> {
    v.map_values(|s: JsonScalar| s@)
}

/// The views of several rows of scalars.
pub open spec fn scalar_rows_view(v: Seq<Vec<JsonScalar>>) -> Seq<Seq<ScalarView>> {
    v.map_values(|row: Vec<JsonScalar>| scalars_view(row@))
}

/// The members `keys` of the parsed document, or `None` when the text does
/// not parse.
pub open spec fn document_members(text: Seq<char>, keys: Seq<Seq<char>>) -> Option<
    Seq<ScalarView>,
> {
    match json_document(text) {
        Some(d) => Some(members_of(d, keys)),
        None => None,
    }
}

/// The members `keys` of a value, in the order of `keys`.
pub open spec fn members_of(d: JsonData, keys: Seq<Seq<char>>) -> Seq<ScalarView> {
    keys.map_values(|k: Seq<char>| scalar_of(member(d, k)))
}

/// The members `keys` of each element of the array stored under `array_key`,
/// or `None` when the text does not parse or that member is not an array.
pub open spec fn array_members(text: Seq<char>, array_key: Seq<char>, keys: Seq<Seq<char>>) -> Option<
    Seq<Seq<ScalarView>>,
> {
    match json_document(text) {
        Some(d) => match member(d, array_key) {
            Some(JsonData::Array(items)) => Some(
                items.map_values(|it: JsonData| members_of(it, keys)),
            ),
            _ => None,
        },
        None => None,
    }
}

/// Parses `text` with `serde_json::from_str::<serde_json::Value>` and reads the
/// members `keys` with `Value::get`: strings and numbers by their text,
/// anything else as `Other`, a missing member as `Absent`.  `None` when the
/// text does not parse.
#[verifier::external_body]
pub(crate) fn json_members(text: &str, keys: &Vec<String>) -> (r: Option<Vec<JsonScalar>>)
    ensures
        match json_document(text@) {
            Some(d) => r is Some && scalars_view(r->0@) == members_of(d, keys.deep_view()),
            None => r is None,
        },
{
    let v: serde_json::Value = serde_json::from_str(text).ok()?;
    Some(keys.iter().map(|k| match v.get(k.as_str()) {
        Some(serde_json::Value::String(s)) => JsonScalar::Str(s.clone()),
        Some(serde_json::Value::Number(n)) => JsonScalar::Number(n.to_string()),
        Some(_) => JsonScalar::Other,
        None => JsonScalar::Absent,
    }).collect())
}

/// Parses `text` with `serde_json::from_str::<serde_json::Value>`, takes the
/// array under `array_key` (`Value::get`, `Value::as_array`) and reads the
/// members `keys` of each of its elements as `json_members` does.  `None`
/// when the text does not parse or that member is not an array.
#[verifier::external_body]
pub(crate) fn json_array_members(text: &str, array_key: &str, keys: &Vec<String>) -> (r: Option<
    Vec<Vec<JsonScalar>>,
>)
    ensures
        match json_document(text@) {
            Some(d) => match member(d, array_key@) {
                Some(JsonData::Array(items)) => r is Some && scalar_rows_view(r->0@)
                    == items.map_values(|it: JsonData| members_of(it, keys.deep_view())),
                _ => r is None,
            },
            None => r is None,
        },
{
    let v: serde_json::Value = serde_json::from_str(text).ok()?;
    let items = v.get(array_key)?.as_array()?;
    Some(items.iter().map(|item| keys.iter().map(|k| match item.get(k.as_str()) {
        Some(serde_json::Value::String(s)) => JsonScalar::Str(s.clone()),
        Some(serde_json::Value::Number(n)) => JsonScalar::Number(n.to_string()),
        Some(_) => JsonScalar::Other,
        None => JsonScalar::Absent,
    }).collect()).collect())
}

} // verus!
