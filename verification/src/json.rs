//! JSON objects as the control messages use them: named fields with scalar
//! values. Reading and writing the text is left to `serde_json`.
use serde_json::Value;
use vstd::prelude::*;

verus! {

/// The value of a field of a JSON object.
#[derive(Debug, Clone, PartialEq)]
pub enum Json {
    Null,
    Bool(bool),
    /// A number without fraction or exponent between `i64::MIN` and `u64::MAX`.
    Integer(i128),
    /// Any other number, as `serde_json` writes it.
    Fraction(String),
    Text(String),
    Array,
    /// An object with so many fields.
    Object(usize),
}

/// The mathematical content of a [`Json`].
pub enum JsonView {
    Null,
    Bool(bool),
    Integer(int),
    Fraction(Seq<char>),
    Text(Seq<char>),
    Array,
    Object(nat),
}

impl View for Json {
    type V = JsonView;

    open spec fn view(&self) -> JsonView {
        match self {
            Json::Null => JsonView::Null,
            Json::Bool(b) => JsonView::Bool(*b),
            Json::Integer(n) => JsonView::Integer(*n as int),
            Json::Fraction(s) => JsonView::Fraction(s@),
            Json::Text(s) => JsonView::Text(s@),
            Json::Array => JsonView::Array,
            Json::Object(n) => JsonView::Object(*n as nat),
        }
    }
}

/// The fields of an object, in order.
pub type Fields = Seq<(Seq<char>, JsonView)>;

/// The content of a list of fields.
pub open spec fn fields_view(fields: Seq<(String, Json)>) -> Fields {
    fields.map_values(|f: (String, Json)| (f.0@, f.1@))
}

/// The value of the first field named `key`.
pub open spec fn lookup(fields: Fields, key: Seq<char>) -> Option<JsonView>
    decreases fields.len(),
{
    if fields.len() == 0 {
        None
    } else if fields[0].0 == key {
        Some(fields[0].1)
    } else {
        lookup(fields.drop_first(), key)
    }
}

/// Whether `serde_json` can write the value and read it back: scalars only, and
/// integers that fit its number type.
pub open spec fn writable(value: JsonView) -> bool {
    match value {
        JsonView::Null => true,
        JsonView::Bool(_) => true,
        JsonView::Integer(n) => i64::MIN <= n <= u64::MAX,
        JsonView::Text(_) => true,
        JsonView::Fraction(_) => false,
        JsonView::Array => false,
        JsonView::Object(_) => false,
    }
}

/// Whether no two fields have the same name.
pub open spec fn distinct_names(fields: Fields) -> bool {
    forall|i: int, j: int|
        0 <= i < j < fields.len() ==> (#[trigger] fields[i]).0 != (#[trigger] fields[j]).0
}

/// What `serde_json` reads from a text: the fields of an object, `None` for any
/// other value, or the description of the error.
pub uninterp spec fn json_read(text: Seq<u8>) -> Result<Option<Fields>, Seq<char>>;

/// The text that `serde_json` writes for an object with these fields.
pub uninterp spec fn json_written(fields: Fields) -> Seq<u8>;

/// A text that holds an object with these fields.
pub open spec fn object_of(fields: Fields) -> Result<Option<Fields>, Seq<char>> {
    Ok(Some(fields))
}

/// The content of the outcome of a reading.
pub open spec fn read_view(r: Result<Option<Vec<(String, Json)>>, String>) -> Result<
    Option<Fields>,
    Seq<char>,
> {
    match r {
        Ok(Some(fields)) => Ok(Some(fields_view(fields@))),
        Ok(None) => Ok(None),
        Err(e) => Err(e@),
    }
}

/// Reads a JSON text with `serde_json::from_slice`.
///
/// Trusted: the outcome depends on the text alone. An object comes back as its
/// fields; a value that is no object as `None`; a text that is no JSON as the
/// error's description. Numbers are told apart by `Number::as_i128`; of a nested
/// object the number of its fields is kept.
#[verifier::external_body]
pub(crate) fn read_object(text: &[u8]) -> (r: Result<Option<Vec<(String, Json)>>, String>)
    ensures
        json_read(text@) == read_view(r),
{
    let convert = |value: Value| match value {
        Value::Null => Json::Null,
        Value::Bool(b) => Json::Bool(b),
        Value::Number(n) => n.as_i128().map_or(Json::Fraction(n.to_string()), Json::Integer),
        Value::String(s) => Json::Text(s),
        Value::Array(_) => Json::Array,
        Value::Object(o) => Json::Object(o.len()),
    };
    match serde_json::from_slice::<Value>(text) {
        Ok(Value::Object(map)) => Ok(Some(map.into_iter().map(|(k, v)| (k, convert(v))).collect())),
        Ok(_) => Ok(None),
        Err(e) => Err(e.to_string()),
    }
}

/// What `serde_json` reads as the fields of the object that is the field `name` of
/// the object in a text; `None` if there is no such object.
pub uninterp spec fn json_member(text: Seq<u8>, name: Seq<char>) -> Option<Fields>;

/// The content of the fields of an object that may not be there.
pub open spec fn member_view(member: Option<Vec<(String, Json)>>) -> Option<Fields> {
    match member {
        Some(fields) => Some(fields_view(fields@)),
        None => None,
    }
}

/// Reads the fields of an object inside the object in a JSON text, with
/// `serde_json::from_slice` and `Value::get_mut`.
///
/// Trusted: the outcome depends on the text and the name alone. Values are told
/// apart as in [`read_object`].
#[verifier::external_body]
pub(crate) fn read_member(text: &[u8], name: &str) -> (member: Option<Vec<(String, Json)>>)
    ensures
        json_member(text@, name@) == member_view(member),
{
    let convert = |value: Value| match value {
        Value::Null => Json::Null,
        Value::Bool(b) => Json::Bool(b),
        Value::Number(n) => n.as_i128().map_or(Json::Fraction(n.to_string()), Json::Integer),
        Value::String(s) => Json::Text(s),
        Value::Array(_) => Json::Array,
        Value::Object(o) => Json::Object(o.len()),
    };
    match serde_json::from_slice::<Value>(text).ok()?.get_mut(name)?.take() {
        Value::Object(map) => Some(map.into_iter().map(|(k, v)| (k, convert(v))).collect()),
        _ => None,
    }
}

/// Writes a JSON object with `serde_json::to_vec`.
///
/// Trusted: the text depends on the fields alone, and reading it gives the same
/// fields back in the same order. Fields must have different names, and values of
/// the kinds that are not [`writable`] never get here.
#[verifier::external_body]
pub(crate) fn write_object(fields: Vec<(String, Json)>) -> (text: Vec<u8>)
    requires
        distinct_names(fields_view(fields@)),
        forall|i: int| 0 <= i < fields@.len() ==> writable((#[trigger] fields@[i]).1@),
    ensures
        text@ == json_written(fields_view(fields@)),
        json_read(text@) == object_of(fields_view(fields@)),
{
    let convert = |(name, value): (String, Json)| match value {
        Json::Bool(b) => (name, Value::Bool(b)),
        Json::Integer(n) => (name, serde_json::Number::from_i128(n).into()),
        Json::Text(s) => (name, Value::String(s)),
        _ => (name, Value::Null),
    };
    let map: serde_json::Map<String, Value> = fields.into_iter().map(convert).collect();
    serde_json::to_vec(&Value::Object(map)).expect("a JSON object can always be written")
}

/// Finds the first field named `key`.
pub fn find_field<'a>(fields: &'a Vec<(String, Json)>, key: &str) -> (found: Option<&'a Json>)
    ensures
        match found {
            Some(value) => lookup(fields_view(fields@), key@) == Some(value@),
            None => lookup(fields_view(fields@), key@) is None,
        },
{
    let ghost all = fields_view(fields@);
    let mut i: usize = 0;
    assert(all.skip(0) =~= all);
    while i < fields.len()
        invariant
            i <= fields@.len(),
            all == fields_view(fields@),
            lookup(all, key@) == lookup(all.skip(i as int), key@),
        decreases fields@.len() - i,
    {
        assert(all.skip(i as int)[0] == all[i as int]);
        if crate::text::same_text(fields[i].0.as_str(), key) {
            return Some(&fields[i].1);
        }
        assert(all.skip(i as int).drop_first() =~= all.skip(i + 1));
        i = i + 1;
    }
    None
}

} // verus!
