//! The trusted boundary around text decoding and JSON parsing.
//!
//! Everything here either declares an outside type or wraps outside
//! calls.  A parsed document is handed to the rest of the library as a
//! [`JsonDoc`], a tree of plain values; the library's schema logic
//! reads it in verified code, against the named parse result
//! [`doc_of`].

use vstd::prelude::*;

verus! {

#[verifier::external_type_specification]
#[verifier::external_body]
pub struct ExValue(serde_json::Value);

/// A parsed JSON document, as the plain values the schema logic
/// reads.  A number that is not an unsigned 64-bit integer is kept
/// only as [`JsonDoc::OtherNum`]: no field of the completion schema
/// accepts one.  Object fields come in the parser's order, one entry
/// per key.
#[derive(Debug)]
pub enum JsonDoc {
    /// JSON `null`.
    Null,
    /// A JSON boolean.
    Bool(bool),
    /// A JSON number that is an unsigned 64-bit integer.
    UInt(u64),
    /// Any other JSON number.
    OtherNum,
    /// A JSON string.
    Str(String),
    /// A JSON array.
    Arr(Vec<JsonDoc>),
    /// A JSON object.
    Obj(Vec<(String, JsonDoc)>),
}

/// The mathematical value of a [`JsonDoc`].
pub ghost enum JsonVal {
    /// JSON `null`.
    Null,
    /// A JSON boolean.
    Bool(bool),
    /// A JSON number that is an unsigned 64-bit integer.
    UInt(u64),
    /// Any other JSON number.
    OtherNum,
    /// A JSON string.
    Str(Seq<char>),
    /// A JSON array.
    Arr(Seq<JsonVal>),
    /// A JSON object.
    Obj(Seq<(Seq<char>, JsonVal)>),
}

impl DeepView for JsonDoc {
    type V = JsonVal;

    open spec fn deep_view(&self) -> JsonVal
        decreases self,
    {
        match self {
            JsonDoc::Null => JsonVal::Null,
            JsonDoc::Bool(b) => JsonVal::Bool(*b),
            JsonDoc::UInt(n) => JsonVal::UInt(*n),
            JsonDoc::OtherNum => JsonVal::OtherNum,
            JsonDoc::Str(s) => JsonVal::Str(s@),
            JsonDoc::Arr(items) => JsonVal::Arr(arr_view(items@)),
            JsonDoc::Obj(fields) => JsonVal::Obj(obj_view(fields@)),
        }
    }
}

/// The values of a sequence of array elements.
pub open spec fn arr_view(items: Seq<JsonDoc>) -> Seq<JsonVal>
    decreases items,
{
    if items.len() == 0 {
        Seq::empty()
    } else {
        seq![items[0].deep_view()] + arr_view(items.skip(1))
    }
}

/// The values of a sequence of object entries.
pub open spec fn obj_view(fields: Seq<(String, JsonDoc)>) -> Seq<(Seq<char>, JsonVal)>
    decreases fields,
{
    if fields.len() == 0 {
        Seq::empty()
    } else {
        seq![(fields[0].0@, fields[0].1.deep_view())] + obj_view(fields.skip(1))
    }
}

/// `arr_view` is the element-wise value of the sequence.
pub proof fn lemma_arr_view(items: Seq<JsonDoc>)
    ensures
        arr_view(items).len() == items.len(),
        forall|i: int| 0 <= i < items.len() ==> arr_view(items)[i] == items[i].deep_view(),
    decreases items.len(),
{
    if items.len() > 0 {
        lemma_arr_view(items.skip(1));
        let hd = seq![items[0].deep_view()];
        let rest = arr_view(items.skip(1));
        assert(arr_view(items) == hd + rest);
        assert forall|i: int| 0 <= i < items.len() implies arr_view(items)[i]
            == items[i].deep_view() by {
            if i == 0 {
                assert((hd + rest)[0] == items[0].deep_view());
            } else {
                assert((hd + rest)[i] == rest[i - 1]);
                assert(rest[i - 1] == items.skip(1)[i - 1].deep_view());
                assert(items.skip(1)[i - 1] == items[i]);
            }
        }
    }
}

/// `obj_view` is the entry-wise value of the sequence.
pub proof fn lemma_obj_view(fields: Seq<(String, JsonDoc)>)
    ensures
        obj_view(fields).len() == fields.len(),
        forall|i: int|
            0 <= i < fields.len() ==> obj_view(fields)[i] == (
            fields[i].0@,
            fields[i].1.deep_view(),
            ),
    decreases fields.len(),
{
    if fields.len() > 0 {
        lemma_obj_view(fields.skip(1));
        let hd = seq![(fields[0].0@, fields[0].1.deep_view())];
        let rest = obj_view(fields.skip(1));
        assert(obj_view(fields) == hd + rest);
        assert forall|i: int|
            0 <= i < fields.len() implies obj_view(fields)[i] == (
            fields[i].0@,
            fields[i].1.deep_view(),
        ) by {
            if i == 0 {
                assert((hd + rest)[0] == (fields[0].0@, fields[0].1.deep_view()));
            } else {
                assert((hd + rest)[i] == rest[i - 1]);
                assert(rest[i - 1] == (fields.skip(1)[i - 1].0@, fields.skip(1)[i - 1].1.deep_view()));
                assert(fields.skip(1)[i - 1] == fields[i]);
            }
        }
    }
}

/// The text that lossy UTF-8 decoding yields for a byte sequence;
/// a function of the bytes alone.
pub uninterp spec fn lossy_of(bytes: Seq<u8>) -> Seq<char>;

/// Whether the JSON parser accepts a text as a JSON document;
/// a function of the text alone.
pub uninterp spec fn is_valid_json(text: Seq<char>) -> bool;

/// The document the JSON parser yields for a text it accepts;
/// a function of the text alone.
pub uninterp spec fn doc_of(text: Seq<char>) -> JsonVal;

/// Relies on `String::from_utf8_lossy`: decodes bytes as UTF-8,
/// replacing invalid sequences with the replacement character; it
/// never fails, the result depends on the bytes alone, and bytes
/// below 128 decode to the characters with the same codes.
#[verifier::external_body]
pub(crate) fn lossy_string(bytes: &[u8]) -> (s: String)
    ensures
        s@ == lossy_of(bytes@),
        (forall|i: int| 0 <= i < bytes@.len() ==> bytes@[i] < 128) ==> s@ == bytes@.map_values(
            |b: u8| b as char,
        ),
{
    String::from_utf8_lossy(bytes).to_string()
}

/// Relies on `serde_json::from_str::<Value>`: parses a JSON document,
/// returning `Ok` exactly for the texts the parser accepts, with the
/// document a function of the text alone; the parse error is
/// converted to its message.
#[verifier::external_body]
pub(crate) fn parse_json(text: &str) -> (r: Result<JsonDoc, String>)
    ensures
        r is Ok <==> is_valid_json(text@),
        r matches Ok(d) ==> d.deep_view() == doc_of(text@),
{
    match serde_json::from_str::<serde_json::Value>(text) {
        Ok(v) => Ok(doc_of_value(&v)),
        Err(e) => Err(e.to_string()),
    }
}

/// Relies on `serde_json::Value`'s shape: converts a parsed document
/// into the library's plain representation, arm by arm.  Numbers go
/// through `Number::as_u64`; object entries keep the parser's own
/// order, one per key.  Only [`parse_json`] calls this; it stands
/// apart from it only because the conversion is recursive.
#[verifier::external_body]
fn doc_of_value(v: &serde_json::Value) -> JsonDoc {
    match v {
        serde_json::Value::Null => JsonDoc::Null,
        serde_json::Value::Bool(b) => JsonDoc::Bool(*b),
        serde_json::Value::Number(n) => match n.as_u64() {
            Some(u) => JsonDoc::UInt(u),
            None => JsonDoc::OtherNum,
        },
        serde_json::Value::String(s) => JsonDoc::Str(s.clone()),
        serde_json::Value::Array(items) => JsonDoc::Arr(items.iter().map(doc_of_value).collect()),
        serde_json::Value::Object(fields) => JsonDoc::Obj(
            fields.iter().map(|(k, x)| (k.clone(), doc_of_value(x))).collect(),
        ),
    }
}

} // verus!
