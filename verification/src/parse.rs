//! The payload parser: one frame's JSON text into a typed
//! incremental completion.
//!
//! The JSON grammar is the parser crate's business, behind the
//! trusted boundary of [`crate::json`]; the schema — which fields
//! must be present, their types, and the role names — is defined
//! here as spec functions over the parsed document and checked in
//! verified code.  A failure never panics: it becomes one
//! [`StreamError::MalformedPayload`] carrying the payload text.

use crate::error::StreamError;
use crate::json::doc_of;
use crate::json::is_valid_json;
use crate::json::lossy_of;
use crate::json::lossy_string;
use crate::json::parse_json;
use crate::json::JsonDoc;
use crate::json::JsonVal;
use crate::types::Delta;
use crate::types::DeltaView;
use crate::types::Role;
use crate::types::StreamChoice;
use crate::types::StreamChoiceView;
use crate::types::StreamCompletionResponse;
use crate::types::StreamCompletionView;
use vstd::prelude::*;

verus! {

/// The value under `key` in a sequence of object entries: the first
/// entry with that key, as the parser yields one entry per key.
pub open spec fn entry_lookup(fields: Seq<(Seq<char>, JsonVal)>, key: Seq<char>) -> Option<
    JsonVal,
>
    decreases fields.len(),
{
    if fields.len() == 0 {
        None
    } else if fields[0].0 == key {
        Some(fields[0].1)
    } else {
        entry_lookup(fields.skip(1), key)
    }
}

/// The value under `key` when the document is an object holding it.
pub open spec fn field_of(d: JsonVal, key: Seq<char>) -> Option<JsonVal> {
    match d {
        JsonVal::Obj(fields) => entry_lookup(fields, key),
        _ => None,
    }
}

/// The role a JSON role name stands for, if any: the names are the
/// lower-case variant names of [`Role`].
pub open spec fn spec_role_of(name: Seq<char>) -> Option<Role> {
    if name == "system"@ {
        Some(Role::System)
    } else if name == "user"@ {
        Some(Role::User)
    } else if name == "assistant"@ {
        Some(Role::Assistant)
    } else {
        None
    }
}

/// An optional string field: absent and `null` are `None`, a string
/// is itself, and any other value refuses the document.
pub open spec fn opt_string_of(d: JsonVal, key: Seq<char>) -> Result<Option<Seq<char>>, ()> {
    match field_of(d, key) {
        Option::None => Result::Ok(Option::<Seq<char>>::None),
        Option::Some(x) => match x {
            JsonVal::Null => Result::Ok(Option::<Seq<char>>::None),
            JsonVal::Str(s) => Result::Ok(Option::Some(s)),
            _ => Result::Err(()),
        },
    }
}

/// Whether a document fits the `delta` object of the schema.
pub open spec fn delta_ok(d: JsonVal) -> bool {
    &&& d is Obj
    &&& opt_string_of(d, "role"@) is Ok
    &&& (opt_string_of(d, "role"@) matches Result::Ok(Option::Some(name)) ==> spec_role_of(name)
        is Some)
    &&& opt_string_of(d, "content"@) is Ok
}

/// The fragment a fitting `delta` object stands for.
pub open spec fn delta_of(d: JsonVal) -> DeltaView {
    DeltaView {
        role: match opt_string_of(d, "role"@) {
            Result::Ok(Option::Some(name)) => spec_role_of(name),
            _ => None,
        },
        content: match opt_string_of(d, "content"@) {
            Result::Ok(c) => c,
            Result::Err(_) => None,
        },
    }
}

/// Whether a document fits one element of the `choices` array.
pub open spec fn choice_ok(d: JsonVal) -> bool {
    &&& (field_of(d, "delta"@) matches Some(dd) && delta_ok(dd))
    &&& opt_string_of(d, "finish_reason"@) is Ok
    &&& (field_of(d, "index"@) matches Some(JsonVal::UInt(n)) && n <= 0xffff_ffff)
}

/// The choice a fitting element stands for.
pub open spec fn choice_of(d: JsonVal) -> StreamChoiceView {
    StreamChoiceView {
        delta: match field_of(d, "delta"@) {
            Some(dd) => delta_of(dd),
            None => delta_of(JsonVal::Null),
        },
        finish_reason: match opt_string_of(d, "finish_reason"@) {
            Result::Ok(f) => f,
            Result::Err(_) => None,
        },
        index: match field_of(d, "index"@) {
            Some(JsonVal::UInt(n)) => n as u32,
            _ => 0,
        },
    }
}

/// Whether a document fits the incremental-completion schema: `id`,
/// `model` and `object` are strings, `created` is an unsigned 64-bit
/// integer, `system_fingerprint` is an optional string, and `choices`
/// is an array of fitting choices.
pub open spec fn schema_ok(d: JsonVal) -> bool {
    &&& field_of(d, "id"@) matches Some(JsonVal::Str(_))
    &&& field_of(d, "model"@) matches Some(JsonVal::Str(_))
    &&& field_of(d, "object"@) matches Some(JsonVal::Str(_))
    &&& field_of(d, "created"@) matches Some(JsonVal::UInt(_))
    &&& opt_string_of(d, "system_fingerprint"@) is Ok
    &&& (field_of(d, "choices"@) matches Some(JsonVal::Arr(items)) && forall|i: int|
        0 <= i < items.len() ==> choice_ok(#[trigger] items[i]))
}

/// The text of a string field, where the schema guarantees one.
pub open spec fn text_field_of(d: JsonVal, key: Seq<char>) -> Seq<char> {
    match field_of(d, key) {
        Some(JsonVal::Str(s)) => s,
        _ => Seq::empty(),
    }
}

/// The elements of an array field, where the schema guarantees one.
pub open spec fn arr_field_of(d: JsonVal, key: Seq<char>) -> Seq<JsonVal> {
    match field_of(d, key) {
        Some(JsonVal::Arr(items)) => items,
        _ => Seq::empty(),
    }
}

/// The completion a fitting document stands for.
pub open spec fn completion_of(d: JsonVal) -> StreamCompletionView {
    StreamCompletionView {
        id: text_field_of(d, "id"@),
        choices: Seq::new(
            arr_field_of(d, "choices"@).len(),
            |i: int| choice_of(arr_field_of(d, "choices"@)[i]),
        ),
        created: match field_of(d, "created"@) {
            Some(JsonVal::UInt(n)) => n,
            _ => 0,
        },
        model: text_field_of(d, "model"@),
        system_fingerprint: match opt_string_of(d, "system_fingerprint"@) {
            Result::Ok(f) => f,
            Result::Err(_) => None,
        },
        object: text_field_of(d, "object"@),
    }
}

/// The value under `key`, by scanning the object's entries.
fn doc_field<'a>(d: &'a JsonDoc, key: &String) -> (r: Option<&'a JsonDoc>)
    ensures
        r is Some <==> field_of(d.deep_view(), key@) is Some,
        r matches Some(x) ==> Some(x.deep_view()) == field_of(d.deep_view(), key@),
{
    match d {
        JsonDoc::Obj(fields) => {
            let ghost all = d.deep_view()->Obj_0;
            proof {
                crate::json::lemma_obj_view(fields@);
                assert(all.skip(0) =~= all);
            }
            let n = fields.len();
            let mut i: usize = 0;
            while i < n
                invariant
                    i <= n,
                    n == fields@.len(),
                    d.deep_view() == JsonVal::Obj(all),
                    all.len() == n,
                    forall|j: int|
                        0 <= j < n ==> #[trigger] all[j] == (
                        fields@[j].0@,
                        fields@[j].1.deep_view(),
                        ),
                    entry_lookup(all, key@) == entry_lookup(all.skip(i as int), key@),
                    forall|j: int| 0 <= j < i ==> all[j].0 != key@,
                decreases n - i,
            {
                let hit = fields[i].0 == *key;
                proof {
                    assert(all.skip(i as int)[0] == all[i as int]);
                    assert(all.skip(i as int).skip(1) =~= all.skip(i + 1));
                }
                if hit {
                    return Some(&fields[i].1);
                }
                i = i + 1;
            }
            proof {
                assert(all.skip(n as int) =~= Seq::<(Seq<char>, JsonVal)>::empty());
            }
            None
        },
        _ => None,
    }
}

/// The role a JSON role name stands for, if any.
fn role_of_name(name: &String) -> (r: Option<Role>)
    ensures
        r == spec_role_of(name@),
{
    if *name == "system".to_owned() {
        Some(Role::System)
    } else if *name == "user".to_owned() {
        Some(Role::User)
    } else if *name == "assistant".to_owned() {
        Some(Role::Assistant)
    } else {
        None
    }
}

/// An optional string field: `None` when absent or `null`, the string
/// when present, and a failure when present with another type.
fn optional_string(d: &JsonDoc, key: &String, reason: &str) -> (r: Result<Option<String>, String>)
    ensures
        r is Ok <==> opt_string_of(d.deep_view(), key@) is Ok,
        r matches Ok(c) ==> Result::<Option<Seq<char>>, ()>::Ok(
            match c {
                Some(s) => Some(s@),
                None => None,
            },
        ) == opt_string_of(d.deep_view(), key@),
{
    match doc_field(d, key) {
        None => Ok(None),
        Some(x) => match x {
            JsonDoc::Null => Ok(None),
            JsonDoc::Str(s) => Ok(Some(s.clone())),
            _ => Err(reason.to_owned()),
        },
    }
}

/// The incremental fragment of one choice.
fn delta_of_value(d: &JsonDoc) -> (r: Result<Delta, String>)
    ensures
        r is Ok <==> delta_ok(d.deep_view()),
        r matches Ok(x) ==> x@ == delta_of(d.deep_view()),
{
    let obj = match d {
        JsonDoc::Obj(_) => d,
        _ => {
            return Err("the delta field is not an object".to_owned());
        },
    };
    let role = match optional_string(obj, &"role".to_owned(), "the role field is not a string") {
        Ok(None) => None,
        Ok(Some(name)) => match role_of_name(&name) {
            Some(role) => Some(role),
            None => {
                return Err("the role field names no known role".to_owned());
            },
        },
        Err(reason) => {
            return Err(reason);
        },
    };
    let content = match optional_string(
        obj,
        &"content".to_owned(),
        "the content field is not a string",
    ) {
        Ok(c) => c,
        Err(reason) => {
            return Err(reason);
        },
    };
    Ok(Delta { role, content })
}

/// One element of the choices array.
fn choice_of_value(d: &JsonDoc) -> (r: Result<StreamChoice, String>)
    ensures
        r is Ok <==> choice_ok(d.deep_view()),
        r matches Ok(x) ==> x@ == choice_of(d.deep_view()),
{
    let delta = match doc_field(d, &"delta".to_owned()) {
        Some(dd) => match delta_of_value(dd) {
            Ok(dd) => dd,
            Err(reason) => {
                return Err(reason);
            },
        },
        None => {
            return Err("a choice is missing the delta field".to_owned());
        },
    };
    let finish_reason = match optional_string(
        d,
        &"finish_reason".to_owned(),
        "the finish_reason field is not a string",
    ) {
        Ok(f) => f,
        Err(reason) => {
            return Err(reason);
        },
    };
    let index = match doc_field(d, &"index".to_owned()) {
        Some(x) => match x {
            JsonDoc::UInt(n) => {
                if *n > 0xffff_ffff {
                    return Err("the index field does not fit in 32 bits".to_owned());
                }
                *n as u32
            },
            _ => {
                return Err("the index field is not an unsigned integer".to_owned());
            },
        },
        None => {
            return Err("a choice is missing the index field".to_owned());
        },
    };
    Ok(StreamChoice { delta, finish_reason, index })
}

/// A required string field of the top-level object.
fn required_string(d: &JsonDoc, key: &String, reason: &str) -> (r: Result<String, String>)
    ensures
        r is Ok <==> (field_of(d.deep_view(), key@) matches Some(JsonVal::Str(_))),
        r matches Ok(s) ==> field_of(d.deep_view(), key@) == Some(JsonVal::Str(s@)),
{
    match doc_field(d, key) {
        Some(x) => match x {
            JsonDoc::Str(s) => Ok(s.clone()),
            _ => Err(reason.to_owned()),
        },
        None => Err(reason.to_owned()),
    }
}

/// The schema check: a fitting document becomes the completion it
/// stands for, anything else a readable reason.
fn completion_of_value(d: &JsonDoc) -> (r: Result<StreamCompletionResponse, String>)
    ensures
        r is Ok <==> schema_ok(d.deep_view()),
        r matches Ok(c) ==> c@ == completion_of(d.deep_view()),
{
    let id = match required_string(d, &"id".to_owned(), "the id field is missing or not a string") {
        Ok(s) => s,
        Err(reason) => {
            return Err(reason);
        },
    };
    let model = match required_string(
        d,
        &"model".to_owned(),
        "the model field is missing or not a string",
    ) {
        Ok(s) => s,
        Err(reason) => {
            return Err(reason);
        },
    };
    let object = match required_string(
        d,
        &"object".to_owned(),
        "the object field is missing or not a string",
    ) {
        Ok(s) => s,
        Err(reason) => {
            return Err(reason);
        },
    };
    let created = match doc_field(d, &"created".to_owned()) {
        Some(x) => match x {
            JsonDoc::UInt(n) => *n,
            _ => {
                return Err("the created field is not an unsigned integer".to_owned());
            },
        },
        None => {
            return Err("the created field is missing".to_owned());
        },
    };
    let system_fingerprint = match optional_string(
        d,
        &"system_fingerprint".to_owned(),
        "the system_fingerprint field is not a string",
    ) {
        Ok(f) => f,
        Err(reason) => {
            return Err(reason);
        },
    };
    let elements = match doc_field(d, &"choices".to_owned()) {
        Some(x) => match x {
            JsonDoc::Arr(items) => items,
            _ => {
                return Err("the choices field is not an array".to_owned());
            },
        },
        None => {
            return Err("the choices field is missing".to_owned());
        },
    };
    let ghost items = arr_field_of(d.deep_view(), "choices"@);
    proof {
        crate::json::lemma_arr_view(elements@);
        assert(elements.deep_view() =~= items);
    }
    let mut choices: Vec<StreamChoice> = Vec::new();
    let n = elements.len();
    let mut i: usize = 0;
    while i < n
        invariant
            i <= n,
            n == elements@.len(),
            elements.deep_view() == items,
            items == arr_field_of(d.deep_view(), "choices"@),
            items.len() == n,
            choices@.len() == i,
            forall|j: int| 0 <= j < i ==> choice_ok(#[trigger] items[j]),
            forall|j: int| 0 <= j < i ==> #[trigger] choices@[j]@ == choice_of(items[j]),
        decreases n - i,
    {
        proof {
            assert(elements.deep_view()[i as int] == elements@[i as int].deep_view());
        }
        match choice_of_value(&elements[i]) {
            Ok(c) => choices.push(c),
            Err(reason) => {
                proof {
                    if schema_ok(d.deep_view()) {
                        assert(choice_ok(items[i as int]));
                        assert(false);
                    }
                }
                return Err(reason);
            },
        }
        i = i + 1;
    }
    let result = StreamCompletionResponse { id, choices, created, model, system_fingerprint, object };
    proof {
        assert(result@.choices =~= completion_of(d.deep_view()).choices);
        assert(result@ == completion_of(d.deep_view()));
    }
    Ok(result)
}

/// Parses one non-empty, non-sentinel payload.  The bytes are decoded
/// lossily to text and the text is parsed as JSON against the
/// incremental-completion schema.  Success comes exactly when the
/// text is valid JSON fitting the schema, and yields exactly the
/// completion the document stands for; a failure of either stage is
/// one [`StreamError::MalformedPayload`] carrying the payload text.
/// The function never panics.
pub fn parse_payload(payload: &[u8]) -> (r: Result<StreamCompletionResponse, StreamError>)
    ensures
        r is Ok <==> is_valid_json(lossy_of(payload@)) && schema_ok(doc_of(lossy_of(payload@))),
        r matches Ok(c) ==> c@ == completion_of(doc_of(lossy_of(payload@))),
        r is Err ==> (r->Err_0 matches StreamError::MalformedPayload { payload: p, reason: _ }
            && p@ == lossy_of(payload@)),
{
    let text = lossy_string(payload);
    match parse_json(text.as_str()) {
        Err(reason) => Err(StreamError::MalformedPayload { payload: text, reason }),
        Ok(value) => match completion_of_value(&value) {
            Ok(c) => Ok(c),
            Err(reason) => Err(StreamError::MalformedPayload { payload: text, reason }),
        },
    }
}

} // verus!
