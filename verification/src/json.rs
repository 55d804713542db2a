//! JSON documents, read and written by `serde_json`.
//!
//! Of a document only the members of its top-level object are modelled, and of each member only
//! what the device reads or writes: texts, integers and `null`.
use vstd::prelude::*;

verus! {

/// A JSON value, as `serde_json` holds it.
#[verifier::external_type_specification]
#[verifier::external_body]
pub struct ExDocument(serde_json::Value);

/// What `serde_json` says of a text that is no JSON, or of a value that it cannot write.
#[verifier::external_type_specification]
#[verifier::external_body]
pub struct ExJsonError(serde_json::Error);

/// A JSON object that is being filled, as `serde_json` holds it.
#[verifier::external_type_specification]
#[verifier::external_body]
#[verifier::reject_recursive_types(K)]
#[verifier::reject_recursive_types(V)]
pub struct ExObject<K, V>(serde_json::Map<K, V>);

/// The model of a member of a JSON object.
pub enum Member {
    Null,
    Text(Seq<char>),
    /// A number that is written as an integer and fits in 64 bits with a sign. `-0` is none:
    /// `serde_json` holds it as a floating-point number, so it is another value.
    Integer(i64),
    /// Any other value.
    Other,
}

/// A value to put into a JSON object.
#[derive(Debug, PartialEq, Eq)]
pub enum Scalar {
    Null,
    Text(String),
    Integer(i64),
}

impl View for Scalar {
    type V = Member;

    open spec fn view(&self) -> Member {
        match *self {
            Scalar::Null => Member::Null,
            Scalar::Text(t) => Member::Text(t@),
            Scalar::Integer(n) => Member::Integer(n),
        }
    }
}

/// What a JSON value is, taken as the member of an object.
pub uninterp spec fn member_of(value: serde_json::Value) -> Member;

/// The members of a document; none where the document is no object.
pub uninterp spec fn members(document: serde_json::Value) -> Map<Seq<char>, Member>;

/// The members of an object that is being filled.
pub uninterp spec fn object_members(
    object: serde_json::Map<String, serde_json::Value>,
) -> Map<Seq<char>, Member>;

/// What `serde_json::from_slice` reads: the members of the document, or nothing where the bytes
/// are no JSON text.
pub uninterp spec fn read_members(body: Seq<u8>) -> Option<Map<Seq<char>, Member>>;

/// What `serde_json::to_string` writes for an object with these members.
pub uninterp spec fn object_text(members: Map<Seq<char>, Member>) -> Seq<char>;

/// No members.
pub open spec fn no_members() -> Map<Seq<char>, Member> {
    Map::empty()
}

/// The text under a key, if a text stands there.
pub open spec fn text_at(members: Map<Seq<char>, Member>, key: Seq<char>) -> Option<Seq<char>> {
    if members.dom().contains(key) {
        match members[key] {
            Member::Text(t) => Some(t),
            _ => None,
        }
    } else {
        None
    }
}

/// The integer under a key, if an integer stands there.
pub open spec fn integer_at(members: Map<Seq<char>, Member>, key: Seq<char>) -> Option<i64> {
    if members.dom().contains(key) {
        match members[key] {
            Member::Integer(n) => Some(n),
            _ => None,
        }
    } else {
        None
    }
}

/// Every member is `null`, a text or an integer.
pub open spec fn only_scalars(members: Map<Seq<char>, Member>) -> bool {
    forall|key: Seq<char>| #[trigger]
        members.dom().contains(key) ==> !(members[key] is Other)
}

/// Reads a JSON text with `serde_json::from_slice`. What it reads is named by `read_members`: it
/// depends on the bytes alone.
#[verifier::external_body]
pub(crate) fn read_document(body: &[u8]) -> (result: Result<serde_json::Value, serde_json::Error>)
    ensures
        match result {
            Ok(document) => read_members(body@) == Some(members(document)),
            Err(_) => read_members(body@) is None,
        },
{
    serde_json::from_slice(body)
}

/// Looks up a member with `serde_json::Value::get`: the value under the key, if the document is an
/// object that has the key.
#[verifier::external_body]
fn get_member<'a>(document: &'a serde_json::Value, key: &str) -> (member: Option<
    &'a serde_json::Value,
>)
    ensures
        match member {
            Some(value) => members(*document).dom().contains(key@) && members(*document)[key@]
                == member_of(*value),
            None => !members(*document).dom().contains(key@),
        },
{
    document.get(key)
}

/// `serde_json::Value::as_str` gives the text where the value is a text.
pub assume_specification[ serde_json::Value::as_str ](value: &serde_json::Value) -> (text: Option<
    &str,
>)
    ensures
        match text {
            Some(t) => member_of(*value) == Member::Text(t@),
            None => !(member_of(*value) is Text),
        },
;

/// `serde_json::Value::as_i64` gives the number where the value is an integer of that range.
pub assume_specification[ serde_json::Value::as_i64 ](value: &serde_json::Value) -> (integer:
    Option<i64>)
    ensures
        match integer {
            Some(n) => member_of(*value) == Member::Integer(n),
            None => !(member_of(*value) is Integer),
        },
;

/// The text under a key of a document, if a text stands there.
pub(crate) fn text_member(document: &serde_json::Value, key: &str) -> (text: Option<String>)
    ensures
        match text {
            Some(t) => text_at(members(*document), key@) == Some(t@),
            None => text_at(members(*document), key@) is None,
        },
{
    match get_member(document, key) {
        Some(value) => match value.as_str() {
            Some(text) => Some(text.to_owned()),
            None => None,
        },
        None => None,
    }
}

/// The integer under a key of a document, if an integer stands there.
pub(crate) fn integer_member(document: &serde_json::Value, key: &str) -> (integer: Option<i64>)
    ensures
        integer == integer_at(members(*document), key@),
{
    match get_member(document, key) {
        Some(value) => value.as_i64(),
        None => None,
    }
}

/// An object without members, from `serde_json::Map::new`.
#[verifier::external_body]
pub(crate) fn empty_object() -> (object: serde_json::Map<String, serde_json::Value>)
    ensures
        object_members(object) == no_members(),
{
    serde_json::Map::new()
}

/// Puts a member into an object with `serde_json::Map::insert`, in the place of one with the same
/// key.
#[verifier::external_body]
pub(crate) fn insert_member(
    object: &mut serde_json::Map<String, serde_json::Value>,
    key: &str,
    value: Scalar,
)
    ensures
        object_members(*final(object)) == object_members(*old(object)).insert(key@, value@),
{
    let value = match value {
        Scalar::Null => serde_json::Value::Null,
        Scalar::Text(text) => serde_json::Value::String(text),
        Scalar::Integer(n) => serde_json::Value::from(n),
    };
    object.insert(key.to_string(), value);
}

/// Writes an object with `serde_json::to_string`, which fails only where a key is no text or a
/// value refuses to be written: members that are `null`, a text or an integer are always written,
/// in the order of their keys. What is written, named by `object_text`, depends on the members
/// alone, and `from_slice` reads the members back from it.
#[verifier::external_body]
pub(crate) fn write_object(
    object: &serde_json::Map<String, serde_json::Value>,
) -> (result: Result<String, serde_json::Error>)
    requires
        only_scalars(object_members(*object)),
    ensures
        match result {
            Ok(text) => {
                &&& text@ == object_text(object_members(*object))
                &&& read_members(vstd::utf8::encode_utf8(text@)) == Some(object_members(*object))
            },
            Err(_) => false,
        },
{
    serde_json::to_string(object)
}

/// A text is found under a key exactly where that text stands there, and likewise an integer.
pub proof fn law_members_are_found(members: Map<Seq<char>, Member>, key: Seq<char>)
    ensures
        forall|t: Seq<char>| #[trigger]
            text_at(members.insert(key, Member::Text(t)), key) == Some(t),
        forall|n: i64| #[trigger]
            integer_at(members.insert(key, Member::Integer(n)), key) == Some(n),
        text_at(members, key) matches Some(t) ==> members.dom().contains(key) && members[key]
            == Member::Text(t),
        integer_at(members, key) matches Some(n) ==> members.dom().contains(key) && members[key]
            == Member::Integer(n),
        members.dom().contains(key) && members[key] is Text ==> text_at(members, key) is Some,
        members.dom().contains(key) && members[key] is Integer ==> integer_at(members, key) is Some,
{
}

/// What is put into a document is what is found in it, and an object without members has none.
pub proof fn law_scalars_are_members(text: Scalar, integer: Scalar, key: Seq<char>)
    requires
        text is Text,
        integer is Integer,
    ensures
        text@ == Member::Text(text->Text_0@),
        integer@ == Member::Integer(integer->Integer_0),
        Scalar::Null@ == Member::Null,
        !no_members().dom().contains(key),
{
}

} // verus!
