//! Bootstrap loading: converts the two JSON documents read at process
//! start — the user profile and the friend roster — into the data model.
//! Parsing is done by `serde_json` behind the trusted items below. Each
//! parse result is deterministic in its arguments, so it is given an
//! uninterpreted name (`json_doc`, `json_field`, `json_string`,
//! `json_elements`) that the trusted contracts apply; the loaders' own
//! contracts then say, over those names, exactly when a load succeeds and
//! what the loaded values hold. Every decision made on the parsed values,
//! and the assembly of the model from the extracted fields, is verified
//! code.

use vstd::prelude::*;

use crate::model::{decode_availability, Availability, Friend, User};

verus! {

/// A startup-fatal failure of bootstrap loading.
#[derive(Clone, Copy, Debug, PartialEq, Eq, Structural)]
pub enum LoadError {
    /// The document is not valid JSON.
    InvalidJson,
    /// The roster document is not a JSON array.
    NotAnArray,
    /// A required field is absent or is not a string.
    MissingField,
}

/// The text shown for a load failure.
pub open spec fn load_error_text(e: LoadError) -> Seq<char> {
    match e {
        LoadError::InvalidJson => "document is not valid JSON"@,
        LoadError::NotAnArray => "roster document is not a JSON array"@,
        LoadError::MissingField => "a required field is absent or is not a string"@,
    }
}

impl LoadError {
    /// The text shown for this failure.
    pub fn message(&self) -> (r: String)
        ensures
            r@ == load_error_text(*self),
    {
        match self {
            LoadError::InvalidJson => "document is not valid JSON".to_owned(),
            LoadError::NotAnArray => "roster document is not a JSON array".to_owned(),
            LoadError::MissingField => "a required field is absent or is not a string".to_owned(),
        }
    }
}

/// A parsed JSON document, as `serde_json` represents it. Opaque here: the
/// trusted accessors below are the only way this crate reads one.
#[verifier::external_type_specification]
#[verifier::external_body]
pub struct ExValue(serde_json::Value);

/// `serde_json`'s parse failure, carried only to be mapped to
/// [`LoadError::InvalidJson`].
#[verifier::external_type_specification]
#[verifier::external_body]
pub struct ExJsonError(serde_json::Error);

/// The document the text parses to, `None` when the text is not one valid
/// JSON document. Names the result of `serde_json::from_str`, a function
/// of the text alone.
pub uninterp spec fn json_doc(s: Seq<char>) -> Option<serde_json::Value>;

/// The field of `v` under `key`, `None` when `v` is no object or has no
/// such field. Names the result of `serde_json::Value::get`, a function
/// of the value and the key alone.
pub uninterp spec fn json_field(v: serde_json::Value, key: Seq<char>) -> Option<serde_json::Value>;

/// The text of `v`, `None` when `v` is not a JSON string. Names the
/// result of `serde_json::Value::as_str`, a function of the value alone.
pub uninterp spec fn json_string(v: serde_json::Value) -> Option<Seq<char>>;

/// The elements of `v`, `None` when `v` is not a JSON array. Names the
/// result of `serde_json::Value::as_array`, a function of the value
/// alone.
pub uninterp spec fn json_elements(v: serde_json::Value) -> Option<Seq<serde_json::Value>>;

/// Relies on `serde_json::from_str`: parses the text as one JSON
/// document, `Err` exactly on text that is not one. The parse is
/// deterministic in the text, so its outcome bears the name `json_doc`.
#[verifier::external_body]
fn parse_json(text: &str) -> (r: Result<serde_json::Value, serde_json::Error>)
    ensures
        match r {
            Ok(v) => json_doc(text@) == Some(v),
            Err(_) => json_doc(text@) is None,
        },
{
    serde_json::from_str::<serde_json::Value>(text)
}

/// Relies on `serde_json::Value::get`: the value under `key` when `v` is
/// an object with such a field, `None` otherwise. Deterministic in `v`
/// and `key`, so its outcome bears the name `json_field`.
#[verifier::external_body]
fn json_get<'a>(v: &'a serde_json::Value, key: &str) -> (r: Option<&'a serde_json::Value>)
    ensures
        match r {
            Some(f) => json_field(*v, key@) == Some(*f),
            None => json_field(*v, key@) is None,
        },
{
    v.get(key)
}

/// Relies on `serde_json::Value::as_str`: the text of a JSON string
/// value, `None` for every other kind of value. Deterministic in `v`, so
/// its outcome bears the name `json_string`.
#[verifier::external_body]
fn json_as_str(v: &serde_json::Value) -> (r: Option<&str>)
    ensures
        match r {
            Some(s) => json_string(*v) == Some(s@),
            None => json_string(*v) is None,
        },
{
    v.as_str()
}

/// Relies on `serde_json::Value::as_array`: the elements of a JSON array,
/// `None` for every other kind of value. Deterministic in `v`, so its
/// outcome bears the name `json_elements`.
#[verifier::external_body]
fn json_as_array(v: &serde_json::Value) -> (r: Option<&Vec<serde_json::Value>>)
    ensures
        match r {
            Some(a) => json_elements(*v) == Some(a@),
            None => json_elements(*v) is None,
        },
{
    v.as_array()
}

/// The string field of `v` under `key`: the text when `v` has such a
/// field and it is a string, `None` otherwise.
pub open spec fn spec_string_field(v: serde_json::Value, key: Seq<char>) -> Option<Seq<char>> {
    match json_field(v, key) {
        Some(f) => json_string(f),
        None => None,
    }
}

/// Whether document `v` carries the four string fields the record schema
/// requires.
pub open spec fn wf_record(v: serde_json::Value) -> bool {
    &&& spec_string_field(v, "name"@) is Some
    &&& spec_string_field(v, "email"@) is Some
    &&& spec_string_field(v, "status"@) is Some
    &&& spec_string_field(v, "availability"@) is Some
}

/// The profile `u` is what record `v` describes: the three texts copied
/// verbatim, the availability decoded with `Offline` as the fallback.
pub open spec fn user_matches_record(u: User, v: serde_json::Value) -> bool {
    &&& spec_string_field(v, "name"@) == Some(u.name@)
    &&& spec_string_field(v, "email"@) == Some(u.email@)
    &&& spec_string_field(v, "status"@) == Some(u.status@)
    &&& (spec_string_field(v, "availability"@) matches Some(a) && u.availability
        == decode_availability(a))
}

/// The roster entry `f` is what record `v` describes, fields as in
/// [`user_matches_record`].
pub open spec fn friend_matches_record(f: Friend, v: serde_json::Value) -> bool {
    &&& spec_string_field(v, "name"@) == Some(f.name@)
    &&& spec_string_field(v, "email"@) == Some(f.email@)
    &&& spec_string_field(v, "status"@) == Some(f.status@)
    &&& (spec_string_field(v, "availability"@) matches Some(a) && f.availability
        == decode_availability(a))
}

/// Every element of the roster array carries the four string fields.
pub open spec fn wf_roster_doc(elems: Seq<serde_json::Value>) -> bool {
    forall|i: int| 0 <= i < elems.len() ==> wf_record(#[trigger] elems[i])
}

/// One roster entry per array element, in order, each as its record
/// describes it.
pub open spec fn roster_matches(friends: Seq<Friend>, elems: Seq<serde_json::Value>) -> bool {
    &&& friends.len() == elems.len()
    &&& forall|i: int|
        0 <= i < elems.len() ==> friend_matches_record(#[trigger] friends[i], elems[i])
}

/// The failure, if any, that loading the profile document owes: the text
/// must parse to a document carrying the four string fields.
pub open spec fn profile_load_error(text: Seq<char>) -> Option<LoadError> {
    match json_doc(text) {
        None => Some(LoadError::InvalidJson),
        Some(doc) => if wf_record(doc) {
            None
        } else {
            Some(LoadError::MissingField)
        },
    }
}

/// The failure, if any, that loading the roster document owes: the text
/// must parse to an array whose every element carries the four string
/// fields.
pub open spec fn roster_load_error(text: Seq<char>) -> Option<LoadError> {
    match json_doc(text) {
        None => Some(LoadError::InvalidJson),
        Some(doc) => match json_elements(doc) {
            None => Some(LoadError::NotAnArray),
            Some(elems) => if wf_roster_doc(elems) {
                None
            } else {
                Some(LoadError::MissingField)
            },
        },
    }
}

/// The string field of `v` under `key`; `MissingField` exactly when `v`
/// has no such field or the field is not a string.
fn string_field(v: &serde_json::Value, key: &str) -> (r: Result<String, LoadError>)
    ensures
        match r {
            Ok(s) => spec_string_field(*v, key@) == Some(s@),
            Err(e) => e is MissingField && spec_string_field(*v, key@) is None,
        },
{
    match json_get(v, key) {
        Some(field) => match json_as_str(field) {
            Some(s) => Ok(s.to_owned()),
            None => Err(LoadError::MissingField),
        },
        None => Err(LoadError::MissingField),
    }
}

/// Assembles the profile from its four extracted fields; the availability
/// text is decoded with `Offline` as the fallback.
pub fn user_from_parts(name: String, email: String, status: String, availability: &str) -> (u:
    User)
    ensures
        u.name == name,
        u.email == email,
        u.status == status,
        u.availability == decode_availability(availability@),
{
    User { name, email, status, availability: Availability::decode(availability) }
}

/// Assembles one roster entry from its four extracted fields; the
/// availability text is decoded with `Offline` as the fallback.
pub fn friend_from_parts(name: String, email: String, status: String, availability: &str) -> (f:
    Friend)
    ensures
        f.name == name,
        f.email == email,
        f.status == status,
        f.availability == decode_availability(availability@),
{
    Friend { name, email, status, availability: Availability::decode(availability) }
}

/// One roster entry from one element of the roster array: exactly the
/// entry the record describes, `MissingField` exactly when the record is
/// not well-formed.
fn friend_from_json(v: &serde_json::Value) -> (r: Result<Friend, LoadError>)
    ensures
        match r {
            Ok(f) => wf_record(*v) && friend_matches_record(f, *v),
            Err(e) => e is MissingField && !wf_record(*v),
        },
{
    let name = match string_field(v, "name") {
        Ok(s) => s,
        Err(e) => {
            return Err(e);
        },
    };
    let email = match string_field(v, "email") {
        Ok(s) => s,
        Err(e) => {
            return Err(e);
        },
    };
    let status = match string_field(v, "status") {
        Ok(s) => s,
        Err(e) => {
            return Err(e);
        },
    };
    let availability = match string_field(v, "availability") {
        Ok(s) => s,
        Err(e) => {
            return Err(e);
        },
    };
    Ok(friend_from_parts(name, email, status, availability.as_str()))
}

/// Decodes the profile document: a JSON object with `name`, `email`,
/// `status` and `availability` string fields. Succeeds exactly when the
/// text parses to such a document, and then returns the profile that
/// document describes — texts copied verbatim, availability decoded with
/// `Offline` as the fallback. No default profile is ever substituted.
pub fn load_user(text: &str) -> (r: Result<User, LoadError>)
    ensures
        r is Ok <==> profile_load_error(text@) is None,
        match r {
            Ok(u) => json_doc(text@) matches Some(doc) && user_matches_record(u, doc),
            Err(e) => profile_load_error(text@) == Some(e),
        },
{
    let doc = match parse_json(text) {
        Ok(v) => v,
        Err(_) => {
            return Err(LoadError::InvalidJson);
        },
    };
    let name = match string_field(&doc, "name") {
        Ok(s) => s,
        Err(e) => {
            return Err(e);
        },
    };
    let email = match string_field(&doc, "email") {
        Ok(s) => s,
        Err(e) => {
            return Err(e);
        },
    };
    let status = match string_field(&doc, "status") {
        Ok(s) => s,
        Err(e) => {
            return Err(e);
        },
    };
    let availability = match string_field(&doc, "availability") {
        Ok(s) => s,
        Err(e) => {
            return Err(e);
        },
    };
    Ok(user_from_parts(name, email, status, availability.as_str()))
}

/// Decodes the roster document: a JSON array of objects of the same shape
/// as the profile document. Succeeds exactly when the text parses to such
/// an array, and then returns one entry per element, in order, each as
/// its record describes it. The whole load fails on the first malformed
/// entry; no synthetic entry is ever substituted.
pub fn load_friends_list(text: &str) -> (r: Result<Vec<Friend>, LoadError>)
    ensures
        r is Ok <==> roster_load_error(text@) is None,
        match r {
            Ok(friends) => json_doc(text@) matches Some(doc) && json_elements(doc) matches Some(
                elems,
            ) && roster_matches(friends@, elems),
            Err(e) => roster_load_error(text@) == Some(e),
        },
{
    let doc = match parse_json(text) {
        Ok(v) => v,
        Err(_) => {
            return Err(LoadError::InvalidJson);
        },
    };
    let arr = match json_as_array(&doc) {
        Some(a) => a,
        None => {
            return Err(LoadError::NotAnArray);
        },
    };
    let mut friends: Vec<Friend> = Vec::new();
    let mut i: usize = 0;
    while i < arr.len()
        invariant
            i <= arr.len(),
            friends@.len() == i,
            json_doc(text@) == Some(doc),
            json_elements(doc) == Some(arr@),
            forall|m: int|
                0 <= m < i ==> wf_record(#[trigger] arr@[m]) && friend_matches_record(
                    friends@[m],
                    arr@[m],
                ),
        decreases arr.len() - i,
    {
        let f = match friend_from_json(&arr[i]) {
            Ok(f) => f,
            Err(e) => {
                proof {
                    assert(!wf_record(arr@[i as int]));
                }
                return Err(e);
            },
        };
        friends.push(f);
        i = i + 1;
    }
    Ok(friends)
}

} // verus!
