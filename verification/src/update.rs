//! Whether a newer release is on offer.
//!
//! A release is announced by a small JSON manifest:
//!
//! ```text
//! { "version": "0.7.0", "notes": "..." }
//! ```
//!
//! The `serde_json` crate reads the manifest; what it read is taken on
//! trust and named by the `json_*` functions. What follows from a manifest
//! is proved over those names.

use crate::state::opt_view;
use crate::text::{concat, str_eq};
use vstd::prelude::*;

verus! {

/// A value of a JSON document, as the `serde_json` crate holds it.
#[verifier::external_type_specification]
#[verifier::external_body]
pub struct ExJsonValue(serde_json::Value);

/// The error with which the `serde_json` crate turns a text down.
#[verifier::external_type_specification]
#[verifier::external_body]
pub struct ExJsonError(serde_json::Error);

/// The document that the `serde_json` crate reads from a text, if it
/// reads one.
pub uninterp spec fn json_parsed(text: Seq<char>) -> Option<serde_json::Value>;

/// The member `key` of an object; `None` for a missing member and for a
/// value that is no object.
pub uninterp spec fn json_member(v: serde_json::Value, key: Seq<char>) -> Option<
    serde_json::Value,
>;

/// The characters of a string value; `None` for any other value.
pub uninterp spec fn json_text(v: serde_json::Value) -> Option<Seq<char>>;

/// `serde_json::from_str` for a `serde_json::Value`. Trusted: a text is
/// read exactly where `json_parsed` names a document, and that document is
/// the result.
#[verifier::external_body]
fn parse_json(text: &str) -> (r: Result<serde_json::Value, serde_json::Error>)
    ensures
        match r {
            Ok(v) => json_parsed(text@) == Some(v),
            Err(_) => json_parsed(text@) is None,
        },
{
    serde_json::from_str::<serde_json::Value>(text)
}

/// `serde_json::Value::get` with a string key. Trusted: the result is the
/// member named `json_member`.
#[verifier::external_body]
fn member<'a>(v: &'a serde_json::Value, key: &str) -> (r: Option<&'a serde_json::Value>)
    ensures
        match r {
            Some(x) => json_member(*v, key@) == Some(*x),
            None => json_member(*v, key@) is None,
        },
{
    v.get(key)
}

/// `serde_json::Value::as_str`. Trusted: the result is the text named
/// `json_text`.
#[verifier::external_body]
fn text_of<'a>(v: &'a serde_json::Value) -> (r: Option<&'a str>)
    ensures
        match r {
            Some(s) => json_text(*v) == Some(s@),
            None => json_text(*v) is None,
        },
{
    v.as_str()
}

/// The `Display` text of a `serde_json::Error`. Nothing is claimed of it.
#[verifier::external_body]
fn error_text(e: &serde_json::Error) -> (r: String) {
    e.to_string()
}

/// What a check for a newer release found.
#[derive(Debug)]
pub struct UpdateInfo {
    pub available: bool,
    pub current_version: String,
    pub new_version: Option<String>,
    pub notes: Option<String>,
}

/// The mathematical value of an `UpdateInfo`.
pub struct UpdateModel {
    pub available: bool,
    pub current_version: Seq<char>,
    pub new_version: Option<Seq<char>>,
    pub notes: Option<Seq<char>>,
}

impl View for UpdateInfo {
    type V = UpdateModel;

    open spec fn view(&self) -> UpdateModel {
        UpdateModel {
            available: self.available,
            current_version: self.current_version@,
            new_version: opt_view(self.new_version),
            notes: opt_view(self.notes),
        }
    }
}

/// The text of the member `key` of a document, where the member is a
/// string.
pub open spec fn member_text(doc: serde_json::Value, key: Seq<char>) -> Option<Seq<char>> {
    match json_member(doc, key) {
        Some(v) => json_text(v),
        None => None,
    }
}

/// What a manifest says to a program of version `current`: a release is
/// on offer where the manifest names a version, and the version is not the
/// current one.
pub open spec fn spec_compare(current: Seq<char>, doc: serde_json::Value) -> UpdateModel {
    let remote = match member_text(doc, "version"@) {
        Some(v) => v,
        None => Seq::empty(),
    };
    let available = remote.len() > 0 && remote != current;
    UpdateModel {
        available,
        current_version: current,
        new_version: if available {
            Some(remote)
        } else {
            None
        },
        notes: member_text(doc, "notes"@),
    }
}

/// The text of the member `key`, as an owned string.
fn read_member(doc: &serde_json::Value, key: &str) -> (r: Option<String>)
    ensures
        opt_view(r) == member_text(*doc, key@),
{
    match member(doc, key) {
        Some(v) => match text_of(v) {
            Some(s) => Some(s.to_owned()),
            None => None,
        },
        None => None,
    }
}

/// Compares the version of the running program with a manifest that has
/// been read.
pub fn compare_versions(current: &str, doc: &serde_json::Value) -> (r: UpdateInfo)
    ensures
        r@ == spec_compare(current@, *doc),
{
    let remote = match read_member(doc, "version") {
        Some(v) => v,
        None => String::new(),
    };
    let notes = read_member(doc, "notes");
    let available = !remote.as_str().is_empty() && !str_eq(remote.as_str(), current);
    UpdateInfo {
        available,
        current_version: current.to_owned(),
        new_version: if available {
            Some(remote)
        } else {
            None
        },
        notes,
    }
}

/// The start of the message for a manifest that is no JSON.
pub open spec fn parse_error_prefix() -> Seq<char> {
    "Update manifest parse error: "@
}

/// Reads the manifest `body` and compares it with the version `current`
/// of the running program. A body that is no JSON gives an error message
/// that starts with `Update manifest parse error: `.
pub fn check_manifest(current: &str, body: &str) -> (r: Result<UpdateInfo, String>)
    ensures
        match r {
            Ok(info) => json_parsed(body@) is Some && info@ == spec_compare(
                current@,
                json_parsed(body@)->0,
            ),
            Err(msg) => json_parsed(body@) is None && crate::text::has_prefix(
                msg@,
                parse_error_prefix(),
            ),
        },
{
    match parse_json(body) {
        Ok(doc) => Ok(compare_versions(current, &doc)),
        Err(e) => {
            let detail = error_text(&e);
            let msg = concat("Update manifest parse error: ", detail.as_str());
            assert(msg@.subrange(0, parse_error_prefix().len() as int) =~= parse_error_prefix());
            Err(msg)
        },
    }
}

} // verus!
