//! The coached player's identity, as the in-game plugin writes it.
//!
//! The plugin saves a small table of quoted values:
//!
//! ```text
//! CombatCoachDB = {
//!     ["playerGUID"] = "Player-1234-ABCDEF",
//!     ["playerName"] = "Stonebraid",
//! }
//! ```
//!
//! `spec_saved_value` states which value a key has in such a text;
//! `parse_saved_variables` reads the six keys of an identity.

use crate::text::{
    after_first, contains, contains_seq, find_char, first_index, lemma_first_index_props,
    split_once, to_chars,
};
use vstd::prelude::*;
use vstd::string::StrSliceExecFns;
use vstd::string::StringExecFns;

verus! {

/// Who is being coached.
#[derive(Debug, PartialEq, Eq)]
pub struct PlayerIdentity {
    pub guid: String,
    pub name: String,
    pub realm: String,
    pub class: String,
    pub spec: String,
    pub version: String,
}

/// The mathematical value of a `PlayerIdentity`.
pub struct IdentityModel {
    pub guid: Seq<char>,
    pub name: Seq<char>,
    pub realm: Seq<char>,
    pub class: Seq<char>,
    pub spec: Seq<char>,
    pub version: Seq<char>,
}

impl View for PlayerIdentity {
    type V = IdentityModel;

    open spec fn view(&self) -> IdentityModel {
        IdentityModel {
            guid: self.guid@,
            name: self.name@,
            realm: self.realm@,
            class: self.class@,
            spec: self.spec@,
            version: self.version@,
        }
    }
}

impl Clone for PlayerIdentity {
    fn clone(&self) -> (r: Self)
        ensures
            r@ == self@,
    {
        PlayerIdentity {
            guid: self.guid.clone(),
            name: self.name.clone(),
            realm: self.realm.clone(),
            class: self.class.clone(),
            spec: self.spec.clone(),
            version: self.version.clone(),
        }
    }
}

impl PlayerIdentity {
    /// The identity before anything is known: no GUID, the name `Unknown`.
    pub fn unknown() -> (r: Self)
        ensures
            r@ == (IdentityModel {
                guid: Seq::empty(),
                name: "Unknown"@,
                realm: Seq::empty(),
                class: Seq::empty(),
                spec: Seq::empty(),
                version: Seq::empty(),
            }),
    {
        PlayerIdentity {
            guid: String::new(),
            name: String::from_str("Unknown"),
            realm: String::new(),
            class: String::new(),
            spec: String::new(),
            version: String::new(),
        }
    }

    /// Whether a GUID is known.
    pub fn is_known(&self) -> (r: bool)
        ensures
            r == (self@.guid.len() > 0),
    {
        !self.guid.as_str().is_empty()
    }
}

/// Whether `c` is white space.
pub open spec fn is_space(c: char) -> bool {
    let u = c as u32;
    (0x09 <= u && u <= 0x0d) || u == 0x20 || u == 0x85 || u == 0xa0 || u == 0x1680 || (0x2000 <= u
        && u <= 0x200a) || u == 0x2028 || u == 0x2029 || u == 0x202f || u == 0x205f || u
        == 0x3000
}

/// Number of white-space characters at the start of `s`.
pub open spec fn leading_spaces(s: Seq<char>) -> int
    decreases s.len(),
{
    if s.len() > 0 && is_space(s[0]) {
        1 + leading_spaces(s.drop_first())
    } else {
        0
    }
}

/// `leading_spaces` is the length of the longest prefix of white space.
pub proof fn lemma_leading_spaces_is(s: Seq<char>, n: int)
    requires
        0 <= n <= s.len(),
        forall|j: int| 0 <= j < n ==> is_space(s[j]),
        n < s.len() ==> !is_space(s[n]),
    ensures
        leading_spaces(s) == n,
    decreases s.len(),
{
    if n > 0 {
        let t = s.drop_first();
        assert forall|j: int| 0 <= j < n - 1 implies is_space(t[j]) by {
            assert(t[j] == s[j + 1]);
        }
        lemma_leading_spaces_is(t, n - 1);
    }
}

/// A line without the carriage return that ends it, if one does.
pub open spec fn strip_cr(line: Seq<char>) -> Seq<char> {
    if line.len() > 0 && line.last() == '\r' {
        line.drop_last()
    } else {
        line
    }
}

/// The first line of the non-empty text `s`: up to the first line feed,
/// without it and without a carriage return before it. Text without a line
/// feed is one line, taken as it is.
pub open spec fn first_line(s: Seq<char>) -> Seq<char> {
    if first_index(s, '\n') < s.len() {
        strip_cr(s.take(first_index(s, '\n')))
    } else {
        s
    }
}

/// The first line of `s` in which `needle` occurs.
pub open spec fn first_line_with(s: Seq<char>, needle: Seq<char>) -> Option<Seq<char>>
    decreases s.len(),
{
    if s.len() == 0 {
        None
    } else if contains_seq(first_line(s), needle) {
        Some(first_line(s))
    } else if 0 <= first_index(s, '\n') < s.len() {
        first_line_with(s.skip(first_index(s, '\n') + 1), needle)
    } else {
        None
    }
}

/// The quoted value in an assignment line: behind the first `=` and any
/// white space, what stands between the next two double quotes.
pub open spec fn quoted_value(line: Seq<char>) -> Option<Seq<char>> {
    match after_first(line, '=') {
        Some(rhs) => {
            let v = rhs.skip(leading_spaces(rhs));
            if v.len() > 0 && v[0] == '"' && first_index(v.skip(1), '"') < v.len() - 1 {
                Some(v.skip(1).take(first_index(v.skip(1), '"')))
            } else {
                None
            }
        },
        None => None,
    }
}

/// The text that marks the line of `key`: the key in quotes and brackets.
pub open spec fn key_marker(key: Seq<char>) -> Seq<char> {
    "[\""@ + key + "\"]"@
}

/// The value that `content` assigns to `key`: the quoted value on the first
/// line that names the key.
pub open spec fn spec_saved_value(content: Seq<char>, key: Seq<char>) -> Option<Seq<char>> {
    match first_line_with(content, key_marker(key)) {
        Some(line) => quoted_value(line),
        None => None,
    }
}

/// Whether `c` is white space, as `char::is_whitespace` decides it.
fn is_space_char(c: char) -> (r: bool)
    ensures
        r == is_space(c),
{
    let u = c as u32;
    (0x09 <= u && u <= 0x0d) || u == 0x20 || u == 0x85 || u == 0xa0 || u == 0x1680 || (0x2000 <= u
        && u <= 0x200a) || u == 0x2028 || u == 0x2029 || u == 0x202f || u == 0x205f || u
        == 0x3000
}

/// The first line of the non-empty text `s`, and the text behind it.
fn split_first_line<'a>(s: &'a str) -> (r: (&'a str, Option<&'a str>))
    ensures
        r.0@ == first_line(s@),
        match r.1 {
            Some(rest) => after_first(s@, '\n') == Some(rest@),
            None => after_first(s@, '\n') is None,
        },
{
    let (head, rest) = split_once(s, '\n');
    match rest {
        Some(_) => {
            let chars = to_chars(head);
            let n = chars.len();
            if n > 0 && chars[n - 1] == '\r' {
                let line = head.substring_char(0, n - 1);
                assert(line@ =~= head@.drop_last());
                (line, rest)
            } else {
                (head, rest)
            }
        },
        None => {
            proof {
                lemma_first_index_props(s@, '\n');
            }
            assert(head@ =~= s@);
            (head, rest)
        },
    }
}

/// The quoted value in an assignment line.
fn read_quoted_value<'a>(line: &'a str) -> (r: Option<&'a str>)
    ensures
        match r {
            Some(v) => quoted_value(line@) == Some(v@),
            None => quoted_value(line@) is None,
        },
{
    let (_, rhs) = split_once(line, '=');
    let rhs = match rhs {
        Some(x) => x,
        None => {
            return None;
        },
    };
    let chars = to_chars(rhs);
    let n = chars.len();
    let mut a: usize = 0;
    while a < n && is_space_char(chars[a])
        invariant
            a <= n,
            n == chars.len(),
            forall|j: int| 0 <= j < a ==> is_space(chars@[j]),
        decreases n - a,
    {
        a += 1;
    }
    proof {
        lemma_leading_spaces_is(chars@, a as int);
    }
    let ghost v = rhs@.skip(a as int);
    if a >= n || chars[a] != '"' {
        return None;
    }
    let close = find_char(&chars, a + 1, '"');
    assert(v.skip(1) =~= rhs@.skip(a + 1));
    if close >= n {
        return None;
    }
    let value = rhs.substring_char(a + 1, close);
    assert(value@ =~= v.skip(1).take(close - (a + 1)));
    Some(value)
}

/// Extracts the string value of `key` from a saved-variables text. The
/// line looked at is the first that holds `["key"]`.
pub fn extract_lua_string<'a>(content: &'a str, key: &str) -> (r: Option<&'a str>)
    ensures
        match r {
            Some(v) => spec_saved_value(content@, key@) == Some(v@),
            None => spec_saved_value(content@, key@) is None,
        },
{
    let mut needle = String::from_str("[\"");
    needle.append(key);
    needle.append("\"]");
    let mut rest: &'a str = content;
    loop
        invariant
            needle@ == key_marker(key@),
            first_line_with(rest@, needle@) == first_line_with(content@, needle@),
        decreases rest@.len(),
    {
        if rest.is_empty() {
            return None;
        }
        let (line, tail) = split_first_line(rest);
        if contains(line, needle.as_str()) {
            return read_quoted_value(line);
        }
        match tail {
            Some(t) => {
                proof {
                    lemma_first_index_props(rest@, '\n');
                }
                rest = t;
            },
            None => {
                return None;
            },
        }
    }
}

/// The value of `key`, or the empty string where the text has none.
pub open spec fn saved_or_empty(content: Seq<char>, key: Seq<char>) -> Seq<char> {
    match spec_saved_value(content, key) {
        Some(v) => v,
        None => Seq::empty(),
    }
}

/// The identity that a saved-variables text holds: there is one exactly
/// when the text gives a GUID and a name; the other values default to the
/// empty string.
pub open spec fn spec_saved_identity(content: Seq<char>) -> Option<IdentityModel> {
    match (spec_saved_value(content, "playerGUID"@), spec_saved_value(content, "playerName"@)) {
        (Some(guid), Some(name)) => Some(
            IdentityModel {
                guid,
                name,
                realm: saved_or_empty(content, "realmName"@),
                class: saved_or_empty(content, "className"@),
                spec: saved_or_empty(content, "specName"@),
                version: saved_or_empty(content, "addonVersion"@),
            },
        ),
        _ => None,
    }
}

/// The value of `key` as an owned string, empty where the text has none.
fn owned_or_empty(content: &str, key: &str) -> (r: String)
    ensures
        r@ == saved_or_empty(content@, key@),
{
    match extract_lua_string(content, key) {
        Some(v) => v.to_owned(),
        None => String::new(),
    }
}

/// Reads a player identity from a saved-variables text.
pub fn parse_saved_variables(content: &str) -> (r: Option<PlayerIdentity>)
    ensures
        match r {
            Some(id) => spec_saved_identity(content@) == Some(id@),
            None => spec_saved_identity(content@) is None,
        },
{
    let guid = match extract_lua_string(content, "playerGUID") {
        Some(v) => v.to_owned(),
        None => {
            return None;
        },
    };
    let name = match extract_lua_string(content, "playerName") {
        Some(v) => v.to_owned(),
        None => {
            return None;
        },
    };
    Some(
        PlayerIdentity {
            guid,
            name,
            realm: owned_or_empty(content, "realmName"),
            class: owned_or_empty(content, "className"),
            spec: owned_or_empty(content, "specName"),
            version: owned_or_empty(content, "addonVersion"),
        },
    )
}

} // verus!
