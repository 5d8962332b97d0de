//! Key combinations as the user records them, such as `Ctrl+Shift+O`.
//!
//! A combination is a list of tokens joined by `+`. A token is a modifier
//! (`ctrl`, `control`, `shift`, `alt`, `meta`, `win`, `super`), a letter,
//! or one of `f1` to `f12`; the case of letters does not matter. Where
//! several keys are named, the last one counts.

use crate::text::{
    after_first, ascii_lower, ascii_lower_seq, before_first, lemma_first_index_props,
    split_once, str_eq, to_chars,
};
use vstd::prelude::*;
use vstd::string::StrSliceExecFns;
use vstd::string::StringExecFns;

verus! {

/// The modifier keys of a combination.
#[derive(Debug, Clone, Copy, PartialEq, Eq, Structural)]
pub struct Modifiers {
    pub ctrl: bool,
    pub shift: bool,
    pub alt: bool,
    pub meta: bool,
}

/// The key of a combination.
#[derive(Debug, Clone, Copy, PartialEq, Eq, Structural)]
pub enum Key {
    /// A letter key, held as the capital letter `A` to `Z`.
    Letter(char),
    /// A function key, `F1` to `F12`, held as its number.
    Function(u8),
}

/// A key combination: modifiers and one key.
#[derive(Debug, Clone, Copy, PartialEq, Eq, Structural)]
pub struct Shortcut {
    pub modifiers: Modifiers,
    pub key: Key,
}

impl Modifiers {
    /// No modifier at all.
    pub open spec fn spec_none() -> Modifiers {
        Modifiers { ctrl: false, shift: false, alt: false, meta: false }
    }

    /// No modifier at all.
    pub fn none() -> (r: Modifiers)
        ensures
            r == Self::spec_none(),
    {
        Modifiers { ctrl: false, shift: false, alt: false, meta: false }
    }

    /// Whether no modifier is held.
    pub fn is_empty(&self) -> (r: bool)
        ensures
            r == (*self == Self::spec_none()),
    {
        !self.ctrl && !self.shift && !self.alt && !self.meta
    }
}

// ---------------------------------------------------------------------------
// Tokens
// ---------------------------------------------------------------------------

/// The parts of `s` between the separators `c`; a text without separator
/// is one part.
pub open spec fn split_parts(s: Seq<char>, c: char) -> Seq<Seq<char>>
    decreases s.len(),
{
    match after_first(s, c) {
        Some(rest) => if rest.len() < s.len() {
            seq![before_first(s, c)] + split_parts(rest, c)
        } else {
            seq![s]
        },
        None => seq![s],
    }
}

/// The number of the function key that a token in small letters names.
pub open spec fn function_key(k: Seq<char>) -> Option<u8> {
    if k == "f1"@ {
        Some(1u8)
    } else if k == "f2"@ {
        Some(2u8)
    } else if k == "f3"@ {
        Some(3u8)
    } else if k == "f4"@ {
        Some(4u8)
    } else if k == "f5"@ {
        Some(5u8)
    } else if k == "f6"@ {
        Some(6u8)
    } else if k == "f7"@ {
        Some(7u8)
    } else if k == "f8"@ {
        Some(8u8)
    } else if k == "f9"@ {
        Some(9u8)
    } else if k == "f10"@ {
        Some(10u8)
    } else if k == "f11"@ {
        Some(11u8)
    } else if k == "f12"@ {
        Some(12u8)
    } else {
        None
    }
}

/// The capital letter of a small letter.
pub open spec fn capital(c: char) -> char {
    ((c as u32 - 32) as u8) as char
}

/// What has been read of a combination: the modifiers, and the key named
/// last.
pub struct Reading {
    pub modifiers: Modifiers,
    pub key: Option<Key>,
}

/// The message for a token of one character that is no letter.
pub open spec fn unsupported_key(k: Seq<char>) -> Seq<char> {
    "Unsupported key '"@ + k + "'"@
}

/// The message for any other token that is not known.
pub open spec fn unsupported_token(k: Seq<char>) -> Seq<char> {
    "Unsupported token '"@ + k + "'"@
}

/// The message for a combination that names no key.
pub open spec fn no_key(combo: Seq<char>) -> Seq<char> {
    "No key specified in combo '"@ + combo + "'"@
}

/// What a token in small letters adds to a reading: a modifier, a key, or
/// an error message.
pub open spec fn read_token(r: Reading, k: Seq<char>) -> Result<Reading, Seq<char>> {
    if k == "ctrl"@ || k == "control"@ {
        Ok(Reading { modifiers: Modifiers { ctrl: true, ..r.modifiers }, ..r })
    } else if k == "shift"@ {
        Ok(Reading { modifiers: Modifiers { shift: true, ..r.modifiers }, ..r })
    } else if k == "alt"@ {
        Ok(Reading { modifiers: Modifiers { alt: true, ..r.modifiers }, ..r })
    } else if k == "meta"@ || k == "win"@ || k == "super"@ {
        Ok(Reading { modifiers: Modifiers { meta: true, ..r.modifiers }, ..r })
    } else if k.len() == 1 && (k[0] as u32) < 128 {
        if 'a' <= k[0] && k[0] <= 'z' {
            Ok(Reading { key: Some(Key::Letter(capital(k[0]))), ..r })
        } else {
            Err(unsupported_key(k))
        }
    } else {
        match function_key(k) {
            Some(n) => Ok(Reading { key: Some(Key::Function(n)), ..r }),
            None => Err(unsupported_token(k)),
        }
    }
}

/// What the tokens `parts`, read in order, make of a reading; the first
/// token that is not known ends the reading with its message.
pub open spec fn read_parts(r: Reading, parts: Seq<Seq<char>>) -> Result<Reading, Seq<char>>
    decreases parts.len(),
{
    if parts.len() == 0 {
        Ok(r)
    } else {
        match read_token(r, ascii_lower_seq(parts[0])) {
            Ok(next) => read_parts(next, parts.drop_first()),
            Err(msg) => Err(msg),
        }
    }
}

/// The shortcut that a combination stands for, or the message that says
/// why it stands for none.
pub open spec fn spec_shortcut(combo: Seq<char>) -> Result<Shortcut, Seq<char>> {
    match read_parts(
        Reading { modifiers: Modifiers::spec_none(), key: None },
        split_parts(combo, '+'),
    ) {
        Ok(r) => match r.key {
            Some(key) => Ok(Shortcut { modifiers: r.modifiers, key }),
            None => Err(no_key(combo)),
        },
        Err(msg) => Err(msg),
    }
}

/// The small letter of a capital letter, as a string.
fn small_letter(c: char) -> (r: &'static str)
    requires
        'A' <= c && c <= 'Z',
    ensures
        r@ == seq![ascii_lower(c)],
{
    proof {
        reveal_strlit("a");
        reveal_strlit("b");
        reveal_strlit("c");
        reveal_strlit("d");
        reveal_strlit("e");
        reveal_strlit("f");
        reveal_strlit("g");
        reveal_strlit("h");
        reveal_strlit("i");
        reveal_strlit("j");
        reveal_strlit("k");
        reveal_strlit("l");
        reveal_strlit("m");
        reveal_strlit("n");
        reveal_strlit("o");
        reveal_strlit("p");
        reveal_strlit("q");
        reveal_strlit("r");
        reveal_strlit("s");
        reveal_strlit("t");
        reveal_strlit("u");
        reveal_strlit("v");
        reveal_strlit("w");
        reveal_strlit("x");
        reveal_strlit("y");
        reveal_strlit("z");
    }
    let r = match c {
        'A' => "a",
        'B' => "b",
        'C' => "c",
        'D' => "d",
        'E' => "e",
        'F' => "f",
        'G' => "g",
        'H' => "h",
        'I' => "i",
        'J' => "j",
        'K' => "k",
        'L' => "l",
        'M' => "m",
        'N' => "n",
        'O' => "o",
        'P' => "p",
        'Q' => "q",
        'R' => "r",
        'S' => "s",
        'T' => "t",
        'U' => "u",
        'V' => "v",
        'W' => "w",
        'X' => "x",
        'Y' => "y",
        _ => "z",
    };
    assert(r@ =~= seq![ascii_lower(c)]);
    r
}

/// A copy of `s` with every ASCII capital letter replaced by its small
/// letter.
pub fn to_lower_string(s: &str) -> (r: String)
    ensures
        r@ == ascii_lower_seq(s@),
{
    let chars = to_chars(s);
    let mut out = String::new();
    let mut i: usize = 0;
    while i < chars.len()
        invariant
            i <= chars.len(),
            chars@ == s@,
            out@ == ascii_lower_seq(s@.take(i as int)),
        decreases chars.len() - i,
    {
        let c = chars[i];
        let ghost before = out@;
        if 'A' <= c && c <= 'Z' {
            out.append(small_letter(c));
        } else {
            out.append(s.substring_char(i, i + 1));
            assert(s@.subrange(i as int, i + 1) =~= seq![c]);
        }
        assert(out@ =~= before + seq![ascii_lower(c)]);
        assert(out@ =~= ascii_lower_seq(s@.take(i + 1)));
        i += 1;
    }
    assert(s@.take(i as int) =~= s@);
    out
}

/// The number of the function key that a token names.
fn read_function_key(k: &str) -> (r: Option<u8>)
    ensures
        r == function_key(k@),
{
    if str_eq(k, "f1") {
        Some(1)
    } else if str_eq(k, "f2") {
        Some(2)
    } else if str_eq(k, "f3") {
        Some(3)
    } else if str_eq(k, "f4") {
        Some(4)
    } else if str_eq(k, "f5") {
        Some(5)
    } else if str_eq(k, "f6") {
        Some(6)
    } else if str_eq(k, "f7") {
        Some(7)
    } else if str_eq(k, "f8") {
        Some(8)
    } else if str_eq(k, "f9") {
        Some(9)
    } else if str_eq(k, "f10") {
        Some(10)
    } else if str_eq(k, "f11") {
        Some(11)
    } else if str_eq(k, "f12") {
        Some(12)
    } else {
        None
    }
}

/// A message made of a beginning, a token and a closing quote.
fn quote_token(start: &str, k: &str) -> (r: String)
    ensures
        r@ == start@ + k@ + "'"@,
{
    let mut out = String::from_str(start);
    out.append(k);
    out.append("'");
    out
}

/// The value of an optional reading result.
pub open spec fn message_view(r: Result<Reading, String>) -> Result<Reading, Seq<char>> {
    match r {
        Ok(x) => Ok(x),
        Err(m) => Err(m@),
    }
}

/// Adds a token in small letters to a reading.
fn add_token(r: Reading, k: &str) -> (out: Result<Reading, String>)
    ensures
        message_view(out) == read_token(r, k@),
{
    let Reading { modifiers, key } = r;
    if str_eq(k, "ctrl") || str_eq(k, "control") {
        Ok(Reading { modifiers: Modifiers { ctrl: true, ..modifiers }, key })
    } else if str_eq(k, "shift") {
        Ok(Reading { modifiers: Modifiers { shift: true, ..modifiers }, key })
    } else if str_eq(k, "alt") {
        Ok(Reading { modifiers: Modifiers { alt: true, ..modifiers }, key })
    } else if str_eq(k, "meta") || str_eq(k, "win") || str_eq(k, "super") {
        Ok(Reading { modifiers: Modifiers { meta: true, ..modifiers }, key })
    } else {
        let chars = to_chars(k);
        if chars.len() == 1 && (chars[0] as u32) < 128 {
            let c = chars[0];
            if 'a' <= c && c <= 'z' {
                Ok(Reading { modifiers, key: Some(Key::Letter(((c as u32 - 32) as u8) as char)) })
            } else {
                Err(quote_token("Unsupported key '", k))
            }
        } else {
            match read_function_key(k) {
                Some(n) => Ok(Reading { modifiers, key: Some(Key::Function(n)) }),
                None => Err(quote_token("Unsupported token '", k)),
            }
        }
    }
}

/// The value of a shortcut or of the message in its place.
pub open spec fn shortcut_view(r: Result<Shortcut, String>) -> Result<Shortcut, Seq<char>> {
    match r {
        Ok(x) => Ok(x),
        Err(m) => Err(m@),
    }
}

/// Reads a key combination such as `Ctrl+Shift+O`. An unknown token and a
/// combination without a key give a message that says so.
pub fn user_combo_to_shortcut(combo: &str) -> (r: Result<Shortcut, String>)
    ensures
        shortcut_view(r) == spec_shortcut(combo@),
{
    let mut reading = Reading { modifiers: Modifiers::none(), key: None };
    let mut rest: &str = combo;
    loop
        invariant
            read_parts(reading, split_parts(rest@, '+')) == read_parts(
                Reading { modifiers: Modifiers::spec_none(), key: None },
                split_parts(combo@, '+'),
            ),
        decreases rest@.len(),
    {
        let (part, tail) = split_once(rest, '+');
        let k = to_lower_string(part);
        let ghost parts = split_parts(rest@, '+');
        proof {
            lemma_first_index_props(rest@, '+');
        }
        let next = match add_token(reading, k.as_str()) {
            Ok(next) => next,
            Err(msg) => {
                assert(parts[0] == part@);
                return Err(msg);
            },
        };
        match tail {
            Some(t) => {
                assert(parts[0] == part@);
                assert(parts.drop_first() =~= split_parts(t@, '+'));
                reading = next;
                rest = t;
            },
            None => {
                assert(parts =~= seq![rest@]);
                assert(part@ =~= rest@);
                assert(parts[0] == part@);
                assert(parts.drop_first() =~= Seq::<Seq<char>>::empty());
                assert(read_parts(next, parts.drop_first()) == Ok::<Reading, Seq<char>>(next));
                assert(read_parts(reading, parts) == Ok::<Reading, Seq<char>>(next));
                return match next.key {
                    Some(key) => Ok(Shortcut { modifiers: next.modifiers, key }),
                    None => Err(quote_token("No key specified in combo '", combo)),
                };
            },
        }
    }
}

} // verus!
