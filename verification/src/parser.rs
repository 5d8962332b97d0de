//! Combat log lines and the typed events read from them.
//!
//! A line is a wall-clock timestamp, two spaces, and a comma-separated
//! payload whose fields may be double-quoted:
//!
//! ```text
//! 5/21 20:14:35.100  SPELL_CAST_SUCCESS,Player-1,"Name",0x511,0x0,...
//! ```
//!
//! Field positions (the layout without a hidecaster field): 0 subevent,
//! 1 source GUID, 2 source name, 5 destination GUID, 6 destination name,
//! 9 spell id, 10 spell name, then the fields of the subevent. The
//! `ENCOUNTER_*` subevents have a layout of their own.
//!
//! `spec_parse_line` states what a line means; `parse_line` is proved to
//! compute exactly that.

use crate::text::{
    after_first, after_last, before_first, char_len, find_char, find_chars, find_seq,
    first_index, lemma_first_index_props, lemma_leading_run_is, parse_u32, parse_u64, parse_u8,
    spec_parse_u32, spec_parse_u8, spec_parse_uint, split_once, str_eq, take_after_last,
    to_chars, trim_char, trim_matches, views,
};
use vstd::arithmetic::div_mod::lemma_div_denominator;
use vstd::prelude::*;
use vstd::string::StrSliceExecFns;

verus! {

// ---------------------------------------------------------------------------
// Events
// ---------------------------------------------------------------------------

/// A combat log event the coaching engine cares about.
#[derive(Debug)]
pub enum LogEvent {
    SpellDamage {
        timestamp_ms: u64,
        source_guid: String,
        source_name: String,
        dest_guid: String,
        dest_name: String,
        spell_id: u32,
        spell_name: String,
        amount: u64,
    },
    SwingDamage { timestamp_ms: u64, source_guid: String, dest_guid: String, amount: u64 },
    SpellCastSuccess {
        timestamp_ms: u64,
        source_guid: String,
        source_name: String,
        spell_id: u32,
        spell_name: String,
    },
    SpellHeal {
        timestamp_ms: u64,
        source_guid: String,
        dest_guid: String,
        spell_id: u32,
        amount: u64,
        overhealing: u64,
    },
    UnitDied { timestamp_ms: u64, dest_guid: String, dest_name: String },
    SpellInterrupted {
        timestamp_ms: u64,
        source_guid: String,
        target_guid: String,
        interrupted_spell_id: u32,
        interrupted_spell: String,
    },
    /// Authoritative pull start with encounter metadata.
    EncounterStart {
        timestamp_ms: u64,
        encounter_id: u32,
        encounter_name: String,
        difficulty_id: u32,
        group_size: u32,
    },
    /// Authoritative pull end with success flag.
    EncounterEnd { timestamp_ms: u64, encounter_id: u32, encounter_name: String, success: bool },
    /// A cast that did not go off (movement, silence, ...).
    SpellCastFailed {
        timestamp_ms: u64,
        source_guid: String,
        source_name: String,
        spell_id: u32,
        spell_name: String,
        failed_type: String,
    },
    /// Someone begins casting.
    SpellCastStart {
        timestamp_ms: u64,
        source_guid: String,
        source_name: String,
        spell_id: u32,
        spell_name: String,
    },
}

/// The mathematical value of a `LogEvent`: the same variants, with each
/// string as its sequence of characters.
pub enum EventModel {
    SpellDamage {
        timestamp_ms: u64,
        source_guid: Seq<char>,
        source_name: Seq<char>,
        dest_guid: Seq<char>,
        dest_name: Seq<char>,
        spell_id: u32,
        spell_name: Seq<char>,
        amount: u64,
    },
    SwingDamage { timestamp_ms: u64, source_guid: Seq<char>, dest_guid: Seq<char>, amount: u64 },
    SpellCastSuccess {
        timestamp_ms: u64,
        source_guid: Seq<char>,
        source_name: Seq<char>,
        spell_id: u32,
        spell_name: Seq<char>,
    },
    SpellHeal {
        timestamp_ms: u64,
        source_guid: Seq<char>,
        dest_guid: Seq<char>,
        spell_id: u32,
        amount: u64,
        overhealing: u64,
    },
    UnitDied { timestamp_ms: u64, dest_guid: Seq<char>, dest_name: Seq<char> },
    SpellInterrupted {
        timestamp_ms: u64,
        source_guid: Seq<char>,
        target_guid: Seq<char>,
        interrupted_spell_id: u32,
        interrupted_spell: Seq<char>,
    },
    EncounterStart {
        timestamp_ms: u64,
        encounter_id: u32,
        encounter_name: Seq<char>,
        difficulty_id: u32,
        group_size: u32,
    },
    EncounterEnd {
        timestamp_ms: u64,
        encounter_id: u32,
        encounter_name: Seq<char>,
        success: bool,
    },
    SpellCastFailed {
        timestamp_ms: u64,
        source_guid: Seq<char>,
        source_name: Seq<char>,
        spell_id: u32,
        spell_name: Seq<char>,
        failed_type: Seq<char>,
    },
    SpellCastStart {
        timestamp_ms: u64,
        source_guid: Seq<char>,
        source_name: Seq<char>,
        spell_id: u32,
        spell_name: Seq<char>,
    },
}

impl EventModel {
    /// Milliseconds since midnight at which the event was logged.
    pub open spec fn timestamp_ms(self) -> u64 {
        match self {
            EventModel::SpellDamage { timestamp_ms, .. } => timestamp_ms,
            EventModel::SwingDamage { timestamp_ms, .. } => timestamp_ms,
            EventModel::SpellCastSuccess { timestamp_ms, .. } => timestamp_ms,
            EventModel::SpellHeal { timestamp_ms, .. } => timestamp_ms,
            EventModel::UnitDied { timestamp_ms, .. } => timestamp_ms,
            EventModel::SpellInterrupted { timestamp_ms, .. } => timestamp_ms,
            EventModel::EncounterStart { timestamp_ms, .. } => timestamp_ms,
            EventModel::EncounterEnd { timestamp_ms, .. } => timestamp_ms,
            EventModel::SpellCastFailed { timestamp_ms, .. } => timestamp_ms,
            EventModel::SpellCastStart { timestamp_ms, .. } => timestamp_ms,
        }
    }

    /// GUID of the entity that acted, where the event has one.
    pub open spec fn source_guid(self) -> Option<Seq<char>> {
        match self {
            EventModel::SpellDamage { source_guid, .. } => Some(source_guid),
            EventModel::SwingDamage { source_guid, .. } => Some(source_guid),
            EventModel::SpellCastSuccess { source_guid, .. } => Some(source_guid),
            EventModel::SpellHeal { source_guid, .. } => Some(source_guid),
            EventModel::SpellInterrupted { source_guid, .. } => Some(source_guid),
            EventModel::SpellCastFailed { source_guid, .. } => Some(source_guid),
            EventModel::SpellCastStart { source_guid, .. } => Some(source_guid),
            _ => None,
        }
    }

    /// GUID of the entity acted upon, where the event has one.
    pub open spec fn dest_guid(self) -> Option<Seq<char>> {
        match self {
            EventModel::SpellDamage { dest_guid, .. } => Some(dest_guid),
            EventModel::SwingDamage { dest_guid, .. } => Some(dest_guid),
            EventModel::SpellHeal { dest_guid, .. } => Some(dest_guid),
            EventModel::UnitDied { dest_guid, .. } => Some(dest_guid),
            EventModel::SpellInterrupted { target_guid, .. } => Some(target_guid),
            _ => None,
        }
    }
}

impl View for LogEvent {
    type V = EventModel;

    open spec fn view(&self) -> EventModel {
        match *self {
            LogEvent::SpellDamage {
                timestamp_ms,
                source_guid,
                source_name,
                dest_guid,
                dest_name,
                spell_id,
                spell_name,
                amount,
            } => EventModel::SpellDamage {
                timestamp_ms,
                source_guid: source_guid@,
                source_name: source_name@,
                dest_guid: dest_guid@,
                dest_name: dest_name@,
                spell_id,
                spell_name: spell_name@,
                amount,
            },
            LogEvent::SwingDamage {
                timestamp_ms,
                source_guid,
                dest_guid,
                amount,
            } => EventModel::SwingDamage {
                timestamp_ms,
                source_guid: source_guid@,
                dest_guid: dest_guid@,
                amount,
            },
            LogEvent::SpellCastSuccess {
                timestamp_ms,
                source_guid,
                source_name,
                spell_id,
                spell_name,
            } => EventModel::SpellCastSuccess {
                timestamp_ms,
                source_guid: source_guid@,
                source_name: source_name@,
                spell_id,
                spell_name: spell_name@,
            },
            LogEvent::SpellHeal {
                timestamp_ms,
                source_guid,
                dest_guid,
                spell_id,
                amount,
                overhealing,
            } => EventModel::SpellHeal {
                timestamp_ms,
                source_guid: source_guid@,
                dest_guid: dest_guid@,
                spell_id,
                amount,
                overhealing,
            },
            LogEvent::UnitDied { timestamp_ms, dest_guid, dest_name } => EventModel::UnitDied {
                timestamp_ms,
                dest_guid: dest_guid@,
                dest_name: dest_name@,
            },
            LogEvent::SpellInterrupted {
                timestamp_ms,
                source_guid,
                target_guid,
                interrupted_spell_id,
                interrupted_spell,
            } => EventModel::SpellInterrupted {
                timestamp_ms,
                source_guid: source_guid@,
                target_guid: target_guid@,
                interrupted_spell_id,
                interrupted_spell: interrupted_spell@,
            },
            LogEvent::EncounterStart {
                timestamp_ms,
                encounter_id,
                encounter_name,
                difficulty_id,
                group_size,
            } => EventModel::EncounterStart {
                timestamp_ms,
                encounter_id,
                encounter_name: encounter_name@,
                difficulty_id,
                group_size,
            },
            LogEvent::EncounterEnd {
                timestamp_ms,
                encounter_id,
                encounter_name,
                success,
            } => EventModel::EncounterEnd {
                timestamp_ms,
                encounter_id,
                encounter_name: encounter_name@,
                success,
            },
            LogEvent::SpellCastFailed {
                timestamp_ms,
                source_guid,
                source_name,
                spell_id,
                spell_name,
                failed_type,
            } => EventModel::SpellCastFailed {
                timestamp_ms,
                source_guid: source_guid@,
                source_name: source_name@,
                spell_id,
                spell_name: spell_name@,
                failed_type: failed_type@,
            },
            LogEvent::SpellCastStart {
                timestamp_ms,
                source_guid,
                source_name,
                spell_id,
                spell_name,
            } => EventModel::SpellCastStart {
                timestamp_ms,
                source_guid: source_guid@,
                source_name: source_name@,
                spell_id,
                spell_name: spell_name@,
            },
        }
    }
}

impl Clone for LogEvent {
    fn clone(&self) -> (r: Self)
        ensures
            r@ == self@,
    {
        match self {
            LogEvent::SpellDamage {
                timestamp_ms,
                source_guid,
                source_name,
                dest_guid,
                dest_name,
                spell_id,
                spell_name,
                amount,
            } => LogEvent::SpellDamage {
                timestamp_ms: *timestamp_ms,
                source_guid: source_guid.clone(),
                source_name: source_name.clone(),
                dest_guid: dest_guid.clone(),
                dest_name: dest_name.clone(),
                spell_id: *spell_id,
                spell_name: spell_name.clone(),
                amount: *amount,
            },
            LogEvent::SwingDamage {
                timestamp_ms,
                source_guid,
                dest_guid,
                amount,
            } => LogEvent::SwingDamage {
                timestamp_ms: *timestamp_ms,
                source_guid: source_guid.clone(),
                dest_guid: dest_guid.clone(),
                amount: *amount,
            },
            LogEvent::SpellCastSuccess {
                timestamp_ms,
                source_guid,
                source_name,
                spell_id,
                spell_name,
            } => LogEvent::SpellCastSuccess {
                timestamp_ms: *timestamp_ms,
                source_guid: source_guid.clone(),
                source_name: source_name.clone(),
                spell_id: *spell_id,
                spell_name: spell_name.clone(),
            },
            LogEvent::SpellHeal {
                timestamp_ms,
                source_guid,
                dest_guid,
                spell_id,
                amount,
                overhealing,
            } => LogEvent::SpellHeal {
                timestamp_ms: *timestamp_ms,
                source_guid: source_guid.clone(),
                dest_guid: dest_guid.clone(),
                spell_id: *spell_id,
                amount: *amount,
                overhealing: *overhealing,
            },
            LogEvent::UnitDied { timestamp_ms, dest_guid, dest_name } => LogEvent::UnitDied {
                timestamp_ms: *timestamp_ms,
                dest_guid: dest_guid.clone(),
                dest_name: dest_name.clone(),
            },
            LogEvent::SpellInterrupted {
                timestamp_ms,
                source_guid,
                target_guid,
                interrupted_spell_id,
                interrupted_spell,
            } => LogEvent::SpellInterrupted {
                timestamp_ms: *timestamp_ms,
                source_guid: source_guid.clone(),
                target_guid: target_guid.clone(),
                interrupted_spell_id: *interrupted_spell_id,
                interrupted_spell: interrupted_spell.clone(),
            },
            LogEvent::EncounterStart {
                timestamp_ms,
                encounter_id,
                encounter_name,
                difficulty_id,
                group_size,
            } => LogEvent::EncounterStart {
                timestamp_ms: *timestamp_ms,
                encounter_id: *encounter_id,
                encounter_name: encounter_name.clone(),
                difficulty_id: *difficulty_id,
                group_size: *group_size,
            },
            LogEvent::EncounterEnd {
                timestamp_ms,
                encounter_id,
                encounter_name,
                success,
            } => LogEvent::EncounterEnd {
                timestamp_ms: *timestamp_ms,
                encounter_id: *encounter_id,
                encounter_name: encounter_name.clone(),
                success: *success,
            },
            LogEvent::SpellCastFailed {
                timestamp_ms,
                source_guid,
                source_name,
                spell_id,
                spell_name,
                failed_type,
            } => LogEvent::SpellCastFailed {
                timestamp_ms: *timestamp_ms,
                source_guid: source_guid.clone(),
                source_name: source_name.clone(),
                spell_id: *spell_id,
                spell_name: spell_name.clone(),
                failed_type: failed_type.clone(),
            },
            LogEvent::SpellCastStart {
                timestamp_ms,
                source_guid,
                source_name,
                spell_id,
                spell_name,
            } => LogEvent::SpellCastStart {
                timestamp_ms: *timestamp_ms,
                source_guid: source_guid.clone(),
                source_name: source_name.clone(),
                spell_id: *spell_id,
                spell_name: spell_name.clone(),
            },
        }
    }
}

impl LogEvent {
    /// Milliseconds since midnight at which the event was logged.
    pub fn timestamp_ms(&self) -> (r: u64)
        ensures
            r == self@.timestamp_ms(),
    {
        match self {
            LogEvent::SpellDamage { timestamp_ms, .. } => *timestamp_ms,
            LogEvent::SwingDamage { timestamp_ms, .. } => *timestamp_ms,
            LogEvent::SpellCastSuccess { timestamp_ms, .. } => *timestamp_ms,
            LogEvent::SpellHeal { timestamp_ms, .. } => *timestamp_ms,
            LogEvent::UnitDied { timestamp_ms, .. } => *timestamp_ms,
            LogEvent::SpellInterrupted { timestamp_ms, .. } => *timestamp_ms,
            LogEvent::EncounterStart { timestamp_ms, .. } => *timestamp_ms,
            LogEvent::EncounterEnd { timestamp_ms, .. } => *timestamp_ms,
            LogEvent::SpellCastFailed { timestamp_ms, .. } => *timestamp_ms,
            LogEvent::SpellCastStart { timestamp_ms, .. } => *timestamp_ms,
        }
    }

    /// GUID of the entity that performed this action, if any.
    pub fn source_guid(&self) -> (r: Option<&str>)
        ensures
            match r {
                Some(g) => self@.source_guid() == Some(g@),
                None => self@.source_guid() is None,
            },
    {
        match self {
            LogEvent::SpellDamage { source_guid, .. } => Some(source_guid.as_str()),
            LogEvent::SwingDamage { source_guid, .. } => Some(source_guid.as_str()),
            LogEvent::SpellCastSuccess { source_guid, .. } => Some(source_guid.as_str()),
            LogEvent::SpellHeal { source_guid, .. } => Some(source_guid.as_str()),
            LogEvent::SpellInterrupted { source_guid, .. } => Some(source_guid.as_str()),
            LogEvent::SpellCastFailed { source_guid, .. } => Some(source_guid.as_str()),
            LogEvent::SpellCastStart { source_guid, .. } => Some(source_guid.as_str()),
            LogEvent::UnitDied { .. } => None,
            LogEvent::EncounterStart { .. } => None,
            LogEvent::EncounterEnd { .. } => None,
        }
    }

    /// GUID of the entity on the receiving end of this event, if any.
    pub fn dest_guid(&self) -> (r: Option<&str>)
        ensures
            match r {
                Some(g) => self@.dest_guid() == Some(g@),
                None => self@.dest_guid() is None,
            },
    {
        match self {
            LogEvent::SpellDamage { dest_guid, .. } => Some(dest_guid.as_str()),
            LogEvent::SwingDamage { dest_guid, .. } => Some(dest_guid.as_str()),
            LogEvent::SpellHeal { dest_guid, .. } => Some(dest_guid.as_str()),
            LogEvent::UnitDied { dest_guid, .. } => Some(dest_guid.as_str()),
            LogEvent::SpellInterrupted { target_guid, .. } => Some(target_guid.as_str()),
            LogEvent::SpellCastSuccess { .. } => None,
            LogEvent::SpellCastFailed { .. } => None,
            LogEvent::SpellCastStart { .. } => None,
            LogEvent::EncounterStart { .. } => None,
            LogEvent::EncounterEnd { .. } => None,
        }
    }
}

/// The value of an optional event.
pub open spec fn event_view(e: Option<LogEvent>) -> Option<EventModel> {
    match e {
        Some(ev) => Some(ev@),
        None => None,
    }
}

// ---------------------------------------------------------------------------
// Payload fields
// ---------------------------------------------------------------------------

/// Length of the first field of the non-empty payload `s`. A field that
/// opens with a double quote runs to the closing quote, quotes included;
/// any other runs to the next comma.
pub open spec fn csv_field_len(s: Seq<char>) -> int {
    if s[0] == '"' {
        let close = first_index(s.skip(1), '"');
        if close + 2 < s.len() {
            close + 2
        } else {
            s.len() as int
        }
    } else {
        first_index(s, ',')
    }
}

/// Where the payload after the first field of `s` begins: behind the
/// field, and behind the comma that follows it, if one does.
pub open spec fn csv_rest_start(s: Seq<char>) -> int {
    let n = csv_field_len(s);
    if n < s.len() && s[n] == ',' {
        n + 1
    } else {
        n
    }
}

/// The first `max` fields of the payload `s`, quotes kept.
pub open spec fn csv_split(s: Seq<char>, max: nat) -> Seq<Seq<char>>
    decreases max,
{
    if max == 0 || s.len() == 0 {
        Seq::empty()
    } else {
        seq![s.take(csv_field_len(s))] + csv_split(s.skip(csv_rest_start(s)), (max - 1) as nat)
    }
}

/// Splits a payload into at most `max` fields, respecting double-quoted
/// fields, which may contain commas. The surrounding quotes stay in the
/// field, so that `unquote` can strip them from the fields known to be names.
pub fn csv_fields<'a>(s: &'a str, max: usize) -> (fields: Vec<&'a str>)
    ensures
        views(fields@) == csv_split(s@, max as nat),
{
    let chars = to_chars(s);
    let n = chars.len();
    let mut fields: Vec<&'a str> = Vec::new();
    let mut pos: usize = 0;
    assert(s@.skip(0) =~= s@);
    assert(views(fields@) + csv_split(s@, max as nat) =~= csv_split(s@, max as nat));
    while fields.len() < max && pos < n
        invariant
            pos <= n,
            n == chars.len(),
            chars@ == s@,
            fields.len() <= max,
            views(fields@) + csv_split(s@.skip(pos as int), (max - fields.len()) as nat)
                == csv_split(s@, max as nat),
        decreases n - pos,
    {
        let ghost rest = s@.skip(pos as int);
        let field_len: usize;
        if chars[pos] == '"' {
            let close = find_char(&chars, pos + 1, '"');
            assert(rest.skip(1) =~= s@.skip(pos + 1));
            let inner = close - (pos + 1);
            let rem = n - pos;
            field_len = if rem >= 2 && inner < rem - 2 {
                inner + 2
            } else {
                rem
            };
        } else {
            let end = find_char(&chars, pos, ',');
            field_len = end - pos;
        }
        assert(field_len == csv_field_len(rest));
        let after = pos + field_len;
        let field = s.substring_char(pos, after);
        let next = if after < n && chars[after] == ',' {
            after + 1
        } else {
            after
        };
        proof {
            lemma_first_index_props(rest, ',');
            assert(next - pos == csv_rest_start(rest));
            assert(next > pos);
            assert(field@ =~= rest.take(csv_field_len(rest)));
            assert(s@.skip(next as int) =~= rest.skip(csv_rest_start(rest)));
            assert(views(fields@.push(field)) =~= views(fields@) + seq![field@]);
            assert(views(fields@) + (seq![field@] + csv_split(
                s@.skip(next as int),
                (max - fields.len() - 1) as nat,
            )) =~= views(fields@) + seq![field@] + csv_split(
                s@.skip(next as int),
                (max - fields.len() - 1) as nat,
            ));
        }
        fields.push(field);
        pos = next;
    }
    assert(views(fields@) + Seq::<Seq<char>>::empty() =~= views(fields@));
    fields
}

/// Strips the double quotes around a field.
pub fn unquote<'a>(s: &'a str) -> (r: &'a str)
    ensures
        r@ == trim_char(s@, '"'),
{
    trim_matches(s, '"')
}

// ---------------------------------------------------------------------------
// Timestamps
// ---------------------------------------------------------------------------

/// Ten to the power `n`.
pub open spec fn pow10(n: nat) -> nat
    decreases n,
{
    if n == 0 {
        1
    } else {
        10 * pow10((n - 1) as nat)
    }
}

/// Milliseconds for a fraction of a second written in `len` digits with
/// value `frac`: scaled up below three digits, cut off above.
pub open spec fn frac_to_ms(frac: int, len: nat) -> int {
    if len <= 3 {
        frac * pow10((3 - len) as nat)
    } else {
        frac / (pow10((len - 3) as nat) as int)
    }
}

/// Milliseconds since midnight for `h:m:s` and a fraction already in
/// milliseconds.
pub open spec fn ms_of_day(h: int, m: int, s: int, frac_ms: int) -> int {
    (h * 3600 + m * 60 + s) * 1000 + frac_ms
}

/// Milliseconds since midnight for the four numbers of a clock time, where
/// the result fits in 64 bits.
pub open spec fn spec_clock_ms(h: u64, m: u64, s: u64, frac: u64, frac_len: nat) -> Option<u64> {
    let total = ms_of_day(h as int, m as int, s as int, frac_to_ms(frac as int, frac_len));
    if total <= u64::MAX {
        Some(total as u64)
    } else {
        None
    }
}

/// The number that a part of a clock time stands for.
pub open spec fn clock_part(s: Seq<char>) -> Option<u64> {
    spec_parse_uint(s, u64::MAX)
}

/// The fraction part of the seconds field: what stands behind the dot, or
/// a single zero where there is no dot.
pub open spec fn fraction_digits(sm: Seq<char>) -> Seq<char> {
    match after_first(sm, '.') {
        Some(f) => f,
        None => seq!['0'],
    }
}

/// What a clock time `HH:MM:SS[.FFFF]` means, in milliseconds since
/// midnight.
pub open spec fn spec_parse_clock(time: Seq<char>) -> Option<u64> {
    match after_first(time, ':') {
        Some(tail) => match after_first(tail, ':') {
            Some(sm) => match (
                clock_part(before_first(time, ':')),
                clock_part(before_first(tail, ':')),
                clock_part(before_first(sm, '.')),
                clock_part(fraction_digits(sm)),
            ) {
                (Some(h), Some(m), Some(s), Some(f)) => spec_clock_ms(
                    h,
                    m,
                    s,
                    f,
                    fraction_digits(sm).len(),
                ),
                _ => None,
            },
            None => None,
        },
        None => None,
    }
}

/// What a timestamp `M/D[/YYYY] HH:MM:SS[.FFFF]` means: the clock time
/// behind the last space. The date is discarded.
pub open spec fn spec_parse_timestamp(t: Seq<char>) -> Option<u64> {
    match after_last(t, ' ') {
        Some(time) => spec_parse_clock(time),
        None => None,
    }
}

/// Scales a fraction of a second written in `len` digits to milliseconds.
fn scale_fraction(frac: u64, len: usize) -> (r: u128)
    requires
        len >= 1,
    ensures
        r == frac_to_ms(frac as int, len as nat),
        r <= frac * 100,
{
    assert(pow10(0) == 1 && pow10(1) == 10 && pow10(2) == 100) by {
        reveal_with_fuel(pow10, 4);
    }
    if len == 1 {
        assert(frac_to_ms(frac as int, 1) == frac * 100);
        frac as u128 * 100
    } else if len == 2 {
        assert(frac_to_ms(frac as int, 2) == frac * 10);
        frac as u128 * 10
    } else if len == 3 {
        assert(frac_to_ms(frac as int, 3) == frac * 1);
        frac as u128
    } else {
        let mut v: u64 = frac;
        let mut k: usize = 0;
        assert(frac as int / 1 == frac as int);
        while k < len - 3
            invariant
                k <= len - 3,
                len > 3,
                pow10(k as nat) > 0,
                v == frac as int / (pow10(k as nat) as int),
                v <= frac,
            decreases len - 3 - k,
        {
            proof {
                lemma_div_denominator(frac as int, pow10(k as nat) as int, 10);
                assert(pow10((k + 1) as nat) == pow10(k as nat) * 10);
            }
            v = v / 10;
            k += 1;
        }
        v as u128
    }
}

/// Milliseconds since midnight for the four numbers of a clock time.
fn clock_ms(h: u64, m: u64, s: u64, frac: u64, frac_len: usize) -> (r: Option<u64>)
    requires
        frac_len >= 1,
    ensures
        r == spec_clock_ms(h, m, s, frac, frac_len as nat),
{
    let ms = scale_fraction(frac, frac_len);
    let total: u128 = (h as u128 * 3600 + m as u128 * 60 + s as u128) * 1000 + ms;
    if total <= u64::MAX as u128 {
        Some(total as u64)
    } else {
        None
    }
}

/// Reads a clock time `HH:MM:SS[.FFFF]` as milliseconds since midnight.
fn parse_clock(time: &str) -> (r: Option<u64>)
    ensures
        r == spec_parse_clock(time@),
{
    let (h_str, tail) = split_once(time, ':');
    let tail = match tail {
        Some(t) => t,
        None => {
            return None;
        },
    };
    let (m_str, sm) = split_once(tail, ':');
    let sm = match sm {
        Some(t) => t,
        None => {
            return None;
        },
    };
    let (s_str, frac) = split_once(sm, '.');
    let frac_str = match frac {
        Some(f) => f,
        None => "0",
    };
    proof {
        reveal_strlit("0");
        assert("0"@ =~= seq!['0']);
    }
    let h = match parse_u64(h_str) {
        Some(v) => v,
        None => {
            return None;
        },
    };
    let m = match parse_u64(m_str) {
        Some(v) => v,
        None => {
            return None;
        },
    };
    let s = match parse_u64(s_str) {
        Some(v) => v,
        None => {
            return None;
        },
    };
    let f = match parse_u64(frac_str) {
        Some(v) => v,
        None => {
            return None;
        },
    };
    let frac_len = char_len(frac_str);
    clock_ms(h, m, s, f, frac_len)
}

/// Reads a log timestamp as milliseconds since midnight.
///
/// Accepted forms are `M/D HH:MM:SS.mmm` and `M/D/YYYY HH:MM:SS.mmmm`; the
/// fraction may have any number of digits and is normalised to milliseconds.
pub fn parse_timestamp(date_time: &str) -> (r: Option<u64>)
    ensures
        r == spec_parse_timestamp(date_time@),
{
    match take_after_last(date_time, ' ') {
        Some(time) => parse_clock(time),
        None => None,
    }
}

// ---------------------------------------------------------------------------
// Lines
// ---------------------------------------------------------------------------

/// The separator between timestamp and payload.
pub open spec fn separator() -> Seq<char> {
    seq![' ', ' ']
}

/// Timestamp and fields of a line: the timestamp ends at the first double
/// space, the payload after it splits into at most 30 fields.
pub open spec fn spec_split_line(raw: Seq<char>) -> Option<(u64, Seq<Seq<char>>)> {
    match find_seq(raw, separator()) {
        Some(sep) => match spec_parse_timestamp(raw.take(sep)) {
            Some(ts) => Some((ts, csv_split(raw.skip(sep + 2), 30))),
            None => None,
        },
        None => None,
    }
}

/// Splits a raw log line into its timestamp and its fields.
pub fn split_line<'a>(raw: &'a str) -> (r: Option<(u64, Vec<&'a str>)>)
    ensures
        match r {
            Some((ts, fields)) => spec_split_line(raw@) == Some((ts, views(fields@))),
            None => spec_split_line(raw@) is None,
        },
{
    let chars = to_chars(raw);
    let mut two: Vec<char> = Vec::new();
    two.push(' ');
    two.push(' ');
    assert(two@ =~= separator());
    let sep = match find_chars(&chars, &two) {
        Some(i) => i,
        None => {
            return None;
        },
    };
    let ts_str = raw.substring_char(0, sep);
    let payload = raw.substring_char(sep + 2, chars.len());
    assert(ts_str@ =~= raw@.take(sep as int));
    assert(payload@ =~= raw@.skip(sep + 2));
    let ts = match parse_timestamp(ts_str) {
        Some(t) => t,
        None => {
            return None;
        },
    };
    let fields = csv_fields(payload, 30);
    Some((ts, fields))
}

/// Field `i`, or the empty string where the line has no such field.
pub open spec fn field(f: Seq<Seq<char>>, i: int) -> Seq<char> {
    if 0 <= i < f.len() {
        f[i]
    } else {
        Seq::empty()
    }
}

/// Field `i` without its quotes.
pub open spec fn name_field(f: Seq<Seq<char>>, i: int) -> Seq<char> {
    trim_char(field(f, i), '"')
}

/// Field `i` as a number, or 0 where it is missing or no number.
pub open spec fn number_field(f: Seq<Seq<char>>, i: int) -> u64 {
    match spec_parse_uint(field(f, i), u64::MAX) {
        Some(v) => v,
        None => 0,
    }
}

/// Field `i` as a `u32`, or 0 where it is no number.
pub open spec fn small_number_field(f: Seq<Seq<char>>, i: int) -> u32 {
    match spec_parse_u32(field(f, i)) {
        Some(v) => v,
        None => 0,
    }
}

/// Whether the subevent token names damage done by a spell.
pub open spec fn is_spell_damage(kind: Seq<char>) -> bool {
    kind == "SPELL_DAMAGE"@ || kind == "SPELL_PERIODIC_DAMAGE"@ || kind == "RANGE_DAMAGE"@
}

/// Whether the subevent token names healing done by a spell.
pub open spec fn is_spell_heal(kind: Seq<char>) -> bool {
    kind == "SPELL_HEAL"@ || kind == "SPELL_PERIODIC_HEAL"@
}

/// The event that a timestamp and the fields of a payload stand for.
///
/// Every subevent needs the fields 1 and 2. An unknown subevent, a missing
/// required field or a spell id that is no number gives no event.
pub open spec fn spec_event(ts: u64, f: Seq<Seq<char>>) -> Option<EventModel> {
    let kind = field(f, 0);
    let spell = spec_parse_u32(field(f, 9));
    if f.len() < 3 {
        None
    } else if is_spell_damage(kind) {
        if f.len() > 10 && spell is Some {
            Some(
                EventModel::SpellDamage {
                    timestamp_ms: ts,
                    source_guid: name_field(f, 1),
                    source_name: name_field(f, 2),
                    dest_guid: name_field(f, 5),
                    dest_name: name_field(f, 6),
                    spell_id: spell->0,
                    spell_name: name_field(f, 10),
                    amount: number_field(f, 14),
                },
            )
        } else {
            None
        }
    } else if kind == "SWING_DAMAGE"@ {
        Some(
            EventModel::SwingDamage {
                timestamp_ms: ts,
                source_guid: name_field(f, 1),
                dest_guid: name_field(f, 5),
                amount: number_field(f, 12),
            },
        )
    } else if kind == "SPELL_CAST_SUCCESS"@ {
        if f.len() > 10 && spell is Some {
            Some(
                EventModel::SpellCastSuccess {
                    timestamp_ms: ts,
                    source_guid: name_field(f, 1),
                    source_name: name_field(f, 2),
                    spell_id: spell->0,
                    spell_name: name_field(f, 10),
                },
            )
        } else {
            None
        }
    } else if is_spell_heal(kind) {
        if f.len() > 9 && spell is Some {
            Some(
                EventModel::SpellHeal {
                    timestamp_ms: ts,
                    source_guid: name_field(f, 1),
                    dest_guid: name_field(f, 5),
                    spell_id: spell->0,
                    amount: number_field(f, 14),
                    overhealing: number_field(f, 15),
                },
            )
        } else {
            None
        }
    } else if kind == "UNIT_DIED"@ {
        Some(
            EventModel::UnitDied {
                timestamp_ms: ts,
                dest_guid: name_field(f, 5),
                dest_name: name_field(f, 6),
            },
        )
    } else if kind == "SPELL_INTERRUPT"@ {
        if f.len() > 13 && spec_parse_u32(f[12]) is Some {
            Some(
                EventModel::SpellInterrupted {
                    timestamp_ms: ts,
                    source_guid: name_field(f, 1),
                    target_guid: name_field(f, 5),
                    interrupted_spell_id: spec_parse_u32(f[12])->0,
                    interrupted_spell: name_field(f, 13),
                },
            )
        } else {
            None
        }
    } else if kind == "ENCOUNTER_START"@ {
        if f.len() > 4 && spec_parse_u32(f[1]) is Some {
            Some(
                EventModel::EncounterStart {
                    timestamp_ms: ts,
                    encounter_id: spec_parse_u32(f[1])->0,
                    encounter_name: name_field(f, 2),
                    difficulty_id: small_number_field(f, 3),
                    group_size: small_number_field(f, 4),
                },
            )
        } else {
            None
        }
    } else if kind == "ENCOUNTER_END"@ {
        if spec_parse_u32(f[1]) is Some {
            Some(
                EventModel::EncounterEnd {
                    timestamp_ms: ts,
                    encounter_id: spec_parse_u32(f[1])->0,
                    encounter_name: name_field(f, 2),
                    success: spec_parse_u8(field(f, 5)) == Some(1u8),
                },
            )
        } else {
            None
        }
    } else if kind == "SPELL_CAST_FAILED"@ {
        if f.len() > 10 && spell is Some {
            Some(
                EventModel::SpellCastFailed {
                    timestamp_ms: ts,
                    source_guid: name_field(f, 1),
                    source_name: name_field(f, 2),
                    spell_id: spell->0,
                    spell_name: name_field(f, 10),
                    failed_type: name_field(f, 12),
                },
            )
        } else {
            None
        }
    } else if kind == "SPELL_CAST_START"@ {
        if f.len() > 10 && spell is Some {
            Some(
                EventModel::SpellCastStart {
                    timestamp_ms: ts,
                    source_guid: name_field(f, 1),
                    source_name: name_field(f, 2),
                    spell_id: spell->0,
                    spell_name: name_field(f, 10),
                },
            )
        } else {
            None
        }
    } else {
        None
    }
}

/// The event that the line `raw` stands for, if it stands for one.
pub open spec fn spec_parse_line(raw: Seq<char>) -> Option<EventModel> {
    match spec_split_line(raw) {
        Some((ts, f)) => spec_event(ts, f),
        None => None,
    }
}

/// Field `i` without its quotes, as an owned string.
fn owned_name(f: &Vec<&str>, i: usize) -> (r: String)
    ensures
        r@ == name_field(views(f@), i as int),
{
    if i < f.len() {
        unquote(f[i]).to_owned()
    } else {
        proof {
            lemma_leading_run_is(Seq::<char>::empty(), '"', 0);
        }
        String::new()
    }
}

/// Field `i` as a number, or 0.
fn owned_number(f: &Vec<&str>, i: usize) -> (r: u64)
    ensures
        r == number_field(views(f@), i as int),
{
    if i < f.len() {
        match parse_u64(f[i]) {
            Some(v) => v,
            None => 0,
        }
    } else {
        0
    }
}

/// Field `i` as a `u32`, if it is one.
fn owned_id(f: &Vec<&str>, i: usize) -> (r: Option<u32>)
    ensures
        r == spec_parse_u32(field(views(f@), i as int)),
{
    if i < f.len() {
        parse_u32(f[i])
    } else {
        None
    }
}

/// Turns a raw log line into a typed event. A malformed line and an
/// unknown subevent give `None`.
pub fn parse_line(raw: &str) -> (r: Option<LogEvent>)
    ensures
        event_view(r) == spec_parse_line(raw@),
{
    let (ts, f) = match split_line(raw) {
        Some(x) => x,
        None => {
            return None;
        },
    };
    if f.len() < 3 {
        return None;
    }
    let kind = f[0];
    let ghost fv = views(f@);
    assert(kind@ == field(fv, 0));
    let spell = owned_id(&f, 9);
    if str_eq(kind, "SPELL_DAMAGE") || str_eq(kind, "SPELL_PERIODIC_DAMAGE") || str_eq(
        kind,
        "RANGE_DAMAGE",
    ) {
        if f.len() <= 10 {
            return None;
        }
        match spell {
            Some(spell_id) => Some(
                LogEvent::SpellDamage {
                    timestamp_ms: ts,
                    source_guid: owned_name(&f, 1),
                    source_name: owned_name(&f, 2),
                    dest_guid: owned_name(&f, 5),
                    dest_name: owned_name(&f, 6),
                    spell_id,
                    spell_name: owned_name(&f, 10),
                    amount: owned_number(&f, 14),
                },
            ),
            None => None,
        }
    } else if str_eq(kind, "SWING_DAMAGE") {
        Some(
            LogEvent::SwingDamage {
                timestamp_ms: ts,
                source_guid: owned_name(&f, 1),
                dest_guid: owned_name(&f, 5),
                amount: owned_number(&f, 12),
            },
        )
    } else if str_eq(kind, "SPELL_CAST_SUCCESS") {
        if f.len() <= 10 {
            return None;
        }
        match spell {
            Some(spell_id) => Some(
                LogEvent::SpellCastSuccess {
                    timestamp_ms: ts,
                    source_guid: owned_name(&f, 1),
                    source_name: owned_name(&f, 2),
                    spell_id,
                    spell_name: owned_name(&f, 10),
                },
            ),
            None => None,
        }
    } else if str_eq(kind, "SPELL_HEAL") || str_eq(kind, "SPELL_PERIODIC_HEAL") {
        match spell {
            Some(spell_id) => Some(
                LogEvent::SpellHeal {
                    timestamp_ms: ts,
                    source_guid: owned_name(&f, 1),
                    dest_guid: owned_name(&f, 5),
                    spell_id,
                    amount: owned_number(&f, 14),
                    overhealing: owned_number(&f, 15),
                },
            ),
            None => None,
        }
    } else if str_eq(kind, "UNIT_DIED") {
        Some(
            LogEvent::UnitDied {
                timestamp_ms: ts,
                dest_guid: owned_name(&f, 5),
                dest_name: owned_name(&f, 6),
            },
        )
    } else if str_eq(kind, "SPELL_INTERRUPT") {
        if f.len() <= 13 {
            return None;
        }
        match owned_id(&f, 12) {
            Some(interrupted_spell_id) => Some(
                LogEvent::SpellInterrupted {
                    timestamp_ms: ts,
                    source_guid: owned_name(&f, 1),
                    target_guid: owned_name(&f, 5),
                    interrupted_spell_id,
                    interrupted_spell: owned_name(&f, 13),
                },
            ),
            None => None,
        }
    } else if str_eq(kind, "ENCOUNTER_START") {
        if f.len() <= 4 {
            return None;
        }
        match owned_id(&f, 1) {
            Some(encounter_id) => Some(
                LogEvent::EncounterStart {
                    timestamp_ms: ts,
                    encounter_id,
                    encounter_name: owned_name(&f, 2),
                    difficulty_id: match owned_id(&f, 3) {
                        Some(v) => v,
                        None => 0,
                    },
                    group_size: match owned_id(&f, 4) {
                        Some(v) => v,
                        None => 0,
                    },
                },
            ),
            None => None,
        }
    } else if str_eq(kind, "ENCOUNTER_END") {
        match owned_id(&f, 1) {
            Some(encounter_id) => {
                let success = if f.len() > 5 {
                    match parse_u8(f[5]) {
                        Some(v) => v == 1,
                        None => false,
                    }
                } else {
                    false
                };
                Some(
                    LogEvent::EncounterEnd {
                        timestamp_ms: ts,
                        encounter_id,
                        encounter_name: owned_name(&f, 2),
                        success,
                    },
                )
            },
            None => None,
        }
    } else if str_eq(kind, "SPELL_CAST_FAILED") {
        if f.len() <= 10 {
            return None;
        }
        match spell {
            Some(spell_id) => Some(
                LogEvent::SpellCastFailed {
                    timestamp_ms: ts,
                    source_guid: owned_name(&f, 1),
                    source_name: owned_name(&f, 2),
                    spell_id,
                    spell_name: owned_name(&f, 10),
                    failed_type: owned_name(&f, 12),
                },
            ),
            None => None,
        }
    } else if str_eq(kind, "SPELL_CAST_START") {
        if f.len() <= 10 {
            return None;
        }
        match spell {
            Some(spell_id) => Some(
                LogEvent::SpellCastStart {
                    timestamp_ms: ts,
                    source_guid: owned_name(&f, 1),
                    source_name: owned_name(&f, 2),
                    spell_id,
                    spell_name: owned_name(&f, 10),
                },
            ),
            None => None,
        }
    } else {
        None
    }
}

} // verus!
