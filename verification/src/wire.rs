//! The canonical line of an event, and the proof that reading it gives the
//! event back.
//!
//! `format_event` writes an event the way the log does: timestamp, two
//! spaces, and the fields of the subevent at their positions, names in
//! double quotes. `lemma_round_trip` shows that `spec_parse_line` maps the
//! line back to the event, for every event whose strings can stand in a
//! field at all.

use crate::parser::{
    csv_field_len, csv_rest_start, csv_split, frac_to_ms, fraction_digits, ms_of_day, pow10,
    separator, spec_clock_ms, spec_event, spec_parse_clock, spec_parse_line,
    spec_parse_timestamp, spec_split_line, EventModel,
};
use crate::text::{
    after_first, after_last, all_digits, before_first, decimal_digits, decimal_value,
    digit_char, digit_value, find_seq, has_prefix, is_digit, lemma_find_seq_is,
    lemma_first_index_is, lemma_last_index_is, lemma_leading_run_is, lemma_trailing_run_is,
    spec_parse_u32, spec_parse_u8, spec_parse_uint, trim_char,
};
use vstd::prelude::*;

verus! {

// ---------------------------------------------------------------------------
// Numbers
// ---------------------------------------------------------------------------

/// The digits of a number are digits, at least one, and stand for the
/// number.
pub proof fn lemma_decimal_digits(n: nat)
    ensures
        decimal_digits(n).len() >= 1,
        all_digits(decimal_digits(n)),
        decimal_value(decimal_digits(n)) == n,
    decreases n,
{
    let s = decimal_digits(n);
    if n < 10 {
        assert(s.drop_last() =~= Seq::<char>::empty());
        assert(decimal_value(s.drop_last()) == 0);
        assert(digit_value(digit_char(n as int)) == n);
    } else {
        lemma_decimal_digits(n / 10);
        let head = decimal_digits(n / 10);
        let d = (n % 10) as int;
        assert(s.drop_last() =~= head);
        assert(s.last() == digit_char(d));
        assert(digit_value(digit_char(d)) == d);
        assert(is_digit(digit_char(d)));
        assert forall|i: int| 0 <= i < s.len() implies is_digit(#[trigger] s[i]) by {
            if i < head.len() {
                assert(s[i] == head[i]);
            }
        }
    }
}

/// Reading the digits of a number gives the number, where it is in range.
pub proof fn lemma_parse_decimal(n: nat, max: u64)
    requires
        n <= max,
    ensures
        spec_parse_uint(decimal_digits(n), max) == Some(n as u64),
{
    lemma_decimal_digits(n);
    let s = decimal_digits(n);
    assert(is_digit(s[0]));
}

/// Three digits for a number below 1000, with leading zeros.
pub open spec fn three_digits(n: nat) -> Seq<char> {
    seq![digit_char((n / 100) as int), digit_char(((n / 10) % 10) as int), digit_char((n % 10) as int)]
}

/// Reading three digits gives the number they stand for.
pub proof fn lemma_parse_three_digits(n: nat)
    requires
        n < 1000,
    ensures
        three_digits(n).len() == 3,
        all_digits(three_digits(n)),
        spec_parse_uint(three_digits(n), u64::MAX) == Some(n as u64),
{
    let s = three_digits(n);
    let a = (n / 100) as int;
    let b = ((n / 10) % 10) as int;
    let c = (n % 10) as int;
    assert(digit_value(digit_char(a)) == a && is_digit(digit_char(a)));
    assert(digit_value(digit_char(b)) == b && is_digit(digit_char(b)));
    assert(digit_value(digit_char(c)) == c && is_digit(digit_char(c)));
    let s2 = s.drop_last();
    let s1 = s2.drop_last();
    let s0 = s1.drop_last();
    assert(s0 =~= Seq::<char>::empty());
    assert(decimal_value(s0) == 0);
    assert(s1.last() == digit_char(a));
    assert(decimal_value(s1) == a);
    assert(s2.last() == digit_char(b));
    assert(decimal_value(s2) == a * 10 + b);
    assert(s.last() == digit_char(c));
    assert(decimal_value(s) == (a * 10 + b) * 10 + c);
    assert((a * 10 + b) * 10 + c == n);
}

// ---------------------------------------------------------------------------
// Fields
// ---------------------------------------------------------------------------

/// Whether a text has neither a comma nor a double quote, so that it can
/// stand in a field as it is.
pub open spec fn is_plain(s: Seq<char>) -> bool {
    forall|i: int| 0 <= i < s.len() ==> #[trigger] s[i] != ',' && s[i] != '"'
}

/// Whether a text has no double quote, so that it can stand in a field
/// between double quotes.
pub open spec fn is_quotable(s: Seq<char>) -> bool {
    forall|i: int| 0 <= i < s.len() ==> #[trigger] s[i] != '"'
}

/// A text between double quotes.
pub open spec fn quoted(s: Seq<char>) -> Seq<char> {
    seq!['"'] + s + seq!['"']
}

/// Whether a text is a field as the log writes it: plain, or a quotable
/// text between double quotes.
pub open spec fn is_wire_field(f: Seq<char>) -> bool {
    is_plain(f) || exists|s: Seq<char>| is_quotable(s) && f == quoted(s)
}

/// Digits are plain.
pub proof fn lemma_digits_are_plain(s: Seq<char>)
    requires
        all_digits(s),
    ensures
        is_plain(s),
{
    assert forall|i: int| 0 <= i < s.len() implies #[trigger] s[i] != ',' && s[i] != '"' by {
        assert(is_digit(s[i]));
    }
}

/// A plain text is left as it is when its quotes are stripped.
pub proof fn lemma_trim_plain(s: Seq<char>)
    requires
        is_plain(s),
    ensures
        trim_char(s, '"') == s,
{
    lemma_leading_run_is(s, '"', 0);
    lemma_trailing_run_is(s, '"', 0);
    assert(s.subrange(0, s.len() as int) =~= s);
    if s.len() == 0 {
        assert(s =~= Seq::<char>::empty());
    }
}

/// Stripping the quotes of a quoted text gives the text.
pub proof fn lemma_trim_quoted(s: Seq<char>)
    requires
        is_quotable(s),
    ensures
        trim_char(quoted(s), '"') == s,
{
    let q = quoted(s);
    if s.len() == 0 {
        lemma_leading_run_is(q, '"', 2);
        assert(s =~= Seq::<char>::empty());
    } else {
        assert(q[1] == s[0]);
        assert(q[q.len() - 2] == s[s.len() - 1]);
        lemma_leading_run_is(q, '"', 1);
        lemma_trailing_run_is(q, '"', 1);
        assert(q.subrange(1, q.len() - 1) =~= s);
    }
}

/// The fields joined by commas.
pub open spec fn join(fields: Seq<Seq<char>>) -> Seq<char>
    decreases fields.len(),
{
    if fields.len() == 0 {
        Seq::empty()
    } else if fields.len() == 1 {
        fields[0]
    } else {
        fields[0] + seq![','] + join(fields.drop_first())
    }
}

/// Where the last of the fields is not empty, neither is their join.
pub proof fn lemma_join_not_empty(fields: Seq<Seq<char>>)
    requires
        fields.len() > 0,
        fields.last().len() > 0,
    ensures
        join(fields).len() > 0,
    decreases fields.len(),
{
}

/// The first field of a payload that begins with the wire field `f`, where
/// the field is followed by a comma or by nothing.
proof fn lemma_first_field(f: Seq<char>, s: Seq<char>)
    requires
        is_wire_field(f),
        s.len() > 0,
        has_prefix(s, f),
        s.len() == f.len() || s[f.len() as int] == ',',
    ensures
        csv_field_len(s) == f.len(),
{
    assert(forall|i: int| 0 <= i < f.len() ==> s[i] == s.subrange(0, f.len() as int)[i]);
    if is_plain(f) {
        if f.len() > 0 {
            assert(s[0] == f[0]);
        }
        assert(s[0] != '"');
        assert forall|j: int| 0 <= j < f.len() implies s[j] != ',' by {
            assert(s[j] == f[j]);
        }
        lemma_first_index_is(s, ',', f.len() as int);
    } else {
        let inner = choose|x: Seq<char>| is_quotable(x) && f == quoted(x);
        assert(f[0] == '"');
        assert(s[0] == '"');
        let t = s.skip(1);
        assert forall|j: int| 0 <= j < inner.len() implies t[j] != '"' by {
            assert(t[j] == s[j + 1]);
            assert(s[j + 1] == f[j + 1]);
            assert(f[j + 1] == inner[j]);
        }
        assert(t[inner.len() as int] == '"') by {
            assert(t[inner.len() as int] == s[inner.len() as int + 1]);
            assert(s[inner.len() as int + 1] == f[inner.len() as int + 1]);
        }
        lemma_first_index_is(t, '"', inner.len() as int);
    }
}

/// Splitting the join of wire fields gives the fields back, where the last
/// field is not empty and the fields are no more than asked for.
pub proof fn lemma_split_join(fields: Seq<Seq<char>>, max: nat)
    requires
        fields.len() <= max,
        forall|i: int| 0 <= i < fields.len() ==> is_wire_field(#[trigger] fields[i]),
        fields.len() > 0 ==> fields.last().len() > 0,
    ensures
        csv_split(join(fields), max) == fields,
    decreases fields.len(),
{
    let s = join(fields);
    if fields.len() == 0 {
        assert(csv_split(s, max) =~= fields);
    } else if fields.len() == 1 {
        let f = fields[0];
        assert(s.subrange(0, f.len() as int) =~= f);
        lemma_first_field(f, s);
        assert(csv_rest_start(s) == s.len());
        assert(s.take(s.len() as int) =~= f);
        assert(s.skip(s.len() as int) =~= Seq::<char>::empty());
        assert(csv_split(s.skip(s.len() as int), (max - 1) as nat) =~= Seq::<Seq<char>>::empty());
        assert(csv_split(s, max) =~= fields);
    } else {
        let f = fields[0];
        let rest = fields.drop_first();
        assert(rest.last() == fields.last());
        lemma_join_not_empty(rest);
        assert(s.subrange(0, f.len() as int) =~= f);
        assert(s[f.len() as int] == ',');
        lemma_first_field(f, s);
        assert(csv_rest_start(s) == f.len() + 1);
        assert(s.take(f.len() as int) =~= f);
        assert(s.skip(f.len() as int + 1) =~= join(rest));
        assert forall|i: int| 0 <= i < rest.len() implies is_wire_field(#[trigger] rest[i]) by {
            assert(rest[i] == fields[i + 1]);
        }
        lemma_split_join(rest, (max - 1) as nat);
        assert(csv_split(s, max) =~= fields);
    }
}

// ---------------------------------------------------------------------------
// Timestamps
// ---------------------------------------------------------------------------

/// The clock time of `ts` milliseconds: hours, minutes and seconds, and
/// the milliseconds in three digits.
pub open spec fn clock_text(ts: u64) -> Seq<char> {
    decimal_digits((ts / 3_600_000) as nat) + seq![':'] + decimal_digits(((ts / 60_000) % 60) as nat)
        + seq![':'] + decimal_digits(((ts / 1_000) % 60) as nat) + seq!['.'] + three_digits(
        (ts % 1_000) as nat,
    )
}

/// The date that the canonical line carries; a reader discards it.
pub open spec fn date_text() -> Seq<char> {
    seq!['1', '/', '1', ' ']
}

/// The timestamp of `ts` milliseconds as the log writes it.
pub open spec fn stamp_text(ts: u64) -> Seq<char> {
    date_text() + clock_text(ts)
}

/// Whether every character of a text is a digit, a colon or a dot.
pub open spec fn is_clock_like(s: Seq<char>) -> bool {
    forall|i: int| 0 <= i < s.len() ==> is_digit(#[trigger] s[i]) || s[i] == ':' || s[i] == '.'
}

/// A clock text is made of digits, colons and dots, and starts with a
/// digit.
proof fn lemma_clock_chars(ts: u64)
    ensures
        is_clock_like(clock_text(ts)),
        clock_text(ts).len() > 0,
        is_digit(clock_text(ts)[0]),
{
    let h = decimal_digits((ts / 3_600_000) as nat);
    let m = decimal_digits(((ts / 60_000) % 60) as nat);
    let s = decimal_digits(((ts / 1_000) % 60) as nat);
    let f = three_digits((ts % 1_000) as nat);
    lemma_decimal_digits((ts / 3_600_000) as nat);
    lemma_decimal_digits(((ts / 60_000) % 60) as nat);
    lemma_decimal_digits(((ts / 1_000) % 60) as nat);
    lemma_parse_three_digits((ts % 1_000) as nat);
    let c = clock_text(ts);
    assert(c[0] == h[0]);
    assert forall|i: int| 0 <= i < c.len() implies is_digit(#[trigger] c[i]) || c[i] == ':' || c[i]
        == '.' by {
        let a = h.len() as int;
        let b = a + 1 + m.len();
        let d = b + 1 + s.len();
        if i < a {
            assert(c[i] == h[i]);
        } else if i == a {
        } else if i < b {
            assert(c[i] == m[i - a - 1]);
        } else if i == b {
        } else if i < d {
            assert(c[i] == s[i - b - 1]);
        } else if i == d {
        } else {
            assert(c[i] == f[i - d - 1]);
        }
    }
}

/// A text splits at the first `c` into what stands before it and what
/// stands behind it, where nothing before it is a `c`.
pub proof fn lemma_split_at(head: Seq<char>, c: char, rest: Seq<char>)
    requires
        forall|i: int| 0 <= i < head.len() ==> head[i] != c,
    ensures
        before_first(head + seq![c] + rest, c) == head,
        after_first(head + seq![c] + rest, c) == Some(rest),
{
    let s = head + seq![c] + rest;
    assert forall|j: int| 0 <= j < head.len() implies s[j] != c by {
        assert(s[j] == head[j]);
    }
    assert(s[head.len() as int] == c);
    lemma_first_index_is(s, c, head.len() as int);
    assert(s.take(head.len() as int) =~= head);
    assert(s.skip(head.len() as int + 1) =~= rest);
}

/// Hours, minutes, seconds and milliseconds of a time add up to the time.
proof fn lemma_clock_sum(ts: u64)
    ensures
        ms_of_day(
            (ts / 3_600_000) as int,
            ((ts / 60_000) % 60) as int,
            ((ts / 1_000) % 60) as int,
            (ts % 1_000) as int,
        ) == ts,
{
    let t = ts as int;
    let secs = t / 1_000;
    let mins = secs / 60;
    let hours = mins / 60;
    assert(mins == t / 60_000);
    assert(hours == t / 3_600_000);
    assert(t == secs * 1_000 + t % 1_000);
    assert(secs == mins * 60 + secs % 60);
    assert(mins == hours * 60 + mins % 60);
}

/// Reading the clock text of a time gives the time.
pub proof fn lemma_parse_clock_text(ts: u64)
    ensures
        spec_parse_clock(clock_text(ts)) == Some(ts),
{
    let hn = (ts / 3_600_000) as nat;
    let mn = ((ts / 60_000) % 60) as nat;
    let sn = ((ts / 1_000) % 60) as nat;
    let millis = (ts % 1_000) as nat;
    let h = decimal_digits(hn);
    let m = decimal_digits(mn);
    let s = decimal_digits(sn);
    let f = three_digits(millis);
    lemma_decimal_digits(hn);
    lemma_decimal_digits(mn);
    lemma_decimal_digits(sn);
    lemma_parse_three_digits(millis);
    lemma_parse_decimal(hn, u64::MAX);
    lemma_parse_decimal(mn, u64::MAX);
    lemma_parse_decimal(sn, u64::MAX);
    let time = clock_text(ts);
    let sm = s + seq!['.'] + f;
    let tail = m + seq![':'] + sm;
    assert(time =~= h + seq![':'] + tail);
    assert forall|j: int| 0 <= j < h.len() implies h[j] != ':' by {
        assert(is_digit(h[j]));
    }
    lemma_split_at(h, ':', tail);
    assert forall|j: int| 0 <= j < m.len() implies m[j] != ':' by {
        assert(is_digit(m[j]));
    }
    lemma_split_at(m, ':', sm);
    assert forall|j: int| 0 <= j < s.len() implies s[j] != '.' by {
        assert(is_digit(s[j]));
    }
    lemma_split_at(s, '.', f);
    assert(fraction_digits(sm) == f);
    assert(pow10(0) == 1);
    assert(frac_to_ms(millis as int, 3) == millis * 1);
    lemma_clock_sum(ts);
    assert(spec_clock_ms(hn as u64, mn as u64, sn as u64, millis as u64, 3) == Some(ts));
}

/// Reading the timestamp of a time gives the time.
pub proof fn lemma_parse_stamp_text(ts: u64)
    ensures
        spec_parse_timestamp(stamp_text(ts)) == Some(ts),
{
    let t = stamp_text(ts);
    let c = clock_text(ts);
    lemma_clock_chars(ts);
    assert forall|j: int| 3 < j < t.len() implies t[j] != ' ' by {
        assert(t[j] == c[j - 4]);
        assert(is_digit(c[j - 4]) || c[j - 4] == ':' || c[j - 4] == '.');
    }
    assert(t[3] == ' ');
    lemma_last_index_is(t, ' ', 3);
    assert(t.skip(4) =~= c);
    assert(after_last(t, ' ') == Some(c));
    lemma_parse_clock_text(ts);
}

/// The first double space of a line that starts with a timestamp and the
/// separator stands right behind the timestamp.
pub proof fn lemma_separator_found(ts: u64, payload: Seq<char>)
    ensures
        find_seq(stamp_text(ts) + separator() + payload, separator()) == Some(
            stamp_text(ts).len() as int,
        ),
{
    let t = stamp_text(ts);
    let c = clock_text(ts);
    let line = t + separator() + payload;
    let n = t.len() as int;
    lemma_clock_chars(ts);
    assert(line.skip(n).subrange(0, 2) =~= separator());
    assert forall|j: int| 0 <= j < n implies !has_prefix(#[trigger] line.skip(j), separator()) by {
        if has_prefix(line.skip(j), separator()) {
            let two = line.skip(j).subrange(0, 2);
            assert(two[0] == ' ' && two[1] == ' ');
            assert(two[0] == line[j] && two[1] == line[j + 1]);
            assert(line[j] == t[j]);
            if j == 3 {
                assert(line[4] == t[4]);
                assert(t[4] == c[0]);
            } else if j < 3 {
            } else {
                assert(t[j] == c[j - 4]);
                assert(is_digit(c[j - 4]) || c[j - 4] == ':' || c[j - 4] == '.');
            }
        }
    }
    lemma_find_seq_is(line, separator(), n);
}

/// A line made of a timestamp, the separator and the join of wire fields
/// splits into the time and the fields.
pub proof fn lemma_split_line(ts: u64, fields: Seq<Seq<char>>)
    requires
        fields.len() <= 30,
        forall|i: int| 0 <= i < fields.len() ==> is_wire_field(#[trigger] fields[i]),
        fields.len() > 0 ==> fields.last().len() > 0,
    ensures
        spec_split_line(stamp_text(ts) + separator() + join(fields)) == Some((ts, fields)),
{
    let t = stamp_text(ts);
    let payload = join(fields);
    let line = t + separator() + payload;
    lemma_separator_found(ts, payload);
    lemma_parse_stamp_text(ts);
    lemma_split_join(fields, 30);
    assert(line.take(t.len() as int) =~= t);
    assert(line.skip(t.len() as int + 2) =~= payload);
}

// ---------------------------------------------------------------------------
// Subevent tokens
// ---------------------------------------------------------------------------

/// The tokens of the subevents are plain, not empty, and no two of them
/// are the same.
proof fn lemma_token_facts()
    ensures
        is_plain("SPELL_DAMAGE"@) && "SPELL_DAMAGE"@.len() == 12 && "SPELL_DAMAGE"@[1] == 'P',
        is_plain("SWING_DAMAGE"@) && "SWING_DAMAGE"@.len() == 12 && "SWING_DAMAGE"@[1] == 'W',
        is_plain("SPELL_CAST_SUCCESS"@) && "SPELL_CAST_SUCCESS"@.len() == 18,
        is_plain("SPELL_HEAL"@) && "SPELL_HEAL"@.len() == 10,
        is_plain("UNIT_DIED"@) && "UNIT_DIED"@.len() == 9,
        is_plain("SPELL_INTERRUPT"@) && "SPELL_INTERRUPT"@.len() == 15 && "SPELL_INTERRUPT"@[0]
            == 'S',
        is_plain("ENCOUNTER_START"@) && "ENCOUNTER_START"@.len() == 15 && "ENCOUNTER_START"@[0]
            == 'E',
        is_plain("ENCOUNTER_END"@) && "ENCOUNTER_END"@.len() == 13,
        is_plain("SPELL_CAST_FAILED"@) && "SPELL_CAST_FAILED"@.len() == 17,
        is_plain("SPELL_CAST_START"@) && "SPELL_CAST_START"@.len() == 16,
        "SPELL_PERIODIC_DAMAGE"@.len() == 21,
        "RANGE_DAMAGE"@.len() == 12 && "RANGE_DAMAGE"@[1] == 'A',
        "SPELL_PERIODIC_HEAL"@.len() == 19,
{
    reveal_strlit("SPELL_DAMAGE");
    reveal_strlit("SWING_DAMAGE");
    reveal_strlit("SPELL_CAST_SUCCESS");
    reveal_strlit("SPELL_HEAL");
    reveal_strlit("UNIT_DIED");
    reveal_strlit("SPELL_INTERRUPT");
    reveal_strlit("ENCOUNTER_START");
    reveal_strlit("ENCOUNTER_END");
    reveal_strlit("SPELL_CAST_FAILED");
    reveal_strlit("SPELL_CAST_START");
    reveal_strlit("SPELL_PERIODIC_DAMAGE");
    reveal_strlit("RANGE_DAMAGE");
    reveal_strlit("SPELL_PERIODIC_HEAL");
}

// ---------------------------------------------------------------------------
// Events
// ---------------------------------------------------------------------------

/// The field that stands where the event has nothing to say.
pub open spec fn filler() -> Seq<char> {
    seq!['0']
}

/// A number as a field.
pub open spec fn number(n: nat) -> Seq<char> {
    decimal_digits(n)
}

/// The fields of the canonical line of an event, each at the position at
/// which a reader looks for it.
pub open spec fn event_fields(e: EventModel) -> Seq<Seq<char>> {
    match e {
        EventModel::SpellDamage {
            source_guid,
            source_name,
            dest_guid,
            dest_name,
            spell_id,
            spell_name,
            amount,
            ..
        } => seq![
            "SPELL_DAMAGE"@,
            source_guid,
            quoted(source_name),
            filler(),
            filler(),
            dest_guid,
            quoted(dest_name),
            filler(),
            filler(),
            number(spell_id as nat),
            quoted(spell_name),
            filler(),
            filler(),
            filler(),
            number(amount as nat),
        ],
        EventModel::SwingDamage { source_guid, dest_guid, amount, .. } => seq![
            "SWING_DAMAGE"@,
            source_guid,
            quoted(Seq::empty()),
            filler(),
            filler(),
            dest_guid,
            quoted(Seq::empty()),
            filler(),
            filler(),
            filler(),
            filler(),
            filler(),
            number(amount as nat),
        ],
        EventModel::SpellCastSuccess { source_guid, source_name, spell_id, spell_name, .. } => seq![
            "SPELL_CAST_SUCCESS"@,
            source_guid,
            quoted(source_name),
            filler(),
            filler(),
            filler(),
            quoted(Seq::empty()),
            filler(),
            filler(),
            number(spell_id as nat),
            quoted(spell_name),
        ],
        EventModel::SpellHeal { source_guid, dest_guid, spell_id, amount, overhealing, .. } => seq![
            "SPELL_HEAL"@,
            source_guid,
            quoted(Seq::empty()),
            filler(),
            filler(),
            dest_guid,
            quoted(Seq::empty()),
            filler(),
            filler(),
            number(spell_id as nat),
            quoted(Seq::empty()),
            filler(),
            filler(),
            filler(),
            number(amount as nat),
            number(overhealing as nat),
        ],
        EventModel::UnitDied { dest_guid, dest_name, .. } => seq![
            "UNIT_DIED"@,
            filler(),
            quoted(Seq::empty()),
            filler(),
            filler(),
            dest_guid,
            quoted(dest_name),
        ],
        EventModel::SpellInterrupted {
            source_guid,
            target_guid,
            interrupted_spell_id,
            interrupted_spell,
            ..
        } => seq![
            "SPELL_INTERRUPT"@,
            source_guid,
            quoted(Seq::empty()),
            filler(),
            filler(),
            target_guid,
            quoted(Seq::empty()),
            filler(),
            filler(),
            filler(),
            quoted(Seq::empty()),
            filler(),
            number(interrupted_spell_id as nat),
            quoted(interrupted_spell),
        ],
        EventModel::EncounterStart {
            encounter_id,
            encounter_name,
            difficulty_id,
            group_size,
            ..
        } => seq![
            "ENCOUNTER_START"@,
            number(encounter_id as nat),
            quoted(encounter_name),
            number(difficulty_id as nat),
            number(group_size as nat),
        ],
        EventModel::EncounterEnd { encounter_id, encounter_name, success, .. } => seq![
            "ENCOUNTER_END"@,
            number(encounter_id as nat),
            quoted(encounter_name),
            filler(),
            filler(),
            number(
                if success {
                    1nat
                } else {
                    0nat
                },
            ),
        ],
        EventModel::SpellCastFailed {
            source_guid,
            source_name,
            spell_id,
            spell_name,
            failed_type,
            ..
        } => seq![
            "SPELL_CAST_FAILED"@,
            source_guid,
            quoted(source_name),
            filler(),
            filler(),
            filler(),
            quoted(Seq::empty()),
            filler(),
            filler(),
            number(spell_id as nat),
            quoted(spell_name),
            filler(),
            quoted(failed_type),
        ],
        EventModel::SpellCastStart { source_guid, source_name, spell_id, spell_name, .. } => seq![
            "SPELL_CAST_START"@,
            source_guid,
            quoted(source_name),
            filler(),
            filler(),
            filler(),
            quoted(Seq::empty()),
            filler(),
            filler(),
            number(spell_id as nat),
            quoted(spell_name),
        ],
    }
}

/// The canonical line of an event.
pub open spec fn format_event(e: EventModel) -> Seq<char> {
    stamp_text(e.timestamp_ms()) + separator() + join(event_fields(e))
}

/// Whether the strings of an event can stand in a line: a GUID has neither
/// comma nor double quote, a name has no double quote.
pub open spec fn is_wire_safe(e: EventModel) -> bool {
    match e {
        EventModel::SpellDamage {
            source_guid,
            source_name,
            dest_guid,
            dest_name,
            spell_name,
            ..
        } => is_plain(source_guid) && is_plain(dest_guid) && is_quotable(source_name)
            && is_quotable(dest_name) && is_quotable(spell_name),
        EventModel::SwingDamage { source_guid, dest_guid, .. } => is_plain(source_guid)
            && is_plain(dest_guid),
        EventModel::SpellCastSuccess { source_guid, source_name, spell_name, .. } => is_plain(
            source_guid,
        ) && is_quotable(source_name) && is_quotable(spell_name),
        EventModel::SpellHeal { source_guid, dest_guid, .. } => is_plain(source_guid) && is_plain(
            dest_guid,
        ),
        EventModel::UnitDied { dest_guid, dest_name, .. } => is_plain(dest_guid) && is_quotable(
            dest_name,
        ),
        EventModel::SpellInterrupted { source_guid, target_guid, interrupted_spell, .. } => is_plain(
            source_guid,
        ) && is_plain(target_guid) && is_quotable(interrupted_spell),
        EventModel::EncounterStart { encounter_name, .. } => is_quotable(encounter_name),
        EventModel::EncounterEnd { encounter_name, .. } => is_quotable(encounter_name),
        EventModel::SpellCastFailed {
            source_guid,
            source_name,
            spell_name,
            failed_type,
            ..
        } => is_plain(source_guid) && is_quotable(source_name) && is_quotable(spell_name)
            && is_quotable(failed_type),
        EventModel::SpellCastStart { source_guid, source_name, spell_name, .. } => is_plain(
            source_guid,
        ) && is_quotable(source_name) && is_quotable(spell_name),
    }
}

/// A quoted text is a wire field, is not empty, and gives the text when
/// its quotes are stripped.
proof fn lemma_quoted_field(s: Seq<char>)
    requires
        is_quotable(s),
    ensures
        is_wire_field(quoted(s)),
        quoted(s).len() > 0,
        trim_char(quoted(s), '"') == s,
{
    lemma_trim_quoted(s);
}

/// A number is a wire field, is not empty, and reads as the number.
proof fn lemma_number_field(n: nat)
    ensures
        is_wire_field(number(n)),
        number(n).len() > 0,
        n <= u64::MAX ==> spec_parse_uint(number(n), u64::MAX) == Some(n as u64),
        n <= u32::MAX ==> spec_parse_u32(number(n)) == Some(n as u32),
        n <= u8::MAX ==> spec_parse_u8(number(n)) == Some(n as u8),
{
    lemma_decimal_digits(n);
    lemma_digits_are_plain(number(n));
    if n <= u64::MAX {
        lemma_parse_decimal(n, u64::MAX);
    }
    if n <= u32::MAX {
        lemma_parse_decimal(n, 0xffff_ffff);
    }
    if n <= u8::MAX {
        lemma_parse_decimal(n, 0xff);
    }
}

/// The filler is a wire field.
proof fn lemma_filler_field()
    ensures
        is_wire_field(filler()),
        is_plain(filler()),
{
}

/// The fields of a wire-safe event are wire fields, at most 30, the last
/// not empty; and they stand for the event.
proof fn lemma_fields_stand_for_event(e: EventModel)
    requires
        is_wire_safe(e),
    ensures
        event_fields(e).len() <= 30,
        event_fields(e).len() > 0,
        event_fields(e).last().len() > 0,
        forall|i: int| 0 <= i < event_fields(e).len() ==> is_wire_field(#[trigger] event_fields(e)[i]),
        spec_event(e.timestamp_ms(), event_fields(e)) == Some(e),
{
    lemma_token_facts();
    lemma_filler_field();
    lemma_quoted_field(Seq::empty());
    let f = event_fields(e);
    match e {
        EventModel::SpellDamage {
            source_guid,
            source_name,
            dest_guid,
            dest_name,
            spell_id,
            spell_name,
            amount,
            ..
        } => {
            lemma_trim_plain(source_guid);
            lemma_trim_plain(dest_guid);
            lemma_quoted_field(source_name);
            lemma_quoted_field(dest_name);
            lemma_quoted_field(spell_name);
            lemma_number_field(spell_id as nat);
            lemma_number_field(amount as nat);
            assert(f.len() == 15);
        },
        EventModel::SwingDamage { source_guid, dest_guid, amount, .. } => {
            lemma_trim_plain(source_guid);
            lemma_trim_plain(dest_guid);
            lemma_number_field(amount as nat);
            assert(f.len() == 13);
        },
        EventModel::SpellCastSuccess { source_guid, source_name, spell_id, spell_name, .. } => {
            lemma_trim_plain(source_guid);
            lemma_quoted_field(source_name);
            lemma_quoted_field(spell_name);
            lemma_number_field(spell_id as nat);
            assert(f.len() == 11);
        },
        EventModel::SpellHeal { source_guid, dest_guid, spell_id, amount, overhealing, .. } => {
            lemma_trim_plain(source_guid);
            lemma_trim_plain(dest_guid);
            lemma_number_field(spell_id as nat);
            lemma_number_field(amount as nat);
            lemma_number_field(overhealing as nat);
            assert(f.len() == 16);
        },
        EventModel::UnitDied { dest_guid, dest_name, .. } => {
            lemma_trim_plain(dest_guid);
            lemma_quoted_field(dest_name);
            assert(f.len() == 7);
        },
        EventModel::SpellInterrupted {
            source_guid,
            target_guid,
            interrupted_spell_id,
            interrupted_spell,
            ..
        } => {
            lemma_trim_plain(source_guid);
            lemma_trim_plain(target_guid);
            lemma_quoted_field(interrupted_spell);
            lemma_number_field(interrupted_spell_id as nat);
            assert(f.len() == 14);
        },
        EventModel::EncounterStart {
            encounter_id,
            encounter_name,
            difficulty_id,
            group_size,
            ..
        } => {
            lemma_quoted_field(encounter_name);
            lemma_number_field(encounter_id as nat);
            lemma_number_field(difficulty_id as nat);
            lemma_number_field(group_size as nat);
            assert(f.len() == 5);
        },
        EventModel::EncounterEnd { encounter_id, encounter_name, success, .. } => {
            lemma_quoted_field(encounter_name);
            lemma_number_field(encounter_id as nat);
            lemma_number_field(0);
            lemma_number_field(1);
            assert(f.len() == 6);
        },
        EventModel::SpellCastFailed {
            source_guid,
            source_name,
            spell_id,
            spell_name,
            failed_type,
            ..
        } => {
            lemma_trim_plain(source_guid);
            lemma_quoted_field(source_name);
            lemma_quoted_field(spell_name);
            lemma_quoted_field(failed_type);
            lemma_number_field(spell_id as nat);
            assert(f.len() == 13);
        },
        EventModel::SpellCastStart { source_guid, source_name, spell_id, spell_name, .. } => {
            lemma_trim_plain(source_guid);
            lemma_quoted_field(source_name);
            lemma_quoted_field(spell_name);
            lemma_number_field(spell_id as nat);
            assert(f.len() == 11);
        },
    }
}

/// Reading the canonical line of an event gives the event: for every
/// subevent that the reader knows, and every event of it whose strings can
/// stand in a line, `spec_parse_line(format_event(e))` is `e`.
pub proof fn lemma_round_trip(e: EventModel)
    requires
        is_wire_safe(e),
    ensures
        spec_parse_line(format_event(e)) == Some(e),
{
    lemma_fields_stand_for_event(e);
    lemma_split_line(e.timestamp_ms(), event_fields(e));
}

} // verus!
