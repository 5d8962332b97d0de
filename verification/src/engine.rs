//! The coaching engine: advice, its cooldowns, and what each event does to
//! the combat state.

use crate::parser::{EventModel, LogEvent};
use crate::state::{
    bump, count_in, opt_is, opt_view, CombatModel, CombatState, PullOutcome,
};
use crate::text::{before_first, has_prefix, starts_with, str_eq, take_before};
use vstd::prelude::*;

verus! {

// ---------------------------------------------------------------------------
// Advice
// ---------------------------------------------------------------------------

/// How an advice is meant: praise, a hint, or a mistake.
#[derive(Debug, Clone, Copy, PartialEq, Eq, Structural)]
pub enum Severity {
    Good,
    Warn,
    Bad,
}

/// One piece of advice for the player.
#[derive(Debug)]
pub struct AdviceEvent {
    /// Names the bucket within which advice is not repeated too soon.
    pub key: String,
    pub title: String,
    pub message: String,
    pub severity: Severity,
    pub kv: Vec<(String, String)>,
    pub timestamp_ms: u64,
}

/// The mathematical value of an `AdviceEvent`.
pub struct AdviceModel {
    pub key: Seq<char>,
    pub title: Seq<char>,
    pub message: Seq<char>,
    pub severity: Severity,
    pub kv: Seq<(Seq<char>, Seq<char>)>,
    pub timestamp_ms: u64,
}

/// The values of a list of string pairs.
pub open spec fn kv_view(kv: Seq<(String, String)>) -> Seq<(Seq<char>, Seq<char>)> {
    Seq::new(kv.len(), |i: int| (kv[i].0@, kv[i].1@))
}

impl View for AdviceEvent {
    type V = AdviceModel;

    open spec fn view(&self) -> AdviceModel {
        AdviceModel {
            key: self.key@,
            title: self.title@,
            message: self.message@,
            severity: self.severity,
            kv: kv_view(self.kv@),
            timestamp_ms: self.timestamp_ms,
        }
    }
}

impl Clone for AdviceEvent {
    fn clone(&self) -> (r: Self)
        ensures
            r@ == self@,
    {
        let mut kv: Vec<(String, String)> = Vec::new();
        let mut i: usize = 0;
        while i < self.kv.len()
            invariant
                i <= self.kv.len(),
                kv.len() == i,
                kv_view(kv@) == kv_view(self.kv@.take(i as int)),
            decreases self.kv.len() - i,
        {
            let pair = (self.kv[i].0.clone(), self.kv[i].1.clone());
            assert forall|j: int| 0 <= j <= i implies kv_view(kv@.push(pair))[j] == kv_view(
                self.kv@.take(i + 1),
            )[j] by {
                if j < i {
                    assert(kv_view(kv@)[j] == kv_view(self.kv@.take(i as int))[j]);
                }
            }
            assert(kv_view(kv@.push(pair)) =~= kv_view(self.kv@.take(i + 1)));
            kv.push(pair);
            i += 1;
        }
        assert(self.kv@.take(i as int) =~= self.kv@);
        AdviceEvent {
            key: self.key.clone(),
            title: self.title.clone(),
            message: self.message.clone(),
            severity: self.severity,
            kv,
            timestamp_ms: self.timestamp_ms,
        }
    }
}

/// The values of a list of advice.
pub open spec fn advice_views(v: Seq<AdviceEvent>) -> Seq<AdviceModel> {
    Seq::new(v.len(), |i: int| v[i]@)
}

impl Severity {
    /// The word for the severity in stored rows.
    pub open spec fn spec_name(self) -> Seq<char> {
        match self {
            Severity::Good => "good"@,
            Severity::Warn => "warn"@,
            Severity::Bad => "bad"@,
        }
    }

    /// The word for the severity in stored rows: `good`, `warn` or `bad`.
    pub fn name(&self) -> (r: &'static str)
        ensures
            r@ == self.spec_name(),
    {
        match self {
            Severity::Good => "good",
            Severity::Warn => "warn",
            Severity::Bad => "bad",
        }
    }
}

// ---------------------------------------------------------------------------
// Advice cooldowns
// ---------------------------------------------------------------------------

/// Least time in milliseconds between two advice of one key, by severity.
pub open spec fn spec_cooldown_ms(severity: Severity) -> u64 {
    match severity {
        Severity::Bad => 8_000,
        Severity::Warn => 12_000,
        Severity::Good => 20_000,
    }
}

/// Least time in milliseconds between two advice of one key.
pub fn advice_cooldown_ms(severity: &Severity) -> (r: u64)
    ensures
        r == spec_cooldown_ms(*severity),
{
    match severity {
        Severity::Bad => 8_000,
        Severity::Warn => 12_000,
        Severity::Good => 20_000,
    }
}

/// When each advice key last fired in the current pull.
pub struct AdviceLog {
    /// Key and time of each firing, in the order of firing; the last pair
    /// of a key is the one that counts.
    entries: Vec<(String, u64)>,
}

/// The map that a list of pairs stands for, a later pair replacing an
/// earlier one of the same key.
pub open spec fn entries_map(entries: Seq<(String, u64)>) -> Map<Seq<char>, u64>
    decreases entries.len(),
{
    if entries.len() == 0 {
        Map::empty()
    } else {
        entries_map(entries.drop_last()).insert(entries.last().0@, entries.last().1)
    }
}

/// Whether advice of `key` and `severity` may fire at `now_ms`, given when
/// each key last fired: a key that has not fired may; one that has must
/// wait for the cooldown of the severity.
pub open spec fn may_fire(
    last: Map<Seq<char>, u64>,
    key: Seq<char>,
    severity: Severity,
    now_ms: u64,
) -> bool {
    last.contains_key(key) ==> now_ms - last[key] >= spec_cooldown_ms(severity)
}

impl View for AdviceLog {
    type V = Map<Seq<char>, u64>;

    closed spec fn view(&self) -> Map<Seq<char>, u64> {
        entries_map(self.entries@)
    }
}

impl AdviceLog {
    /// A log in which no key has fired.
    pub fn new() -> (r: Self)
        ensures
            r@ == Map::<Seq<char>, u64>::empty(),
    {
        AdviceLog { entries: Vec::new() }
    }

    /// Position of `key` among the entries, if it is there.
    fn position(&self, key: &str) -> (r: Option<usize>)
        ensures
            match r {
                Some(i) => i < self.entries.len() && self.entries@[i as int].0@ == key@
                    && self@.contains_key(key@) && self@[key@] == self.entries@[i as int].1
                    && forall|j: int| i < j < self.entries.len() ==> self.entries@[j].0@ != key@,
                None => !self@.contains_key(key@) && forall|j: int|
                    0 <= j < self.entries.len() ==> self.entries@[j].0@ != key@,
            },
    {
        let mut i: usize = self.entries.len();
        assert(self.entries@.take(i as int) =~= self.entries@);
        while i > 0
            invariant
                i <= self.entries.len(),
                forall|j: int| i <= j < self.entries.len() ==> self.entries@[j].0@ != key@,
                entries_map(self.entries@.take(i as int)).contains_key(key@) == self@.contains_key(
                    key@,
                ),
                self@.contains_key(key@) ==> entries_map(self.entries@.take(i as int))[key@]
                    == self@[key@],
            decreases i,
        {
            let ghost cur = self.entries@.take(i as int);
            assert(cur.drop_last() =~= self.entries@.take(i - 1));
            assert(cur.last() == self.entries@[i - 1]);
            if str_eq(self.entries[i - 1].0.as_str(), key) {
                return Some(i - 1);
            }
            i -= 1;
        }
        assert(self.entries@.take(0) =~= Seq::<(String, u64)>::empty());
        None
    }

    /// Whether advice of `key` and `severity` may fire at `now_ms`.
    pub fn can_fire(&self, key: &str, severity: &Severity, now_ms: u64) -> (r: bool)
        ensures
            r == may_fire(self@, key@, *severity, now_ms),
    {
        match self.position(key) {
            Some(i) => now_ms.saturating_sub(self.entries[i].1) >= advice_cooldown_ms(severity),
            None => true,
        }
    }

    /// Records that advice of `key` fired at `now_ms`.
    pub fn mark_fired(&mut self, key: &str, now_ms: u64)
        ensures
            final(self)@ == old(self)@.insert(key@, now_ms),
    {
        let entry = (key.to_owned(), now_ms);
        assert(self.entries@.push(entry).drop_last() =~= self.entries@);
        self.entries.push(entry);
    }

    /// Forgets every firing, as at the end of a pull.
    pub fn clear(&mut self)
        ensures
            final(self)@ == Map::<Seq<char>, u64>::empty(),
    {
        self.entries.clear();
    }
}

// ---------------------------------------------------------------------------
// The combat state machine
// ---------------------------------------------------------------------------

/// Whether the rules for the coached player look at `event`: the player is
/// its source, for casts, heals, interrupts, failed and started casts, or
/// its target, for damage. Deaths and encounter boundaries always pass.
pub open spec fn spec_is_coached(event: EventModel, player_guid: Option<Seq<char>>) -> bool {
    match event {
        EventModel::SpellCastSuccess { source_guid, .. } => player_guid == Some(source_guid),
        EventModel::SpellDamage { dest_guid, .. } => player_guid == Some(dest_guid),
        EventModel::SpellHeal { source_guid, .. } => player_guid == Some(source_guid),
        EventModel::SwingDamage { dest_guid, .. } => player_guid == Some(dest_guid),
        EventModel::SpellInterrupted { source_guid, .. } => player_guid == Some(source_guid),
        EventModel::UnitDied { .. } => true,
        EventModel::EncounterStart { .. } => true,
        EventModel::EncounterEnd { .. } => true,
        EventModel::SpellCastFailed { source_guid, .. } => player_guid == Some(source_guid),
        EventModel::SpellCastStart { source_guid, .. } => player_guid == Some(source_guid),
    }
}

/// Whether the rules for the coached player look at `event`.
pub fn is_coached_event(event: &LogEvent, player_guid: &Option<String>) -> (r: bool)
    ensures
        r == spec_is_coached(event@, opt_view(*player_guid)),
{
    match event {
        LogEvent::SpellCastSuccess { source_guid, .. } => opt_is(player_guid, source_guid.as_str()),
        LogEvent::SpellDamage { dest_guid, .. } => opt_is(player_guid, dest_guid.as_str()),
        LogEvent::SpellHeal { source_guid, .. } => opt_is(player_guid, source_guid.as_str()),
        LogEvent::SwingDamage { dest_guid, .. } => opt_is(player_guid, dest_guid.as_str()),
        LogEvent::SpellInterrupted { source_guid, .. } => opt_is(player_guid, source_guid.as_str()),
        LogEvent::UnitDied { .. } => true,
        LogEvent::EncounterStart { .. } => true,
        LogEvent::EncounterEnd { .. } => true,
        LogEvent::SpellCastFailed { source_guid, .. } => opt_is(player_guid, source_guid.as_str()),
        LogEvent::SpellCastStart { source_guid, .. } => opt_is(player_guid, source_guid.as_str()),
    }
}

/// The state with `event` added to the rolling window at `now_ms`.
pub open spec fn with_window(s: CombatModel, event: EventModel, now_ms: u64) -> CombatModel {
    CombatModel {
        event_window: crate::state::window_after_push(s.event_window, s.window_ms, event, now_ms),
        ..s
    }
}

/// How a pull ends when a unit dies outside an encounter: a kill where a
/// creature died, a wipe otherwise.
pub open spec fn death_outcome(dest_guid: Seq<char>) -> PullOutcome {
    if has_prefix(dest_guid, "Creature-"@) {
        PullOutcome::Kill
    } else {
        PullOutcome::Wipe
    }
}

/// The combat state after `event` at `now_ms`.
///
/// * An encounter start names the encounter and opens a pull; a successful
///   cast opens one too. Neither does so while a pull is open.
/// * An encounter end closes the pull, as a kill on success and a wipe
///   otherwise, and clears the encounter name. A death closes it only
///   outside an encounter. Neither does so while no pull is open.
/// * A cast by the coached player is recorded for the gap between casts,
///   as the last use of its spell and in the count of its uses; spell damage to the player as a hit
///   and as damage taken; a swing at the player as damage taken; an
///   interrupt by the player is counted and its spell learned.
/// * Damage, heals, interrupts, failed and started casts enter the rolling
///   window.
pub open spec fn spec_update(s: CombatModel, event: EventModel, now_ms: u64) -> CombatModel {
    match event {
        EventModel::SpellCastSuccess { source_guid, spell_id, .. } => {
            let opened = if s.in_combat {
                s
            } else {
                s.start_pull(now_ms)
            };
            if opened.player_guid == Some(source_guid) {
                CombatModel {
                    gcd: opened.gcd.after_cast(now_ms),
                    cooldowns: opened.cooldowns.insert(spell_id, now_ms),
                    cast_counts: opened.cast_counts.insert(
                        spell_id,
                        bump(count_in(opened.cast_counts, spell_id)),
                    ),
                    ..opened
                }
            } else {
                opened
            }
        },
        EventModel::SpellDamage { dest_guid, spell_id, amount, .. } => {
            let hit = if s.player_guid == Some(dest_guid) {
                CombatModel {
                    avoidable: s.avoidable.push((spell_id, now_ms)),
                    damage_taken: s.damage_taken.push((now_ms, amount)),
                    ..s
                }
            } else {
                s
            };
            with_window(hit, event, now_ms)
        },
        EventModel::SwingDamage { dest_guid, amount, .. } => {
            let hit = if s.player_guid == Some(dest_guid) {
                CombatModel { damage_taken: s.damage_taken.push((now_ms, amount)), ..s }
            } else {
                s
            };
            with_window(hit, event, now_ms)
        },
        EventModel::UnitDied { dest_guid, .. } => {
            if s.in_combat && s.encounter_name is None {
                s.end_pull(now_ms, death_outcome(dest_guid))
            } else {
                s
            }
        },
        EventModel::SpellInterrupted { source_guid, interrupted_spell_id, .. } => {
            let counted = if s.player_guid == Some(source_guid) {
                CombatModel {
                    interrupt_count: bump(s.interrupt_count),
                    interrupts: s.interrupts.insert(interrupted_spell_id),
                    ..s
                }
            } else {
                s
            };
            with_window(counted, event, now_ms)
        },
        EventModel::EncounterStart { encounter_name, .. } => {
            let named = CombatModel { encounter_name: Some(encounter_name), ..s };
            if named.in_combat {
                named
            } else {
                named.start_pull(now_ms)
            }
        },
        EventModel::EncounterEnd { success, .. } => {
            let closed = if s.in_combat {
                s.end_pull(
                    now_ms,
                    if success {
                        PullOutcome::Kill
                    } else {
                        PullOutcome::Wipe
                    },
                )
            } else {
                s
            };
            CombatModel { encounter_name: None, ..closed }
        },
        _ => with_window(s, event, now_ms),
    }
}

/// Every event leaves a valid state valid: a pull is current exactly
/// while in combat, the current pull is open, the pulls of the history are
/// closed, and a pull without a cast has no gap.
pub proof fn lemma_update_keeps_valid(s: CombatModel, event: EventModel, now_ms: u64)
    requires
        s.valid(),
    ensures
        spec_update(s, event, now_ms).valid(),
{
    let after = spec_update(s, event, now_ms);
    assert forall|i: int| 0 <= i < after.pull_history.len() implies (
    #[trigger] after.pull_history[i]).end_ms is Some && after.pull_history[i].outcome is Some by {
        if i < s.pull_history.len() {
            assert(after.pull_history[i] == s.pull_history[i]);
        }
    }
}

/// Applies `event` at `now_ms` to the combat state.
pub fn update_state(state: &mut CombatState, event: &LogEvent, now_ms: u64)
    requires
        old(state).wf(),
    ensures
        final(state).wf(),
        final(state)@ == spec_update(old(state)@, event@, now_ms),
{
    match event {
        LogEvent::SpellCastSuccess { source_guid, spell_id, .. } => {
            if !state.in_combat {
                state.start_pull(now_ms);
            }
            if opt_is(&state.player_guid, source_guid.as_str()) {
                state.gcd.record_cast(now_ms);
                state.cooldowns.record_cast(*spell_id, now_ms);
            }
        },
        LogEvent::SpellDamage { dest_guid, spell_id, amount, .. } => {
            if opt_is(&state.player_guid, dest_guid.as_str()) {
                state.avoidable.record_hit(*spell_id, now_ms);
                state.damage_taken.record(now_ms, *amount);
            }
            state.event_window.push(event.clone(), now_ms);
        },
        LogEvent::SwingDamage { dest_guid, amount, .. } => {
            if opt_is(&state.player_guid, dest_guid.as_str()) {
                state.damage_taken.record(now_ms, *amount);
            }
            state.event_window.push(event.clone(), now_ms);
        },
        LogEvent::UnitDied { dest_guid, .. } => {
            if state.in_combat && state.encounter_name.is_none() {
                let outcome = if starts_with(dest_guid.as_str(), "Creature-") {
                    PullOutcome::Kill
                } else {
                    PullOutcome::Wipe
                };
                state.end_pull(now_ms, outcome);
            }
        },
        LogEvent::SpellInterrupted { source_guid, interrupted_spell_id, .. } => {
            if opt_is(&state.player_guid, source_guid.as_str()) {
                if state.interrupt_count < u32::MAX {
                    state.interrupt_count = state.interrupt_count + 1;
                }
                state.interrupts.record_interrupt(*interrupted_spell_id);
            }
            state.event_window.push(event.clone(), now_ms);
        },
        LogEvent::EncounterStart { encounter_name, .. } => {
            state.encounter_name = Some(encounter_name.clone());
            if !state.in_combat {
                state.start_pull(now_ms);
            }
        },
        LogEvent::EncounterEnd { success, .. } => {
            if state.in_combat {
                let outcome = if *success {
                    PullOutcome::Kill
                } else {
                    PullOutcome::Wipe
                };
                state.end_pull(now_ms, outcome);
            }
            state.encounter_name = None;
        },
        _ => {
            state.event_window.push(event.clone(), now_ms);
        },
    }
    assert(state@ =~= spec_update(old(state)@, event@, now_ms));
    proof {
        lemma_update_keeps_valid(old(state)@, event@, now_ms);
    }
}

/// The character part of a name: what stands before the first hyphen.
pub open spec fn spec_char_name(full_name: Seq<char>) -> Seq<char> {
    before_first(full_name, '-')
}

/// The character name in a source name: `Stonebraid-Draenor-EU` and
/// `Stonebraid` both give `Stonebraid`.
pub fn extract_char_name<'a>(full_name: &'a str) -> (r: &'a str)
    ensures
        r@ == spec_char_name(full_name@),
{
    take_before(full_name, '-')
}

} // verus!
