//! One coaching session: the combat state together with the settings, the
//! advice cooldowns and the store ids, and what an event, an identity
//! update or a change of settings does to them.
//!
//! The session decides; it performs no I/O. The caller feeds it what
//! arrived and carries out what comes back: advice and snapshots to
//! publish, commands for the store. Where an event opens a pull, the
//! caller first asks the store for the row of the pull and hands the id in
//! with the event.

use crate::config::default_intensity;
use crate::db::{command_views, CommandModel, DbCommand};
use crate::engine::{
    advice_views, is_coached_event, may_fire, spec_char_name, spec_is_coached,
    spec_update, update_state, extract_char_name, AdviceEvent, AdviceLog, AdviceModel,
};
use crate::identity::{IdentityModel, PlayerIdentity};
use crate::ipc::{DebriefModel, PullDebrief, SnapshotModel, StateSnapshot};
use crate::parser::{EventModel, LogEvent};
use crate::rules::{
    avoidable_repeat, cooldown_drift, defensive_timing, gcd_gap, interrupt_miss,
    interrupt_success, RuleContext, RuleInput,
};
use crate::specs::{
    copy_ids, load_by_key, load_spec, profile_views, spec_load, spec_load_by_key, ProfileModel,
    SpecProfile,
};
use crate::state::{
    bump, clip32, clone_opt, pull_views, sub_or_zero, CombatModel, CombatState, Pull,
    PullModel, PullOutcome,
};
use crate::text::{
    ascii_lower_seq, before_first, eq_ignore_ascii_case, eq_ignore_case, has_prefix,
    starts_with, str_eq, take_before,
};
use vstd::prelude::*;
use vstd::string::StringExecFns;

verus! {

// ---------------------------------------------------------------------------
// Settings
// ---------------------------------------------------------------------------

/// The settings that coaching reads.
#[derive(Debug)]
pub struct CoachConfig {
    /// Coaching intensity: 1 is quiet, 5 aggressive.
    pub intensity: u8,
    /// Name of the player to coach, with or without realm; empty where the
    /// identity is to come from the plugin.
    pub player_focus: String,
    /// The `CLASS/Spec` key chosen by the user; empty where none is.
    pub selected_spec: String,
    /// Spell ids of major cooldowns given by hand.
    pub major_cds: Vec<u32>,
}

/// The mathematical value of a `CoachConfig`.
pub struct ConfigModel {
    pub intensity: u8,
    pub player_focus: Seq<char>,
    pub selected_spec: Seq<char>,
    pub major_cds: Seq<u32>,
}

impl View for CoachConfig {
    type V = ConfigModel;

    open spec fn view(&self) -> ConfigModel {
        ConfigModel {
            intensity: self.intensity,
            player_focus: self.player_focus@,
            selected_spec: self.selected_spec@,
            major_cds: self.major_cds@,
        }
    }
}

impl Clone for CoachConfig {
    fn clone(&self) -> (r: Self)
        ensures
            r@ == self@,
    {
        CoachConfig {
            intensity: self.intensity,
            player_focus: self.player_focus.clone(),
            selected_spec: self.selected_spec.clone(),
            major_cds: copy_ids(&self.major_cds),
        }
    }
}

impl Default for CoachConfig {
    fn default() -> (r: Self)
        ensures
            r@ == (ConfigModel {
                intensity: 3,
                player_focus: Seq::empty(),
                selected_spec: Seq::empty(),
                major_cds: Seq::empty(),
            }),
    {
        CoachConfig {
            intensity: default_intensity(),
            player_focus: String::new(),
            selected_spec: String::new(),
            major_cds: Vec::new(),
        }
    }
}

// ---------------------------------------------------------------------------
// Names seen while the player is unknown
// ---------------------------------------------------------------------------

/// The players seen casting, by character name: for each name, the GUID
/// first seen with it. Names differing only in the case of ASCII letters
/// are one name.
pub struct NameCache {
    /// Name and GUID; no two names are equal up to case.
    entries: Vec<(String, String)>,
}

/// The map that a list of names and GUIDs stands for: from the name in
/// small letters to the GUID, an earlier pair outliving a later one of the
/// same name.
pub open spec fn names_map(entries: Seq<(String, String)>) -> Map<Seq<char>, Seq<char>>
    decreases entries.len(),
{
    if entries.len() == 0 {
        Map::empty()
    } else {
        let rest = names_map(entries.drop_last());
        let key = ascii_lower_seq(entries.last().0@);
        if rest.contains_key(key) {
            rest
        } else {
            rest.insert(key, entries.last().1@)
        }
    }
}

/// A cache after `name` was seen with `guid`: the first GUID of a name
/// stays.
pub open spec fn names_after(
    cache: Map<Seq<char>, Seq<char>>,
    name: Seq<char>,
    guid: Seq<char>,
) -> Map<Seq<char>, Seq<char>> {
    if cache.contains_key(ascii_lower_seq(name)) {
        cache
    } else {
        cache.insert(ascii_lower_seq(name), guid)
    }
}

impl View for NameCache {
    type V = Map<Seq<char>, Seq<char>>;

    closed spec fn view(&self) -> Map<Seq<char>, Seq<char>> {
        names_map(self.entries@)
    }
}

impl NameCache {
    /// A cache without names.
    pub fn new() -> (r: Self)
        ensures
            r@ == Map::<Seq<char>, Seq<char>>::empty(),
    {
        NameCache { entries: Vec::new() }
    }

    /// The GUID first seen with `name`, if the name was seen.
    pub fn get(&self, name: &str) -> (r: Option<&str>)
        ensures
            match r {
                Some(g) => self@.contains_key(ascii_lower_seq(name@)) && self@[ascii_lower_seq(
                    name@,
                )] == g@,
                None => !self@.contains_key(ascii_lower_seq(name@)),
            },
    {
        let ghost key = ascii_lower_seq(name@);
        let mut i: usize = 0;
        assert(self.entries@.take(0) =~= Seq::<(String, String)>::empty());
        while i < self.entries.len()
            invariant
                i <= self.entries.len(),
                key == ascii_lower_seq(name@),
                !names_map(self.entries@.take(i as int)).contains_key(key),
            decreases self.entries.len() - i,
        {
            let ghost next = self.entries@.take(i + 1);
            assert(next.drop_last() =~= self.entries@.take(i as int));
            assert(next.last() == self.entries@[i as int]);
            if eq_ignore_ascii_case(self.entries[i].0.as_str(), name) {
                proof {
                    lemma_names_kept(self.entries@, i + 1, key);
                }
                return Some(self.entries[i].1.as_str());
            }
            i += 1;
        }
        assert(self.entries@.take(i as int) =~= self.entries@);
        None
    }

    /// Remembers `guid` for `name` unless the name has a GUID already.
    pub fn insert_if_absent(&mut self, name: &str, guid: &str)
        ensures
            final(self)@ == names_after(old(self)@, name@, guid@),
    {
        let seen = self.get(name).is_some();
        let entry = (name.to_owned(), guid.to_owned());
        if !seen {
            assert(self.entries@.push(entry).drop_last() =~= self.entries@);
            self.entries.push(entry);
        }
    }
}

/// What a prefix of the entries maps a name to, the whole list maps it to.
pub proof fn lemma_names_kept(entries: Seq<(String, String)>, k: int, key: Seq<char>)
    requires
        0 <= k <= entries.len(),
        names_map(entries.take(k)).contains_key(key),
    ensures
        names_map(entries).contains_key(key),
        names_map(entries)[key] == names_map(entries.take(k))[key],
    decreases entries.len() - k,
{
    if k < entries.len() {
        assert(entries.take(k + 1).drop_last() =~= entries.take(k));
        lemma_names_kept(entries, k + 1, key);
    } else {
        assert(entries.take(k) =~= entries);
    }
}

// ---------------------------------------------------------------------------
// The session
// ---------------------------------------------------------------------------

/// Everything a coaching session holds.
pub struct EngineState {
    pub combat: CombatState,
    pub identity: PlayerIdentity,
    pub config: CoachConfig,
    /// When each advice key last fired in the current pull.
    pub advice_last_ms: AdviceLog,
    /// Row of the session in the store; not positive where the store gave
    /// none.
    pub session_id: i64,
    /// Row of the current pull in the store, if the store gave one.
    pub current_pull_id: Option<i64>,
    /// Number of pulls opened in the session.
    pub pull_number: u32,
    /// Major cooldowns in force: from the profile, or from the settings.
    pub effective_major_cds: Vec<u32>,
    /// Active mitigation in force: from the profile.
    pub effective_am_spells: Vec<u32>,
    /// The character part of the configured player name.
    pub focus_name: String,
    /// The players seen casting while the coached player is unknown.
    pub player_name_cache: NameCache,
    /// Advice fired this pull.
    pub pull_advice_count: u32,
    /// Advice about gaps between casts fired this pull.
    pub pull_gcd_gap_count: u32,
    /// The library of spec profiles.
    pub profiles: Vec<SpecProfile>,
}

/// The mathematical value of an `EngineState`.
pub struct EngineModel {
    pub combat: CombatModel,
    pub identity: IdentityModel,
    pub config: ConfigModel,
    pub advice_last_ms: Map<Seq<char>, u64>,
    pub session_id: i64,
    pub current_pull_id: Option<i64>,
    pub pull_number: u32,
    pub effective_major_cds: Seq<u32>,
    pub effective_am_spells: Seq<u32>,
    pub focus_name: Seq<char>,
    pub player_name_cache: Map<Seq<char>, Seq<char>>,
    pub pull_advice_count: u32,
    pub pull_gcd_gap_count: u32,
    pub profiles: Seq<ProfileModel>,
}

impl View for EngineState {
    type V = EngineModel;

    open spec fn view(&self) -> EngineModel {
        EngineModel {
            combat: self.combat@,
            identity: self.identity@,
            config: self.config@,
            advice_last_ms: self.advice_last_ms@,
            session_id: self.session_id,
            current_pull_id: self.current_pull_id,
            pull_number: self.pull_number,
            effective_major_cds: self.effective_major_cds@,
            effective_am_spells: self.effective_am_spells@,
            focus_name: self.focus_name@,
            player_name_cache: self.player_name_cache@,
            pull_advice_count: self.pull_advice_count,
            pull_gcd_gap_count: self.pull_gcd_gap_count,
            profiles: profile_views(self.profiles@),
        }
    }
}

/// The name that an advice goes by in the store.
pub open spec fn advice_command(pull_id: i64, a: AdviceModel, now_ms: u64) -> CommandModel {
    CommandModel::InsertAdvice {
        pull_id,
        fired_at: now_ms,
        rule_key: a.key,
        severity: a.severity.spec_name(),
        message: a.message,
    }
}

/// The store commands for the advice `fired`: one each, in order, where
/// the pull has a row; none where it has not.
pub open spec fn advice_commands(
    pull_id: Option<i64>,
    fired: Seq<AdviceModel>,
    now_ms: u64,
) -> Seq<CommandModel> {
    match pull_id {
        Some(id) => Seq::new(fired.len(), |i: int| advice_command(id, fired[i], now_ms)),
        None => Seq::empty(),
    }
}

/// What passing the candidates `cands` through the cooldowns at `now_ms`
/// leaves: the times of last firing, and the advice that fired. The
/// candidates are taken in order, and one that fires counts at once, so
/// that a later candidate of the same key is held back.
pub open spec fn dedup(
    last: Map<Seq<char>, u64>,
    cands: Seq<AdviceModel>,
    now_ms: u64,
) -> (Map<Seq<char>, u64>, Seq<AdviceModel>)
    decreases cands.len(),
{
    if cands.len() == 0 {
        (last, Seq::empty())
    } else {
        let (l, fired) = dedup(last, cands.drop_last(), now_ms);
        let c = cands.last();
        if may_fire(l, c.key, c.severity, now_ms) {
            (l.insert(c.key, now_ms), fired.push(c))
        } else {
            (l, fired)
        }
    }
}

/// Number of advice about gaps between casts among `fired`.
pub open spec fn gap_count(fired: Seq<AdviceModel>) -> nat
    decreases fired.len(),
{
    if fired.len() == 0 {
        0
    } else {
        gap_count(fired.drop_last()) + if has_prefix(fired.last().key, "gcd_gap"@) {
            1nat
        } else {
            0nat
        }
    }
}

/// The word for an outcome in a debrief and in the store.
pub open spec fn outcome_name(outcome: Option<PullOutcome>) -> Seq<char> {
    match outcome {
        Some(PullOutcome::Kill) => "kill"@,
        Some(PullOutcome::Wipe) => "wipe"@,
        None => "unknown"@,
    }
}

/// How long the pull last closed took; 0 without one.
pub open spec fn last_pull_elapsed(history: Seq<PullModel>) -> u64 {
    if history.len() == 0 {
        0
    } else {
        match history.last().end_ms {
            Some(end) => sub_or_zero(end, history.last().start_ms),
            None => 0,
        }
    }
}

/// How the pull last closed ended; `unknown` without one.
pub open spec fn last_pull_outcome(history: Seq<PullModel>) -> Seq<char> {
    if history.len() == 0 {
        "unknown"@
    } else {
        outcome_name(history.last().outcome)
    }
}

/// What an event gave rise to.
pub struct EventOutcome {
    /// The advice that fired, in order; to be delivered.
    pub advice: Vec<AdviceEvent>,
    /// The commands for the store, in order.
    pub commands: Vec<DbCommand>,
    /// The state after the event, in brief.
    pub snapshot: StateSnapshot,
    /// The summary of the pull that the event closed, if it closed one.
    pub debrief: Option<PullDebrief>,
}

/// The mathematical value of an `EventOutcome`.
pub struct OutcomeModel {
    pub advice: Seq<AdviceModel>,
    pub commands: Seq<CommandModel>,
    pub snapshot: SnapshotModel,
    pub debrief: Option<DebriefModel>,
}

/// The value of an optional debrief.
pub open spec fn debrief_view(d: Option<PullDebrief>) -> Option<DebriefModel> {
    match d {
        Some(x) => Some(x@),
        None => None,
    }
}

impl View for EventOutcome {
    type V = OutcomeModel;

    open spec fn view(&self) -> OutcomeModel {
        OutcomeModel {
            advice: advice_views(self.advice@),
            commands: command_views(self.commands@),
            snapshot: self.snapshot@,
            debrief: debrief_view(self.debrief),
        }
    }
}

impl EngineModel {
    /// The lists of spells in force for `config`: those of the selected
    /// profile where the library has it, else the cooldowns given by hand
    /// and no active mitigation.
    pub open spec fn lists_for(config: ConfigModel, profiles: Seq<ProfileModel>) -> (
        Seq<u32>,
        Seq<u32>,
    ) {
        if config.selected_spec.len() > 0 {
            match spec_load_by_key(profiles, config.selected_spec) {
                Some(p) => (p.major_cd_spell_ids, p.am_spell_ids),
                None => (config.major_cds, Seq::empty()),
            }
        } else {
            (config.major_cds, Seq::empty())
        }
    }

    /// The session at its start.
    pub open spec fn initial(
        config: ConfigModel,
        session_id: i64,
        profiles: Seq<ProfileModel>,
    ) -> EngineModel {
        EngineModel {
            combat: CombatModel::initial(),
            identity: IdentityModel {
                guid: Seq::empty(),
                name: "Unknown"@,
                realm: Seq::empty(),
                class: Seq::empty(),
                spec: Seq::empty(),
                version: Seq::empty(),
            },
            config,
            advice_last_ms: Map::empty(),
            session_id,
            current_pull_id: None,
            pull_number: 0,
            effective_major_cds: Self::lists_for(config, profiles).0,
            effective_am_spells: Self::lists_for(config, profiles).1,
            focus_name: before_first(config.player_focus, '-'),
            player_name_cache: Map::empty(),
            pull_advice_count: 0,
            pull_gcd_gap_count: 0,
            profiles,
        }
    }

    /// The session after the plugin reported `identity`: the player is
    /// known by the reported GUID; unless the user selected a profile, the
    /// profile of the reported class and specialisation comes into force
    /// where the library has it.
    pub open spec fn on_identity(self, identity: IdentityModel) -> EngineModel {
        let found = if self.config.selected_spec.len() == 0 {
            spec_load(self.profiles, identity.class, identity.spec)
        } else {
            None
        };
        EngineModel {
            combat: CombatModel { player_guid: Some(identity.guid), ..self.combat },
            effective_major_cds: match found {
                Some(p) => p.major_cd_spell_ids,
                None => self.effective_major_cds,
            },
            effective_am_spells: match found {
                Some(p) => p.am_spell_ids,
                None => self.effective_am_spells,
            },
            identity,
            ..self
        }
    }

    /// The command that fills the identity into the session row: sent
    /// where the session has a row and the GUID is not empty.
    pub open spec fn identity_command(self, identity: IdentityModel) -> Option<CommandModel> {
        if self.session_id > 0 && identity.guid.len() > 0 {
            Some(
                CommandModel::UpdateSession {
                    session_id: self.session_id,
                    player_name: identity.name,
                    player_guid: identity.guid,
                },
            )
        } else {
            None
        }
    }

    /// The session after the settings changed to `config`. A new player
    /// name is looked up among the names seen: the player is known at once
    /// where the name was seen, and unknown until the next cast otherwise.
    /// A newly selected profile comes into force where the library has it.
    pub open spec fn on_config(self, config: ConfigModel) -> EngineModel {
        let focus = before_first(config.player_focus, '-');
        let key = ascii_lower_seq(focus);
        let guid = if focus == self.focus_name {
            self.combat.player_guid
        } else if self.player_name_cache.contains_key(key) {
            Some(self.player_name_cache[key])
        } else {
            None
        };
        let found = if config.selected_spec != self.config.selected_spec
            && config.selected_spec.len() > 0 {
            spec_load_by_key(self.profiles, config.selected_spec)
        } else {
            None
        };
        EngineModel {
            combat: CombatModel { player_guid: guid, ..self.combat },
            focus_name: focus,
            effective_major_cds: match found {
                Some(p) => p.major_cd_spell_ids,
                None => self.effective_major_cds,
            },
            effective_am_spells: match found {
                Some(p) => p.am_spell_ids,
                None => self.effective_am_spells,
            },
            config,
            ..self
        }
    }

    /// Whether `event` opens a pull: an encounter start or a successful
    /// cast while out of combat.
    pub open spec fn opens_pull(self, event: EventModel) -> bool {
        !self.combat.in_combat && (event is SpellCastSuccess || event is EncounterStart)
    }

    /// The session after a cast was looked at for who the player is. While
    /// the player is unknown, a cast by a player is remembered by the
    /// caster's name, and a cast by the configured name makes its caster
    /// the coached player.
    pub open spec fn observe_cast(self, event: EventModel) -> EngineModel {
        match event {
            EventModel::SpellCastSuccess { source_guid, source_name, .. } => {
                if self.combat.player_guid is None {
                    let name = spec_char_name(source_name);
                    EngineModel {
                        player_name_cache: if has_prefix(source_guid, "Player-"@) {
                            crate::coach::names_after(self.player_name_cache, name, source_guid)
                        } else {
                            self.player_name_cache
                        },
                        combat: if self.focus_name.len() > 0 && eq_ignore_case(
                            name,
                            self.focus_name,
                        ) {
                            CombatModel { player_guid: Some(source_guid), ..self.combat }
                        } else {
                            self.combat
                        },
                        ..self
                    }
                } else {
                    self
                }
            },
            _ => self,
        }
    }

    /// The session after the start of a pull was noted: the pull is
    /// counted, the counts of the pull start at 0, and the row that the
    /// store gave is taken.
    pub open spec fn note_start(self, pull_row: Option<i64>) -> EngineModel {
        EngineModel {
            pull_number: bump(self.pull_number),
            pull_advice_count: 0,
            pull_gcd_gap_count: 0,
            current_pull_id: match pull_row {
                Some(id) => Some(id),
                None => self.current_pull_id,
            },
            ..self
        }
    }

    /// The summary of the pull that has just closed.
    pub open spec fn debrief(self) -> DebriefModel {
        DebriefModel {
            pull_number: self.pull_number,
            pull_elapsed_ms: last_pull_elapsed(self.combat.pull_history),
            outcome: last_pull_outcome(self.combat.pull_history),
            avoidable_count: clip32(self.combat.avoidable.len() as int),
            interrupt_count: self.combat.interrupt_count,
            total_advice_fired: self.pull_advice_count,
            gcd_gap_count: self.pull_gcd_gap_count,
        }
    }

    /// The store command that closes the pull at `now_ms`, where the pull
    /// has a row.
    pub open spec fn end_commands(self, now_ms: u64) -> Seq<CommandModel> {
        match self.current_pull_id {
            Some(id) => seq![
                CommandModel::EndPull {
                    pull_id: id,
                    ended_at: now_ms,
                    outcome: last_pull_outcome(self.combat.pull_history),
                },
            ],
            None => Seq::empty(),
        }
    }

    /// The session after the end of a pull was noted: no pull row, and
    /// every advice key free to fire again.
    pub open spec fn note_end(self) -> EngineModel {
        EngineModel { current_pull_id: None, advice_last_ms: Map::empty(), ..self }
    }

    /// The advice that the rules propose for `event`, in the order in which
    /// the cooldowns take them: first the rule on enemy casts, while in
    /// combat; then, for an event of the coached player, the rules on
    /// repeated damage, gaps, late cooldowns, interrupts and mitigation.
    pub open spec fn candidates(self, event: EventModel, now_ms: u64) -> Seq<AdviceModel> {
        let i = self.config.intensity;
        let enemy = if self.combat.in_combat {
            interrupt_miss::spec_evaluate(event, self.combat, i, now_ms)
        } else {
            Seq::empty()
        };
        let own = if spec_is_coached(event, self.combat.player_guid) {
            avoidable_repeat::spec_evaluate(event, self.combat, i, now_ms) + gcd_gap::spec_evaluate(
                event,
                self.combat,
                i,
                now_ms,
            ) + cooldown_drift::spec_evaluate(
                event,
                self.combat,
                i,
                now_ms,
                self.effective_major_cds,
            ) + interrupt_success::spec_evaluate(event, self.combat, i, now_ms)
                + defensive_timing::spec_evaluate(
                event,
                self.combat,
                i,
                now_ms,
                self.effective_am_spells,
            )
        } else {
            Seq::empty()
        };
        enemy + own
    }

    /// The session after the candidates `cands` passed the cooldowns.
    pub open spec fn after_firing(self, cands: Seq<AdviceModel>, now_ms: u64) -> EngineModel {
        let (last, fired) = dedup(self.advice_last_ms, cands, now_ms);
        EngineModel {
            advice_last_ms: last,
            pull_advice_count: clip32(self.pull_advice_count + fired.len()),
            pull_gcd_gap_count: clip32(self.pull_gcd_gap_count + gap_count(fired)),
            ..self
        }
    }

    /// The state in brief at `now_ms`.
    pub open spec fn snapshot(self, now_ms: u64) -> SnapshotModel {
        SnapshotModel {
            pull_elapsed_ms: self.combat.pull_elapsed_ms(now_ms),
            gcd_gap_ms: self.combat.gcd.current_gap_ms,
            avoidable_count: clip32(self.combat.avoidable.len() as int),
            in_combat: self.combat.in_combat,
            interrupt_count: self.combat.interrupt_count,
            encounter_name: self.combat.encounter_name,
        }
    }

    /// The session after `event`, before the rules ran: the player looked
    /// for, the combat state moved on, and the start or end of a pull
    /// noted.
    pub open spec fn advanced(self, event: EventModel, pull_row: Option<i64>) -> EngineModel {
        let now_ms = event.timestamp_ms();
        let seen = self.observe_cast(event);
        let moved = EngineModel { combat: spec_update(seen.combat, event, now_ms), ..seen };
        if !self.combat.in_combat && moved.combat.in_combat {
            moved.note_start(pull_row)
        } else if self.combat.in_combat && !moved.combat.in_combat {
            moved.note_end()
        } else {
            moved
        }
    }

    /// Whether `event` closes the pull.
    pub open spec fn closes_pull(self, event: EventModel) -> bool {
        self.combat.in_combat && !spec_update(
            self.observe_cast(event).combat,
            event,
            event.timestamp_ms(),
        ).in_combat
    }

    /// The session after `event`.
    pub open spec fn on_event(self, event: EventModel, pull_row: Option<i64>) -> EngineModel {
        let now_ms = event.timestamp_ms();
        let adv = self.advanced(event, pull_row);
        adv.after_firing(adv.candidates(event, now_ms), now_ms)
    }

    /// What `event` gives rise to: the advice that passed the cooldowns;
    /// for the store, the end of the pull that the event closed and each
    /// advice under the row of the open pull; the snapshot; and the
    /// debrief of a closed pull.
    pub open spec fn outcome(self, event: EventModel, pull_row: Option<i64>) -> OutcomeModel {
        let now_ms = event.timestamp_ms();
        let adv = self.advanced(event, pull_row);
        let fired = dedup(adv.advice_last_ms, adv.candidates(event, now_ms), now_ms).1;
        let seen = self.observe_cast(event);
        let moved = EngineModel { combat: spec_update(seen.combat, event, now_ms), ..seen };
        OutcomeModel {
            advice: fired,
            commands: (if self.closes_pull(event) {
                moved.end_commands(now_ms)
            } else {
                Seq::empty()
            }) + advice_commands(adv.current_pull_id, fired, now_ms),
            snapshot: self.on_event(event, pull_row).snapshot(now_ms),
            debrief: if self.closes_pull(event) {
                Some(moved.debrief())
            } else {
                None
            },
        }
    }
}

/// The word for the outcome of the pull last closed.
fn last_outcome_word(history: &Vec<Pull>) -> (r: String)
    ensures
        r@ == last_pull_outcome(pull_views(history@)),
{
    let n = history.len();
    if n == 0 {
        String::from_str("unknown")
    } else {
        match history[n - 1].outcome {
            Some(PullOutcome::Kill) => String::from_str("kill"),
            Some(PullOutcome::Wipe) => String::from_str("wipe"),
            None => String::from_str("unknown"),
        }
    }
}

/// How long the pull last closed took.
fn last_elapsed(history: &Vec<Pull>) -> (r: u64)
    ensures
        r == last_pull_elapsed(pull_views(history@)),
{
    let n = history.len();
    if n == 0 {
        0
    } else {
        match history[n - 1].end_ms {
            Some(end) => end.saturating_sub(history[n - 1].start_ms),
            None => 0,
        }
    }
}

/// `n + 1`, or `n` at the largest `u32`.
fn bumped(n: u32) -> (r: u32)
    ensures
        r == bump(n),
{
    if n < u32::MAX {
        n + 1
    } else {
        n
    }
}

/// Passes the candidates through the cooldowns at `now_ms`, in order. An
/// advice that may fire is marked as fired at once, counted, and given its
/// store command where the pull has a row.
pub fn fire_all(
    log: &mut AdviceLog,
    cands: Vec<AdviceEvent>,
    pull_id: Option<i64>,
    now_ms: u64,
    advice_count: &mut u32,
    gaps: &mut u32,
) -> (r: (Vec<AdviceEvent>, Vec<DbCommand>))
    ensures
        (final(log)@, advice_views(r.0@)) == dedup(old(log)@, advice_views(cands@), now_ms),
        command_views(r.1@) == advice_commands(pull_id, advice_views(r.0@), now_ms),
        *final(advice_count) == clip32(*old(advice_count) + r.0.len()),
        *final(gaps) == clip32(*old(gaps) + gap_count(advice_views(r.0@))),
{
    broadcast use vstd::std_specs::vec::axiom_spec_into_iter;

    let ghost all = cands@;
    let ghost log0 = log@;
    let mut fired: Vec<AdviceEvent> = Vec::new();
    let mut commands: Vec<DbCommand> = Vec::new();
    assert(advice_views(all.take(0)) =~= Seq::<AdviceModel>::empty());
    assert(advice_views(fired@) =~= Seq::<AdviceModel>::empty());
    assert(command_views(commands@) =~= advice_commands(pull_id, advice_views(fired@), now_ms));
    for a in it: cands
        invariant
            it.seq() == all,
            (log@, advice_views(fired@)) == dedup(
                log0,
                advice_views(all.take(it.index() as int)),
                now_ms,
            ),
            command_views(commands@) == advice_commands(pull_id, advice_views(fired@), now_ms),
            *advice_count == clip32(*old(advice_count) + fired.len()),
            *gaps == clip32(*old(gaps) + gap_count(advice_views(fired@))),
    {
        proof {
            let k = it.index() as int;
            assert(advice_views(all.take(k + 1)).drop_last() =~= advice_views(all.take(k)));
            assert(advice_views(all.take(k + 1)).last() == a@);
        }
        if log.can_fire(a.key.as_str(), &a.severity, now_ms) {
            let ghost before = advice_views(fired@);
            if starts_with(a.key.as_str(), "gcd_gap") {
                *gaps = bumped(*gaps);
            }
            log.mark_fired(a.key.as_str(), now_ms);
            *advice_count = bumped(*advice_count);
            match pull_id {
                Some(id) => {
                    let ghost done = command_views(commands@);
                    let cmd = DbCommand::InsertAdvice {
                        pull_id: id,
                        fired_at: now_ms,
                        rule_key: a.key.clone(),
                        severity: String::from_str(a.severity.name()),
                        message: a.message.clone(),
                    };
                    commands.push(cmd);
                    assert(command_views(commands@) =~= done.push(
                        advice_command(id, a@, now_ms),
                    ));
                },
                None => {},
            }
            fired.push(a);
            proof {
                assert(advice_views(fired@) =~= before.push(a@));
                assert(advice_views(fired@).drop_last() =~= before);
                assert(command_views(commands@) =~= advice_commands(
                    pull_id,
                    advice_views(fired@),
                    now_ms,
                ));
            }
        }
    }
    assert(all.take(all.len() as int) =~= all);
    (fired, commands)
}

impl EngineState {
    /// The trackers of the combat state are in step with their logs.
    pub open spec fn wf(&self) -> bool {
        self.combat.wf()
    }

    /// A session at its start, with the settings `config`, the row
    /// `session_id` of the session in the store, and the library of
    /// profiles.
    pub fn new(config: CoachConfig, session_id: i64, profiles: Vec<SpecProfile>) -> (r: Self)
        ensures
            r.wf(),
            r@ == EngineModel::initial(config@, session_id, profile_views(profiles@)),
    {
        let found = if !config.selected_spec.as_str().is_empty() {
            load_by_key(&profiles, config.selected_spec.as_str())
        } else {
            None
        };
        let (major, mitigation) = match found {
            Some(p) => (p.major_cd_spell_ids, p.am_spell_ids),
            None => (copy_ids(&config.major_cds), Vec::new()),
        };
        let focus_name = take_before(config.player_focus.as_str(), '-').to_owned();
        EngineState {
            combat: CombatState::new(),
            identity: PlayerIdentity::unknown(),
            advice_last_ms: AdviceLog::new(),
            session_id,
            current_pull_id: None,
            pull_number: 0,
            effective_major_cds: major,
            effective_am_spells: mitigation,
            focus_name,
            player_name_cache: NameCache::new(),
            pull_advice_count: 0,
            pull_gcd_gap_count: 0,
            profiles,
            config,
        }
    }

    /// Takes in the identity that the plugin reported. Returns the command
    /// that fills it into the session row, where one is due.
    pub fn on_identity(&mut self, identity: PlayerIdentity) -> (r: Option<DbCommand>)
        requires
            old(self).wf(),
        ensures
            final(self).wf(),
            final(self)@ == old(self)@.on_identity(identity@),
            match r {
                Some(c) => old(self)@.identity_command(identity@) == Some(c@),
                None => old(self)@.identity_command(identity@) is None,
            },
    {
        self.combat.player_guid = Some(identity.guid.clone());
        if self.config.selected_spec.as_str().is_empty() {
            match load_spec(&self.profiles, identity.class.as_str(), identity.spec.as_str()) {
                Some(p) => {
                    self.effective_major_cds = p.major_cd_spell_ids;
                    self.effective_am_spells = p.am_spell_ids;
                },
                None => {},
            }
        }
        let command = if self.session_id > 0 && !identity.guid.as_str().is_empty() {
            Some(
                DbCommand::UpdateSession {
                    session_id: self.session_id,
                    player_name: identity.name.clone(),
                    player_guid: identity.guid.clone(),
                },
            )
        } else {
            None
        };
        self.identity = identity;
        assert(self@ =~= old(self)@.on_identity(identity@));
        command
    }

    /// Takes in changed settings.
    pub fn on_config(&mut self, config: CoachConfig)
        requires
            old(self).wf(),
        ensures
            final(self).wf(),
            final(self)@ == old(self)@.on_config(config@),
    {
        let focus = take_before(config.player_focus.as_str(), '-');
        if !str_eq(focus, self.focus_name.as_str()) {
            self.combat.player_guid = match self.player_name_cache.get(focus) {
                Some(guid) => Some(guid.to_owned()),
                None => None,
            };
            self.focus_name = focus.to_owned();
        }
        if !str_eq(config.selected_spec.as_str(), self.config.selected_spec.as_str())
            && !config.selected_spec.as_str().is_empty() {
            match load_by_key(&self.profiles, config.selected_spec.as_str()) {
                Some(p) => {
                    self.effective_major_cds = p.major_cd_spell_ids;
                    self.effective_am_spells = p.am_spell_ids;
                },
                None => {},
            }
        }
        self.config = config;
        assert(self@ =~= old(self)@.on_config(config@));
    }

    /// Whether `event` will open a pull. Where it will, the caller asks the
    /// store for the row of pull number `pull_number + 1` before it hands
    /// the event in.
    pub fn opens_pull(&self, event: &LogEvent) -> (r: bool)
        ensures
            r == self@.opens_pull(event@),
    {
        !self.combat.in_combat && match event {
            LogEvent::SpellCastSuccess { .. } => true,
            LogEvent::EncounterStart { .. } => true,
            _ => false,
        }
    }

    /// Looks at a cast for who the player is.
    fn observe_cast(&mut self, event: &LogEvent)
        requires
            old(self).wf(),
        ensures
            final(self).wf(),
            final(self)@ == old(self)@.observe_cast(event@),
    {
        match event {
            LogEvent::SpellCastSuccess { source_guid, source_name, .. } => {
                if self.combat.player_guid.is_none() {
                    let name = extract_char_name(source_name.as_str());
                    if starts_with(source_guid.as_str(), "Player-") {
                        self.player_name_cache.insert_if_absent(name, source_guid.as_str());
                    }
                    if !self.focus_name.as_str().is_empty() && eq_ignore_ascii_case(
                        name,
                        self.focus_name.as_str(),
                    ) {
                        self.combat.player_guid = Some(source_guid.clone());
                    }
                }
            },
            _ => {},
        }
        assert(self@ =~= old(self)@.observe_cast(event@));
    }

    /// The advice that the rules propose for `event`.
    fn candidates(&self, event: &LogEvent, now_ms: u64) -> (r: Vec<AdviceEvent>)
        requires
            self.wf(),
        ensures
            advice_views(r@) == self@.candidates(event@, now_ms),
    {
        let ctx = RuleContext {
            state: &self.combat,
            identity: &self.identity,
            intensity: self.config.intensity,
            now_ms,
        };
        let input = RuleInput { event };
        let mut out: Vec<AdviceEvent> = Vec::new();
        assert(advice_views(out@) =~= Seq::<AdviceModel>::empty());
        if self.combat.in_combat {
            let mut found = interrupt_miss::evaluate(&input, &ctx);
            let ghost a = advice_views(out@);
            let ghost b = advice_views(found@);
            out.append(&mut found);
            assert(advice_views(out@) =~= a + b);
        }
        let ghost enemy = advice_views(out@);
        if is_coached_event(event, &self.combat.player_guid) {
            let mut r1 = avoidable_repeat::evaluate(&input, &ctx);
            let mut r2 = gcd_gap::evaluate(&input, &ctx);
            let mut r3 = cooldown_drift::evaluate(
                &input,
                &ctx,
                self.effective_major_cds.as_slice(),
            );
            let mut r4 = interrupt_success::evaluate(&input, &ctx);
            let mut r5 = defensive_timing::evaluate(
                &input,
                &ctx,
                self.effective_am_spells.as_slice(),
            );
            let ghost v1 = advice_views(r1@);
            let ghost v2 = advice_views(r2@);
            let ghost v3 = advice_views(r3@);
            let ghost v4 = advice_views(r4@);
            let ghost v5 = advice_views(r5@);
            out.append(&mut r1);
            assert(advice_views(out@) =~= enemy + v1);
            out.append(&mut r2);
            assert(advice_views(out@) =~= enemy + v1 + v2);
            out.append(&mut r3);
            assert(advice_views(out@) =~= enemy + v1 + v2 + v3);
            out.append(&mut r4);
            assert(advice_views(out@) =~= enemy + v1 + v2 + v3 + v4);
            out.append(&mut r5);
            assert(advice_views(out@) =~= enemy + (v1 + v2 + v3 + v4 + v5));
        } else {
            assert(advice_views(out@) =~= enemy + Seq::<AdviceModel>::empty());
        }
        out
    }

    /// The state in brief at `now_ms`.
    pub fn snapshot(&self, now_ms: u64) -> (r: StateSnapshot)
        requires
            self.wf(),
        ensures
            r@ == self@.snapshot(now_ms),
    {
        StateSnapshot {
            pull_elapsed_ms: self.combat.pull_elapsed_ms(now_ms),
            gcd_gap_ms: self.combat.gcd.current_gap_ms,
            avoidable_count: self.combat.avoidable.total_hits(),
            in_combat: self.combat.in_combat,
            interrupt_count: self.combat.interrupt_count,
            encounter_name: clone_opt(&self.combat.encounter_name),
        }
    }

    /// The summary of the pull that has just closed.
    fn debrief(&self) -> (r: PullDebrief)
        requires
            self.wf(),
        ensures
            r@ == self@.debrief(),
    {
        PullDebrief {
            pull_number: self.pull_number,
            pull_elapsed_ms: last_elapsed(&self.combat.pull_history),
            outcome: last_outcome_word(&self.combat.pull_history),
            avoidable_count: self.combat.avoidable.total_hits(),
            interrupt_count: self.combat.interrupt_count,
            total_advice_fired: self.pull_advice_count,
            gcd_gap_count: self.pull_gcd_gap_count,
        }
    }

    /// Takes in one event of the log. `pull_row` is the row that the store
    /// gave for the pull, where the event opens one and the store gave a
    /// row.
    ///
    /// In order: the player is looked for in a cast; the combat state
    /// moves on; the start of a pull is noted, or its end, with debrief,
    /// store command and fresh cooldowns; the rules propose advice; the
    /// cooldowns let advice through; the snapshot is taken.
    pub fn on_event(&mut self, event: LogEvent, pull_row: Option<i64>) -> (r: EventOutcome)
        requires
            old(self).wf(),
        ensures
            final(self).wf(),
            final(self)@ == old(self)@.on_event(event@, pull_row),
            r@ == old(self)@.outcome(event@, pull_row),
    {
        let now_ms = event.timestamp_ms();
        let was_in_combat = self.combat.in_combat;
        self.observe_cast(&event);
        update_state(&mut self.combat, &event, now_ms);
        let ghost moved = self@;
        let mut commands: Vec<DbCommand> = Vec::new();
        let mut debrief: Option<PullDebrief> = None;
        assert(command_views(commands@) =~= Seq::<CommandModel>::empty());
        if !was_in_combat && self.combat.in_combat {
            self.pull_number = bumped(self.pull_number);
            self.pull_advice_count = 0;
            self.pull_gcd_gap_count = 0;
            match pull_row {
                Some(id) => {
                    self.current_pull_id = Some(id);
                },
                None => {},
            }
            assert(self@ =~= moved.note_start(pull_row));
        } else if was_in_combat && !self.combat.in_combat {
            debrief = Some(self.debrief());
            match self.current_pull_id {
                Some(id) => {
                    commands.push(
                        DbCommand::EndPull {
                            pull_id: id,
                            ended_at: now_ms,
                            outcome: last_outcome_word(&self.combat.pull_history),
                        },
                    );
                },
                None => {},
            }
            assert(command_views(commands@) =~= moved.end_commands(now_ms));
            self.current_pull_id = None;
            self.advice_last_ms.clear();
            assert(self@ =~= moved.note_end());
        }
        let ghost adv = self@;
        assert(adv == old(self)@.advanced(event@, pull_row));
        let cands = self.candidates(&event, now_ms);
        let ghost end_part = command_views(commands@);
        let (fired, mut advice_cmds) = fire_all(
            &mut self.advice_last_ms,
            cands,
            self.current_pull_id,
            now_ms,
            &mut self.pull_advice_count,
            &mut self.pull_gcd_gap_count,
        );
        let ghost advice_part = command_views(advice_cmds@);
        commands.append(&mut advice_cmds);
        assert(command_views(commands@) =~= end_part + advice_part);
        assert(self@ =~= adv.after_firing(adv.candidates(event@, now_ms), now_ms));
        let snapshot = self.snapshot(now_ms);
        EventOutcome { advice: fired, commands, snapshot, debrief }
    }
}

} // verus!
