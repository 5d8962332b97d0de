//! What holds of the combat state machine and of a coaching session over
//! every sequence of events. Each statement here is proved from the
//! definitions that the contracts of the executable functions use.

use crate::coach::{advice_command, dedup, EngineModel};
use crate::engine::{may_fire, spec_cooldown_ms, spec_update, AdviceModel};
use crate::parser::EventModel;
use crate::state::{count_of, CombatModel};
use crate::tailer::{complete_lines_of, first_newline, lemma_first_newline_is, lemma_first_newline_props, TailerModel};
use vstd::prelude::*;

verus! {

// ---------------------------------------------------------------------------
// Runs of the state machine
// ---------------------------------------------------------------------------

/// The combat state after the events `events`, each applied at its own
/// time.
pub open spec fn spec_run(s: CombatModel, events: Seq<EventModel>) -> CombatModel
    decreases events.len(),
{
    if events.len() == 0 {
        s
    } else {
        spec_update(spec_run(s, events.drop_last()), events.last(), events.last().timestamp_ms())
    }
}

/// Whether `event` is a successful cast by the coached player of `s`.
pub open spec fn is_coached_cast(s: CombatModel, event: EventModel) -> bool {
    event is SpellCastSuccess && s.player_guid == event.source_guid()
}

/// Whether `event` opens a pull in `s`.
pub open spec fn opens_pull(s: CombatModel, event: EventModel) -> bool {
    !s.in_combat && (event is SpellCastSuccess || event is EncounterStart)
}

/// Whether `event` closes the pull of `s`.
pub open spec fn closes_pull(s: CombatModel, event: EventModel) -> bool {
    s.in_combat && (event is EncounterEnd || (event is UnitDied && s.encounter_name is None))
}

/// The state machine never changes who the coached player is.
pub proof fn lemma_player_is_kept(s: CombatModel, event: EventModel, now_ms: u64)
    ensures
        spec_update(s, event, now_ms).player_guid == s.player_guid,
{
}

// ---------------------------------------------------------------------------
// Gaps between casts
// ---------------------------------------------------------------------------

/// The time of the coached player's last cast in the pull that is open
/// when `event` arrives, if there was such a cast.
pub open spec fn previous_cast(s: CombatModel) -> Option<u64> {
    if s.in_combat {
        s.gcd.last_cast_ms
    } else {
        None
    }
}

/// After a successful cast by the coached player, the gap held is the time
/// from the player's cast before it in the same pull, and 0 for the first
/// cast of a pull; the cast is then the last one.
pub proof fn lemma_gap_after_cast(s: CombatModel, event: EventModel, now_ms: u64)
    requires
        is_coached_cast(s, event),
    ensures
        spec_update(s, event, now_ms).gcd.last_cast_ms == Some(now_ms),
        spec_update(s, event, now_ms).gcd.current_gap_ms == match previous_cast(s) {
            Some(prev) => crate::state::sub_or_zero(now_ms, prev),
            None => 0,
        },
{
}

/// The last cast and the gap change with nothing but a cast by the
/// coached player and the opening of a pull, which forgets both.
pub proof fn lemma_gap_changes_only_with_casts(s: CombatModel, event: EventModel, now_ms: u64)
    requires
        !is_coached_cast(s, event),
    ensures
        opens_pull(s, event) ==> spec_update(s, event, now_ms).gcd == (crate::state::GcdTracker {
            last_cast_ms: None,
            current_gap_ms: 0,
        }),
        !opens_pull(s, event) ==> spec_update(s, event, now_ms).gcd == s.gcd,
{
}

/// The state before the first event is valid, and every run of events
/// from a valid state ends in a valid state: a pull is current exactly
/// while in combat, the current pull has no end, every pull of the history
/// has end and outcome, and a pull without a cast has gap 0.
pub proof fn lemma_valid_holds(s: CombatModel, events: Seq<EventModel>)
    requires
        s.valid(),
    ensures
        CombatModel::initial().valid(),
        spec_run(s, events).valid(),
    decreases events.len(),
{
    if events.len() > 0 {
        lemma_valid_holds(s, events.drop_last());
        crate::engine::lemma_update_keeps_valid(
            spec_run(s, events.drop_last()),
            events.last(),
            events.last().timestamp_ms(),
        );
    }
}

/// The time of the last cast by the coached player in the pull that is
/// open after `events`, read off the events alone: the last such cast
/// since the pull opened, if there is one.
pub open spec fn last_cast_in_pull(s: CombatModel, events: Seq<EventModel>) -> Option<u64>
    decreases events.len(),
{
    if events.len() == 0 {
        previous_cast(s)
    } else {
        let before = spec_run(s, events.drop_last());
        let event = events.last();
        if !spec_run(s, events).in_combat {
            None
        } else if is_coached_cast(before, event) {
            Some(event.timestamp_ms())
        } else if opens_pull(before, event) {
            None
        } else {
            last_cast_in_pull(s, events.drop_last())
        }
    }
}

/// The state holds, as the time of the last cast, the time of the last
/// cast by the coached player in the open pull.
pub proof fn lemma_last_cast_is_tracked(s: CombatModel, events: Seq<EventModel>)
    ensures
        previous_cast(spec_run(s, events)) == last_cast_in_pull(s, events),
    decreases events.len(),
{
    if events.len() > 0 {
        lemma_last_cast_is_tracked(s, events.drop_last());
    }
}

/// For every successful cast by the coached player, after any events, the
/// gap held afterwards is the time since the player's last cast in the
/// open pull, and 0 where the cast is the first of its pull.
pub proof fn lemma_gap_is_time_since_last_cast(
    s: CombatModel,
    events: Seq<EventModel>,
    event: EventModel,
)
    requires
        is_coached_cast(spec_run(s, events), event),
    ensures
        spec_run(s, events.push(event)).gcd.current_gap_ms == match last_cast_in_pull(s, events) {
            Some(prev) => crate::state::sub_or_zero(event.timestamp_ms(), prev),
            None => 0,
        },
{
    lemma_last_cast_is_tracked(s, events);
    assert(events.push(event).drop_last() =~= events);
    lemma_gap_after_cast(spec_run(s, events), event, event.timestamp_ms());
}

// ---------------------------------------------------------------------------
// Hits
// ---------------------------------------------------------------------------

/// Whether `event` is damage by spell `spell_id` to the player `guid`.
pub open spec fn is_hit_by(event: EventModel, guid: Option<Seq<char>>, spell_id: u32) -> bool {
    match event {
        EventModel::SpellDamage { dest_guid, spell_id: id, .. } => guid == Some(dest_guid) && id
            == spell_id,
        _ => false,
    }
}

/// Number of events among `events` that are damage by spell `spell_id` to
/// the player `guid`.
pub open spec fn hits_among(events: Seq<EventModel>, guid: Option<Seq<char>>, spell_id: u32) -> nat
    decreases events.len(),
{
    if events.len() == 0 {
        0
    } else {
        hits_among(events.drop_last(), guid, spell_id) + if is_hit_by(
            events.last(),
            guid,
            spell_id,
        ) {
            1nat
        } else {
            0nat
        }
    }
}

/// Whether no event of `events`, applied in turn from `s`, opens a pull.
pub open spec fn no_pull_opens(s: CombatModel, events: Seq<EventModel>) -> bool
    decreases events.len(),
{
    if events.len() == 0 {
        true
    } else {
        no_pull_opens(s, events.drop_last()) && !opens_pull(
            spec_run(s, events.drop_last()),
            events.last(),
        )
    }
}

/// A run never changes who the coached player is.
pub proof fn lemma_run_keeps_player(s: CombatModel, events: Seq<EventModel>)
    ensures
        spec_run(s, events).player_guid == s.player_guid,
    decreases events.len(),
{
    if events.len() > 0 {
        lemma_run_keeps_player(s, events.drop_last());
    }
}

/// One event adds to the hits of a spell exactly where it is damage by
/// that spell to the coached player; the opening of a pull starts the
/// count anew.
pub proof fn lemma_hits_after_event(s: CombatModel, event: EventModel, now_ms: u64, spell_id: u32)
    ensures
        opens_pull(s, event) ==> spec_update(s, event, now_ms).avoidable == Seq::<
            (u32, u64),
        >::empty(),
        !opens_pull(s, event) ==> count_of(spec_update(s, event, now_ms).avoidable, spell_id)
            == count_of(s.avoidable, spell_id) + if is_hit_by(event, s.player_guid, spell_id) {
            1nat
        } else {
            0nat
        },
{
    if !opens_pull(s, event) {
        match event {
            EventModel::SpellDamage { dest_guid, spell_id: id, .. } => {
                if s.player_guid == Some(dest_guid) {
                    assert(s.avoidable.push((id, now_ms)).drop_last() =~= s.avoidable);
                }
            },
            _ => {},
        }
    }
}

/// While no pull opens, the hits counted for a spell grow by the number of
/// events that are damage by that spell to the coached player. From the
/// opening of a pull, where the count is 0, the count held is therefore
/// the number of such events in the pull so far.
pub proof fn lemma_hits_are_counted(s: CombatModel, events: Seq<EventModel>, spell_id: u32)
    requires
        no_pull_opens(s, events),
    ensures
        count_of(spec_run(s, events).avoidable, spell_id) == count_of(s.avoidable, spell_id)
            + hits_among(events, s.player_guid, spell_id),
    decreases events.len(),
{
    if events.len() > 0 {
        let before = spec_run(s, events.drop_last());
        lemma_hits_are_counted(s, events.drop_last(), spell_id);
        lemma_run_keeps_player(s, events.drop_last());
        lemma_hits_after_event(before, events.last(), events.last().timestamp_ms(), spell_id);
    }
}

/// From the event that opens a pull on, the hits counted for a spell are
/// the events since then that are damage by that spell to the coached
/// player.
pub proof fn lemma_hits_since_pull_opened(
    s: CombatModel,
    opener: EventModel,
    events: Seq<EventModel>,
    spell_id: u32,
)
    requires
        opens_pull(s, opener),
        no_pull_opens(spec_update(s, opener, opener.timestamp_ms()), events),
    ensures
        count_of(
            spec_run(spec_update(s, opener, opener.timestamp_ms()), events).avoidable,
            spell_id,
        ) == hits_among(events, s.player_guid, spell_id),
{
    let opened = spec_update(s, opener, opener.timestamp_ms());
    lemma_hits_after_event(s, opener, opener.timestamp_ms(), spell_id);
    lemma_hits_are_counted(opened, events, spell_id);
}

// ---------------------------------------------------------------------------
// Pulls
// ---------------------------------------------------------------------------

/// A pull is current exactly while in combat, in the state before the
/// first event and after every run from a state of which it holds.
pub proof fn lemma_one_pull_while_in_combat(s: CombatModel, events: Seq<EventModel>)
    requires
        s.consistent(),
    ensures
        CombatModel::initial().consistent(),
        spec_run(s, events).consistent(),
    decreases events.len(),
{
    if events.len() > 0 {
        lemma_one_pull_while_in_combat(s, events.drop_last());
    }
}

/// While a pull is open, an event that would open one opens none: the
/// current pull, the history and the trackers of the pull stay.
pub proof fn lemma_opening_twice_changes_nothing(s: CombatModel, event: EventModel, now_ms: u64)
    requires
        s.in_combat,
        event is SpellCastSuccess || event is EncounterStart,
    ensures
        spec_update(s, event, now_ms).current_pull == s.current_pull,
        spec_update(s, event, now_ms).pull_history == s.pull_history,
        spec_update(s, event, now_ms).in_combat,
        spec_update(s, event, now_ms).avoidable == s.avoidable,
        spec_update(s, event, now_ms).damage_taken == s.damage_taken,
        spec_update(s, event, now_ms).interrupt_count == s.interrupt_count,
        !is_coached_cast(s, event) ==> spec_update(s, event, now_ms).gcd == s.gcd
            && spec_update(s, event, now_ms).cooldowns == s.cooldowns,
{
}

/// While no pull is open, an event that would close one closes none: the
/// history stays, and so does everything but the name of the encounter,
/// which an encounter end clears.
pub proof fn lemma_closing_nothing_changes_nothing(s: CombatModel, event: EventModel, now_ms: u64)
    requires
        !s.in_combat,
        event is EncounterEnd || event is UnitDied,
    ensures
        spec_update(s, event, now_ms) == (CombatModel {
            encounter_name: if event is EncounterEnd {
                None
            } else {
                s.encounter_name
            },
            ..s
        }),
{
}

/// The history grows by one pull exactly when an event closes the current
/// pull, and stays as it is otherwise.
pub proof fn lemma_history_grows_by_closed_pulls(s: CombatModel, event: EventModel, now_ms: u64)
    requires
        s.consistent(),
    ensures
        closes_pull(s, event) ==> spec_update(s, event, now_ms).pull_history.len()
            == s.pull_history.len() + 1 && spec_update(s, event, now_ms).pull_history.drop_last()
            == s.pull_history && spec_update(s, event, now_ms).pull_history.last().start_ms
            == s.current_pull->0.start_ms && spec_update(
            s,
            event,
            now_ms,
        ).pull_history.last().end_ms == Some(now_ms),
        !closes_pull(s, event) ==> spec_update(s, event, now_ms).pull_history == s.pull_history,
{
    if closes_pull(s, event) {
        let p = s.current_pull->0;
        let after = spec_update(s, event, now_ms).pull_history;
        assert(after.drop_last() =~= s.pull_history);
    }
}

// ---------------------------------------------------------------------------
// Learned interrupts
// ---------------------------------------------------------------------------

/// No event makes the session forget a spell it has learned to be
/// interruptible.
pub proof fn lemma_interrupts_kept_by_event(s: CombatModel, event: EventModel, now_ms: u64)
    ensures
        s.interrupts.subset_of(spec_update(s, event, now_ms).interrupts),
{
}

/// Over any run of events the set of spells learned to be interruptible
/// only grows.
pub proof fn lemma_interrupts_only_grow(s: CombatModel, events: Seq<EventModel>)
    ensures
        s.interrupts.subset_of(spec_run(s, events).interrupts),
    decreases events.len(),
{
    if events.len() > 0 {
        lemma_interrupts_only_grow(s, events.drop_last());
        lemma_interrupts_kept_by_event(
            spec_run(s, events.drop_last()),
            events.last(),
            events.last().timestamp_ms(),
        );
    }
}

/// Whatever a session takes in, an event, an identity or new settings, it
/// forgets no spell learned to be interruptible.
pub proof fn lemma_session_keeps_interrupts(
    m: EngineModel,
    event: EventModel,
    pull_row: Option<i64>,
    identity: crate::identity::IdentityModel,
    config: crate::coach::ConfigModel,
)
    ensures
        m.combat.interrupts.subset_of(m.on_event(event, pull_row).combat.interrupts),
        m.on_identity(identity).combat.interrupts == m.combat.interrupts,
        m.on_config(config).combat.interrupts == m.combat.interrupts,
{
    let seen = m.observe_cast(event);
    lemma_interrupts_kept_by_event(seen.combat, event, event.timestamp_ms());
}

// ---------------------------------------------------------------------------
// First uses
// ---------------------------------------------------------------------------

/// A spell that the coached player has cast in the open pull is not taken
/// for late again: on a further cast of it in the same pull, the rule on
/// late cooldowns stays silent.
pub proof fn lemma_drift_only_on_first_use(
    s: CombatModel,
    event: EventModel,
    now_ms: u64,
    intensity: u8,
    major_cd_ids: Seq<u32>,
)
    requires
        s.in_combat,
        event is SpellCastSuccess,
        s.cast_counts.contains_key(event->SpellCastSuccess_spell_id),
        s.cast_counts[event->SpellCastSuccess_spell_id] >= 1,
    ensures
        crate::rules::cooldown_drift::spec_evaluate(
            event,
            spec_update(s, event, now_ms),
            intensity,
            now_ms,
            major_cd_ids,
        ) == Seq::<AdviceModel>::empty(),
{
}

/// The uses of a spell in a pull are counted from 0: the opening of a pull
/// forgets them, a cast by the coached player adds one, and nothing else
/// changes them.
pub proof fn lemma_uses_are_counted(s: CombatModel, event: EventModel, now_ms: u64, spell_id: u32)
    ensures
        crate::state::count_in(spec_update(s, event, now_ms).cast_counts, spell_id) == if is_coached_cast(
            s,
            event,
        ) && event->SpellCastSuccess_spell_id == spell_id {
            crate::state::bump(
                if opens_pull(s, event) {
                    0
                } else {
                    crate::state::count_in(s.cast_counts, spell_id)
                },
            )
        } else if opens_pull(s, event) {
            0
        } else {
            crate::state::count_in(s.cast_counts, spell_id)
        },
{
}

// ---------------------------------------------------------------------------
// Advice cooldowns
// ---------------------------------------------------------------------------

/// What passing candidates through the cooldowns does: an advice fires
/// only where its key did not fire before or fired at least the cooldown
/// of its severity ago; no key fires twice at one time; a key that fired
/// is held as fired now, and every other key as it was.
pub proof fn lemma_dedup_facts(last: Map<Seq<char>, u64>, cands: Seq<AdviceModel>, now_ms: u64)
    ensures
        forall|i: int|
            0 <= i < dedup(last, cands, now_ms).1.len() ==> may_fire(
                last,
                (#[trigger] dedup(last, cands, now_ms).1[i]).key,
                dedup(last, cands, now_ms).1[i].severity,
                now_ms,
            ),
        forall|i: int, j: int|
            0 <= i < j < dedup(last, cands, now_ms).1.len() ==> (#[trigger] dedup(
                last,
                cands,
                now_ms,
            ).1[i]).key != (#[trigger] dedup(last, cands, now_ms).1[j]).key,
        forall|i: int|
            0 <= i < dedup(last, cands, now_ms).1.len() ==> dedup(
                last,
                cands,
                now_ms,
            ).0.contains_key((#[trigger] dedup(last, cands, now_ms).1[i]).key) && dedup(
                last,
                cands,
                now_ms,
            ).0[dedup(last, cands, now_ms).1[i].key] == now_ms,
        forall|k: Seq<char>| #[trigger]
            last.contains_key(k) ==> dedup(last, cands, now_ms).0.contains_key(k) && (dedup(
                last,
                cands,
                now_ms,
            ).0[k] == last[k] || dedup(last, cands, now_ms).0[k] == now_ms),
        forall|k: Seq<char>| #[trigger]
            dedup(last, cands, now_ms).0.contains_key(k) ==> last.contains_key(k) || dedup(
                last,
                cands,
                now_ms,
            ).0[k] == now_ms,
        forall|k: Seq<char>|
            (forall|i: int|
                0 <= i < dedup(last, cands, now_ms).1.len() ==> (#[trigger] dedup(
                    last,
                    cands,
                    now_ms,
                ).1[i]).key != k) && #[trigger] last.contains_key(k) ==> dedup(
                last,
                cands,
                now_ms,
            ).0[k] == last[k],
    decreases cands.len(),
{
    if cands.len() > 0 {
        lemma_dedup_facts(last, cands.drop_last(), now_ms);
        let (l, fired) = dedup(last, cands.drop_last(), now_ms);
        let c = cands.last();
        let (l2, fired2) = dedup(last, cands, now_ms);
        if may_fire(l, c.key, c.severity, now_ms) {
            assert(fired2 == fired.push(c));
            assert forall|i: int| 0 <= i < fired2.len() implies may_fire(
                last,
                (#[trigger] fired2[i]).key,
                fired2[i].severity,
                now_ms,
            ) by {
                if i < fired.len() {
                    assert(fired2[i] == fired[i]);
                } else {
                    if last.contains_key(c.key) {
                        assert(l.contains_key(c.key));
                    }
                }
            }
            assert forall|i: int, j: int| 0 <= i < j < fired2.len() implies (#[trigger] fired2[i]).key
                != (#[trigger] fired2[j]).key by {
                if j < fired.len() {
                    assert(fired2[i] == fired[i] && fired2[j] == fired[j]);
                } else {
                    assert(fired2[i] == fired[i]);
                    assert(l[fired[i].key] == now_ms);
                }
            }
            assert forall|i: int| 0 <= i < fired2.len() implies l2.contains_key(
                (#[trigger] fired2[i]).key,
            ) && l2[fired2[i].key] == now_ms by {
                if i < fired.len() {
                    assert(fired2[i] == fired[i]);
                }
            }
            assert forall|k: Seq<char>|
                (forall|i: int| 0 <= i < fired2.len() ==> (#[trigger] fired2[i]).key != k)
                    && #[trigger] last.contains_key(k) implies l2[k] == last[k] by {
                assert(fired2[fired.len() as int].key != k);
                assert forall|i: int| 0 <= i < fired.len() implies (#[trigger] fired[i]).key
                    != k by {
                    assert(fired2[i] == fired[i]);
                }
            }
        }
    }
}

/// The times of last firing after the steps `steps`, each a list of
/// candidates and the time at which they are passed through the
/// cooldowns.
pub open spec fn last_after(last: Map<Seq<char>, u64>, steps: Seq<(Seq<AdviceModel>, u64)>) -> Map<
    Seq<char>,
    u64,
>
    decreases steps.len(),
{
    if steps.len() == 0 {
        last
    } else {
        dedup(last_after(last, steps.drop_last()), steps.last().0, steps.last().1).0
    }
}

/// The advice that fires at step `i` of `steps`.
pub open spec fn fired_at(
    last: Map<Seq<char>, u64>,
    steps: Seq<(Seq<AdviceModel>, u64)>,
    i: int,
) -> Seq<AdviceModel> {
    dedup(last_after(last, steps.take(i)), steps[i].0, steps[i].1).1
}

/// A key that fired at step `i` is held, after any later step, with a time
/// no earlier than that of step `i`.
proof fn lemma_fired_key_is_held(
    last: Map<Seq<char>, u64>,
    steps: Seq<(Seq<AdviceModel>, u64)>,
    i: int,
    a: int,
    n: int,
)
    requires
        0 <= i < n <= steps.len(),
        0 <= a < fired_at(last, steps, i).len(),
    ensures
        last_after(last, steps.take(n)).contains_key(fired_at(last, steps, i)[a].key),
        last_after(last, steps.take(n))[fired_at(last, steps, i)[a].key] >= steps[i].1,
    decreases n,
{
    let key = fired_at(last, steps, i)[a].key;
    let prefix = steps.take(n);
    assert(prefix.drop_last() =~= steps.take(n - 1));
    assert(prefix.last() == steps[n - 1]);
    let before = last_after(last, steps.take(n - 1));
    lemma_dedup_facts(before, steps[n - 1].0, steps[n - 1].1);
    if n - 1 == i {
    } else {
        lemma_fired_key_is_held(last, steps, i, a, n - 1);
        let after = dedup(before, steps[n - 1].0, steps[n - 1].1);
        if after.0[key] != before[key] {
            assert(after.0[key] == steps[n - 1].1);
            // the key fired again at step n - 1, so the cooldown had passed
            if forall|b: int| 0 <= b < after.1.len() ==> (#[trigger] after.1[b]).key != key {
                assert(after.0[key] == before[key]);
            } else {
                let b = choose|b: int| 0 <= b < after.1.len() && (#[trigger] after.1[b]).key == key;
                assert(may_fire(before, after.1[b].key, after.1[b].severity, steps[n - 1].1));
            }
        }
    }
}

/// Within a pull, two firings of one advice key are at least the cooldown
/// of the later one's severity apart: for steps `i` before `j` and advice
/// of one key fired at each, the time of `j` is no less than the time of
/// `i` plus the cooldown.
pub proof fn lemma_firings_are_spaced(
    last: Map<Seq<char>, u64>,
    steps: Seq<(Seq<AdviceModel>, u64)>,
    i: int,
    j: int,
    a: int,
    b: int,
)
    requires
        0 <= i < j < steps.len(),
        0 <= a < fired_at(last, steps, i).len(),
        0 <= b < fired_at(last, steps, j).len(),
        fired_at(last, steps, i)[a].key == fired_at(last, steps, j)[b].key,
    ensures
        steps[j].1 - steps[i].1 >= spec_cooldown_ms(fired_at(last, steps, j)[b].severity),
{
    lemma_fired_key_is_held(last, steps, i, a, j);
    let before = last_after(last, steps.take(j));
    lemma_dedup_facts(before, steps[j].0, steps[j].1);
    let fired = fired_at(last, steps, j);
    assert(may_fire(before, fired[b].key, fired[b].severity, steps[j].1));
}

/// An event that does not close the pull passes its candidates through
/// the cooldowns as they stood: the advice of the outcome and the times
/// held afterwards are those of one step of `dedup`. The events of a pull
/// are therefore steps in the sense of `lemma_firings_are_spaced`.
pub proof fn lemma_event_is_a_step(m: EngineModel, event: EventModel, pull_row: Option<i64>)
    requires
        !m.closes_pull(event),
    ensures
        m.outcome(event, pull_row).advice == dedup(
            m.advice_last_ms,
            m.advanced(event, pull_row).candidates(event, event.timestamp_ms()),
            event.timestamp_ms(),
        ).1,
        m.on_event(event, pull_row).advice_last_ms == dedup(
            m.advice_last_ms,
            m.advanced(event, pull_row).candidates(event, event.timestamp_ms()),
            event.timestamp_ms(),
        ).0,
{
}

/// After the end of a pull every key may fire at once: the cooldowns do
/// not reach across pulls.
pub proof fn lemma_fresh_after_pull_end(
    m: EngineModel,
    key: Seq<char>,
    severity: crate::engine::Severity,
    now_ms: u64,
)
    ensures
        may_fire(m.note_end().advice_last_ms, key, severity, now_ms),
{
}

// ---------------------------------------------------------------------------
// The store
// ---------------------------------------------------------------------------

/// While in combat the session holds the row of the pull.
pub open spec fn pull_has_row(m: EngineModel) -> bool {
    m.combat.in_combat ==> m.current_pull_id is Some
}

/// Every advice delivered while a pull is open goes to the store under
/// the row of that pull.
///
/// Given that the caller hands in a row with every event that opens a
/// pull: after any event, the session holds the row of the pull while in
/// combat; and where it is in combat after the event, the commands of the
/// outcome hold, for each advice delivered, an insert of that advice
/// under the row.
pub proof fn lemma_delivered_advice_is_stored(
    m: EngineModel,
    event: EventModel,
    pull_row: Option<i64>,
    i: int,
)
    requires
        pull_has_row(m),
        m.opens_pull(event) ==> pull_row is Some,
        0 <= i < m.outcome(event, pull_row).advice.len(),
    ensures
        pull_has_row(m.on_event(event, pull_row)),
        m.on_event(event, pull_row).combat.in_combat ==> m.outcome(
            event,
            pull_row,
        ).commands.contains(
            advice_command(
                m.on_event(event, pull_row).current_pull_id->0,
                m.outcome(event, pull_row).advice[i],
                event.timestamp_ms(),
            ),
        ),
{
    let now_ms = event.timestamp_ms();
    let adv = m.advanced(event, pull_row);
    let out = m.outcome(event, pull_row);
    let after = m.on_event(event, pull_row);
    assert(after.current_pull_id == adv.current_pull_id);
    assert(after.combat == adv.combat);
    if after.combat.in_combat {
        let id = adv.current_pull_id->0;
        let stored = crate::coach::advice_commands(adv.current_pull_id, out.advice, now_ms);
        assert(stored[i] == advice_command(id, out.advice[i], now_ms));
        assert(!m.closes_pull(event));
        assert(out.commands =~= stored);
    }
}

/// The session at its start holds no pull and so needs no row.
pub proof fn lemma_initial_session_needs_no_row(
    config: crate::coach::ConfigModel,
    session_id: i64,
    profiles: Seq<crate::specs::ProfileModel>,
)
    ensures
        pull_has_row(EngineModel::initial(config, session_id, profiles)),
{
}

// ---------------------------------------------------------------------------
// The tailer
// ---------------------------------------------------------------------------

/// Whether a chunk of bytes ends where a line ends: it is empty or its
/// last byte is a line feed.
pub open spec fn ends_with_newline(chunk: Seq<u8>) -> bool {
    chunk.len() == 0 || chunk.last() == 10
}

/// Reading a file in two chunks delivers what reading it in one delivers,
/// where the first chunk ends at the end of a line: no line is lost, none
/// comes twice.
pub proof fn lemma_chunks_compose(a: Seq<u8>, b: Seq<u8>)
    requires
        ends_with_newline(a),
    ensures
        complete_lines_of(a + b) == complete_lines_of(a) + complete_lines_of(b),
    decreases a.len(),
{
    if a.len() == 0 {
        assert(a + b =~= b);
        lemma_first_newline_props(a);
        assert(complete_lines_of(a) =~= Seq::<Seq<u8>>::empty());
        assert(complete_lines_of(a) + complete_lines_of(b) =~= complete_lines_of(b));
    } else {
        lemma_first_newline_props(a);
        let i = first_newline(a);
        assert(i < a.len()) by {
            if i >= a.len() {
                assert(a[a.len() - 1] != 10);
            }
        }
        assert forall|j: int| 0 <= j < i implies (a + b)[j] != 10 by {
            assert((a + b)[j] == a[j]);
        }
        lemma_first_newline_is(a + b, i);
        assert((a + b).take(i) =~= a.take(i));
        assert((a + b).skip(i + 1) =~= a.skip(i + 1) + b);
        let rest = a.skip(i + 1);
        assert(ends_with_newline(rest)) by {
            if rest.len() > 0 {
                assert(rest.last() == a.last());
            }
        }
        lemma_chunks_compose(rest, b);
        assert(complete_lines_of(a + b) =~= complete_lines_of(a) + complete_lines_of(b));
    }
}

/// A file that only grows is read without gap and without overlap: after
/// a read up to `first_len`, the next read of the file, now `second_len`
/// long, starts at `first_len`; and there is nothing to read while the
/// file has not grown.
pub proof fn lemma_reads_follow_one_another(t: TailerModel, first_len: u64, second_len: u64)
    requires
        first_len <= second_len,
    ensures
        (TailerModel { position: first_len, ..t }).read_start(second_len) == first_len,
        (TailerModel { position: first_len, ..t }).has_unread(second_len) <==> first_len
            < second_len,
{
}

/// A file that has shrunk is read again from its first byte.
pub proof fn lemma_shrunk_file_is_read_anew(t: TailerModel, file_len: u64)
    requires
        file_len < t.position,
    ensures
        t.read_start(file_len) == 0,
{
}

/// A log other than the one followed is followed from its first byte; the
/// one followed keeps its position.
pub proof fn lemma_switch_starts_at_zero(t: TailerModel, newest: Seq<char>)
    ensures
        t.check_for_new_log(Some(newest)).active_file == Some(newest),
        t.active_file != Some(newest) ==> t.check_for_new_log(Some(newest)).position == 0,
        t.active_file == Some(newest) ==> t.check_for_new_log(Some(newest)) == t,
{
}

} // verus!
