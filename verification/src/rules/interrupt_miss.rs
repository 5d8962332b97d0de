//! Fires when someone who is no player completes a cast that the player
//! has interrupted before.
//!
//! Which spells can be interrupted is learned from the interrupts seen in
//! the session, so the rule speaks only where the player has shown that the
//! spell can be stopped.

use crate::engine::{advice_views, kv_view, AdviceModel, Severity};
use crate::parser::{EventModel, LogEvent};
use crate::rules::{advice, pair, silent, single, RuleContext, RuleInput, RuleOutput};
use crate::state::{opt_is, CombatModel};
use crate::text::{decimal_digits, decimal_string, has_prefix, push_decimal, starts_with};
use vstd::prelude::*;
use vstd::string::StringExecFns;

verus! {

/// Least intensity at which the rule fires.
pub const MIN_INTENSITY: u8 = 3;

/// The dedup key for a missed interrupt of `spell_id`.
pub open spec fn key(spell_id: u32) -> Seq<char> {
    "interrupt_miss_"@ + decimal_digits(spell_id as nat)
}

/// The text of the advice.
pub open spec fn message(spell_name: Seq<char>) -> Seq<char> {
    spell_name + " went through — you can kick this."@
}

/// Whether a GUID names a player: it starts with `Player-`.
pub open spec fn is_player(guid: Seq<char>) -> bool {
    has_prefix(guid, "Player-"@)
}

/// What the rule says to `event` in `state`: one advice where the event is
/// a cast by someone who is no player and not the coached player, of a
/// spell learned to be interruptible, in combat, and the intensity is at
/// least 3.
pub open spec fn spec_evaluate(
    event: EventModel,
    state: CombatModel,
    intensity: u8,
    now_ms: u64,
) -> Seq<AdviceModel> {
    match event {
        EventModel::SpellCastSuccess { source_guid, spell_id, spell_name, .. } => {
            if state.player_guid != Some(source_guid) && !is_player(source_guid)
                && state.interrupts.contains(spell_id) && state.in_combat && intensity >= 3 {
                seq![
                    AdviceModel {
                        key: key(spell_id),
                        title: "Missed Interrupt"@,
                        message: message(spell_name),
                        severity: Severity::Bad,
                        kv: seq![
                            ("spell"@, spell_name),
                            ("spell_id"@, decimal_digits(spell_id as nat)),
                        ],
                        timestamp_ms: now_ms,
                    },
                ]
            } else {
                Seq::empty()
            }
        },
        _ => Seq::empty(),
    }
}

/// Evaluates the rule on one event.
pub fn evaluate(input: &RuleInput, ctx: &RuleContext) -> (out: RuleOutput)
    ensures
        advice_views(out@) == spec_evaluate(input.event@, ctx.state@, ctx.intensity, ctx.now_ms),
{
    match input.event {
        LogEvent::SpellCastSuccess { source_guid, spell_id, spell_name, .. } => {
            if opt_is(&ctx.state.player_guid, source_guid.as_str()) {
                return silent();
            }
            if starts_with(source_guid.as_str(), "Player-") {
                return silent();
            }
            if !ctx.state.interrupts.is_interruptible(*spell_id) {
                return silent();
            }
            if !ctx.state.in_combat {
                return silent();
            }
            if ctx.intensity < MIN_INTENSITY {
                return silent();
            }
            let mut k = String::from_str("interrupt_miss_");
            push_decimal(&mut k, *spell_id as u64);
            let mut text = spell_name.clone();
            text.append(" went through — you can kick this.");
            let mut kv: Vec<(String, String)> = Vec::new();
            kv.push(pair("spell", spell_name.clone()));
            kv.push(pair("spell_id", decimal_string(*spell_id as u64)));
            assert(kv_view(kv@) =~= seq![
                ("spell"@, spell_name@),
                ("spell_id"@, decimal_digits(*spell_id as nat)),
            ]);
            single(advice(k.as_str(), "Missed Interrupt", text, Severity::Bad, kv, ctx.now_ms))
        },
        _ => silent(),
    }
}

} // verus!
