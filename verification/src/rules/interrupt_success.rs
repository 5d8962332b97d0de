//! Fires when the coached player interrupts a cast.
//!
//! The key names the interrupted spell, so that each distinct spell is
//! acknowledged while repeats of one spell are held back.

use crate::engine::{advice_views, kv_view, AdviceModel, Severity};
use crate::parser::{EventModel, LogEvent};
use crate::rules::{advice, pair, silent, single, RuleContext, RuleInput, RuleOutput};
use crate::state::{opt_is, CombatModel};
use crate::text::{decimal_digits, decimal_string, push_decimal};
use vstd::prelude::*;
use vstd::string::StringExecFns;

verus! {

/// Least intensity at which the rule fires.
pub const MIN_INTENSITY: u8 = 2;

/// The dedup key for an interrupt of `spell_id`.
pub open spec fn key(spell_id: u32) -> Seq<char> {
    "interrupt_success_"@ + decimal_digits(spell_id as nat)
}

/// The text of the advice.
pub open spec fn message(spell_name: Seq<char>) -> Seq<char> {
    "Good kick — "@ + spell_name + " stopped."@
}

/// What the rule says to `event` in `state`: one advice where the event is
/// an interrupt by the coached player and the intensity is at least 2.
pub open spec fn spec_evaluate(
    event: EventModel,
    state: CombatModel,
    intensity: u8,
    now_ms: u64,
) -> Seq<AdviceModel> {
    match event {
        EventModel::SpellInterrupted {
            source_guid,
            interrupted_spell_id,
            interrupted_spell,
            ..
        } => {
            if state.player_guid == Some(source_guid) && intensity >= 2 {
                seq![
                    AdviceModel {
                        key: key(interrupted_spell_id),
                        title: "Interrupt!"@,
                        message: message(interrupted_spell),
                        severity: Severity::Good,
                        kv: seq![
                            ("spell"@, interrupted_spell),
                            ("id"@, decimal_digits(interrupted_spell_id as nat)),
                        ],
                        timestamp_ms: now_ms,
                    },
                ]
            } else {
                Seq::empty()
            }
        },
        _ => Seq::empty(),
    }
}

/// Evaluates the rule on one event.
pub fn evaluate(input: &RuleInput, ctx: &RuleContext) -> (out: RuleOutput)
    ensures
        advice_views(out@) == spec_evaluate(input.event@, ctx.state@, ctx.intensity, ctx.now_ms),
{
    match input.event {
        LogEvent::SpellInterrupted {
            source_guid,
            interrupted_spell_id,
            interrupted_spell,
            ..
        } => {
            if !opt_is(&ctx.state.player_guid, source_guid.as_str()) {
                return silent();
            }
            if ctx.intensity < MIN_INTENSITY {
                return silent();
            }
            let mut k = String::from_str("interrupt_success_");
            push_decimal(&mut k, *interrupted_spell_id as u64);
            let mut text = String::from_str("Good kick — ");
            text.append(interrupted_spell.as_str());
            text.append(" stopped.");
            assert(text@ =~= message(interrupted_spell@));
            let mut kv: Vec<(String, String)> = Vec::new();
            kv.push(pair("spell", interrupted_spell.clone()));
            kv.push(pair("id", decimal_string(*interrupted_spell_id as u64)));
            assert(kv_view(kv@) =~= seq![
                ("spell"@, interrupted_spell@),
                ("id"@, decimal_digits(*interrupted_spell_id as nat)),
            ]);
            single(advice(k.as_str(), "Interrupt!", text, Severity::Good, kv, ctx.now_ms))
        },
        _ => silent(),
    }
}

} // verus!
