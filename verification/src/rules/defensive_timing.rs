//! Fires when the coached player uses active mitigation while taking heavy
//! damage.
//!
//! Pressure is measured from the log alone: the damage the player took in
//! the five seconds before the cast.

use crate::engine::{advice_views, kv_view, AdviceModel, Severity};
use crate::parser::{EventModel, LogEvent};
use crate::rules::{
    advice, contains_id, pair, silent, single, RuleContext, RuleInput, RuleOutput,
};
use crate::state::{opt_is, recent_damage_of, CombatModel};
use crate::text::{decimal_digits, push_decimal};
use vstd::prelude::*;
use vstd::string::StringExecFns;

verus! {

/// Least damage in the window for the rule to fire.
pub const DAMAGE_THRESHOLD: u64 = 20_000;

/// Length of the window in milliseconds.
pub const WINDOW_MS: u64 = 5_000;

/// Least intensity at which the rule fires.
pub const MIN_INTENSITY: u8 = 2;

/// The dedup key for a well-timed use of `spell_id`.
pub open spec fn key(spell_id: u32) -> Seq<char> {
    "am_under_pressure_"@ + decimal_digits(spell_id as nat)
}

/// The text of the advice, for damage given in thousands.
pub open spec fn message(spell_name: Seq<char>, thousands: u64) -> Seq<char> {
    spell_name + " used under pressure — "@ + decimal_digits(thousands as nat)
        + "k damage in the last 5s."@
}

/// The damage as shown in the `kv` list: thousands and `k`.
pub open spec fn damage_text(thousands: u64) -> Seq<char> {
    decimal_digits(thousands as nat) + "k"@
}

/// What the rule says to `event` in `state`: one advice where the event is
/// a cast by the coached player of one of the active-mitigation spells, the
/// damage taken in the last 5 s is at least 20,000, and the intensity is at
/// least 2.
pub open spec fn spec_evaluate(
    event: EventModel,
    state: CombatModel,
    intensity: u8,
    now_ms: u64,
    am_ids: Seq<u32>,
) -> Seq<AdviceModel> {
    match event {
        EventModel::SpellCastSuccess { source_guid, spell_id, spell_name, .. } => {
            let recent = recent_damage_of(state.damage_taken, now_ms, 5_000);
            if state.player_guid == Some(source_guid) && am_ids.contains(spell_id) && intensity
                >= 2 && recent >= 20_000 {
                seq![
                    AdviceModel {
                        key: key(spell_id),
                        title: "Good AM Timing"@,
                        message: message(spell_name, (recent / 1_000) as u64),
                        severity: Severity::Good,
                        kv: seq![
                            ("spell"@, spell_name),
                            ("recent_dmg"@, damage_text((recent / 1_000) as u64)),
                        ],
                        timestamp_ms: now_ms,
                    },
                ]
            } else {
                Seq::empty()
            }
        },
        _ => Seq::empty(),
    }
}

/// Evaluates the rule on one event.
pub fn evaluate(input: &RuleInput, ctx: &RuleContext, am_ids: &[u32]) -> (out: RuleOutput)
    ensures
        advice_views(out@) == spec_evaluate(
            input.event@,
            ctx.state@,
            ctx.intensity,
            ctx.now_ms,
            am_ids@,
        ),
{
    match input.event {
        LogEvent::SpellCastSuccess { source_guid, spell_id, spell_name, .. } => {
            if !opt_is(&ctx.state.player_guid, source_guid.as_str()) {
                return silent();
            }
            if !contains_id(am_ids, *spell_id) {
                return silent();
            }
            if ctx.intensity < MIN_INTENSITY {
                return silent();
            }
            let recent = ctx.state.damage_taken.recent_damage(ctx.now_ms, WINDOW_MS);
            if recent < DAMAGE_THRESHOLD {
                return silent();
            }
            let thousands = recent / 1_000;
            let mut k = String::from_str("am_under_pressure_");
            push_decimal(&mut k, *spell_id as u64);
            let mut text = spell_name.clone();
            text.append(" used under pressure — ");
            push_decimal(&mut text, thousands);
            text.append("k damage in the last 5s.");
            assert(text@ =~= message(spell_name@, thousands));
            let mut shown = String::new();
            push_decimal(&mut shown, thousands);
            shown.append("k");
            assert(shown@ =~= damage_text(thousands));
            let mut kv: Vec<(String, String)> = Vec::new();
            kv.push(pair("spell", spell_name.clone()));
            kv.push(pair("recent_dmg", shown));
            assert(kv_view(kv@) =~= seq![
                ("spell"@, spell_name@),
                ("recent_dmg"@, damage_text(thousands)),
            ]);
            single(advice(k.as_str(), "Good AM Timing", text, Severity::Good, kv, ctx.now_ms))
        },
        _ => silent(),
    }
}

} // verus!
