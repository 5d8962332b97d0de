//! Fires when the coached player is hit by the same spell twice or more in
//! one pull.

use crate::engine::{advice_views, kv_view, AdviceModel, Severity};
use crate::parser::{EventModel, LogEvent};
use crate::rules::{advice, pair, silent, single, RuleContext, RuleInput, RuleOutput};
use crate::state::{clip32, count_of, opt_is, CombatModel};
use crate::text::{decimal_digits, decimal_string, push_decimal};
use vstd::prelude::*;
use vstd::string::StringExecFns;

verus! {

/// The dedup key of this rule.
pub const KEY: &'static str = "avoidable_repeat";

/// Least number of hits by one spell for the rule to fire.
pub const MIN_HITS: u32 = 2;

/// Least intensity at which the rule fires.
pub const MIN_INTENSITY: u8 = 1;

/// The text of the advice.
pub open spec fn message(spell_name: Seq<char>, hits: u32, amount: u64) -> Seq<char> {
    spell_name + ": "@ + decimal_digits(hits as nat) + " hits this pull ("@ + decimal_digits(
        amount as nat,
    ) + " dmg last hit). Adjust position before next overlap."@
}

/// What the rule says to `event` in `state`: one advice where the event is
/// spell damage to the coached player, the spell has hit at least twice
/// this pull, and the intensity is at least 1.
pub open spec fn spec_evaluate(
    event: EventModel,
    state: CombatModel,
    intensity: u8,
    now_ms: u64,
) -> Seq<AdviceModel> {
    match event {
        EventModel::SpellDamage { dest_guid, spell_id, spell_name, amount, .. } => {
            let hits = clip32(count_of(state.avoidable, spell_id) as int);
            if state.player_guid == Some(dest_guid) && hits >= 2 && intensity >= 1 {
                seq![
                    AdviceModel {
                        key: "avoidable_repeat"@,
                        title: "Avoidable damage repeating"@,
                        message: message(spell_name, hits, amount),
                        severity: Severity::Bad,
                        kv: seq![
                            ("hits"@, decimal_digits(hits as nat)),
                            ("spell"@, spell_name),
                            ("spell_id"@, decimal_digits(spell_id as nat)),
                        ],
                        timestamp_ms: now_ms,
                    },
                ]
            } else {
                Seq::empty()
            }
        },
        _ => Seq::empty(),
    }
}

/// Evaluates the rule on one event.
pub fn evaluate(input: &RuleInput, ctx: &RuleContext) -> (out: RuleOutput)
    requires
        ctx.state.wf(),
    ensures
        advice_views(out@) == spec_evaluate(input.event@, ctx.state@, ctx.intensity, ctx.now_ms),
{
    match input.event {
        LogEvent::SpellDamage { dest_guid, spell_id, spell_name, amount, .. } => {
            if !opt_is(&ctx.state.player_guid, dest_guid.as_str()) {
                return silent();
            }
            let hits = ctx.state.avoidable.hit_count(*spell_id);
            if hits < MIN_HITS || ctx.intensity < MIN_INTENSITY {
                return silent();
            }
            let mut text = spell_name.clone();
            text.append(": ");
            push_decimal(&mut text, hits as u64);
            text.append(" hits this pull (");
            push_decimal(&mut text, *amount);
            text.append(" dmg last hit). Adjust position before next overlap.");
            assert(text@ =~= message(spell_name@, hits, *amount));
            let mut kv: Vec<(String, String)> = Vec::new();
            kv.push(pair("hits", decimal_string(hits as u64)));
            kv.push(pair("spell", spell_name.clone()));
            kv.push(pair("spell_id", decimal_string(*spell_id as u64)));
            assert(kv_view(kv@) =~= seq![
                ("hits"@, decimal_digits(hits as nat)),
                ("spell"@, spell_name@),
                ("spell_id"@, decimal_digits(*spell_id as nat)),
            ]);
            single(advice(KEY, "Avoidable damage repeating", text, Severity::Bad, kv, ctx.now_ms))
        },
        _ => silent(),
    }
}

} // verus!
