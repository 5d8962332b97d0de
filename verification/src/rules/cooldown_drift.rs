//! Fires when a major cooldown is used late in the pull.
//!
//! Drift is the time from pull start to the first use of the cooldown. The
//! rule reads only what was observed: it fires on the cast that the state
//! holds as the one use of the spell this pull, made at this very time.

use crate::engine::{advice_views, kv_view, AdviceModel, Severity};
use crate::parser::{EventModel, LogEvent};
use crate::rules::{
    advice, contains_id, pair, silent, single, RuleContext, RuleInput, RuleOutput,
};
use crate::state::{count_in, opt_is, CombatModel};
use crate::text::{
    push_seconds_one_decimal, push_seconds_rounded, seconds_one_decimal, seconds_rounded,
};
use vstd::prelude::*;
use vstd::string::StringExecFns;

verus! {

/// The dedup key of this rule.
pub const KEY: &'static str = "cooldown_drift";

/// Least time into the pull, in milliseconds, for a cast to count as late.
pub const DRIFT_THRESHOLD_MS: u64 = 8_000;

/// Least intensity at which the rule fires.
pub const MIN_INTENSITY: u8 = 1;

/// The text of the advice.
pub open spec fn message(spell_name: Seq<char>, drift_ms: u64) -> Seq<char> {
    spell_name + " drifted by ~"@ + seconds_rounded(drift_ms)
        + "s into the pull. Next pull: use on pull, then on cooldown."@
}

/// The drift as shown in the `kv` list: seconds with one decimal and `s`.
pub open spec fn drift_text(drift_ms: u64) -> Seq<char> {
    seconds_one_decimal(drift_ms) + "s"@
}

/// Whether the cast at `now_ms` is the first use of the spell this pull:
/// the state holds one use of the spell, made at `now_ms`.
pub open spec fn is_first_use(state: CombatModel, spell_id: u32, now_ms: u64) -> bool {
    state.cooldowns.contains_key(spell_id) && state.cooldowns[spell_id] == now_ms && count_in(
        state.cast_counts,
        spell_id,
    ) == 1
}

/// What the rule says to `event` in `state`: one advice where the event is
/// a cast by the coached player of one of the major cooldowns, at least 8 s
/// into the pull, the first use of the spell this pull, and the intensity
/// is at least 1.
pub open spec fn spec_evaluate(
    event: EventModel,
    state: CombatModel,
    intensity: u8,
    now_ms: u64,
    major_cd_ids: Seq<u32>,
) -> Seq<AdviceModel> {
    match event {
        EventModel::SpellCastSuccess { source_guid, spell_id, spell_name, .. } => {
            let drift = state.pull_elapsed_ms(now_ms);
            if state.player_guid == Some(source_guid) && major_cd_ids.contains(spell_id) && drift
                >= 8_000 && is_first_use(state, spell_id, now_ms) && intensity >= 1 {
                seq![
                    AdviceModel {
                        key: "cooldown_drift"@,
                        title: "Major cooldown used late"@,
                        message: message(spell_name, drift),
                        severity: Severity::Warn,
                        kv: seq![("drift"@, drift_text(drift)), ("spell"@, spell_name)],
                        timestamp_ms: now_ms,
                    },
                ]
            } else {
                Seq::empty()
            }
        },
        _ => Seq::empty(),
    }
}

/// Evaluates the rule on one event.
pub fn evaluate(input: &RuleInput, ctx: &RuleContext, major_cd_ids: &[u32]) -> (out: RuleOutput)
    ensures
        advice_views(out@) == spec_evaluate(
            input.event@,
            ctx.state@,
            ctx.intensity,
            ctx.now_ms,
            major_cd_ids@,
        ),
{
    match input.event {
        LogEvent::SpellCastSuccess { source_guid, spell_id, spell_name, .. } => {
            if !opt_is(&ctx.state.player_guid, source_guid.as_str()) {
                return silent();
            }
            if !contains_id(major_cd_ids, *spell_id) {
                return silent();
            }
            let drift = ctx.state.pull_elapsed_ms(ctx.now_ms);
            if drift < DRIFT_THRESHOLD_MS {
                return silent();
            }
            let first_use = match ctx.state.cooldowns.last_used_ms(*spell_id) {
                Some(t) => t == ctx.now_ms && ctx.state.cooldowns.use_count(*spell_id) == 1,
                None => false,
            };
            if !first_use || ctx.intensity < MIN_INTENSITY {
                return silent();
            }
            let mut text = spell_name.clone();
            text.append(" drifted by ~");
            push_seconds_rounded(&mut text, drift);
            text.append("s into the pull. Next pull: use on pull, then on cooldown.");
            assert(text@ =~= message(spell_name@, drift));
            let mut shown = String::new();
            push_seconds_one_decimal(&mut shown, drift);
            shown.append("s");
            assert(shown@ =~= drift_text(drift));
            let mut kv: Vec<(String, String)> = Vec::new();
            kv.push(pair("drift", shown));
            kv.push(pair("spell", spell_name.clone()));
            assert(kv_view(kv@) =~= seq![("drift"@, drift_text(drift)), ("spell"@, spell_name@)]);
            single(advice(KEY, "Major cooldown used late", text, Severity::Warn, kv, ctx.now_ms))
        },
        _ => silent(),
    }
}

} // verus!
