//! Fires when the coached player leaves a large gap between two casts.
//!
//! The gap looked at is the one that the cast under evaluation has just
//! ended.

use crate::engine::{advice_views, kv_view, AdviceModel, Severity};
use crate::parser::{EventModel, LogEvent};
use crate::rules::{advice, pair, silent, single, RuleContext, RuleInput, RuleOutput};
use crate::state::{opt_is, CombatModel};
use crate::text::{
    decimal_digits, push_decimal, push_seconds_one_decimal, seconds_one_decimal,
};
use vstd::prelude::*;
use vstd::string::StringExecFns;

verus! {

/// The dedup key of this rule.
pub const KEY: &'static str = "gcd_gap";

/// Least gap in milliseconds for the rule to fire.
pub const THRESHOLD_MS: u64 = 2_500;

/// Least intensity at which the rule fires.
pub const MIN_INTENSITY: u8 = 3;

/// The text of the advice.
pub open spec fn message(gap_ms: u64) -> Seq<char> {
    "You had a "@ + seconds_one_decimal(gap_ms)
        + "s gap. Pre-position during mechanics and use a mobile filler."@
}

/// The gap as shown in the `kv` list: seconds with one decimal and `s`.
pub open spec fn gap_text(gap_ms: u64) -> Seq<char> {
    seconds_one_decimal(gap_ms) + "s"@
}

/// The phase as shown in the `kv` list: `P` and the minute of the pull,
/// counted from 1.
pub open spec fn phase_text(elapsed_ms: u64) -> Seq<char> {
    "P"@ + decimal_digits((elapsed_ms / 60_000 + 1) as nat)
}

/// What the rule says to `event` in `state`: one advice where the event is
/// a cast by the coached player, the gap before it is at least 2.5 s, and
/// the intensity is at least 3.
pub open spec fn spec_evaluate(
    event: EventModel,
    state: CombatModel,
    intensity: u8,
    now_ms: u64,
) -> Seq<AdviceModel> {
    match event {
        EventModel::SpellCastSuccess { source_guid, .. } => {
            let gap = state.gcd.current_gap_ms;
            if state.player_guid == Some(source_guid) && intensity >= 3 && gap >= 2_500 {
                seq![
                    AdviceModel {
                        key: "gcd_gap"@,
                        title: "Large GCD gap"@,
                        message: message(gap),
                        severity: Severity::Warn,
                        kv: seq![
                            ("gap"@, gap_text(gap)),
                            ("phase"@, phase_text(state.pull_elapsed_ms(now_ms))),
                        ],
                        timestamp_ms: now_ms,
                    },
                ]
            } else {
                Seq::empty()
            }
        },
        _ => Seq::empty(),
    }
}

/// Evaluates the rule on one event.
pub fn evaluate(input: &RuleInput, ctx: &RuleContext) -> (out: RuleOutput)
    ensures
        advice_views(out@) == spec_evaluate(input.event@, ctx.state@, ctx.intensity, ctx.now_ms),
{
    match input.event {
        LogEvent::SpellCastSuccess { source_guid, .. } => {
            if !opt_is(&ctx.state.player_guid, source_guid.as_str()) {
                return silent();
            }
            if ctx.intensity < MIN_INTENSITY {
                return silent();
            }
            let gap = ctx.state.gcd.current_gap_ms;
            if gap < THRESHOLD_MS {
                return silent();
            }
            let mut text = String::from_str("You had a ");
            push_seconds_one_decimal(&mut text, gap);
            text.append("s gap. Pre-position during mechanics and use a mobile filler.");
            assert(text@ =~= message(gap));
            let mut shown = String::new();
            push_seconds_one_decimal(&mut shown, gap);
            shown.append("s");
            assert(shown@ =~= gap_text(gap));
            let elapsed = ctx.state.pull_elapsed_ms(ctx.now_ms);
            let mut phase = String::from_str("P");
            push_decimal(&mut phase, elapsed / 60_000 + 1);
            let mut kv: Vec<(String, String)> = Vec::new();
            kv.push(pair("gap", shown));
            kv.push(pair("phase", phase));
            assert(kv_view(kv@) =~= seq![
                ("gap"@, gap_text(gap)),
                ("phase"@, phase_text(elapsed)),
            ]);
            single(advice(KEY, "Large GCD gap", text, Severity::Warn, kv, ctx.now_ms))
        },
        _ => silent(),
    }
}

} // verus!
