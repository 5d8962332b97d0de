//! The coaching rules. Each rule looks at one event and the combat state
//! after that event, and returns the advice it has to give: none or one.

pub mod avoidable_repeat;
pub mod cooldown_drift;
pub mod defensive_timing;
pub mod gcd_gap;
pub mod interrupt_miss;
pub mod interrupt_success;

use crate::engine::{kv_view, AdviceEvent, AdviceModel, Severity};
use crate::identity::PlayerIdentity;
use crate::parser::LogEvent;
use crate::state::CombatState;
use vstd::prelude::*;
use vstd::string::StringExecFns;

verus! {

/// What every rule may read.
pub struct RuleContext<'a> {
    pub state: &'a CombatState,
    pub identity: &'a PlayerIdentity,
    /// Coaching intensity from the settings: 1 is quiet, 5 aggressive.
    pub intensity: u8,
    pub now_ms: u64,
}

/// The event under evaluation.
pub struct RuleInput<'a> {
    pub event: &'a LogEvent,
}

/// What a rule returns; empty where it does not fire.
pub type RuleOutput = Vec<AdviceEvent>;

/// Builds an advice from its parts.
pub fn advice(
    key: &str,
    title: &str,
    message: String,
    severity: Severity,
    kv: Vec<(String, String)>,
    now_ms: u64,
) -> (r: AdviceEvent)
    ensures
        r@ == (AdviceModel {
            key: key@,
            title: title@,
            message: message@,
            severity,
            kv: kv_view(kv@),
            timestamp_ms: now_ms,
        }),
{
    AdviceEvent {
        key: key.to_owned(),
        title: title.to_owned(),
        message,
        severity,
        kv,
        timestamp_ms: now_ms,
    }
}

/// A named value for the `kv` list of an advice.
pub fn pair(name: &str, value: String) -> (r: (String, String))
    ensures
        r.0@ == name@,
        r.1@ == value@,
{
    (String::from_str(name), value)
}

/// Whether `id` is one of `ids`.
pub fn contains_id(ids: &[u32], id: u32) -> (r: bool)
    ensures
        r == ids@.contains(id),
{
    let mut i: usize = 0;
    while i < ids.len()
        invariant
            i <= ids.len(),
            forall|j: int| 0 <= j < i ==> ids@[j] != id,
        decreases ids.len() - i,
    {
        if ids[i] == id {
            return true;
        }
        i += 1;
    }
    false
}

/// The one advice of a rule that fired.
pub fn single(a: AdviceEvent) -> (out: Vec<AdviceEvent>)
    ensures
        crate::engine::advice_views(out@) == seq![a@],
{
    let mut out: Vec<AdviceEvent> = Vec::new();
    out.push(a);
    assert(crate::engine::advice_views(out@) =~= seq![a@]);
    out
}

/// The empty answer of a rule that did not fire.
pub fn silent() -> (out: Vec<AdviceEvent>)
    ensures
        crate::engine::advice_views(out@) == Seq::<AdviceModel>::empty(),
{
    let out: Vec<AdviceEvent> = Vec::new();
    assert(crate::engine::advice_views(out@) =~= Seq::<AdviceModel>::empty());
    out
}

} // verus!
