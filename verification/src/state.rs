//! The combat model that the engine maintains and the rules read.
//!
//! All of it lives in one `CombatState` owned by the engine. Each tracker
//! has a mathematical view; `CombatModel` is the view of the whole state,
//! and the contracts of the state's methods are equations between models.

use crate::parser::{EventModel, LogEvent};
use std::collections::{HashMap, HashSet};
use vstd::prelude::*;

verus! {

broadcast use vstd::std_specs::hash::group_hash_axioms;

/// `n` cut off at the largest `u32`.
pub open spec fn clip32(n: int) -> u32 {
    if n > u32::MAX {
        u32::MAX
    } else if n < 0 {
        0
    } else {
        n as u32
    }
}

/// `n` cut off at the largest `u64`.
pub open spec fn clip64(n: int) -> u64 {
    if n > u64::MAX {
        u64::MAX
    } else if n < 0 {
        0
    } else {
        n as u64
    }
}

/// `a - b`, or 0 where `b` is the greater.
pub open spec fn sub_or_zero(a: u64, b: u64) -> u64 {
    if a >= b {
        (a - b) as u64
    } else {
        0
    }
}

/// The characters of an optional string.
pub open spec fn opt_view(s: Option<String>) -> Option<Seq<char>> {
    match s {
        Some(x) => Some(x@),
        None => None,
    }
}

/// A copy of an optional string.
pub fn clone_opt(s: &Option<String>) -> (r: Option<String>)
    ensures
        opt_view(r) == opt_view(*s),
{
    match s {
        Some(x) => Some(x.clone()),
        None => None,
    }
}

/// Whether the optional string `s` is there and reads `g`.
pub fn opt_is(s: &Option<String>, g: &str) -> (r: bool)
    ensures
        r == (opt_view(*s) == Some(g@)),
{
    match s {
        Some(x) => crate::text::str_eq(x.as_str(), g),
        None => false,
    }
}

// ---------------------------------------------------------------------------
// Pull tracking
// ---------------------------------------------------------------------------

/// How a pull ended.
#[derive(Debug, Clone, Copy, PartialEq, Eq, Structural)]
pub enum PullOutcome {
    Kill,
    Wipe,
}

/// One combat encounter from start signal to end signal.
#[derive(Debug)]
pub struct Pull {
    pub pull_number: u32,
    pub start_ms: u64,
    pub end_ms: Option<u64>,
    pub outcome: Option<PullOutcome>,
    /// Name of the encounter whose start opened the pull, if one did.
    pub encounter_name: Option<String>,
}

/// The mathematical value of a `Pull`.
pub struct PullModel {
    pub pull_number: u32,
    pub start_ms: u64,
    pub end_ms: Option<u64>,
    pub outcome: Option<PullOutcome>,
    pub encounter_name: Option<Seq<char>>,
}

impl View for Pull {
    type V = PullModel;

    open spec fn view(&self) -> PullModel {
        PullModel {
            pull_number: self.pull_number,
            start_ms: self.start_ms,
            end_ms: self.end_ms,
            outcome: self.outcome,
            encounter_name: opt_view(self.encounter_name),
        }
    }
}

impl Clone for Pull {
    fn clone(&self) -> (r: Self)
        ensures
            r@ == self@,
    {
        Pull {
            pull_number: self.pull_number,
            start_ms: self.start_ms,
            end_ms: self.end_ms,
            outcome: self.outcome,
            encounter_name: clone_opt(&self.encounter_name),
        }
    }
}

/// The value of an optional pull.
pub open spec fn opt_pull_view(p: Option<Pull>) -> Option<PullModel> {
    match p {
        Some(x) => Some(x@),
        None => None,
    }
}

/// The values of a list of pulls.
pub open spec fn pull_views(v: Seq<Pull>) -> Seq<PullModel> {
    Seq::new(v.len(), |i: int| v[i]@)
}

// ---------------------------------------------------------------------------
// Rolling event window
// ---------------------------------------------------------------------------

/// An event with the time at which it entered the window.
#[derive(Debug)]
pub struct WindowedEvent {
    pub timestamp_ms: u64,
    pub event: LogEvent,
}

/// The events of the last `window_ms` milliseconds, oldest first.
#[derive(Debug)]
pub struct EventWindow {
    pub events: Vec<WindowedEvent>,
    pub window_ms: u64,
}

/// The entries of a window as pairs of time and event.
pub open spec fn window_entries(events: Seq<WindowedEvent>) -> Seq<(u64, EventModel)> {
    Seq::new(events.len(), |i: int| (events[i].timestamp_ms, events[i].event@))
}

/// The entries of `s` that are no older than `cutoff`, in order.
pub open spec fn keep_recent(s: Seq<(u64, EventModel)>, cutoff: u64) -> Seq<(u64, EventModel)>
    decreases s.len(),
{
    if s.len() == 0 {
        Seq::empty()
    } else {
        let rest = keep_recent(s.drop_last(), cutoff);
        if s.last().0 >= cutoff {
            rest.push(s.last())
        } else {
            rest
        }
    }
}

/// A window after `event` entered it at `now_ms`: the old entries and the
/// new one, without those older than `window_ms` before `now_ms`.
pub open spec fn window_after_push(
    old_entries: Seq<(u64, EventModel)>,
    window_ms: u64,
    event: EventModel,
    now_ms: u64,
) -> Seq<(u64, EventModel)> {
    keep_recent(old_entries.push((now_ms, event)), sub_or_zero(now_ms, window_ms))
}

impl View for EventWindow {
    type V = Seq<(u64, EventModel)>;

    open spec fn view(&self) -> Seq<(u64, EventModel)> {
        window_entries(self.events@)
    }
}

impl EventWindow {
    /// An empty window of `window_ms` milliseconds.
    pub fn new(window_ms: u64) -> (r: Self)
        ensures
            r@ == Seq::<(u64, EventModel)>::empty(),
            r.window_ms == window_ms,
    {
        let r = EventWindow { events: Vec::new(), window_ms };
        assert(r@ =~= Seq::<(u64, EventModel)>::empty());
        r
    }

    /// Adds `event` at `now_ms` and drops what has fallen out of the window.
    pub fn push(&mut self, event: LogEvent, now_ms: u64)
        ensures
            final(self)@ == window_after_push(old(self)@, old(self).window_ms, event@, now_ms),
            final(self).window_ms == old(self).window_ms,
    {
        broadcast use vstd::std_specs::vec::axiom_spec_into_iter;

        let cutoff = now_ms.saturating_sub(self.window_ms);
        let ghost target = old(self)@.push((now_ms, event@));
        let mut taken: Vec<WindowedEvent> = Vec::new();
        core::mem::swap(&mut self.events, &mut taken);
        taken.push(WindowedEvent { timestamp_ms: now_ms, event });
        let ghost all = taken@;
        assert(window_entries(all) =~= target);
        assert(window_entries(all.take(0)) =~= Seq::<(u64, EventModel)>::empty());
        for e in it: taken
            invariant
                it.seq() == all,
                self.window_ms == old(self).window_ms,
                window_entries(self.events@) == keep_recent(
                    window_entries(all.take(it.index() as int)),
                    cutoff,
                ),
        {
            proof {
                let k = it.index() as int;
                let cur = window_entries(all.take(k + 1));
                assert(cur.drop_last() =~= window_entries(all.take(k)));
                assert(cur.last() == (e.timestamp_ms, e.event@));
                if e.timestamp_ms >= cutoff {
                    assert(window_entries(self.events@.push(e)) =~= window_entries(
                        self.events@,
                    ).push((e.timestamp_ms, e.event@)));
                }
            }
            if e.timestamp_ms >= cutoff {
                self.events.push(e);
            }
        }
        assert(all.take(all.len() as int) =~= all);
    }
}

// ---------------------------------------------------------------------------
// Interrupt tracker
// ---------------------------------------------------------------------------

/// The spells the coached player has interrupted before. What is learned
/// here stays for the whole session.
pub struct InterruptTracker {
    pub interruptible_spells: HashSet<u32>,
}

impl View for InterruptTracker {
    type V = Set<u32>;

    open spec fn view(&self) -> Set<u32> {
        self.interruptible_spells@
    }
}

impl Default for InterruptTracker {
    fn default() -> (r: Self)
        ensures
            r@ == Set::<u32>::empty(),
    {
        InterruptTracker { interruptible_spells: HashSet::new() }
    }
}

impl InterruptTracker {
    /// Learns that `interrupted_spell_id` can be interrupted.
    pub fn record_interrupt(&mut self, interrupted_spell_id: u32)
        ensures
            final(self)@ == old(self)@.insert(interrupted_spell_id),
    {
        self.interruptible_spells.insert(interrupted_spell_id);
    }

    /// Whether `spell_id` has been interrupted before.
    pub fn is_interruptible(&self, spell_id: u32) -> (r: bool)
        ensures
            r == self@.contains(spell_id),
    {
        self.interruptible_spells.contains(&spell_id)
    }

    /// Called on pull start: what was learned is kept.
    pub fn reset_per_pull(&mut self)
        ensures
            final(self)@ == old(self)@,
    {
    }
}

// ---------------------------------------------------------------------------
// Damage taken tracker
// ---------------------------------------------------------------------------

/// Hits taken in the current pull, as pairs of time and amount.
#[derive(Debug)]
pub struct DamageTakenTracker {
    pub events: Vec<(u64, u64)>,
}

impl View for DamageTakenTracker {
    type V = Seq<(u64, u64)>;

    open spec fn view(&self) -> Seq<(u64, u64)> {
        self.events@
    }
}

/// Sum of the amounts of the hits in `s` that are no older than `cutoff`.
pub open spec fn damage_since(s: Seq<(u64, u64)>, cutoff: u64) -> nat
    decreases s.len(),
{
    if s.len() == 0 {
        0
    } else {
        damage_since(s.drop_last(), cutoff) + if s.last().0 >= cutoff {
            s.last().1 as nat
        } else {
            0
        }
    }
}

/// Damage taken in the `window_ms` milliseconds up to `now_ms`, cut off at
/// the largest `u64`.
pub open spec fn recent_damage_of(s: Seq<(u64, u64)>, now_ms: u64, window_ms: u64) -> u64 {
    clip64(damage_since(s, sub_or_zero(now_ms, window_ms)) as int)
}

impl Default for DamageTakenTracker {
    fn default() -> (r: Self)
        ensures
            r@ == Seq::<(u64, u64)>::empty(),
    {
        DamageTakenTracker { events: Vec::new() }
    }
}

impl DamageTakenTracker {
    /// Records a hit of `amount` at `timestamp_ms`.
    pub fn record(&mut self, timestamp_ms: u64, amount: u64)
        ensures
            final(self)@ == old(self)@.push((timestamp_ms, amount)),
    {
        self.events.push((timestamp_ms, amount));
    }

    /// Sum of damage taken in the last `window_ms` milliseconds. The sum
    /// saturates at the largest `u64`.
    pub fn recent_damage(&self, now_ms: u64, window_ms: u64) -> (r: u64)
        ensures
            r == recent_damage_of(self@, now_ms, window_ms),
    {
        let cutoff = now_ms.saturating_sub(window_ms);
        let mut sum: u64 = 0;
        let mut i: usize = 0;
        assert(self.events@.take(0) =~= Seq::<(u64, u64)>::empty());
        while i < self.events.len()
            invariant
                i <= self.events.len(),
                sum == clip64(damage_since(self.events@.take(i as int), cutoff) as int),
            decreases self.events.len() - i,
        {
            assert(self.events@.take(i + 1).drop_last() =~= self.events@.take(i as int));
            let (ts, amount) = self.events[i];
            if ts >= cutoff {
                sum = sum.saturating_add(amount);
            }
            i += 1;
        }
        assert(self.events@.take(i as int) =~= self.events@);
        sum
    }

    /// Forgets every hit.
    pub fn reset(&mut self)
        ensures
            final(self)@ == Seq::<(u64, u64)>::empty(),
    {
        self.events.clear();
    }
}

// ---------------------------------------------------------------------------
// Avoidable damage tracker
// ---------------------------------------------------------------------------

/// Number of hits by spell `id` in the log `s`.
pub open spec fn count_of(s: Seq<(u32, u64)>, id: u32) -> nat
    decreases s.len(),
{
    if s.len() == 0 {
        0
    } else {
        count_of(s.drop_last(), id) + if s.last().0 == id {
            1nat
        } else {
            0nat
        }
    }
}

/// Times of the hits by spell `id` in the log `s`, in order.
pub open spec fn times_of(s: Seq<(u32, u64)>, id: u32) -> Seq<u64>
    decreases s.len(),
{
    if s.len() == 0 {
        Seq::empty()
    } else if s.last().0 == id {
        times_of(s.drop_last(), id).push(s.last().1)
    } else {
        times_of(s.drop_last(), id)
    }
}

/// A spell has as many hit times as hits.
pub proof fn lemma_times_len(s: Seq<(u32, u64)>, id: u32)
    ensures
        times_of(s, id).len() == count_of(s, id),
    decreases s.len(),
{
    if s.len() > 0 {
        lemma_times_len(s.drop_last(), id);
    }
}

/// Hits by hostile spells on the coached player in the current pull.
///
/// The two maps answer per spell; `hits` is the log they are kept equal to:
/// every hit as a pair of spell and time, in the order recorded.
pub struct AvoidableTracker {
    /// Spell to number of hits this pull.
    pub hit_counts: HashMap<u32, u32>,
    /// Spell to the times of its hits.
    pub hit_timestamps: HashMap<u32, Vec<u64>>,
    /// Number of hits this pull, over all spells.
    pub total: u32,
    /// Every hit of this pull, in order.
    pub hits: Ghost<Seq<(u32, u64)>>,
}

impl View for AvoidableTracker {
    type V = Seq<(u32, u64)>;

    open spec fn view(&self) -> Seq<(u32, u64)> {
        self.hits@
    }
}

impl AvoidableTracker {
    /// The maps and the total agree with the log of hits.
    pub open spec fn wf(&self) -> bool {
        &&& self.total == clip32(self.hits@.len() as int)
        &&& forall|id: u32|
            self.hit_counts@.contains_key(id) <==> #[trigger] count_of(self.hits@, id) > 0
        &&& forall|id: u32|
            self.hit_counts@.contains_key(id) ==> self.hit_counts@[id] == clip32(
                #[trigger] count_of(self.hits@, id) as int,
            )
        &&& forall|id: u32|
            self.hit_timestamps@.contains_key(id) <==> #[trigger] count_of(self.hits@, id) > 0
        &&& forall|id: u32|
            self.hit_timestamps@.contains_key(id) ==> self.hit_timestamps@[id]@ == #[trigger] times_of(
                self.hits@,
                id,
            )
    }

    /// A tracker without hits.
    pub fn new() -> (r: Self)
        ensures
            r.wf(),
            r@ == Seq::<(u32, u64)>::empty(),
    {
        AvoidableTracker {
            hit_counts: HashMap::new(),
            hit_timestamps: HashMap::new(),
            total: 0,
            hits: Ghost(Seq::empty()),
        }
    }

    /// Records a hit by `spell_id` at `timestamp_ms`.
    pub fn record_hit(&mut self, spell_id: u32, timestamp_ms: u64)
        requires
            old(self).wf(),
        ensures
            final(self).wf(),
            final(self)@ == old(self)@.push((spell_id, timestamp_ms)),
    {
        let ghost before = self.hits@;
        let ghost after = before.push((spell_id, timestamp_ms));
        assert(after.drop_last() =~= before);
        let count: u32 = match self.hit_counts.get(&spell_id) {
            Some(c) => *c,
            None => 0,
        };
        self.hit_counts.insert(spell_id, count.saturating_add(1));
        let mut times: Vec<u64> = match self.hit_timestamps.remove(&spell_id) {
            Some(v) => v,
            None => Vec::new(),
        };
        times.push(timestamp_ms);
        self.hit_timestamps.insert(spell_id, times);
        self.total = self.total.saturating_add(1);
        self.hits = Ghost(after);
        proof {
            lemma_times_len(before, spell_id);
            assert(count_of(before, spell_id) == 0 ==> times_of(before, spell_id)
                =~= Seq::<u64>::empty());
            assert forall|id: u32| #[trigger] count_of(after, id) == count_of(before, id) + (if id
                == spell_id {
                1nat
            } else {
                0nat
            }) by {
                assert(after.drop_last() =~= before);
            }
            assert forall|id: u32| #[trigger] times_of(after, id) == (if id == spell_id {
                times_of(before, id).push(timestamp_ms)
            } else {
                times_of(before, id)
            }) by {
                assert(after.drop_last() =~= before);
            }
        }
    }

    /// Number of hits by `spell_id` this pull, saturating at the largest
    /// `u32`.
    pub fn hit_count(&self, spell_id: u32) -> (r: u32)
        requires
            self.wf(),
        ensures
            r == clip32(count_of(self@, spell_id) as int),
    {
        match self.hit_counts.get(&spell_id) {
            Some(c) => *c,
            None => 0,
        }
    }

    /// Number of hits this pull over all spells, saturating at the largest
    /// `u32`.
    pub fn total_hits(&self) -> (r: u32)
        requires
            self.wf(),
        ensures
            r == clip32(self@.len() as int),
    {
        self.total
    }

    /// Forgets every hit.
    pub fn reset(&mut self)
        ensures
            final(self).wf(),
            final(self)@ == Seq::<(u32, u64)>::empty(),
    {
        self.hit_counts.clear();
        self.hit_timestamps.clear();
        self.total = 0;
        self.hits = Ghost(Seq::empty());
    }
}

impl Default for AvoidableTracker {
    fn default() -> (r: Self)
        ensures
            r.wf(),
            r@ == Seq::<(u32, u64)>::empty(),
    {
        AvoidableTracker::new()
    }
}

// ---------------------------------------------------------------------------
// Cooldown tracker
// ---------------------------------------------------------------------------

/// `n + 1`, or `n` at the largest `u32`.
pub open spec fn bump(n: u32) -> u32 {
    if n < u32::MAX {
        (n + 1) as u32
    } else {
        n
    }
}

/// The number that `counts` holds for `id`; 0 where it holds none.
pub open spec fn count_in(counts: Map<u32, u32>, id: u32) -> u32 {
    if counts.contains_key(id) {
        counts[id]
    } else {
        0
    }
}

/// For each spell the coached player cast this pull, the time of the last
/// cast and the number of casts.
pub struct CooldownTracker {
    /// Spell to the time of its last use.
    pub last_used: HashMap<u32, u64>,
    /// Spell to the number of its uses, saturating at the largest `u32`.
    pub use_counts: HashMap<u32, u32>,
}

impl View for CooldownTracker {
    type V = Map<u32, u64>;

    open spec fn view(&self) -> Map<u32, u64> {
        self.last_used@
    }
}

impl Default for CooldownTracker {
    fn default() -> (r: Self)
        ensures
            r@ == Map::<u32, u64>::empty(),
            r.uses() == Map::<u32, u32>::empty(),
    {
        CooldownTracker { last_used: HashMap::new(), use_counts: HashMap::new() }
    }
}

impl CooldownTracker {
    /// For each spell cast this pull, how often it was cast.
    pub open spec fn uses(&self) -> Map<u32, u32> {
        self.use_counts@
    }

    /// Records a cast of `spell_id` at `timestamp_ms`.
    pub fn record_cast(&mut self, spell_id: u32, timestamp_ms: u64)
        ensures
            final(self)@ == old(self)@.insert(spell_id, timestamp_ms),
            final(self).uses() == old(self).uses().insert(
                spell_id,
                bump(count_in(old(self).uses(), spell_id)),
            ),
    {
        self.last_used.insert(spell_id, timestamp_ms);
        let count = self.use_count(spell_id);
        self.use_counts.insert(spell_id, count.saturating_add(1));
    }

    /// How long before `now_ms` the spell was last cast; `None` where it
    /// was not cast this pull.
    pub fn elapsed_since_last(&self, spell_id: u32, now_ms: u64) -> (r: Option<u64>)
        ensures
            r == if self@.contains_key(spell_id) {
                Some(sub_or_zero(now_ms, self@[spell_id]))
            } else {
                None
            },
    {
        match self.last_used.get(&spell_id) {
            Some(t) => Some(now_ms.saturating_sub(*t)),
            None => None,
        }
    }

    /// When the spell was last cast; `None` where it was not cast this
    /// pull.
    pub fn last_used_ms(&self, spell_id: u32) -> (r: Option<u64>)
        ensures
            r == if self@.contains_key(spell_id) {
                Some(self@[spell_id])
            } else {
                None
            },
    {
        match self.last_used.get(&spell_id) {
            Some(t) => Some(*t),
            None => None,
        }
    }

    /// How often the spell was cast this pull.
    pub fn use_count(&self, spell_id: u32) -> (r: u32)
        ensures
            r == count_in(self.uses(), spell_id),
    {
        match self.use_counts.get(&spell_id) {
            Some(n) => *n,
            None => 0,
        }
    }

    /// Forgets every cast.
    pub fn reset(&mut self)
        ensures
            final(self)@ == Map::<u32, u64>::empty(),
            final(self).uses() == Map::<u32, u32>::empty(),
    {
        self.last_used.clear();
        self.use_counts.clear();
    }
}

// ---------------------------------------------------------------------------
// GCD gap tracker
// ---------------------------------------------------------------------------

/// The time of the coached player's last cast and the gap before it.
#[derive(Debug, Clone, Copy)]
pub struct GcdTracker {
    pub last_cast_ms: Option<u64>,
    /// Gap in milliseconds between the last two casts.
    pub current_gap_ms: u64,
}

impl Default for GcdTracker {
    fn default() -> (r: Self)
        ensures
            r == (GcdTracker { last_cast_ms: None, current_gap_ms: 0 }),
    {
        GcdTracker { last_cast_ms: None, current_gap_ms: 0 }
    }
}

impl GcdTracker {
    /// The tracker after a cast at `timestamp_ms`: the gap is the time
    /// since the cast before it, and 0 where there was none.
    pub open spec fn after_cast(self, timestamp_ms: u64) -> GcdTracker {
        GcdTracker {
            last_cast_ms: Some(timestamp_ms),
            current_gap_ms: match self.last_cast_ms {
                Some(last) => sub_or_zero(timestamp_ms, last),
                None => 0,
            },
        }
    }

    /// Records a cast at `timestamp_ms`: the gap becomes the time since the
    /// cast before it, and 0 for the first cast.
    pub fn record_cast(&mut self, timestamp_ms: u64)
        ensures
            *final(self) == old(self).after_cast(timestamp_ms),
    {
        self.current_gap_ms = match self.last_cast_ms {
            Some(last) => timestamp_ms.saturating_sub(last),
            None => 0,
        };
        self.last_cast_ms = Some(timestamp_ms);
    }

    /// Forgets the last cast and the gap.
    pub fn reset(&mut self)
        ensures
            *final(self) == (GcdTracker { last_cast_ms: None, current_gap_ms: 0 }),
    {
        self.last_cast_ms = None;
        self.current_gap_ms = 0;
    }
}

// ---------------------------------------------------------------------------
// Top-level combat state
// ---------------------------------------------------------------------------

/// Everything the engine knows about the fight.
pub struct CombatState {
    pub current_pull: Option<Pull>,
    pub pull_history: Vec<Pull>,
    pub event_window: EventWindow,
    pub avoidable: AvoidableTracker,
    pub cooldowns: CooldownTracker,
    pub gcd: GcdTracker,
    pub in_combat: bool,
    pub player_guid: Option<String>,
    /// Successful interrupts by the coached player this pull.
    pub interrupt_count: u32,
    /// Name of the encounter in progress, if one is.
    pub encounter_name: Option<String>,
    /// What the session has learned about interruptible spells.
    pub interrupts: InterruptTracker,
    /// Damage taken by the coached player this pull.
    pub damage_taken: DamageTakenTracker,
    /// Time of the coached player's last activity, where one is recorded.
    pub last_player_cast_ms: Option<u64>,
}

/// The mathematical value of a `CombatState`.
pub struct CombatModel {
    pub current_pull: Option<PullModel>,
    pub pull_history: Seq<PullModel>,
    pub event_window: Seq<(u64, EventModel)>,
    pub window_ms: u64,
    pub avoidable: Seq<(u32, u64)>,
    pub cooldowns: Map<u32, u64>,
    pub cast_counts: Map<u32, u32>,
    pub gcd: GcdTracker,
    pub in_combat: bool,
    pub player_guid: Option<Seq<char>>,
    pub interrupt_count: u32,
    pub encounter_name: Option<Seq<char>>,
    pub interrupts: Set<u32>,
    pub damage_taken: Seq<(u64, u64)>,
    pub last_player_cast_ms: Option<u64>,
}

impl CombatModel {
    /// The state before the first event.
    pub open spec fn initial() -> CombatModel {
        CombatModel {
            current_pull: None,
            pull_history: Seq::empty(),
            event_window: Seq::empty(),
            window_ms: 30_000,
            avoidable: Seq::empty(),
            cooldowns: Map::empty(),
            cast_counts: Map::empty(),
            gcd: GcdTracker { last_cast_ms: None, current_gap_ms: 0 },
            in_combat: false,
            player_guid: None,
            interrupt_count: 0,
            encounter_name: None,
            interrupts: Set::empty(),
            damage_taken: Seq::empty(),
            last_player_cast_ms: None,
        }
    }

    /// A pull is current exactly while in combat.
    pub open spec fn consistent(self) -> bool {
        self.in_combat <==> self.current_pull is Some
    }

    /// What holds of every state that the state machine reaches: a pull is
    /// current exactly while in combat; the current pull has neither end
    /// nor outcome; every pull of the history has both; and without a cast
    /// in the pull the gap is 0.
    pub open spec fn valid(self) -> bool {
        &&& self.consistent()
        &&& self.current_pull is Some ==> self.current_pull->0.end_ms is None
            && self.current_pull->0.outcome is None
        &&& forall|i: int|
            0 <= i < self.pull_history.len() ==> (#[trigger] self.pull_history[i]).end_ms is Some
                && self.pull_history[i].outcome is Some
        &&& self.gcd.last_cast_ms is None ==> self.gcd.current_gap_ms == 0
    }

    /// The state after the opening of a pull was asked for at
    /// `timestamp_ms`. While in combat nothing changes: the open pull
    /// stays. Otherwise there is a new current pull, under the name of the
    /// encounter in progress if there is one, the per-pull trackers are
    /// empty, and the rest is as before.
    pub open spec fn start_pull(self, timestamp_ms: u64) -> CombatModel {
        if self.in_combat {
            self
        } else {
            self.opened(timestamp_ms)
        }
    }

    /// The state with a new current pull opened at `timestamp_ms`.
    pub open spec fn opened(self, timestamp_ms: u64) -> CombatModel {
        CombatModel {
            current_pull: Some(
                PullModel {
                    pull_number: clip32(self.pull_history.len() as int + 1),
                    start_ms: timestamp_ms,
                    end_ms: None,
                    outcome: None,
                    encounter_name: self.encounter_name,
                },
            ),
            avoidable: Seq::empty(),
            cooldowns: Map::empty(),
            cast_counts: Map::empty(),
            gcd: GcdTracker { last_cast_ms: None, current_gap_ms: 0 },
            interrupt_count: 0,
            damage_taken: Seq::empty(),
            last_player_cast_ms: None,
            in_combat: true,
            ..self
        }
    }

    /// The state after the closing of the pull was asked for at
    /// `timestamp_ms`: the current pull, if there is one, is the last of
    /// the history, with its end and outcome; without one nothing is added.
    pub open spec fn end_pull(self, timestamp_ms: u64, outcome: PullOutcome) -> CombatModel {
        CombatModel {
            current_pull: None,
            pull_history: match self.current_pull {
                Some(p) => self.pull_history.push(
                    PullModel { end_ms: Some(timestamp_ms), outcome: Some(outcome), ..p },
                ),
                None => self.pull_history,
            },
            in_combat: false,
            ..self
        }
    }

    /// Milliseconds from the start of the current pull to `now_ms`; 0
    /// without a pull or where `now_ms` lies before the start.
    pub open spec fn pull_elapsed_ms(self, now_ms: u64) -> u64 {
        match self.current_pull {
            Some(p) => sub_or_zero(now_ms, p.start_ms),
            None => 0,
        }
    }
}

impl View for CombatState {
    type V = CombatModel;

    open spec fn view(&self) -> CombatModel {
        CombatModel {
            current_pull: opt_pull_view(self.current_pull),
            pull_history: pull_views(self.pull_history@),
            event_window: self.event_window@,
            window_ms: self.event_window.window_ms,
            avoidable: self.avoidable@,
            cooldowns: self.cooldowns@,
            cast_counts: self.cooldowns.uses(),
            gcd: self.gcd,
            in_combat: self.in_combat,
            player_guid: opt_view(self.player_guid),
            interrupt_count: self.interrupt_count,
            encounter_name: opt_view(self.encounter_name),
            interrupts: self.interrupts@,
            damage_taken: self.damage_taken@,
            last_player_cast_ms: self.last_player_cast_ms,
        }
    }
}

impl CombatState {
    /// The trackers are in step with their logs, and the state is one that
    /// the state machine reaches (`CombatModel::valid`).
    pub open spec fn wf(&self) -> bool {
        self.avoidable.wf() && self@.valid()
    }

    /// The state before the first event: no pull, a window of 30 seconds.
    pub fn new() -> (r: Self)
        ensures
            r.wf(),
            r@ == CombatModel::initial(),
    {
        let r = CombatState {
            current_pull: None,
            pull_history: Vec::new(),
            event_window: EventWindow::new(30_000),
            avoidable: AvoidableTracker::new(),
            cooldowns: CooldownTracker::default(),
            gcd: GcdTracker::default(),
            in_combat: false,
            player_guid: None,
            interrupt_count: 0,
            encounter_name: None,
            interrupts: InterruptTracker::default(),
            damage_taken: DamageTakenTracker::default(),
            last_player_cast_ms: None,
        };
        assert(pull_views(r.pull_history@) =~= Seq::<PullModel>::empty());
        assert(r@ =~= CombatModel::initial());
        r
    }

    /// Opens a pull at `timestamp_ms`, unless one is open: while in combat
    /// this does nothing. On opening, the per-pull trackers start empty;
    /// the learned interruptible spells, the event window, the history, the
    /// player and the encounter name stay.
    pub fn start_pull(&mut self, timestamp_ms: u64)
        requires
            old(self).wf(),
        ensures
            final(self).wf(),
            final(self)@ == old(self)@.start_pull(timestamp_ms),
            old(self)@.in_combat ==> final(self)@ == old(self)@,
            final(self)@.in_combat,
    {
        if self.in_combat {
            return;
        }
        let len = self.pull_history.len();
        let n: u32 = if len >= 0xffff_ffff {
            0xffff_ffff
        } else {
            (len + 1) as u32
        };
        self.current_pull = Some(
            Pull {
                pull_number: n,
                start_ms: timestamp_ms,
                end_ms: None,
                outcome: None,
                encounter_name: clone_opt(&self.encounter_name),
            },
        );
        self.avoidable.reset();
        self.cooldowns.reset();
        self.gcd.reset();
        self.interrupt_count = 0;
        self.damage_taken.reset();
        self.interrupts.reset_per_pull();
        self.last_player_cast_ms = None;
        self.in_combat = true;
        assert(self@ =~= old(self)@.start_pull(timestamp_ms));
    }

    /// Closes the current pull at `timestamp_ms` with `outcome` and leaves
    /// combat. Without a current pull this does nothing.
    pub fn end_pull(&mut self, timestamp_ms: u64, outcome: PullOutcome)
        requires
            old(self).wf(),
        ensures
            final(self).wf(),
            final(self)@ == old(self)@.end_pull(timestamp_ms, outcome),
            !old(self)@.in_combat ==> final(self)@ == old(self)@,
            !final(self)@.in_combat,
    {
        let mut current: Option<Pull> = None;
        core::mem::swap(&mut self.current_pull, &mut current);
        match current {
            Some(pull) => {
                let ghost before = pull_views(self.pull_history@);
                let closed = Pull {
                    pull_number: pull.pull_number,
                    start_ms: pull.start_ms,
                    end_ms: Some(timestamp_ms),
                    outcome: Some(outcome),
                    encounter_name: pull.encounter_name,
                };
                self.pull_history.push(closed);
                assert(pull_views(self.pull_history@) =~= before.push(closed@));
            },
            None => {},
        }
        self.in_combat = false;
        assert(self@ =~= old(self)@.end_pull(timestamp_ms, outcome));
    }

    /// Milliseconds elapsed since pull start; 0 if not in a pull.
    pub fn pull_elapsed_ms(&self, now_ms: u64) -> (r: u64)
        ensures
            r == self@.pull_elapsed_ms(now_ms),
    {
        match &self.current_pull {
            Some(p) => now_ms.saturating_sub(p.start_ms),
            None => 0,
        }
    }
}

} // verus!
