//! What the engine publishes, and the cells and queues that hold it for
//! consumers: the latest snapshot, a ring of recent advice, the connection
//! status, and a feed of readable log lines.

use crate::engine::{advice_views, AdviceEvent, AdviceModel, Severity};
use crate::state::{clone_opt, opt_view};
use crate::text::{push_decimal, push_two_digits, decimal_digits, str_eq, two_digits};
use std::collections::VecDeque;
use vstd::prelude::*;
use vstd::string::StringExecFns;

verus! {

/// Most entries the event feed keeps.
pub const EVENT_LOG_CAP: usize = 200;

/// Most advice the advice ring keeps.
pub const ADVICE_RING_CAP: usize = 50;

/// Name under which advice is published.
pub const EVENT_ADVICE: &'static str = "coach:advice";

/// Name under which snapshots are published.
pub const EVENT_STATE: &'static str = "coach:state";

/// Name under which the connection status is published.
pub const EVENT_CONNECTION: &'static str = "coach:connection";

/// Name under which identity updates are published.
pub const EVENT_IDENTITY: &'static str = "coach:identity";

/// Name under which debriefs are published.
pub const EVENT_DEBRIEF: &'static str = "coach:debrief";

/// `s` with `x` appended, and without its oldest entry where that makes
/// more than `cap` entries.
pub open spec fn capped_push<A>(s: Seq<A>, x: A, cap: nat) -> Seq<A> {
    if s.len() + 1 > cap {
        s.push(x).drop_first()
    } else {
        s.push(x)
    }
}

// ---------------------------------------------------------------------------
// Event feed
// ---------------------------------------------------------------------------

/// The readable event feed: the last 200 lines, oldest first.
pub struct EventLogQueue {
    inner: VecDeque<String>,
}

/// The characters of each string of a sequence.
pub open spec fn string_views(s: Seq<String>) -> Seq<Seq<char>> {
    Seq::new(s.len(), |i: int| s[i]@)
}

impl View for EventLogQueue {
    type V = Seq<Seq<char>>;

    closed spec fn view(&self) -> Seq<Seq<char>> {
        string_views(self.inner@)
    }
}

impl EventLogQueue {
    /// An empty feed.
    pub fn new() -> (r: Self)
        ensures
            r@ == Seq::<Seq<char>>::empty(),
    {
        let r = EventLogQueue { inner: VecDeque::new() };
        assert(r@ =~= Seq::<Seq<char>>::empty());
        r
    }

    /// Appends `entry`; beyond 200 entries the oldest leaves.
    pub fn push(&mut self, entry: String)
        ensures
            final(self)@ == capped_push(old(self)@, entry@, 200),
    {
        let ghost before = self.inner@;
        self.inner.push_back(entry);
        assert(string_views(self.inner@) =~= string_views(before).push(entry@));
        if self.inner.len() > EVENT_LOG_CAP {
            let ghost full = self.inner@;
            self.inner.pop_front();
            assert(string_views(self.inner@) =~= string_views(full).drop_first());
        }
    }

    /// Takes every entry out, oldest first, and leaves the feed empty.
    pub fn drain(&mut self) -> (r: Vec<String>)
        ensures
            string_views(r@) == old(self)@,
            final(self)@ == Seq::<Seq<char>>::empty(),
    {
        let mut out: Vec<String> = Vec::new();
        assert(string_views(out@) + string_views(self.inner@) =~= old(self)@);
        loop
            invariant
                string_views(out@) + string_views(self.inner@) == old(self)@,
            decreases self.inner.len(),
        {
            let ghost before = self.inner@;
            let ghost done = out@;
            match self.inner.pop_front() {
                Some(entry) => {
                    out.push(entry);
                    assert(string_views(out@) + string_views(self.inner@) =~= string_views(done)
                        + string_views(before));
                },
                None => {
                    assert(string_views(out@) + string_views(self.inner@) =~= string_views(out@));
                    assert(string_views(self.inner@) =~= Seq::<Seq<char>>::empty());
                    return out;
                },
            }
        }
    }
}

// ---------------------------------------------------------------------------
// Advice ring
// ---------------------------------------------------------------------------

/// The advice of late for consumers that poll: the last 50, oldest first.
pub struct AdviceRing {
    inner: VecDeque<AdviceEvent>,
}

impl View for AdviceRing {
    type V = Seq<AdviceModel>;

    closed spec fn view(&self) -> Seq<AdviceModel> {
        advice_views(self.inner@)
    }
}

impl AdviceRing {
    /// An empty ring.
    pub fn new() -> (r: Self)
        ensures
            r@ == Seq::<AdviceModel>::empty(),
    {
        let r = AdviceRing { inner: VecDeque::new() };
        assert(r@ =~= Seq::<AdviceModel>::empty());
        r
    }

    /// Appends `advice`; beyond 50 entries the oldest leaves.
    pub fn push(&mut self, advice: AdviceEvent)
        ensures
            final(self)@ == capped_push(old(self)@, advice@, 50),
    {
        let ghost before = self.inner@;
        self.inner.push_back(advice);
        assert(advice_views(self.inner@) =~= advice_views(before).push(advice@));
        if self.inner.len() > ADVICE_RING_CAP {
            let ghost full = self.inner@;
            self.inner.pop_front();
            assert(advice_views(self.inner@) =~= advice_views(full).drop_first());
        }
    }

    /// Takes every advice out, oldest first, and leaves the ring empty.
    pub fn drain(&mut self) -> (r: Vec<AdviceEvent>)
        ensures
            advice_views(r@) == old(self)@,
            final(self)@ == Seq::<AdviceModel>::empty(),
    {
        let mut out: Vec<AdviceEvent> = Vec::new();
        assert(advice_views(out@) + advice_views(self.inner@) =~= old(self)@);
        loop
            invariant
                advice_views(out@) + advice_views(self.inner@) == old(self)@,
            decreases self.inner.len(),
        {
            let ghost before = self.inner@;
            let ghost done = out@;
            match self.inner.pop_front() {
                Some(entry) => {
                    out.push(entry);
                    assert(advice_views(out@) + advice_views(self.inner@) =~= advice_views(done)
                        + advice_views(before));
                },
                None => {
                    assert(advice_views(out@) + advice_views(self.inner@) =~= advice_views(out@));
                    assert(advice_views(self.inner@) =~= Seq::<AdviceModel>::empty());
                    return out;
                },
            }
        }
    }
}

// ---------------------------------------------------------------------------
// Payloads
// ---------------------------------------------------------------------------

/// The combat state in brief, published after every event.
#[derive(Debug)]
pub struct StateSnapshot {
    pub pull_elapsed_ms: u64,
    pub gcd_gap_ms: u64,
    pub avoidable_count: u32,
    pub in_combat: bool,
    /// Successful interrupts by the coached player this pull.
    pub interrupt_count: u32,
    /// Name of the encounter in progress, if one is.
    pub encounter_name: Option<String>,
}

/// The mathematical value of a `StateSnapshot`.
pub struct SnapshotModel {
    pub pull_elapsed_ms: u64,
    pub gcd_gap_ms: u64,
    pub avoidable_count: u32,
    pub in_combat: bool,
    pub interrupt_count: u32,
    pub encounter_name: Option<Seq<char>>,
}

impl View for StateSnapshot {
    type V = SnapshotModel;

    open spec fn view(&self) -> SnapshotModel {
        SnapshotModel {
            pull_elapsed_ms: self.pull_elapsed_ms,
            gcd_gap_ms: self.gcd_gap_ms,
            avoidable_count: self.avoidable_count,
            in_combat: self.in_combat,
            interrupt_count: self.interrupt_count,
            encounter_name: opt_view(self.encounter_name),
        }
    }
}

impl Clone for StateSnapshot {
    fn clone(&self) -> (r: Self)
        ensures
            r@ == self@,
    {
        StateSnapshot {
            pull_elapsed_ms: self.pull_elapsed_ms,
            gcd_gap_ms: self.gcd_gap_ms,
            avoidable_count: self.avoidable_count,
            in_combat: self.in_combat,
            interrupt_count: self.interrupt_count,
            encounter_name: clone_opt(&self.encounter_name),
        }
    }
}

impl Default for StateSnapshot {
    fn default() -> (r: Self)
        ensures
            r@ == (SnapshotModel {
                pull_elapsed_ms: 0,
                gcd_gap_ms: 0,
                avoidable_count: 0,
                in_combat: false,
                interrupt_count: 0,
                encounter_name: None,
            }),
    {
        StateSnapshot {
            pull_elapsed_ms: 0,
            gcd_gap_ms: 0,
            avoidable_count: 0,
            in_combat: false,
            interrupt_count: 0,
            encounter_name: None,
        }
    }
}

/// Whether the log is followed and the plugin has reported.
#[derive(Debug)]
pub struct ConnectionStatus {
    pub log_tailing: bool,
    pub addon_connected: bool,
    pub wow_path: String,
}

/// The mathematical value of a `ConnectionStatus`.
pub struct ConnectionModel {
    pub log_tailing: bool,
    pub addon_connected: bool,
    pub wow_path: Seq<char>,
}

impl View for ConnectionStatus {
    type V = ConnectionModel;

    open spec fn view(&self) -> ConnectionModel {
        ConnectionModel {
            log_tailing: self.log_tailing,
            addon_connected: self.addon_connected,
            wow_path: self.wow_path@,
        }
    }
}

impl Clone for ConnectionStatus {
    fn clone(&self) -> (r: Self)
        ensures
            r@ == self@,
    {
        ConnectionStatus {
            log_tailing: self.log_tailing,
            addon_connected: self.addon_connected,
            wow_path: self.wow_path.clone(),
        }
    }
}

/// The summary of a pull, published when it ends.
#[derive(Debug)]
pub struct PullDebrief {
    pub pull_number: u32,
    /// How long the pull lasted, in milliseconds.
    pub pull_elapsed_ms: u64,
    /// `kill`, `wipe` or `unknown`.
    pub outcome: String,
    /// Hits taken this pull.
    pub avoidable_count: u32,
    /// Successful interrupts this pull.
    pub interrupt_count: u32,
    /// Advice fired this pull.
    pub total_advice_fired: u32,
    /// Advice about gaps between casts fired this pull.
    pub gcd_gap_count: u32,
}

/// The mathematical value of a `PullDebrief`.
pub struct DebriefModel {
    pub pull_number: u32,
    pub pull_elapsed_ms: u64,
    pub outcome: Seq<char>,
    pub avoidable_count: u32,
    pub interrupt_count: u32,
    pub total_advice_fired: u32,
    pub gcd_gap_count: u32,
}

impl View for PullDebrief {
    type V = DebriefModel;

    open spec fn view(&self) -> DebriefModel {
        DebriefModel {
            pull_number: self.pull_number,
            pull_elapsed_ms: self.pull_elapsed_ms,
            outcome: self.outcome@,
            avoidable_count: self.avoidable_count,
            interrupt_count: self.interrupt_count,
            total_advice_fired: self.total_advice_fired,
            gcd_gap_count: self.gcd_gap_count,
        }
    }
}

impl Clone for PullDebrief {
    fn clone(&self) -> (r: Self)
        ensures
            r@ == self@,
    {
        PullDebrief {
            pull_number: self.pull_number,
            pull_elapsed_ms: self.pull_elapsed_ms,
            outcome: self.outcome.clone(),
            avoidable_count: self.avoidable_count,
            interrupt_count: self.interrupt_count,
            total_advice_fired: self.total_advice_fired,
            gcd_gap_count: self.gcd_gap_count,
        }
    }
}

// ---------------------------------------------------------------------------
// Feed lines
// ---------------------------------------------------------------------------

/// The time of day of a timestamp in milliseconds, as `HH:MM:SS`.
pub open spec fn hms_text(ts_ms: u64) -> Seq<char> {
    let secs = ((ts_ms / 1000) % 86_400) as nat;
    two_digits(secs / 3600) + ":"@ + two_digits((secs % 3600) / 60) + ":"@ + two_digits(secs % 60)
}

/// Formats a timestamp in milliseconds as the time of day `HH:MM:SS`.
pub fn chrono_hms(ts_ms: u64) -> (r: String)
    ensures
        r@ == hms_text(ts_ms),
{
    let total_secs = (ts_ms / 1000) % 86_400;
    let mut out = String::new();
    push_two_digits(&mut out, total_secs / 3600);
    out.append(":");
    push_two_digits(&mut out, (total_secs % 3600) / 60);
    out.append(":");
    push_two_digits(&mut out, total_secs % 60);
    assert(out@ =~= hms_text(ts_ms));
    out
}

/// The start of every feed line: the time of day in square brackets and a
/// space.
pub open spec fn stamp(ts_ms: u64) -> Seq<char> {
    "["@ + hms_text(ts_ms) + "] "@
}

/// A new line that starts with the stamp of `ts_ms`.
fn stamped(ts_ms: u64) -> (r: String)
    ensures
        r@ == stamp(ts_ms),
{
    let mut out = String::from_str("[");
    let hms = chrono_hms(ts_ms);
    out.append(hms.as_str());
    out.append("] ");
    out
}

/// The sign shown for a severity.
pub open spec fn severity_icon(severity: Severity) -> Seq<char> {
    match severity {
        Severity::Good => "✅"@,
        Severity::Warn => "⚠️"@,
        Severity::Bad => "❌"@,
    }
}

/// The feed line for an advice: stamp, sign, title and message.
pub open spec fn advice_line(a: AdviceModel) -> Seq<char> {
    stamp(a.timestamp_ms) + severity_icon(a.severity) + " "@ + a.title + " — "@ + a.message
}

/// The feed line for the start of combat.
pub open spec fn combat_start_line(ts_ms: u64, encounter: Option<Seq<char>>) -> Seq<char> {
    stamp(ts_ms) + "🔴 Combat started — "@ + match encounter {
        Some(name) => name,
        None => "Open World"@,
    }
}

/// The feed line for the end of combat.
pub open spec fn combat_end_line(ts_ms: u64) -> Seq<char> {
    stamp(ts_ms) + "⚫ Combat ended"@
}

/// The feed line for a new encounter.
pub open spec fn encounter_line(ts_ms: u64, name: Seq<char>) -> Seq<char> {
    stamp(ts_ms) + "🏰 Encounter: "@ + name
}

/// The feed line for the end of a pull.
pub open spec fn debrief_line(ts_ms: u64, d: DebriefModel) -> Seq<char> {
    stamp(ts_ms) + (if d.outcome == "kill"@ {
        "🏆"@
    } else {
        "💀"@
    }) + " Pull #"@ + decimal_digits(d.pull_number as nat) + " — "@ + d.outcome + " — "@
        + decimal_digits((d.pull_elapsed_ms / 1000) as nat) + "s, "@ + decimal_digits(
        d.total_advice_fired as nat,
    ) + " advice, "@ + decimal_digits(d.avoidable_count as nat) + " avoidable"@
}

/// The feed line for a change of the connection status.
pub open spec fn connection_line(ts_ms: u64, c: ConnectionModel) -> Seq<char> {
    stamp(ts_ms) + (if c.log_tailing {
        "🟢 Log connected"@
    } else {
        "🔴 Log disconnected"@
    }) + (if c.addon_connected {
        " · Addon connected"@
    } else {
        Seq::<char>::empty()
    })
}

// ---------------------------------------------------------------------------
// Fan-out
// ---------------------------------------------------------------------------

/// What consumers can read on demand, and what the feed needs to tell a
/// change from a repetition.
pub struct FanOut {
    /// The latest snapshot; each new one overwrites it.
    pub snapshot: StateSnapshot,
    /// The advice of late.
    pub advice: AdviceRing,
    /// The latest connection status.
    pub connection: ConnectionStatus,
    /// The readable feed.
    pub log: EventLogQueue,
    /// Whether the last snapshot was in combat.
    pub prev_in_combat: bool,
    /// The encounter of the last snapshot.
    pub prev_encounter: Option<String>,
}

/// The mathematical value of a `FanOut`.
pub struct FanOutModel {
    pub snapshot: SnapshotModel,
    pub advice: Seq<AdviceModel>,
    pub connection: ConnectionModel,
    pub log: Seq<Seq<char>>,
    pub prev_in_combat: bool,
    pub prev_encounter: Option<Seq<char>>,
}

/// The feed after the lines `lines` entered it in order.
pub open spec fn log_after(log: Seq<Seq<char>>, lines: Seq<Seq<char>>) -> Seq<Seq<char>>
    decreases lines.len(),
{
    if lines.len() == 0 {
        log
    } else {
        capped_push(log_after(log, lines.drop_last()), lines.last(), 200)
    }
}

/// The feed lines that a snapshot gives rise to: combat started, combat
/// ended, and a new encounter, each where the snapshot differs from the
/// one before it.
pub open spec fn snapshot_lines(
    prev_in_combat: bool,
    prev_encounter: Option<Seq<char>>,
    snap: SnapshotModel,
    now_ms: u64,
) -> Seq<Seq<char>> {
    let started = if !prev_in_combat && snap.in_combat {
        seq![combat_start_line(now_ms, snap.encounter_name)]
    } else {
        Seq::empty()
    };
    let ended = if prev_in_combat && !snap.in_combat {
        seq![combat_end_line(now_ms)]
    } else {
        Seq::empty()
    };
    let encounter = if snap.encounter_name != prev_encounter && snap.encounter_name is Some {
        seq![encounter_line(now_ms, snap.encounter_name->0)]
    } else {
        Seq::empty()
    };
    started + ended + encounter
}

impl FanOutModel {
    /// The state after an advice arrived: it is in the ring and in the feed.
    pub open spec fn on_advice(self, a: AdviceModel) -> FanOutModel {
        FanOutModel {
            advice: capped_push(self.advice, a, 50),
            log: capped_push(self.log, advice_line(a), 200),
            ..self
        }
    }

    /// The state after a snapshot arrived at `now_ms`: it replaces the one
    /// held, and the feed tells what changed.
    pub open spec fn on_snapshot(self, snap: SnapshotModel, now_ms: u64) -> FanOutModel {
        FanOutModel {
            snapshot: snap,
            log: log_after(
                self.log,
                snapshot_lines(self.prev_in_combat, self.prev_encounter, snap, now_ms),
            ),
            prev_in_combat: snap.in_combat,
            prev_encounter: snap.encounter_name,
            ..self
        }
    }

    /// The state after a debrief arrived at `now_ms`: the feed has its line.
    pub open spec fn on_debrief(self, d: DebriefModel, now_ms: u64) -> FanOutModel {
        FanOutModel { log: capped_push(self.log, debrief_line(now_ms, d), 200), ..self }
    }

    /// The state after a connection status arrived at `now_ms`: it replaces
    /// the one held, and the feed has a line where one of the two flags
    /// changed.
    pub open spec fn on_connection(self, c: ConnectionModel, now_ms: u64) -> FanOutModel {
        FanOutModel {
            connection: c,
            log: if self.connection.log_tailing != c.log_tailing || self.connection.addon_connected
                != c.addon_connected {
                capped_push(self.log, connection_line(now_ms, c), 200)
            } else {
                self.log
            },
            ..self
        }
    }
}

impl View for FanOut {
    type V = FanOutModel;

    open spec fn view(&self) -> FanOutModel {
        FanOutModel {
            snapshot: self.snapshot@,
            advice: self.advice@,
            connection: self.connection@,
            log: self.log@,
            prev_in_combat: self.prev_in_combat,
            prev_encounter: opt_view(self.prev_encounter),
        }
    }
}

/// Whether two optional strings read the same.
fn opt_eq(a: &Option<String>, b: &Option<String>) -> (r: bool)
    ensures
        r == (opt_view(*a) == opt_view(*b)),
{
    match (a, b) {
        (Some(x), Some(y)) => str_eq(x.as_str(), y.as_str()),
        (None, None) => true,
        _ => false,
    }
}

impl FanOut {
    /// The state before anything was published: an idle snapshot, nothing
    /// connected, empty ring and feed.
    pub fn new() -> (r: Self)
        ensures
            r@ == (FanOutModel {
                snapshot: SnapshotModel {
                    pull_elapsed_ms: 0,
                    gcd_gap_ms: 0,
                    avoidable_count: 0,
                    in_combat: false,
                    interrupt_count: 0,
                    encounter_name: None,
                },
                advice: Seq::empty(),
                connection: ConnectionModel {
                    log_tailing: false,
                    addon_connected: false,
                    wow_path: Seq::empty(),
                },
                log: Seq::empty(),
                prev_in_combat: false,
                prev_encounter: None,
            }),
    {
        FanOut {
            snapshot: StateSnapshot::default(),
            advice: AdviceRing::new(),
            connection: ConnectionStatus {
                log_tailing: false,
                addon_connected: false,
                wow_path: String::new(),
            },
            log: EventLogQueue::new(),
            prev_in_combat: false,
            prev_encounter: None,
        }
    }

    /// Takes in an advice: into the ring, and as a line into the feed.
    pub fn on_advice(&mut self, advice: AdviceEvent)
        ensures
            final(self)@ == old(self)@.on_advice(advice@),
    {
        let mut line = stamped(advice.timestamp_ms);
        line.append(
            match advice.severity {
                Severity::Good => "✅",
                Severity::Warn => "⚠️",
                Severity::Bad => "❌",
            },
        );
        line.append(" ");
        line.append(advice.title.as_str());
        line.append(" — ");
        line.append(advice.message.as_str());
        assert(line@ =~= advice_line(advice@));
        self.log.push(line);
        self.advice.push(advice);
    }

    /// Takes in a snapshot at `now_ms`: it overwrites the one held, and the
    /// feed tells the start and end of combat and a new encounter.
    pub fn on_snapshot(&mut self, snap: StateSnapshot, now_ms: u64)
        ensures
            final(self)@ == old(self)@.on_snapshot(snap@, now_ms),
    {
        let ghost lines = snapshot_lines(
            old(self)@.prev_in_combat,
            old(self)@.prev_encounter,
            snap@,
            now_ms,
        );
        let ghost mut done: Seq<Seq<char>> = Seq::empty();
        assert(self.log@ == log_after(old(self)@.log, done));
        if !self.prev_in_combat && snap.in_combat {
            let mut line = stamped(now_ms);
            line.append("🔴 Combat started — ");
            match &snap.encounter_name {
                Some(name) => {
                    line.append(name.as_str());
                },
                None => {
                    line.append("Open World");
                },
            }
            assert(line@ =~= combat_start_line(now_ms, snap@.encounter_name));
            self.log.push(line);
            proof {
                let before = done;
                done = done.push(combat_start_line(now_ms, snap@.encounter_name));
                assert(done.drop_last() =~= before);
            }
        }
        assert(self.log@ == log_after(old(self)@.log, done));
        if self.prev_in_combat && !snap.in_combat {
            let mut line = stamped(now_ms);
            line.append("⚫ Combat ended");
            self.log.push(line);
            proof {
                let before = done;
                done = done.push(combat_end_line(now_ms));
                assert(done.drop_last() =~= before);
            }
        }
        assert(self.log@ == log_after(old(self)@.log, done));
        if !opt_eq(&snap.encounter_name, &self.prev_encounter) {
            match &snap.encounter_name {
                Some(name) => {
                    let mut line = stamped(now_ms);
                    line.append("🏰 Encounter: ");
                    line.append(name.as_str());
                    self.log.push(line);
                    proof {
                        let before = done;
                        done = done.push(encounter_line(now_ms, name@));
                        assert(done.drop_last() =~= before);
                    }
                },
                None => {},
            }
        }
        assert(done =~= lines);
        self.prev_in_combat = snap.in_combat;
        self.prev_encounter = clone_opt(&snap.encounter_name);
        self.snapshot = snap;
    }

    /// Takes in a debrief at `now_ms`: the feed gets the summary line.
    pub fn on_debrief(&mut self, debrief: &PullDebrief, now_ms: u64)
        ensures
            final(self)@ == old(self)@.on_debrief(debrief@, now_ms),
    {
        let mut line = stamped(now_ms);
        if str_eq(debrief.outcome.as_str(), "kill") {
            line.append("🏆");
        } else {
            line.append("💀");
        }
        line.append(" Pull #");
        push_decimal(&mut line, debrief.pull_number as u64);
        line.append(" — ");
        line.append(debrief.outcome.as_str());
        line.append(" — ");
        push_decimal(&mut line, debrief.pull_elapsed_ms / 1000);
        line.append("s, ");
        push_decimal(&mut line, debrief.total_advice_fired as u64);
        line.append(" advice, ");
        push_decimal(&mut line, debrief.avoidable_count as u64);
        line.append(" avoidable");
        assert(line@ =~= debrief_line(now_ms, debrief@));
        self.log.push(line);
    }

    /// Takes in a connection status at `now_ms`: it overwrites the one
    /// held; the feed gets a line only where a flag changed.
    pub fn on_connection(&mut self, status: ConnectionStatus, now_ms: u64)
        ensures
            final(self)@ == old(self)@.on_connection(status@, now_ms),
    {
        if self.connection.log_tailing != status.log_tailing || self.connection.addon_connected
            != status.addon_connected {
            let mut line = stamped(now_ms);
            if status.log_tailing {
                line.append("🟢 Log connected");
            } else {
                line.append("🔴 Log disconnected");
            }
            if status.addon_connected {
                line.append(" · Addon connected");
            }
            assert(line@ =~= connection_line(now_ms, status@));
            self.log.push(line);
        }
        self.connection = status;
    }
}

} // verus!
