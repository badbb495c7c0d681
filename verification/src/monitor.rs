//! The poll loop's decisions, as a state machine: the caller performs each
//! `Action` (check for shutdown, sleep, read /proc/diskstats, drive the LED)
//! and hands the outcome back as an `Event`; `Monitor::step` decides what
//! follows.
use crate::config::{Config, CountMode};
use crate::diskstats::{counters_in, Counters, DiskStats};
use crate::error::{node_gone, Error, ErrorView};
use crate::led::{Led, LedView};
use crate::text::views;
use vstd::prelude::*;

verus! {

/// How long to wait before trying again to acquire an LED that vanished,
/// in nanoseconds (one second).
pub const REACQUIRE_RETRY_NS: u64 = 1_000_000_000;

/// Nanoseconds in a millisecond.
pub const NS_PER_MS: u64 = 1_000_000;

/// Whether the counters moved between two reads, for the counters that
/// `mode` watches.
pub open spec fn counters_moved(mode: CountMode, before: Counters, after: Counters) -> bool {
    match mode {
        CountMode::Read => after.sectors_read > before.sectors_read,
        CountMode::Write => after.sectors_written > before.sectors_written,
        CountMode::Both => after.sectors_read > before.sectors_read || after.sectors_written
            > before.sectors_written,
    }
}

/// Whether any watched device moved between two reads of /proc/diskstats;
/// a device that a read does not list counts as all zero.
pub open spec fn activity_between(
    devices: Seq<Seq<char>>,
    before: Map<Seq<char>, Counters>,
    after: Map<Seq<char>, Counters>,
    mode: CountMode,
) -> bool {
    exists|i: int|
        0 <= i < devices.len() && counters_moved(
            mode,
            counters_in(before, #[trigger] devices[i]),
            counters_in(after, devices[i]),
        )
}

fn moved(mode: CountMode, before: Counters, after: Counters) -> (r: bool)
    ensures
        r == counters_moved(mode, before, after),
{
    match mode {
        CountMode::Read => after.sectors_read > before.sectors_read,
        CountMode::Write => after.sectors_written > before.sectors_written,
        CountMode::Both => after.sectors_read > before.sectors_read || after.sectors_written
            > before.sectors_written,
    }
}

/// Whether any of `devices` shows activity between `before` and `after`.
pub fn detect_activity(
    devices: &Vec<String>,
    before: &DiskStats,
    after: &DiskStats,
    mode: CountMode,
) -> (r: bool)
    ensures
        r == activity_between(views(devices@), before@, after@, mode),
{
    let mut i: usize = 0;
    while i < devices.len()
        invariant
            i <= devices.len(),
            forall|j: int|
                0 <= j < i ==> !counters_moved(
                    mode,
                    counters_in(before@, #[trigger] views(devices@)[j]),
                    counters_in(after@, views(devices@)[j]),
                ),
        decreases devices.len() - i,
    {
        let b = before.counters_of(&devices[i]);
        let a = after.counters_of(&devices[i]);
        assert(views(devices@)[i as int] == devices@[i as int]@);
        if moved(mode, b, a) {
            return true;
        }
        i = i + 1;
    }
    false
}

/// Time elapsed from `since` to `now`, zero if `now` is earlier (as
/// `Instant::elapsed` saturates).
pub open spec fn elapsed(now: u64, since: u64) -> u64 {
    if now >= since {
        (now - since) as u64
    } else {
        0
    }
}

/// When to try again to acquire a vanished LED.
pub open spec fn retry_at(now: u64) -> u64 {
    if now <= u64::MAX - REACQUIRE_RETRY_NS {
        (now + REACQUIRE_RETRY_NS) as u64
    } else {
        u64::MAX
    }
}

/// The LED as the loop knows it: held and driven, or vanished and waited
/// for until a time.
#[derive(Debug)]
pub enum LedSlot {
    Held(Led),
    Missing { next_retry_ns: u64 },
}

pub enum LedSlotView {
    Held(LedView),
    Missing { next_retry_ns: u64 },
}

impl View for LedSlot {
    type V = LedSlotView;

    open spec fn view(&self) -> LedSlotView {
        match self {
            LedSlot::Held(l) => LedSlotView::Held(l@),
            LedSlot::Missing { next_retry_ns } => LedSlotView::Missing {
                next_retry_ns: *next_retry_ns,
            },
        }
    }
}

/// Which outcome the loop waits for.
#[derive(Clone, Copy, Debug, PartialEq, Eq, Structural)]
pub enum Phase {
    /// The initial write of the idle state.
    InitialWrite,
    /// Whether shutdown was requested (top of the loop).
    ExitCheck,
    /// The end of the sleep between polls.
    Sleeping,
    /// The re-detach of the trigger after a resync request.
    Reasserting,
    /// The attempt to acquire a vanished LED again.
    Reacquiring,
    /// The write of the idle state to a reacquired LED.
    ReacquireWrite,
    /// A read of /proc/diskstats.
    Sampling,
    /// The write that shows activity (`true`) or idleness (`false`).
    TickWrite { activity: bool },
    /// The loop has ended.
    Finished,
}

/// What the caller does next.
#[derive(Debug)]
pub enum Action {
    /// Report whether shutdown was requested (`Event::ExitFlag`).
    CheckExit,
    /// Sleep this many milliseconds, then report whether a resync was
    /// requested meanwhile (`Event::Woke`).
    Sleep(u64),
    /// Re-detach the LED's trigger (`Led::reassert`), then report
    /// `Event::Reasserted`.
    Reassert(Led),
    /// Resolve the LED's path and acquire it again, then report
    /// `Event::Reacquired`.
    Reacquire,
    /// Turn the LED on (`true`) or off (`Led::set_on`), then report
    /// `Event::LedWritten`.
    SetLed(Led, bool),
    /// Read /proc/diskstats, then report `Event::Stats`.
    ReadStats,
    /// Stop; restore the original trigger of the LED, if one is held.
    Finish(Option<Led>),
}

pub enum ActionView {
    CheckExit,
    Sleep(u64),
    Reassert(LedView),
    Reacquire,
    SetLed(LedView, bool),
    ReadStats,
    Finish(Option<LedView>),
}

impl View for Action {
    type V = ActionView;

    open spec fn view(&self) -> ActionView {
        match self {
            Action::CheckExit => ActionView::CheckExit,
            Action::Sleep(ms) => ActionView::Sleep(*ms),
            Action::Reassert(l) => ActionView::Reassert(l@),
            Action::Reacquire => ActionView::Reacquire,
            Action::SetLed(l, on) => ActionView::SetLed(l@, *on),
            Action::ReadStats => ActionView::ReadStats,
            Action::Finish(Some(l)) => ActionView::Finish(Some(l@)),
            Action::Finish(None) => ActionView::Finish(None),
        }
    }
}

/// The outcome of an action. Times are nanoseconds of a monotonic clock.
#[derive(Debug)]
pub enum Event {
    ExitFlag(bool),
    Woke { resync: bool, now_ns: u64 },
    Reasserted { outcome: Result<(), Error>, now_ns: u64 },
    Reacquired { acquired: Result<Led, Error>, now_ns: u64 },
    LedWritten { written: Result<(), Error>, now_ns: u64 },
    Stats { sample: Result<DiskStats, Error>, now_ns: u64 },
}

pub enum EventView {
    ExitFlag(bool),
    Woke { resync: bool, now_ns: u64 },
    Reasserted { outcome: Result<(), ErrorView>, now_ns: u64 },
    Reacquired { acquired: Result<LedView, ErrorView>, now_ns: u64 },
    LedWritten { written: Result<(), ErrorView>, now_ns: u64 },
    Stats { sample: Result<Map<Seq<char>, Counters>, ErrorView>, now_ns: u64 },
}

impl View for Event {
    type V = EventView;

    open spec fn view(&self) -> EventView {
        match self {
            Event::ExitFlag(b) => EventView::ExitFlag(*b),
            Event::Woke { resync, now_ns } => EventView::Woke { resync: *resync, now_ns: *now_ns },
            Event::Reasserted { outcome, now_ns } => EventView::Reasserted {
                outcome: match outcome {
                    Ok(_) => Ok(()),
                    Err(e) => Err(e@),
                },
                now_ns: *now_ns,
            },
            Event::Reacquired { acquired, now_ns } => EventView::Reacquired {
                acquired: match acquired {
                    Ok(l) => Ok(l@),
                    Err(e) => Err(e@),
                },
                now_ns: *now_ns,
            },
            Event::LedWritten { written, now_ns } => EventView::LedWritten {
                written: match written {
                    Ok(_) => Ok(()),
                    Err(e) => Err(e@),
                },
                now_ns: *now_ns,
            },
            Event::Stats { sample, now_ns } => EventView::Stats {
                sample: match sample {
                    Ok(s) => Ok(s@),
                    Err(e) => Err(e@),
                },
                now_ns: *now_ns,
            },
        }
    }
}

/// The poll loop's state.
#[derive(Debug)]
pub struct Monitor {
    devices: Vec<String>,
    count: CountMode,
    invert: bool,
    poll_interval_ms: u64,
    min_on_time_ms: u64,
    led: LedSlot,
    displayed: bool,
    activity_since: Option<u64>,
    last: DiskStats,
    phase: Phase,
}

pub struct MonitorView {
    pub devices: Seq<Seq<char>>,
    pub count: CountMode,
    pub invert: bool,
    pub poll_interval_ms: u64,
    pub min_on_time_ms: u64,
    pub led: LedSlotView,
    /// The state last written to the LED.
    pub displayed: bool,
    /// When activity was last seen.
    pub activity_since: Option<u64>,
    /// The last read of /proc/diskstats.
    pub last: Map<Seq<char>, Counters>,
    pub phase: Phase,
}

impl View for Monitor {
    type V = MonitorView;

    closed spec fn view(&self) -> MonitorView {
        MonitorView {
            devices: views(self.devices@),
            count: self.count,
            invert: self.invert,
            poll_interval_ms: self.poll_interval_ms,
            min_on_time_ms: self.min_on_time_ms,
            led: self.led@,
            displayed: self.displayed,
            activity_since: self.activity_since,
            last: self.last@,
            phase: self.phase,
        }
    }
}

/// The LED state at idle: off, or on where the configuration inverts.
pub open spec fn idle_state(s: MonitorView) -> bool {
    s.invert
}

/// The LED state that shows activity.
pub open spec fn active_state(s: MonitorView) -> bool {
    !s.invert
}

/// The action that the state waits on the outcome of.
pub open spec fn pending_action(s: MonitorView) -> ActionView {
    match s.phase {
        Phase::ExitCheck => ActionView::CheckExit,
        Phase::Sleeping => ActionView::Sleep(s.poll_interval_ms),
        Phase::Reacquiring => ActionView::Reacquire,
        Phase::Sampling => ActionView::ReadStats,
        Phase::Finished => ActionView::Finish(held_led(s)),
        _ => match s.led {
            LedSlotView::Held(l) => match s.phase {
                Phase::Reasserting => ActionView::Reassert(l),
                Phase::TickWrite { activity } => ActionView::SetLed(
                    l,
                    if activity {
                        active_state(s)
                    } else {
                        idle_state(s)
                    },
                ),
                _ => ActionView::SetLed(l, idle_state(s)),
            },
            LedSlotView::Missing { .. } => ActionView::CheckExit,
        },
    }
}

/// The LED held, if any.
pub open spec fn held_led(s: MonitorView) -> Option<LedView> {
    match s.led {
        LedSlotView::Held(l) => Some(l),
        LedSlotView::Missing { .. } => None,
    }
}

/// The state in `phase`, with the action that it then waits on.
pub open spec fn go(s: MonitorView, phase: Phase) -> (MonitorView, ActionView) {
    let t = MonitorView { phase, ..s };
    (t, pending_action(t))
}

/// After the resync check: try to get a vanished LED back once its retry
/// time has come, else go on to read /proc/diskstats.
pub open spec fn after_resync(s: MonitorView, now: u64) -> (MonitorView, ActionView) {
    match s.led {
        LedSlotView::Missing { next_retry_ns } => if now >= next_retry_ns {
            go(s, Phase::Reacquiring)
        } else {
            go(s, Phase::Sampling)
        },
        LedSlotView::Held(_) => go(s, Phase::Sampling),
    }
}

/// Whether the debounce lets the LED go back to idle at `now`: activity
/// was last seen at least the minimum on-time ago, or never.
pub open spec fn debounce_over(s: MonitorView, now: u64) -> bool {
    match s.activity_since {
        Some(t) => elapsed(now, t) >= s.min_on_time_ms * NS_PER_MS,
        None => true,
    }
}

/// After a read of /proc/diskstats (`cur`) at `now`.
pub open spec fn after_sample(s: MonitorView, cur: Map<Seq<char>, Counters>, now: u64) -> (
    MonitorView,
    ActionView,
) {
    let activity = activity_between(s.devices, s.last, cur, s.count);
    let s1 = MonitorView { last: cur, ..s };
    match s1.led {
        LedSlotView::Missing { .. } => go(s1, Phase::ExitCheck),
        LedSlotView::Held(_) => if activity {
            let s2 = MonitorView { activity_since: Some(now), ..s1 };
            if s2.displayed != active_state(s2) {
                go(s2, Phase::TickWrite { activity: true })
            } else {
                go(s2, Phase::ExitCheck)
            }
        } else if s1.displayed == active_state(s1) && debounce_over(s1, now) {
            go(s1, Phase::TickWrite { activity: false })
        } else {
            go(s1, Phase::ExitCheck)
        },
    }
}

/// What the loop does with `e` in the state `s`: the next state and the
/// next action. An event that is not the outcome the state waits on
/// changes nothing, and the pending action is asked for again.
pub open spec fn monitor_step(s: MonitorView, e: EventView) -> (MonitorView, ActionView) {
    match (s.phase, e) {
        (Phase::InitialWrite, EventView::LedWritten { .. }) => go(s, Phase::ExitCheck),
        (Phase::ExitCheck, EventView::ExitFlag(exit)) => if exit {
            go(s, Phase::Finished)
        } else {
            go(s, Phase::Sleeping)
        },
        (Phase::Sleeping, EventView::Woke { resync, now_ns }) => if resync && s.led is Held {
            go(s, Phase::Reasserting)
        } else {
            after_resync(s, now_ns)
        },
        (Phase::Reasserting, EventView::Reasserted { now_ns, .. }) => after_resync(s, now_ns),
        (Phase::Reacquiring, EventView::Reacquired { acquired, now_ns }) => match acquired {
            Ok(l) => go(
                MonitorView {
                    led: LedSlotView::Held(l),
                    displayed: idle_state(s),
                    activity_since: None,
                    ..s
                },
                Phase::ReacquireWrite,
            ),
            Err(_) => go(
                MonitorView { led: LedSlotView::Missing { next_retry_ns: retry_at(now_ns) }, ..s },
                Phase::Sampling,
            ),
        },
        (Phase::ReacquireWrite, EventView::LedWritten { .. }) => go(s, Phase::Sampling),
        (Phase::Sampling, EventView::Stats { sample, now_ns }) => match sample {
            Ok(cur) => after_sample(s, cur, now_ns),
            Err(_) => go(s, Phase::ExitCheck),
        },
        (Phase::TickWrite { activity }, EventView::LedWritten { written, now_ns }) => match written {
            Ok(_) => go(
                MonitorView {
                    displayed: if activity {
                        active_state(s)
                    } else {
                        idle_state(s)
                    },
                    ..s
                },
                Phase::ExitCheck,
            ),
            Err(err) => if node_gone(err) {
                go(
                    MonitorView {
                        led: LedSlotView::Missing { next_retry_ns: retry_at(now_ns) },
                        displayed: idle_state(s),
                        activity_since: None,
                        ..s
                    },
                    Phase::ExitCheck,
                )
            } else {
                go(s, Phase::ExitCheck)
            },
        },
        _ => (s, pending_action(s)),
    }
}

/// The state of a freshly started loop.
pub open spec fn initial_state(
    devices: Seq<Seq<char>>,
    count: CountMode,
    invert: bool,
    poll_interval_ms: u64,
    min_on_time_ms: u64,
    led: LedView,
    stats: Option<Map<Seq<char>, Counters>>,
) -> MonitorView {
    MonitorView {
        devices,
        count,
        invert,
        poll_interval_ms,
        min_on_time_ms,
        led: LedSlotView::Held(led),
        displayed: invert,
        activity_since: None,
        last: match stats {
            Some(m) => m,
            None => Map::empty(),
        },
        phase: Phase::InitialWrite,
    }
}


fn retry_time(now: u64) -> (r: u64)
    ensures
        r == retry_at(now),
{
    if now <= u64::MAX - REACQUIRE_RETRY_NS {
        now + REACQUIRE_RETRY_NS
    } else {
        u64::MAX
    }
}

impl Monitor {
    /// Starts the loop with the acquired `led`, the devices to watch and the
    /// first read of /proc/diskstats (`None` where it failed: every device
    /// then counts as zero). The first action sets the LED to its idle state.
    pub fn new(config: &Config, devices: Vec<String>, led: Led, initial: Option<DiskStats>) -> (r: (
        Monitor,
        Action,
    ))
        ensures
            r.0@ == initial_state(
                views(devices@),
                config.watch.count,
                config.watch.invert,
                config.timing.poll_interval_ms,
                config.timing.min_on_time_ms,
                led@,
                match initial {
                    Some(st) => Some(st@),
                    None => None,
                },
            ),
            r.1@ == pending_action(r.0@),
    {
        let last = match initial {
            Some(st) => st,
            None => DiskStats::new(),
        };
        let m = Monitor {
            devices,
            count: config.watch.count,
            invert: config.watch.invert,
            poll_interval_ms: config.timing.poll_interval_ms,
            min_on_time_ms: config.timing.min_on_time_ms,
            led: LedSlot::Held(led),
            displayed: config.watch.invert,
            activity_since: None,
            last,
            phase: Phase::InitialWrite,
        };
        let a = m.pending();
        (m, a)
    }

    /// The action that the loop waits on the outcome of.
    pub fn pending(&self) -> (r: Action)
        ensures
            r@ == pending_action(self@),
    {
        match self.phase {
            Phase::ExitCheck => Action::CheckExit,
            Phase::Sleeping => Action::Sleep(self.poll_interval_ms),
            Phase::Reacquiring => Action::Reacquire,
            Phase::Sampling => Action::ReadStats,
            Phase::Finished => match &self.led {
                LedSlot::Held(l) => Action::Finish(Some(l.copy())),
                LedSlot::Missing { .. } => Action::Finish(None),
            },
            _ => match &self.led {
                LedSlot::Held(l) => match self.phase {
                    Phase::Reasserting => Action::Reassert(l.copy()),
                    Phase::TickWrite { activity } => Action::SetLed(
                        l.copy(),
                        if activity {
                            !self.invert
                        } else {
                            self.invert
                        },
                    ),
                    _ => Action::SetLed(l.copy(), self.invert),
                },
                LedSlot::Missing { .. } => Action::CheckExit,
            },
        }
    }

    /// The phase the loop is in.
    pub fn phase(&self) -> (r: Phase)
        ensures
            r == self@.phase,
    {
        self.phase
    }

    /// Whether the LED is held.
    pub fn holds_led(&self) -> (r: bool)
        ensures
            r == (self@.led is Held),
    {
        match &self.led {
            LedSlot::Held(_) => true,
            LedSlot::Missing { .. } => false,
        }
    }

    /// The state the LED was last set to.
    pub fn displayed(&self) -> (r: bool)
        ensures
            r == self@.displayed,
    {
        self.displayed
    }

    fn enter(&mut self, phase: Phase) -> (r: Action)
        ensures
            (final(self)@, r@) == go(old(self)@, phase),
    {
        self.phase = phase;
        self.pending()
    }

    fn after_resync(&mut self, now: u64) -> (r: Action)
        ensures
            (final(self)@, r@) == after_resync(old(self)@, now),
    {
        let retry = match &self.led {
            LedSlot::Missing { next_retry_ns } => now >= *next_retry_ns,
            LedSlot::Held(_) => false,
        };
        if retry {
            self.enter(Phase::Reacquiring)
        } else {
            self.enter(Phase::Sampling)
        }
    }

    fn after_sample(&mut self, cur: DiskStats, now: u64) -> (r: Action)
        ensures
            (final(self)@, r@) == after_sample(old(self)@, cur@, now),
    {
        let activity = detect_activity(&self.devices, &self.last, &cur, self.count);
        self.last = cur;
        let held = match &self.led {
            LedSlot::Held(_) => true,
            LedSlot::Missing { .. } => false,
        };
        if !held {
            return self.enter(Phase::ExitCheck);
        }
        let active = !self.invert;
        if activity {
            self.activity_since = Some(now);
            if self.displayed != active {
                self.enter(Phase::TickWrite { activity: true })
            } else {
                self.enter(Phase::ExitCheck)
            }
        } else {
            let over = match self.activity_since {
                Some(t) => {
                    let e: u64 = if now >= t {
                        now - t
                    } else {
                        0
                    };
                    let over_ms: bool = e / NS_PER_MS >= self.min_on_time_ms;
                    assert(over_ms == (e >= self.min_on_time_ms * NS_PER_MS)) by (nonlinear_arith)
                        requires
                            over_ms == (e / NS_PER_MS >= self.min_on_time_ms),
                            NS_PER_MS == 1_000_000u64,
                    ;
                    over_ms
                },
                None => true,
            };
            if self.displayed == active && over {
                self.enter(Phase::TickWrite { activity: false })
            } else {
                self.enter(Phase::ExitCheck)
            }
        }
    }

    /// Takes the outcome of the pending action and decides the next one.
    pub fn step(&mut self, e: Event) -> (r: Action)
        ensures
            (final(self)@, r@) == monitor_step(old(self)@, e@),
    {
        match (self.phase, e) {
            (Phase::InitialWrite, Event::LedWritten { .. }) => self.enter(Phase::ExitCheck),
            (Phase::ExitCheck, Event::ExitFlag(exit)) => {
                if exit {
                    self.enter(Phase::Finished)
                } else {
                    self.enter(Phase::Sleeping)
                }
            },
            (Phase::Sleeping, Event::Woke { resync, now_ns }) => {
                let held = match &self.led {
                    LedSlot::Held(_) => true,
                    LedSlot::Missing { .. } => false,
                };
                if resync && held {
                    self.enter(Phase::Reasserting)
                } else {
                    self.after_resync(now_ns)
                }
            },
            (Phase::Reasserting, Event::Reasserted { now_ns, .. }) => self.after_resync(now_ns),
            (Phase::Reacquiring, Event::Reacquired { acquired, now_ns }) => match acquired {
                Ok(l) => {
                    self.led = LedSlot::Held(l);
                    self.displayed = self.invert;
                    self.activity_since = None;
                    self.enter(Phase::ReacquireWrite)
                },
                Err(_) => {
                    self.led = LedSlot::Missing { next_retry_ns: retry_time(now_ns) };
                    self.enter(Phase::Sampling)
                },
            },
            (Phase::ReacquireWrite, Event::LedWritten { .. }) => self.enter(Phase::Sampling),
            (Phase::Sampling, Event::Stats { sample, now_ns }) => match sample {
                Ok(cur) => self.after_sample(cur, now_ns),
                Err(_) => self.enter(Phase::ExitCheck),
            },
            (Phase::TickWrite { activity }, Event::LedWritten { written, now_ns }) => match written {
                Ok(_) => {
                    self.displayed = if activity {
                        !self.invert
                    } else {
                        self.invert
                    };
                    self.enter(Phase::ExitCheck)
                },
                Err(err) => {
                    if err.is_node_gone() {
                        self.led = LedSlot::Missing { next_retry_ns: retry_time(now_ns) };
                        self.displayed = self.invert;
                        self.activity_since = None;
                    }
                    self.enter(Phase::ExitCheck)
                },
            },
            (_, _) => self.pending(),
        }
    }
}


/// The loop's invariant: the phases that drive the LED hold one, the
/// reacquire phase is entered only for a vanished LED, and a vanished LED
/// is shown as idle with no activity pending.
pub open spec fn monitor_wf(s: MonitorView) -> bool {
    &&& (s.phase is InitialWrite || s.phase is Reasserting || s.phase is ReacquireWrite
        || s.phase is TickWrite) ==> s.led is Held
    &&& s.phase is Reacquiring ==> s.led is Missing
    &&& s.led is Missing ==> s.activity_since is None && s.displayed == idle_state(s)
}

/// A freshly started loop satisfies the invariant, shows the idle state,
/// and its first action writes the idle state to the LED (off, or on where
/// the configuration inverts).
pub proof fn law_start_idle(
    devices: Seq<Seq<char>>,
    count: CountMode,
    invert: bool,
    poll_interval_ms: u64,
    min_on_time_ms: u64,
    led: LedView,
    stats: Option<Map<Seq<char>, Counters>>,
)
    ensures
        ({
            let s = initial_state(
                devices,
                count,
                invert,
                poll_interval_ms,
                min_on_time_ms,
                led,
                stats,
            );
            &&& monitor_wf(s)
            &&& s.displayed == idle_state(s)
            &&& idle_state(s) == invert
            &&& active_state(s) == !invert
            &&& pending_action(s) == ActionView::SetLed(led, invert)
        }),
{
}

/// Every step keeps the loop's invariant.
pub proof fn law_step_keeps_wf(s: MonitorView, e: EventView)
    requires
        monitor_wf(s),
    ensures
        monitor_wf(monitor_step(s, e).0),
{
}

/// Activity seen by a poll is shown: the time of the poll becomes the last
/// activity, and the LED is switched to the active state unless it already
/// shows it.
pub proof fn law_activity_shown(s: MonitorView, l: LedView, cur: Map<Seq<char>, Counters>, now: u64)
    requires
        s.phase == Phase::Sampling,
        s.led == LedSlotView::Held(l),
        activity_between(s.devices, s.last, cur, s.count),
    ensures
        ({
            let (t, a) = monitor_step(s, EventView::Stats { sample: Ok(cur), now_ns: now });
            &&& t.activity_since == Some(now)
            &&& t.last == cur
            &&& a == if s.displayed != active_state(s) {
                ActionView::SetLed(l, active_state(s))
            } else {
                ActionView::CheckExit
            }
        }),
{
}

/// The minimum on-time: a poll switches the LED back to idle exactly when
/// it saw no activity, the LED shows activity, and the last activity is
/// at least `min_on_time_ms` old (or there was none). While the minimum
/// on-time runs, the LED keeps showing activity.
pub proof fn law_min_on_time(s: MonitorView, l: LedView, cur: Map<Seq<char>, Counters>, now: u64)
    requires
        s.phase == Phase::Sampling,
        s.led == LedSlotView::Held(l),
    ensures
        ({
            let (t, a) = monitor_step(s, EventView::Stats { sample: Ok(cur), now_ns: now });
            (a == ActionView::SetLed(l, idle_state(s))) <==> (!activity_between(
                s.devices,
                s.last,
                cur,
                s.count,
            ) && s.displayed == active_state(s) && debounce_over(s, now))
        }),
        (s.displayed == active_state(s) && !debounce_over(s, now)) ==> monitor_step(
            s,
            EventView::Stats { sample: Ok(cur), now_ns: now },
        ).1 != ActionView::SetLed(l, idle_state(s)),
{
}

/// A failed read of /proc/diskstats skips the rest of the tick: nothing
/// changes and the loop goes back to the shutdown check.
pub proof fn law_failed_sample_skips(s: MonitorView, err: ErrorView, now: u64)
    requires
        s.phase == Phase::Sampling,
    ensures
        monitor_step(s, EventView::Stats { sample: Err(err), now_ns: now }).0 == (MonitorView {
            phase: Phase::ExitCheck,
            ..s
        }),
        monitor_step(s, EventView::Stats { sample: Err(err), now_ns: now }).1 == ActionView::CheckExit,
{
}

/// A successful write is remembered: the displayed state becomes the one
/// the pending action wrote.
pub proof fn law_displayed_tracks_writes(s: MonitorView, l: LedView, activity: bool, now: u64)
    requires
        s.phase == (Phase::TickWrite { activity }),
        s.led == LedSlotView::Held(l),
    ensures
        ({
            let v = if activity {
                active_state(s)
            } else {
                idle_state(s)
            };
            &&& pending_action(s) == ActionView::SetLed(l, v)
            &&& monitor_step(s, EventView::LedWritten { written: Ok(()), now_ns: now }).0.displayed
                == v
        }),
{
}

/// Unplug: a write that fails because the LED node is gone makes the loop
/// keep polling without the LED, retrying one second later; any other
/// write error keeps the LED.
pub proof fn law_unplug_degrades(s: MonitorView, activity: bool, err: ErrorView, now: u64)
    requires
        s.phase == (Phase::TickWrite { activity }),
    ensures
        ({
            let (t, a) = monitor_step(s, EventView::LedWritten { written: Err(err), now_ns: now });
            &&& a == ActionView::CheckExit
            &&& node_gone(err) ==> t.led == LedSlotView::Missing { next_retry_ns: retry_at(now) }
                && t.displayed == idle_state(s) && t.activity_since is None
            &&& !node_gone(err) ==> t.led == s.led && t.displayed == s.displayed
                && t.activity_since == s.activity_since
        }),
{
}

/// Replug: a vanished LED is looked for again once its retry time has
/// come, and not before; a failed attempt waits another second, a
/// successful one holds the LED again and shows the idle state.
pub proof fn law_replug_retried(s: MonitorView, next: u64, resync: bool, now: u64)
    requires
        s.phase == Phase::Sleeping,
        s.led == (LedSlotView::Missing { next_retry_ns: next }),
    ensures
        monitor_step(s, EventView::Woke { resync, now_ns: now }).1 == if now >= next {
            ActionView::Reacquire
        } else {
            ActionView::ReadStats
        },
{
}

/// The outcome of an attempt to get a vanished LED back.
pub proof fn law_reacquire_outcome(s: MonitorView, acquired: Result<LedView, ErrorView>, now: u64)
    requires
        s.phase == Phase::Reacquiring,
    ensures
        ({
            let (t, a) = monitor_step(s, EventView::Reacquired { acquired, now_ns: now });
            match acquired {
                Ok(l) => t.led == LedSlotView::Held(l) && t.displayed == idle_state(s)
                    && t.activity_since is None && a == ActionView::SetLed(l, idle_state(s)),
                Err(_) => t.led == LedSlotView::Missing { next_retry_ns: retry_at(now) }
                    && a == ActionView::ReadStats,
            }
        }),
{
}

/// Resume: a resync request re-detaches the trigger of the held LED before
/// anything else in the tick; without a held LED there is nothing to
/// re-detach.
pub proof fn law_resync_reasserts(s: MonitorView, l: LedView, now: u64)
    requires
        s.phase == Phase::Sleeping,
        s.led == LedSlotView::Held(l),
    ensures
        monitor_step(s, EventView::Woke { resync: true, now_ns: now }).1 == ActionView::Reassert(
            l,
        ),
        monitor_step(s, EventView::Woke { resync: false, now_ns: now }).1 == ActionView::ReadStats,
{
}

/// Shutdown: once shutdown is requested the loop finishes and hands back
/// the LED it holds (to restore its original trigger); otherwise it sleeps
/// for the poll interval.
pub proof fn law_shutdown_hands_back(s: MonitorView)
    requires
        s.phase == Phase::ExitCheck,
    ensures
        monitor_step(s, EventView::ExitFlag(true)).1 == ActionView::Finish(held_led(s)),
        monitor_step(s, EventView::ExitFlag(false)).1 == ActionView::Sleep(s.poll_interval_ms),
        monitor_step(s, EventView::ExitFlag(true)).0.phase == Phase::Finished,
{
}

/// An event that is not the outcome the loop waits on changes nothing.
pub proof fn law_unexpected_event_ignored(s: MonitorView, e: EventView)
    requires
        !expected_event(s.phase, e),
    ensures
        monitor_step(s, e) == (s, pending_action(s)),
{
}

/// Whether `e` is the kind of outcome that `phase` waits on.
pub open spec fn expected_event(phase: Phase, e: EventView) -> bool {
    match (phase, e) {
        (Phase::InitialWrite, EventView::LedWritten { .. }) => true,
        (Phase::ExitCheck, EventView::ExitFlag(_)) => true,
        (Phase::Sleeping, EventView::Woke { .. }) => true,
        (Phase::Reasserting, EventView::Reasserted { .. }) => true,
        (Phase::Reacquiring, EventView::Reacquired { .. }) => true,
        (Phase::ReacquireWrite, EventView::LedWritten { .. }) => true,
        (Phase::Sampling, EventView::Stats { .. }) => true,
        (Phase::TickWrite { .. }, EventView::LedWritten { .. }) => true,
        _ => false,
    }
}


/// The loop drives only the LED it holds: every write, re-detach or
/// hand-back names the held LED, so nothing is written while the LED is
/// missing.
pub proof fn law_drives_only_held_led(s: MonitorView, e: EventView)
    ensures
        ({
            let (t, a) = monitor_step(s, e);
            &&& (a matches ActionView::SetLed(l, _) ==> t.led == LedSlotView::Held(l))
            &&& (a matches ActionView::Reassert(l) ==> t.led == LedSlotView::Held(l))
            &&& (a matches ActionView::Finish(held) ==> held == held_led(t))
        }),
{
}


/// The counters that `mode` watches; the others read as zero.
pub open spec fn watched(mode: CountMode, c: Counters) -> Counters {
    match mode {
        CountMode::Read => Counters { sectors_read: c.sectors_read, sectors_written: 0 },
        CountMode::Write => Counters { sectors_read: 0, sectors_written: c.sectors_written },
        CountMode::Both => c,
    }
}

/// Two reads of /proc/diskstats that agree on every watched counter of
/// every watched device.
pub open spec fn same_watched(
    devices: Seq<Seq<char>>,
    mode: CountMode,
    a: Map<Seq<char>, Counters>,
    b: Map<Seq<char>, Counters>,
) -> bool {
    forall|i: int|
        0 <= i < devices.len() ==> watched(mode, counters_in(a, #[trigger] devices[i])) == watched(
            mode,
            counters_in(b, devices[i]),
        )
}

/// Two loop states that differ at most in counters the loop does not
/// watch.
pub open spec fn monitor_equiv(s1: MonitorView, s2: MonitorView) -> bool {
    &&& s1 == (MonitorView { last: s1.last, ..s2 })
    &&& same_watched(s1.devices, s1.count, s1.last, s2.last)
}

/// Two events that differ at most in counters the loop does not watch.
pub open spec fn event_equiv(
    devices: Seq<Seq<char>>,
    mode: CountMode,
    e1: EventView,
    e2: EventView,
) -> bool {
    match (e1, e2) {
        (
            EventView::Stats { sample: Ok(a), now_ns: n1 },
            EventView::Stats { sample: Ok(b), now_ns: n2 },
        ) => n1 == n2 && same_watched(devices, mode, a, b),
        _ => e1 == e2,
    }
}

proof fn lemma_activity_same_watched(
    devices: Seq<Seq<char>>,
    mode: CountMode,
    a1: Map<Seq<char>, Counters>,
    a2: Map<Seq<char>, Counters>,
    b1: Map<Seq<char>, Counters>,
    b2: Map<Seq<char>, Counters>,
)
    requires
        same_watched(devices, mode, a1, a2),
        same_watched(devices, mode, b1, b2),
    ensures
        activity_between(devices, a1, b1, mode) == activity_between(devices, a2, b2, mode),
{
    assert forall|i: int| 0 <= i < devices.len() implies counters_moved(
        mode,
        counters_in(a1, #[trigger] devices[i]),
        counters_in(b1, devices[i]),
    ) == counters_moved(mode, counters_in(a2, devices[i]), counters_in(b2, devices[i])) by {
        assert(watched(mode, counters_in(a1, devices[i])) == watched(
            mode,
            counters_in(a2, devices[i]),
        ));
        assert(watched(mode, counters_in(b1, devices[i])) == watched(
            mode,
            counters_in(b2, devices[i]),
        ));
    }
    if activity_between(devices, a1, b1, mode) {
        let i = choose|i: int|
            0 <= i < devices.len() && counters_moved(
                mode,
                counters_in(a1, #[trigger] devices[i]),
                counters_in(b1, devices[i]),
            );
        assert(counters_moved(mode, counters_in(a2, devices[i]), counters_in(b2, devices[i])));
    }
    if activity_between(devices, a2, b2, mode) {
        let i = choose|i: int|
            0 <= i < devices.len() && counters_moved(
                mode,
                counters_in(a2, #[trigger] devices[i]),
                counters_in(b2, devices[i]),
            );
        assert(counters_moved(mode, counters_in(a1, devices[i]), counters_in(b1, devices[i])));
    }
}

/// One step does not look at unwatched counters: equivalent states and
/// events give the same action and equivalent states, with the same
/// devices and mode.
pub proof fn law_step_ignores_unwatched(s1: MonitorView, s2: MonitorView, e1: EventView, e2: EventView)
    requires
        monitor_equiv(s1, s2),
        event_equiv(s1.devices, s1.count, e1, e2),
    ensures
        monitor_step(s1, e1).1 == monitor_step(s2, e2).1,
        monitor_equiv(monitor_step(s1, e1).0, monitor_step(s2, e2).0),
        monitor_step(s1, e1).0.devices == s1.devices,
        monitor_step(s1, e1).0.count == s1.count,
{
    let t1 = monitor_step(s1, e1).0;
    let t2 = monitor_step(s2, e2).0;
    match (s1.phase, e1, e2) {
        (
            Phase::Sampling,
            EventView::Stats { sample: Ok(a), now_ns: n },
            EventView::Stats { sample: Ok(b), .. },
        ) => {
            lemma_activity_same_watched(s1.devices, s1.count, s1.last, s2.last, a, b);
            assert(t1.last == a && t2.last == b);
        },
        _ => {
            assert(t1 == (MonitorView { last: t1.last, ..t2 }));
        },
    }
}

/// The actions and final state of the loop after the events `es`, in order.
pub open spec fn monitor_run(s: MonitorView, es: Seq<EventView>) -> (MonitorView, Seq<ActionView>)
    decreases es.len(),
{
    if es.len() == 0 {
        (s, Seq::empty())
    } else {
        let (t, a) = monitor_step(s, es[0]);
        let (u, rest) = monitor_run(t, es.drop_first());
        (u, seq![a] + rest)
    }
}

/// Only watched counters matter: two runs of the loop from states that
/// differ only in unwatched counters, through events that differ only in
/// the counters of unwatched devices (or, with `count = read`, in sectors
/// written; with `count = write`, in sectors read), make the same calls on
/// their LEDs (the same actions, in the same order, with the same LEDs and
/// values) and end in equivalent states.
pub proof fn law_unwatched_counters_irrelevant(
    s1: MonitorView,
    s2: MonitorView,
    es1: Seq<EventView>,
    es2: Seq<EventView>,
)
    requires
        monitor_equiv(s1, s2),
        es1.len() == es2.len(),
        forall|i: int|
            0 <= i < es1.len() ==> event_equiv(s1.devices, s1.count, #[trigger] es1[i], es2[i]),
    ensures
        monitor_run(s1, es1).1 == monitor_run(s2, es2).1,
        monitor_equiv(monitor_run(s1, es1).0, monitor_run(s2, es2).0),
    decreases es1.len(),
{
    if es1.len() > 0 {
        law_step_ignores_unwatched(s1, s2, es1[0], es2[0]);
        let t1 = monitor_step(s1, es1[0]).0;
        let t2 = monitor_step(s2, es2[0]).0;
        assert forall|i: int| 0 <= i < es1.drop_first().len() implies event_equiv(
            t1.devices,
            t1.count,
            #[trigger] es1.drop_first()[i],
            es2.drop_first()[i],
        ) by {
            assert(event_equiv(s1.devices, s1.count, es1[i + 1], es2[i + 1]));
        }
        law_unwatched_counters_irrelevant(t1, t2, es1.drop_first(), es2.drop_first());
    }
}

/// Two loops started on first reads of /proc/diskstats that agree on the
/// watched counters start equivalent, with the same first action.
pub proof fn law_start_ignores_unwatched(
    devices: Seq<Seq<char>>,
    count: CountMode,
    invert: bool,
    poll_interval_ms: u64,
    min_on_time_ms: u64,
    led: LedView,
    a: Map<Seq<char>, Counters>,
    b: Map<Seq<char>, Counters>,
)
    requires
        same_watched(devices, count, a, b),
    ensures
        ({
            let s1 = initial_state(
                devices,
                count,
                invert,
                poll_interval_ms,
                min_on_time_ms,
                led,
                Some(a),
            );
            let s2 = initial_state(
                devices,
                count,
                invert,
                poll_interval_ms,
                min_on_time_ms,
                led,
                Some(b),
            );
            monitor_equiv(s1, s2) && pending_action(s1) == pending_action(s2)
        }),
{
}


/// Whether the watched counters of device `d` grew between two reads, with
/// a device that a read does not list taken as all zero: sectors read
/// unless only writes are counted, sectors written unless only reads are.
pub open spec fn device_grew(
    mode: CountMode,
    before: Map<Seq<char>, Counters>,
    after: Map<Seq<char>, Counters>,
    d: Seq<char>,
) -> bool {
    let b = if before.contains_key(d) {
        before[d]
    } else {
        Counters { sectors_read: 0, sectors_written: 0 }
    };
    let a = if after.contains_key(d) {
        after[d]
    } else {
        Counters { sectors_read: 0, sectors_written: 0 }
    };
    ||| mode != CountMode::Write && a.sectors_read > b.sectors_read
    ||| mode != CountMode::Read && a.sectors_written > b.sectors_written
}

/// Activity is any watched device: there is activity between two reads
/// exactly when at least one watched device's watched counters grew (one
/// busy device is enough, whatever the others do).
pub proof fn law_activity_is_any_device(
    devices: Seq<Seq<char>>,
    before: Map<Seq<char>, Counters>,
    after: Map<Seq<char>, Counters>,
    mode: CountMode,
)
    ensures
        activity_between(devices, before, after, mode) <==> exists|i: int|
            0 <= i < devices.len() && #[trigger] device_grew(mode, before, after, devices[i]),
{
    assert forall|i: int| 0 <= i < devices.len() implies counters_moved(
        mode,
        counters_in(before, #[trigger] devices[i]),
        counters_in(after, devices[i]),
    ) == device_grew(mode, before, after, devices[i]) by {}
    if activity_between(devices, before, after, mode) {
        let i = choose|i: int|
            0 <= i < devices.len() && counters_moved(
                mode,
                counters_in(before, #[trigger] devices[i]),
                counters_in(after, devices[i]),
            );
        assert(device_grew(mode, before, after, devices[i]));
    }
    if exists|i: int| 0 <= i < devices.len() && #[trigger] device_grew(mode, before, after, devices[i]) {
        let i = choose|i: int|
            0 <= i < devices.len() && #[trigger] device_grew(mode, before, after, devices[i]);
        assert(counters_moved(mode, counters_in(before, devices[i]), counters_in(after, devices[i])));
    }
}

/// The hold after activity is the minimum on-time, nothing else: with the
/// LED showing activity and no watched device growing, a poll at `now`
/// switches it to idle exactly when no activity was seen yet or the last
/// activity is at least `min_on_time_ms` milliseconds (in nanoseconds)
/// old, whatever the poll interval; otherwise it writes nothing.
pub proof fn law_hold_is_min_on_time(s: MonitorView, l: LedView, cur: Map<Seq<char>, Counters>, now: u64)
    requires
        s.phase == Phase::Sampling,
        s.led == LedSlotView::Held(l),
        s.displayed == !s.invert,
        forall|i: int| 0 <= i < s.devices.len() ==> !#[trigger] device_grew(s.count, s.last, cur, s.devices[i]),
    ensures
        monitor_step(s, EventView::Stats { sample: Ok(cur), now_ns: now }).1 == if match s.activity_since {
            None => true,
            Some(t) => (if now >= t {
                now - t
            } else {
                0
            }) >= s.min_on_time_ms * 1_000_000,
        } {
            ActionView::SetLed(l, s.invert)
        } else {
            ActionView::CheckExit
        },
{
    law_activity_is_any_device(s.devices, s.last, cur, s.count);
}

} // verus!
