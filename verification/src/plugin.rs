//! The poll coordinator: which step of a fetch cycle comes next, given what
//! the pipeline reports. The caller performs the steps; nothing here waits,
//! locks or fetches.

use crate::source::{KwollectSource, Point};
use crate::window::{build_kwollect_url, window_url, Config, FetchWindow, Settings};
use vstd::prelude::*;
use vstd::string::StringExecFns;

verus! {

/// The slot through which the event handler hands the URL of a cycle to the
/// next poll. It holds one URL at most.
#[derive(Debug, PartialEq, Eq)]
pub struct UrlSlot {
    pending: Option<String>,
}

impl View for UrlSlot {
    type V = Option<Seq<char>>;

    closed spec fn view(&self) -> Option<Seq<char>> {
        match self.pending {
            Some(url) => Some(url@),
            None => None,
        }
    }
}

impl UrlSlot {
    /// An empty slot.
    pub fn new() -> (r: UrlSlot)
        ensures
            r@ is None,
    {
        UrlSlot { pending: None }
    }

    /// Whether no URL waits.
    pub fn is_empty(&self) -> (r: bool)
        ensures
            r == (self@ is None),
    {
        self.pending.is_none()
    }

    /// Puts a URL into the slot and hands back the one that waited there, if
    /// any: the last one written is the one that stays.
    pub fn offer(&mut self, url: String) -> (displaced: Option<String>)
        ensures
            final(self)@ == Some(url@),
            match displaced {
                Some(earlier) => old(self)@ == Some(earlier@),
                None => old(self)@ is None,
            },
    {
        let mut next = Some(url);
        std::mem::swap(&mut self.pending, &mut next);
        next
    }

    /// Takes the URL out of the slot, which is empty afterwards.
    pub fn take(&mut self) -> (r: Option<String>)
        ensures
            final(self)@ is None,
            match r {
                Some(url) => old(self)@ == Some(url@),
                None => old(self)@ is None,
            },
    {
        let mut taken = None;
        std::mem::swap(&mut self.pending, &mut taken);
        taken
    }
}

/// Where a coordinator stands in its cycle.
#[derive(Clone, Copy, Debug, PartialEq, Eq, Structural)]
pub enum Phase {
    /// Nothing is under way.
    Idle,
    /// The metrics are registered and the window has its start.
    WindowArmed,
    /// Subscribed to the event that asks for data; none has come yet.
    WaitingForEvent,
    /// An event came: a URL waits for the poll, or is being fetched.
    Fetching,
    /// The fetch gave points, which are being handed to the pipeline.
    Emitting,
}

/// What the coordinator asks for after an event.
#[derive(Clone, Copy, Debug, PartialEq, Eq, Structural)]
pub enum EventOutcome {
    /// The coordinator is not subscribed: nothing changes.
    Ignored,
    /// The window cannot be written as a URL: nothing changes.
    Unrenderable,
    /// A URL waits in the slot and a poll is to be triggered now. `replaced`
    /// tells that an earlier URL still waited and was overwritten.
    Triggered { replaced: bool },
}

/// What a poll does next.
#[derive(Debug, PartialEq, Eq)]
pub enum PollStep {
    /// The poll is over without a fetch, with these points: none.
    Done(Vec<Point>),
    /// The URL of this source is to be fetched.
    Fetch(KwollectSource),
}

/// The state of a coordinator as a mathematical value.
pub struct Cycle {
    pub settings: Settings,
    pub handles: Seq<usize>,
    pub phase: Phase,
    pub window_start: Option<int>,
    pub subscribed: bool,
    pub pending: Option<Seq<char>>,
    pub in_flight: bool,
}

/// The source plugin that reads measurements from Kwollect: the settings,
/// the registered metrics, the start of the window and the URL slot.
#[derive(Debug, PartialEq, Eq)]
pub struct KwollectPluginInput {
    config: Config,
    metric_ids: Vec<usize>,
    phase: Phase,
    window_start: Option<i64>,
    subscribed: bool,
    slot: UrlSlot,
    in_flight: bool,
}

impl View for KwollectPluginInput {
    type V = Cycle;

    closed spec fn view(&self) -> Cycle {
        Cycle {
            settings: self.config@,
            handles: self.metric_ids@,
            phase: self.phase,
            window_start: match self.window_start {
                Some(start) => Some(start as int),
                None => None,
            },
            subscribed: self.subscribed,
            pending: self.slot@,
            in_flight: self.in_flight,
        }
    }
}

/// The state before anything has happened.
pub open spec fn initial(settings: Settings) -> Cycle {
    Cycle {
        settings,
        handles: Seq::empty(),
        phase: Phase::Idle,
        window_start: None,
        subscribed: false,
        pending: None,
        in_flight: false,
    }
}

/// Whether the plugin can be started: it is idle and was not started before,
/// and there is one handle for each metric of the settings.
pub open spec fn can_start(cycle: Cycle, handles: Seq<usize>) -> bool {
    &&& cycle.phase == Phase::Idle
    &&& cycle.window_start is None
    &&& handles.len() == cycle.settings.metrics.len()
}

/// The state after the start, where the plugin can be started.
pub open spec fn after_start(cycle: Cycle, handles: Seq<usize>, now: int) -> Cycle {
    if can_start(cycle, handles) {
        Cycle { handles, phase: Phase::WindowArmed, window_start: Some(now), ..cycle }
    } else {
        cycle
    }
}

/// The state after the subscription, which needs an armed window.
pub open spec fn after_subscribe(cycle: Cycle) -> Cycle {
    if cycle.phase == Phase::WindowArmed {
        Cycle { phase: Phase::WaitingForEvent, subscribed: true, ..cycle }
    } else {
        cycle
    }
}

/// The URL that an event at `now` asks for: the window runs from the start
/// that was captured to `now`.
pub open spec fn event_url(cycle: Cycle, now: int) -> Option<Seq<char>> {
    match cycle.window_start {
        Some(start) => window_url(cycle.settings, start, now),
        None => None,
    }
}

/// The state after an event whose window gave this URL, or none. Where the
/// coordinator is subscribed and there is a URL, it is in the slot, over
/// whatever waited there, and the cycle is fetching.
pub open spec fn after_url(cycle: Cycle, url: Option<Seq<char>>) -> Cycle {
    if cycle.subscribed && url is Some {
        Cycle { phase: Phase::Fetching, pending: url, ..cycle }
    } else {
        cycle
    }
}

/// What the coordinator asks for after an event whose window gave this URL,
/// or none.
pub open spec fn url_outcome(cycle: Cycle, url: Option<Seq<char>>) -> EventOutcome {
    if !cycle.subscribed {
        EventOutcome::Ignored
    } else if url is None {
        EventOutcome::Unrenderable
    } else {
        EventOutcome::Triggered { replaced: cycle.pending is Some }
    }
}

/// The state after an event at `now`.
pub open spec fn after_event(cycle: Cycle, now: int) -> Cycle {
    after_url(cycle, event_url(cycle, now))
}

/// What the coordinator asks for after an event at `now`.
pub open spec fn event_outcome(cycle: Cycle, now: int) -> EventOutcome {
    url_outcome(cycle, event_url(cycle, now))
}

/// Whether a poll has something to fetch: a URL waits and no fetch is under
/// way.
pub open spec fn can_fetch(cycle: Cycle) -> bool {
    cycle.pending is Some && !cycle.in_flight
}

/// The state after a poll has begun: where it has something to fetch, the
/// slot is empty and a fetch is under way; else nothing changes.
pub open spec fn after_poll_begin(cycle: Cycle) -> Cycle {
    if can_fetch(cycle) {
        Cycle { pending: None, in_flight: true, ..cycle }
    } else {
        cycle
    }
}

/// The state after the fetch that was under way has ended: fetching again
/// where another URL waits already, else emitting where the fetch gave
/// points, and idle where it failed.
pub open spec fn after_poll_end(cycle: Cycle, gave_points: bool) -> Cycle {
    if cycle.in_flight {
        Cycle {
            in_flight: false,
            phase: if cycle.pending is Some {
                Phase::Fetching
            } else if gave_points {
                Phase::Emitting
            } else {
                Phase::Idle
            },
            ..cycle
        }
    } else {
        cycle
    }
}

/// The state after the points have been handed over.
pub open spec fn after_emit(cycle: Cycle) -> Cycle {
    if cycle.phase == Phase::Emitting {
        Cycle { phase: Phase::Idle, ..cycle }
    } else {
        cycle
    }
}

/// The description under which a metric is registered.
pub open spec fn metric_description(name: Seq<char>) -> Seq<char> {
    "Power consumption metric: "@ + name
}

impl KwollectPluginInput {
    /// The name of the plugin.
    pub fn name() -> (r: &'static str)
        ensures
            r@ == "kwollect-input"@,
    {
        "kwollect-input"
    }

    /// A plugin with its settings, idle, with no metric registered and an
    /// empty slot.
    pub fn init(config: Config) -> (r: KwollectPluginInput)
        ensures
            r@ == initial(config@),
    {
        let r = KwollectPluginInput {
            config,
            metric_ids: Vec::new(),
            phase: Phase::Idle,
            window_start: None,
            subscribed: false,
            slot: UrlSlot::new(),
            in_flight: false,
        };
        proof {
            assert(r@.handles =~= Seq::<usize>::empty());
        }
        r
    }

    /// The settings.
    pub fn config(&self) -> (r: &Config)
        ensures
            r@ == self@.settings,
    {
        &self.config
    }

    /// Where the coordinator stands.
    pub fn phase(&self) -> (r: Phase)
        ensures
            r == self@.phase,
    {
        self.phase
    }

    /// The descriptions under which the metrics of the settings are to be
    /// registered, in their order.
    pub fn metric_descriptions(&self) -> (r: Vec<String>)
        ensures
            r@.len() == self@.settings.metrics.len(),
            forall|i: int|
                0 <= i < r@.len() ==> (#[trigger] r@[i])@ == metric_description(
                    self@.settings.metrics[i],
                ),
    {
        let mut descriptions: Vec<String> = Vec::new();
        let mut i: usize = 0;
        while i < self.config.metrics.len()
            invariant
                i <= self.config.metrics@.len(),
                descriptions@.len() == i,
                forall|k: int|
                    0 <= k < i ==> (#[trigger] descriptions@[k])@ == metric_description(
                        self.config.metrics@[k]@,
                    ),
            decreases self.config.metrics@.len() - i,
        {
            let mut description = String::from_str("Power consumption metric: ");
            description.append(self.config.metrics[i].as_str());
            descriptions.push(description);
            i += 1;
        }
        descriptions
    }

    /// Starts the plugin: keeps the handles under which the metrics were
    /// registered and captures the start of the window. It tells whether it
    /// did; where the plugin was started before, or the handles are not one
    /// for each metric, nothing changes.
    pub fn start(&mut self, metric_ids: Vec<usize>, now: i64) -> (started: bool)
        ensures
            started == can_start(old(self)@, metric_ids@),
            final(self)@ == after_start(old(self)@, metric_ids@, now as int),
    {
        let idle = match self.phase {
            Phase::Idle => true,
            _ => false,
        };
        if idle && self.window_start.is_none() && metric_ids.len() == self.config.metrics.len() {
            self.metric_ids = metric_ids;
            self.window_start = Some(now);
            self.phase = Phase::WindowArmed;
            true
        } else {
            false
        }
    }

    /// Records that the coordinator is subscribed to the event that asks for
    /// data. It tells whether the window was armed; where it was not, nothing
    /// changes.
    pub fn subscribe(&mut self) -> (subscribed: bool)
        ensures
            subscribed == (old(self)@.phase == Phase::WindowArmed),
            final(self)@ == after_subscribe(old(self)@),
    {
        match self.phase {
            Phase::WindowArmed => {
                self.phase = Phase::WaitingForEvent;
                self.subscribed = true;
                true
            },
            _ => false,
        }
    }

    /// Takes the URL that an event's window gave, or none where the window
    /// cannot be written: a coordinator that is subscribed puts the URL into
    /// the slot, over whatever waited, and asks for a poll.
    pub fn accept_url(&mut self, url: Option<String>) -> (r: EventOutcome)
        ensures
            r == url_outcome(
                old(self)@,
                match url {
                    Some(text) => Some(text@),
                    None => None,
                },
            ),
            final(self)@ == after_url(
                old(self)@,
                match url {
                    Some(text) => Some(text@),
                    None => None,
                },
            ),
    {
        if !self.subscribed {
            return EventOutcome::Ignored;
        }
        match url {
            Some(text) => {
                let displaced = self.slot.offer(text);
                self.phase = Phase::Fetching;
                EventOutcome::Triggered { replaced: displaced.is_some() }
            },
            None => EventOutcome::Unrenderable,
        }
    }

    /// Handles the event that asks for data, at the instant `now`: the window
    /// ends there, its URL goes into the slot over whatever waited, and a
    /// poll is to be triggered.
    pub fn handle_event(&mut self, now: i64) -> (r: EventOutcome)
        ensures
            r == event_outcome(old(self)@, now as int),
            final(self)@ == after_event(old(self)@, now as int),
    {
        let url = match self.window_start {
            Some(start) => build_kwollect_url(&self.config, FetchWindow { start, end: now }),
            None => None,
        };
        self.accept_url(url)
    }

    /// Begins a poll. Where a URL waits and no fetch is under way, the URL is
    /// taken out of the slot and the source of this cycle is handed out, with
    /// the settings, the handles and the URL. Else the poll is over at once,
    /// with no fetch and no point, and nothing changes.
    pub fn poll_begin(&mut self) -> (r: PollStep)
        ensures
            final(self)@ == after_poll_begin(old(self)@),
            match r {
                PollStep::Fetch(source) => {
                    &&& can_fetch(old(self)@)
                    &&& old(self)@.pending == Some(source.url@)
                    &&& source.config@ == old(self)@.settings
                    &&& source.metric@ == old(self)@.handles
                },
                PollStep::Done(points) => {
                    &&& !can_fetch(old(self)@)
                    &&& points@.len() == 0
                    &&& final(self)@ == old(self)@
                },
            },
    {
        if self.in_flight {
            return PollStep::Done(Vec::new());
        }
        match self.slot.take() {
            Some(url) => {
                self.in_flight = true;
                PollStep::Fetch(
                    KwollectSource::new(self.config.clone(), self.metric_ids.clone(), url),
                )
            },
            None => PollStep::Done(Vec::new()),
        }
    }

    /// Ends the fetch of a poll, where one is under way: the cycle is
    /// fetching again where another URL waits already, else emitting where
    /// the fetch gave points, and idle where it failed.
    pub fn poll_end(&mut self, gave_points: bool)
        ensures
            final(self)@ == after_poll_end(old(self)@, gave_points),
    {
        if self.in_flight {
            self.in_flight = false;
            self.phase = if !self.slot.is_empty() {
                Phase::Fetching
            } else if gave_points {
                Phase::Emitting
            } else {
                Phase::Idle
            };
        }
    }

    /// Ends the cycle once the points are handed over.
    pub fn stop_emitting(&mut self)
        ensures
            final(self)@ == after_emit(old(self)@),
    {
        match self.phase {
            Phase::Emitting => {
                self.phase = Phase::Idle;
            },
            _ => {},
        }
    }
}

/// What holds of every state that a coordinator reaches: a subscription
/// needs a window, a window needs one handle for each metric, and a URL or a
/// fetch needs a subscription.
pub open spec fn consistent(cycle: Cycle) -> bool {
    &&& cycle.window_start is None ==> cycle.phase == Phase::Idle && !cycle.subscribed
    &&& cycle.window_start is Some ==> cycle.handles.len() == cycle.settings.metrics.len()
    &&& cycle.window_start is Some && !cycle.subscribed ==> cycle.phase == Phase::WindowArmed
    &&& cycle.subscribed ==> cycle.phase != Phase::WindowArmed
    &&& cycle.pending is Some || cycle.in_flight ==> cycle.subscribed
}

/// The first state is consistent, and every step keeps a consistent state
/// consistent.
pub proof fn lemma_steps_keep_consistency(
    cycle: Cycle,
    handles: Seq<usize>,
    now: int,
    url: Option<Seq<char>>,
    gave_points: bool,
)
    requires
        consistent(cycle),
    ensures
        consistent(initial(cycle.settings)),
        consistent(after_start(cycle, handles, now)),
        consistent(after_subscribe(cycle)),
        consistent(after_url(cycle, url)),
        consistent(after_event(cycle, now)),
        consistent(after_poll_begin(cycle)),
        consistent(after_poll_end(cycle, gave_points)),
        consistent(after_emit(cycle)),
{
}

/// Of two events before any poll, the second decides: where it can be
/// written, the slot holds the URL of its window, the state is the one that
/// the second event alone would have left, the outcome tells whether a URL
/// was overwritten, and the next poll, with no fetch under way, fetches that
/// URL.
pub proof fn lemma_last_event_wins(cycle: Cycle, first: int, second: int)
    requires
        cycle.subscribed,
        event_url(cycle, second) is Some,
    ensures
        after_event(after_event(cycle, first), second) == after_event(cycle, second),
        after_event(after_event(cycle, first), second).pending == event_url(cycle, second),
        event_outcome(after_event(cycle, first), second) == (EventOutcome::Triggered {
            replaced: cycle.pending is Some || event_url(cycle, first) is Some,
        }),
        !cycle.in_flight ==> can_fetch(after_event(after_event(cycle, first), second)),
{
}

/// A poll that finds the slot empty leaves the state as it was.
pub proof fn lemma_empty_poll_changes_nothing(cycle: Cycle)
    requires
        cycle.pending is None,
    ensures
        after_poll_begin(cycle) == cycle,
{
}

/// While a fetch is under way no poll begins another, whatever waits in the
/// slot, and only the end of the fetch ends it: no other step does.
pub proof fn lemma_one_fetch_at_a_time(
    cycle: Cycle,
    handles: Seq<usize>,
    now: int,
    url: Option<Seq<char>>,
    gave_points: bool,
)
    requires
        cycle.in_flight,
    ensures
        !can_fetch(cycle),
        after_poll_begin(cycle) == cycle,
        after_start(cycle, handles, now).in_flight,
        after_subscribe(cycle).in_flight,
        after_url(cycle, url).in_flight,
        after_event(cycle, now).in_flight,
        after_emit(cycle).in_flight,
        !after_poll_end(cycle, gave_points).in_flight,
{
}

} // verus!
