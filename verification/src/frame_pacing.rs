//! When an iOS window draws: the display link's schedule, as data.
//!
//! A window's `CADisplayLink` runs only while frames are wanted. Each frame that leaves no
//! demand behind pauses it, and a wake resumes it as soon as a view is notified or an animation
//! frame is requested. An idle window therefore costs no ticks.
//!
//! Resuming a paused link alone would add latency: the first tick after idle arrives at the
//! next vsync, and the frame drawn there reaches the glass a refresh later still. So a wake
//! from idle also draws at once, on the next main-queue turn, and the link paces whatever
//! follows. The immediate draw happens only when the previous frame is at least one refresh
//! old, which keeps a source that notifies faster than the display from drawing faster than it
//! too. It also happens only while the window is visible, because iOS refuses GPU work from the
//! background.

use crate::time::{moment, span, Duration, Instant};
use vstd::prelude::*;

verus! {

/// What the window must do after a wake.
#[derive(Debug, Clone, Copy, PartialEq, Eq, Structural)]
pub enum Wake {
    /// The link is running or a frame is in progress; that frame or the next tick serves the
    /// demand.
    Nothing,
    /// Unpause the link; its next tick draws.
    Resume,
    /// Unpause the link and queue an immediate frame on the main queue.
    ResumeAndDrawNow,
}

/// Where a frame came from.
#[derive(Debug, Clone, Copy, PartialEq, Eq, Structural)]
pub enum FrameSource {
    /// A `CADisplayLink` tick.
    DisplayLink,
    /// The immediate frame a [`Wake::ResumeAndDrawNow`] queued.
    Immediate,
}

/// What a [`FramePacer`] remembers.
pub struct LinkState {
    pub paused: bool,
    pub in_frame: bool,
    pub demand: bool,
    pub immediate_pending: bool,
    pub last_frame_at: Option<nat>,
    pub refresh_interval: nat,
}

impl LinkState {
    /// A paused link that has drawn nothing.
    pub open spec fn starting_at(refresh_interval: nat) -> Self {
        LinkState {
            paused: true,
            in_frame: false,
            demand: false,
            immediate_pending: false,
            last_frame_at: None,
            refresh_interval,
        }
    }

    /// What holds of every link that began with [`LinkState::starting_at`]: a queued immediate
    /// frame is wanted, and the link runs beside it.
    pub open spec fn valid(self) -> bool {
        self.immediate_pending ==> self.demand && !self.paused
    }

    /// Whether a frame drawn at `now` cannot outrun the display.
    pub open spec fn idle_for_a_refresh(self, now: nat) -> bool {
        match self.last_frame_at {
            Some(last) => span(last, now) >= self.refresh_interval,
            None => true,
        }
    }

    /// What a wake asks of the window.
    pub open spec fn wake_asks(self, now: nat, visible: bool) -> Wake {
        if self.in_frame || !self.paused {
            Wake::Nothing
        } else if visible && self.idle_for_a_refresh(now) {
            Wake::ResumeAndDrawNow
        } else {
            Wake::Resume
        }
    }

    /// What a wake leaves behind.
    pub open spec fn woken(self, now: nat, visible: bool) -> Self {
        let asked = self.wake_asks(now, visible);
        LinkState {
            demand: true,
            paused: self.paused && asked is Nothing,
            immediate_pending: self.immediate_pending || asked is ResumeAndDrawNow,
            ..self
        }
    }

    /// Whether a frame from `source` runs.
    pub open spec fn runs(self, source: FrameSource) -> bool {
        source is Immediate ==> self.immediate_pending
    }

    /// What the start of a frame leaves behind.
    pub open spec fn begun(self, source: FrameSource, now: nat) -> Self {
        if self.runs(source) {
            LinkState {
                immediate_pending: false,
                in_frame: true,
                demand: false,
                last_frame_at: Some(now),
                ..self
            }
        } else {
            self
        }
    }

    /// Whether the end of a frame pauses the link.
    pub open spec fn pauses(self) -> bool {
        !self.demand && !self.paused
    }

    /// What the end of a frame leaves behind.
    pub open spec fn ended(self) -> Self {
        LinkState { in_frame: false, paused: self.paused || self.pauses(), ..self }
    }
}

/// Decides when a window's display link runs and when a frame is drawn beside it.
#[derive(Debug)]
pub struct FramePacer {
    /// Whether the link is paused, as last requested.
    paused: bool,
    in_frame: bool,
    /// A wake arrived since the current frame began.
    demand: bool,
    immediate_pending: bool,
    last_frame_at: Option<Instant>,
    refresh_interval: Duration,
}

impl View for FramePacer {
    type V = LinkState;

    closed spec fn view(&self) -> LinkState {
        LinkState {
            paused: self.paused,
            in_frame: self.in_frame,
            demand: self.demand,
            immediate_pending: self.immediate_pending,
            last_frame_at: moment(self.last_frame_at),
            refresh_interval: self.refresh_interval@,
        }
    }
}

impl FramePacer {
    pub open spec fn wf(self) -> bool {
        self@.valid()
    }

    /// A pacer for a link that starts paused, on a display refreshing every
    /// `refresh_interval`.
    pub fn new(refresh_interval: Duration) -> (pacer: Self)
        ensures
            pacer.wf(),
            pacer@ == LinkState::starting_at(refresh_interval@),
    {
        FramePacer {
            paused: true,
            in_frame: false,
            demand: false,
            immediate_pending: false,
            last_frame_at: None,
            refresh_interval,
        }
    }

    /// A frame is wanted.
    pub fn wake(&mut self, now: Instant, visible: bool) -> (asked: Wake)
        requires
            old(self).wf(),
        ensures
            final(self).wf(),
            asked == old(self)@.wake_asks(now@, visible),
            final(self)@ == old(self)@.woken(now@, visible),
    {
        self.demand = true;
        if self.in_frame || !self.paused {
            return Wake::Nothing;
        }
        self.paused = false;
        let idle_for_a_refresh = match self.last_frame_at {
            Some(last) => now.saturating_duration_since(last).nanos >= self.refresh_interval.nanos,
            None => true,
        };
        if visible && idle_for_a_refresh && !self.immediate_pending {
            self.immediate_pending = true;
            Wake::ResumeAndDrawNow
        } else {
            Wake::Resume
        }
    }

    /// A frame is about to run. Returns `false` for an immediate frame a display link tick
    /// already served, which must not run.
    pub fn begin_frame(&mut self, source: FrameSource, now: Instant) -> (runs: bool)
        requires
            old(self).wf(),
        ensures
            final(self).wf(),
            runs == old(self)@.runs(source),
            final(self)@ == old(self)@.begun(source, now@),
    {
        if source == FrameSource::Immediate && !self.immediate_pending {
            return false;
        }
        self.immediate_pending = false;
        self.in_frame = true;
        self.demand = false;
        self.last_frame_at = Some(now);
        true
    }

    /// The frame finished. Returns whether the link must pause: nothing asked for another
    /// frame while this one ran.
    pub fn end_frame(&mut self) -> (pauses: bool)
        requires
            old(self).wf(),
        ensures
            final(self).wf(),
            pauses == old(self)@.pauses(),
            final(self)@ == old(self)@.ended(),
    {
        self.in_frame = false;
        if self.demand || self.paused {
            return false;
        }
        self.paused = true;
        true
    }
}

/// One call on a pacer.
pub enum LinkEvent {
    Wake { now: nat, visible: bool },
    BeginFrame { source: FrameSource, now: nat },
    EndFrame,
}

impl LinkState {
    pub open spec fn step(self, event: LinkEvent) -> Self {
        match event {
            LinkEvent::Wake { now, visible } => self.woken(now, visible),
            LinkEvent::BeginFrame { source, now } => self.begun(source, now),
            LinkEvent::EndFrame => self.ended(),
        }
    }

    /// The link after every event, in order.
    pub open spec fn run(self, events: Seq<LinkEvent>) -> Self
        decreases events.len(),
    {
        if events.len() == 0 {
            self
        } else {
            self.run(events.drop_last()).step(events.last())
        }
    }

    /// Whether nothing that was wanted is forgotten: the link runs, or a frame in progress will
    /// keep it running.
    pub open spec fn serves_demand(self) -> bool {
        &&& self.demand ==> !self.paused
        &&& self.in_frame ==> !self.paused
    }
}

/// However a pacer is driven, it stays valid.
pub proof fn law_every_run_stays_valid(state: LinkState, events: Seq<LinkEvent>)
    requires
        state.valid(),
    ensures
        state.run(events).valid(),
    decreases events.len(),
{
    if events.len() > 0 {
        law_every_run_stays_valid(state, events.drop_last());
    }
}

/// Whether the display link ticks only while it runs.
pub open spec fn ticks_only_while_running(state: LinkState, events: Seq<LinkEvent>) -> bool {
    forall|i: int|
        0 <= i < events.len() ==> (#[trigger] events[i] matches LinkEvent::BeginFrame {
            source: FrameSource::DisplayLink,
            ..
        } ==> !state.run(events.take(i)).paused)
}

/// A link that ticks only while it runs never leaves a wanted frame behind a paused link.
pub proof fn law_demand_is_never_lost(refresh_interval: nat, events: Seq<LinkEvent>)
    requires
        ticks_only_while_running(LinkState::starting_at(refresh_interval), events),
    ensures
        LinkState::starting_at(refresh_interval).run(events).serves_demand(),
    decreases events.len(),
{
    let start = LinkState::starting_at(refresh_interval);
    if events.len() > 0 {
        let earlier = events.drop_last();
        assert forall|i: int| 0 <= i < earlier.len() implies (#[trigger] earlier[i] matches LinkEvent::BeginFrame {
            source: FrameSource::DisplayLink,
            ..
        } ==> !start.run(earlier.take(i)).paused) by {
            assert(events[i] == earlier[i]);
            assert(events.take(i) =~= earlier.take(i));
        }
        law_demand_is_never_lost(refresh_interval, earlier);
        law_every_run_stays_valid(start, earlier);
        assert(events[events.len() - 1] == events.last());
        assert(events.take(events.len() - 1) =~= earlier);
    }
}

/// A frame during which nothing woke the window pauses a running link, so an idle window gets
/// no ticks; one during which something did keeps it running.
pub proof fn law_a_frame_without_demand_pauses(
    state: LinkState,
    source: FrameSource,
    now: nat,
    wakes: Seq<LinkEvent>,
)
    requires
        state.valid(),
        !state.paused,
        state.runs(source),
        forall|i: int| 0 <= i < wakes.len() ==> wakes[i] is Wake,
    ensures
        state.begun(source, now).run(wakes).pauses() <==> wakes.len() == 0,
        state.begun(source, now).run(wakes).ended().paused <==> wakes.len() == 0,
        state.begun(source, now).run(wakes).in_frame,
        !state.begun(source, now).run(wakes).paused,
    decreases wakes.len(),
{
    if wakes.len() > 0 {
        assert(wakes[wakes.len() - 1] is Wake);
        assert forall|i: int| 0 <= i < wakes.drop_last().len() implies wakes.drop_last()[i] is Wake by {
            assert(wakes[i] is Wake);
        }
        law_a_frame_without_demand_pauses(state, source, now, wakes.drop_last());
    }
}

/// A wake draws at once only from a visible window, and never within a refresh of the frame
/// before it.
pub proof fn law_an_immediate_frame_never_outruns_the_display(
    state: LinkState,
    now: nat,
    visible: bool,
)
    ensures
        state.wake_asks(now, visible) is ResumeAndDrawNow ==> visible && (
        state.last_frame_at matches Some(last) ==> span(last, now) >= state.refresh_interval),
{
}

/// Until a frame begins, further wakes ask for nothing: one immediate frame is queued however
/// many there are.
pub proof fn law_repeated_wakes_queue_one_frame(
    state: LinkState,
    now: nat,
    visible: bool,
    wakes: Seq<LinkEvent>,
    later: nat,
    still_visible: bool,
)
    requires
        state.valid(),
        forall|i: int| 0 <= i < wakes.len() ==> wakes[i] is Wake,
    ensures
        state.woken(now, visible).run(wakes).wake_asks(later, still_visible) is Nothing,
    decreases wakes.len(),
{
    if wakes.len() > 0 {
        assert(wakes[wakes.len() - 1] is Wake);
        assert forall|i: int| 0 <= i < wakes.drop_last().len() implies wakes.drop_last()[i] is Wake by {
            assert(wakes[i] is Wake);
        }
        law_repeated_wakes_queue_one_frame(
            state,
            now,
            visible,
            wakes.drop_last(),
            later,
            still_visible,
        );
    }
}

/// Whether no wake among `events` queues an immediate frame.
pub open spec fn queues_nothing(state: LinkState, events: Seq<LinkEvent>) -> bool {
    forall|i: int|
        0 <= i < events.len() ==> (#[trigger] events[i] matches LinkEvent::Wake { now, visible }
            ==> state.run(events.take(i)).wake_asks(now, visible) !is ResumeAndDrawNow)
}

/// An immediate frame runs at most once: after any frame has begun, a queued one is stale until
/// a wake queues another, whatever else happens.
pub proof fn law_a_served_immediate_frame_is_stale(
    state: LinkState,
    source: FrameSource,
    now: nat,
    later: Seq<LinkEvent>,
)
    requires
        state.runs(source),
        queues_nothing(state.begun(source, now), later),
    ensures
        !state.begun(source, now).run(later).runs(FrameSource::Immediate),
    decreases later.len(),
{
    if later.len() > 0 {
        let begun = state.begun(source, now);
        let earlier = later.drop_last();
        assert forall|i: int| 0 <= i < earlier.len() implies (#[trigger] earlier[i] matches LinkEvent::Wake {
            now,
            visible,
        } ==> begun.run(earlier.take(i)).wake_asks(now, visible) !is ResumeAndDrawNow) by {
            assert(later[i] == earlier[i]);
            assert(later.take(i) =~= earlier.take(i));
        }
        law_a_served_immediate_frame_is_stale(state, source, now, earlier);
        assert(later[later.len() - 1] == later.last());
        assert(later.take(later.len() - 1) =~= earlier);
    }
}

} // verus!
