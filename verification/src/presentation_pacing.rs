//! Keeps a window's frames from queueing in front of the display.
//!
//! A `CAMetalLayer` shows its drawables in order, each for at least one refresh. A window that
//! draws once per vsync therefore keeps whatever queue it once built: two frames submitted
//! within one refresh put a frame between every later frame and the glass, and every later
//! frame pays one refresh more for good.
//!
//! The pacer holds back one vsync tick when frames are arriving a refresh later than the
//! pipeline needs, which drains the queue by one frame, and it never begins two frames within
//! half a refresh, which stops a queue from forming out of tick jitter.
//!
//! What the pipeline needs, the floor, is the lowest submit-to-glass seen recently. When holds
//! keep gaining nothing, the floor was wrong (the display or compositor path changed) and the
//! pacer takes the new latency as its floor.

use crate::time::{moment, span, Duration, Instant};
use vstd::prelude::*;

verus! {

/// Reports per floor epoch. The floor is the minimum over the current and previous epoch, so
/// it follows a slower pipeline within two epochs.
pub const FLOOR_EPOCH: u32 = 240;

/// Holds in a row that gain nothing before the pacer takes the latency as its new floor.
/// Fewer would let a busy machine, which can queue a frame again right after a hold, switch
/// pacing off for a while.
pub const FAILED_HOLDS_BEFORE_NEW_FLOOR: u32 = 3;

/// Reports to wait after the first failed hold before trying again, doubling per failure.
pub const COOLDOWN_REPORTS: u32 = 8;

/// A frame the display has shown or dropped.
#[derive(Debug, Clone, Copy, PartialEq, Eq)]
pub struct PresentedFrame {
    /// When the frame was handed to the GPU.
    pub submitted_at: Instant,
    /// When it reached the glass, `None` for a frame that was dropped unshown.
    pub presented_at: Option<Instant>,
}

/// The floor assumed before any frame shows the real one: a frame counts as queued once it
/// takes two refreshes.
pub open spec fn prior_floor_spec(refresh: nat) -> nat {
    refresh * 3 / 4
}

/// The floor assumed before any frame shows the real one. A window's first frames can queue
/// before one of them ever reaches the glass unqueued, and a floor learned only from them
/// would never see the queue.
pub fn prior_floor(refresh: Duration) -> (floor: Duration)
    ensures
        floor@ == prior_floor_spec(refresh@),
{
    Duration { nanos: (refresh.nanos as u128 * 3 / 4) as u64 }
}

pub open spec fn min_nat(a: nat, b: nat) -> nat {
    if a <= b {
        a
    } else {
        b
    }
}

/// What an [`EpochMin`] remembers.
pub struct EpochMinState {
    pub current: Option<nat>,
    pub previous: Option<nat>,
    pub samples: nat,
}

impl EpochMinState {
    /// Nothing observed yet.
    pub open spec fn empty() -> Self {
        EpochMinState { current: None, previous: None, samples: 0 }
    }

    pub open spec fn valid(self) -> bool {
        &&& self.samples < FLOOR_EPOCH
        &&& self.current is Some <==> self.samples > 0
    }

    /// Takes one sample into the current epoch, and turns the epoch over when that fills it.
    pub open spec fn observe(self, sample: nat) -> Self {
        let lowest = match self.current {
            Some(current) => min_nat(current, sample),
            None => sample,
        };
        if self.samples + 1 == FLOOR_EPOCH {
            EpochMinState { current: None, previous: Some(lowest), samples: 0 }
        } else {
            EpochMinState { current: Some(lowest), samples: self.samples + 1, ..self }
        }
    }

    pub open spec fn starting_at(sample: nat) -> Self {
        Self::empty().observe(sample)
    }

    /// The minimum over both epochs.
    pub open spec fn lowest(self) -> Option<nat> {
        match (self.current, self.previous) {
            (Some(current), Some(previous)) => Some(min_nat(current, previous)),
            (Some(current), None) => Some(current),
            (None, previous) => previous,
        }
    }
}

/// The minimum over the current and the previous epoch of [`FLOOR_EPOCH`] samples.
#[derive(Debug)]
pub struct EpochMin {
    current: Option<Duration>,
    previous: Option<Duration>,
    samples: u32,
}

pub open spec fn span_of(duration: Option<Duration>) -> Option<nat> {
    match duration {
        Some(duration) => Some(duration@),
        None => None,
    }
}

impl View for EpochMin {
    type V = EpochMinState;

    closed spec fn view(&self) -> EpochMinState {
        EpochMinState {
            current: span_of(self.current),
            previous: span_of(self.previous),
            samples: self.samples as nat,
        }
    }
}

impl Default for EpochMin {
    /// Nothing observed yet.
    fn default() -> (min: Self)
        ensures
            min.wf(),
            min@ == EpochMinState::empty(),
    {
        EpochMin { current: None, previous: None, samples: 0 }
    }
}

impl EpochMin {
    pub open spec fn wf(self) -> bool {
        self@.valid()
    }

    pub fn observe(&mut self, sample: Duration)
        requires
            old(self).wf(),
        ensures
            final(self).wf(),
            final(self)@ == old(self)@.observe(sample@),
    {
        let lowest = match self.current {
            Some(current) => if current.nanos <= sample.nanos {
                current
            } else {
                sample
            },
            None => sample,
        };
        self.current = Some(lowest);
        self.samples = self.samples + 1;
        if self.samples >= FLOOR_EPOCH {
            self.previous = self.current.take();
            self.samples = 0;
        }
    }

    pub fn starting_at(sample: Duration) -> (min: Self)
        ensures
            min.wf(),
            min@ == EpochMinState::starting_at(sample@),
    {
        let mut min = EpochMin::default();
        min.observe(sample);
        min
    }

    /// Forgets everything but `sample`.
    pub fn restart(&mut self, sample: Duration)
        ensures
            final(self).wf(),
            final(self)@ == EpochMinState::starting_at(sample@),
    {
        *self = Self::starting_at(sample);
    }

    pub fn get(&self) -> (lowest: Option<Duration>)
        ensures
            span_of(lowest) == self@.lowest(),
    {
        match (self.current, self.previous) {
            (Some(current), Some(previous)) => if current.nanos <= previous.nanos {
                Some(current)
            } else {
                Some(previous)
            },
            (Some(current), None) => Some(current),
            (None, previous) => previous,
        }
    }
}

/// A vsync tick the pacer refused so that a queued frame could drain.
pub struct HoldState {
    pub at: nat,
    pub latency_before: nat,
    pub judged: bool,
}

/// What a [`PresentationPacer`] remembers, as plain numbers of nanoseconds.
pub struct PacerState {
    pub refresh: nat,
    pub floor: EpochMinState,
    pub approved_tick: Option<nat>,
    pub last_frame_began: Option<nat>,
    pub queued: bool,
    pub last_latency: nat,
    pub hold: Option<HoldState>,
    pub failed_holds: nat,
    pub cooldown: nat,
}

/// How many reports to sit out after the `failures`th failed hold in a row.
pub open spec fn cooldown_after(failures: nat) -> nat
    recommends
        0 < failures < FAILED_HOLDS_BEFORE_NEW_FLOOR,
    decreases failures,
{
    if failures <= 1 {
        COOLDOWN_REPORTS as nat
    } else {
        2 * cooldown_after((failures - 1) as nat)
    }
}

impl PacerState {
    pub open spec fn starting_at(refresh: nat) -> Self {
        PacerState {
            refresh,
            floor: EpochMinState::starting_at(prior_floor_spec(refresh)),
            approved_tick: None,
            last_frame_began: None,
            queued: false,
            last_latency: 0,
            hold: None,
            failed_holds: 0,
            cooldown: 0,
        }
    }

    /// What holds of every pacer that began with [`PacerState::starting_at`].
    pub open spec fn valid(self) -> bool {
        &&& self.floor.valid()
        &&& self.floor.lowest() is Some
        &&& self.failed_holds < FAILED_HOLDS_BEFORE_NEW_FLOOR
        &&& self.awaits_judgement() ==> !self.queued && self.cooldown == 0
    }

    /// A tick was held and no frame submitted since has been reported.
    pub open spec fn awaits_judgement(self) -> bool {
        self.hold matches Some(hold) && !hold.judged
    }

    /// A changed refresh interval starts the floor over.
    pub open spec fn set_refresh(self, refresh: nat) -> Self {
        if refresh == self.refresh {
            self
        } else {
            PacerState {
                refresh,
                floor: EpochMinState::starting_at(prior_floor_spec(refresh)),
                ..self
            }
        }
    }

    /// A frame begins at the tick that approved it, or at its submission when none did.
    pub open spec fn submitted(self, at: nat) -> Self {
        PacerState {
            last_frame_began: Some(
                match self.approved_tick {
                    Some(tick) => tick,
                    None => at,
                },
            ),
            approved_tick: None,
            ..self
        }
    }

    /// Whether no frame began within the last `interval`.
    pub open spec fn quiet_for(self, interval: nat, now: nat) -> bool {
        match self.last_frame_began {
            Some(last) => span(last, now) >= interval,
            None => true,
        }
    }

    /// From this latency on a frame must have waited behind another one.
    pub open spec fn queued_from(self) -> nat {
        self.floor.lowest().unwrap() + self.refresh + self.refresh / 4
    }

    /// A report that says nothing of a hold: it moves the floor, and tells whether frames queue.
    pub open spec fn learn(self, latency: nat) -> Self {
        let seen = PacerState {
            cooldown: if self.cooldown > 0 {
                (self.cooldown - 1) as nat
            } else {
                0
            },
            floor: self.floor.observe(latency),
            ..self
        };
        let queued = latency >= seen.queued_from();
        PacerState {
            queued,
            last_latency: if queued {
                latency
            } else {
                self.last_latency
            },
            ..seen
        }
    }

    /// Whether a hold after which frames take `latency` gained nothing.
    pub open spec fn gained_nothing(self, hold: HoldState, latency: nat) -> bool {
        latency + self.refresh / 2 > hold.latency_before
    }

    /// A hold gained nothing: wait before the next one, or give the floor up after too many.
    pub open spec fn hold_failed(self, hold: HoldState, latency: nat) -> Self {
        let failures = self.failed_holds + 1;
        let judged = PacerState {
            hold: Some(HoldState { judged: true, ..hold }),
            queued: false,
            ..self
        };
        if failures == FAILED_HOLDS_BEFORE_NEW_FLOOR {
            PacerState { failed_holds: 0, floor: EpochMinState::starting_at(latency), ..judged }
        } else {
            PacerState { failed_holds: failures, cooldown: cooldown_after(failures), ..judged }
        }
    }

    /// One frame's report. A dropped frame, and one submitted before the last hold, says
    /// nothing. The first later frame judges the hold.
    pub open spec fn presented(self, submitted_at: nat, presented_at: Option<nat>) -> Self {
        match presented_at {
            None => self,
            Some(presented_at) => {
                let latency = span(submitted_at, presented_at);
                match self.hold {
                    None => self.learn(latency),
                    Some(hold) => if submitted_at < hold.at {
                        self
                    } else if hold.judged {
                        self.learn(latency)
                    } else if self.gained_nothing(hold, latency) {
                        self.hold_failed(hold, latency)
                    } else {
                        PacerState {
                            hold: Some(HoldState { judged: true, ..hold }),
                            failed_holds: 0,
                            ..self
                        }.learn(latency)
                    },
                }
            },
        }
    }

    /// Whether the next tick is held back whatever its time.
    pub open spec fn holds_next_tick(self) -> bool {
        self.queued && self.cooldown == 0
    }

    /// Whether a tick at `now` draws.
    pub open spec fn draws(self, now: nat) -> bool {
        !self.holds_next_tick() && self.quiet_for(self.refresh / 2, now)
    }

    /// What a tick at `now` leaves behind.
    pub open spec fn tick(self, now: nat) -> Self {
        if self.holds_next_tick() {
            PacerState {
                queued: false,
                hold: Some(
                    HoldState { at: now, latency_before: self.last_latency, judged: false },
                ),
                ..self
            }
        } else if self.draws(now) {
            PacerState { approved_tick: Some(now), ..self }
        } else {
            self
        }
    }
}

#[derive(Debug, Clone, Copy)]
struct Hold {
    at: Instant,
    latency_before: Duration,
    judged: bool,
}

/// Decides which vsync ticks draw.
#[derive(Debug)]
pub struct PresentationPacer {
    refresh: Duration,
    floor: EpochMin,
    /// The tick the last drawing tick approved, taken by the frame it drew.
    approved_tick: Option<Instant>,
    /// When the last frame began: its tick, or its submission when no tick drew it.
    last_frame_began: Option<Instant>,
    /// The last report was of a queued frame.
    queued: bool,
    last_latency: Duration,
    hold: Option<Hold>,
    failed_holds: u32,
    /// Reports left before another hold may follow a failed one.
    cooldown: u32,
}

impl View for PresentationPacer {
    type V = PacerState;

    closed spec fn view(&self) -> PacerState {
        PacerState {
            refresh: self.refresh@,
            floor: self.floor@,
            approved_tick: moment(self.approved_tick),
            last_frame_began: moment(self.last_frame_began),
            queued: self.queued,
            last_latency: self.last_latency@,
            hold: match self.hold {
                Some(hold) => Some(
                    HoldState {
                        at: hold.at@,
                        latency_before: hold.latency_before@,
                        judged: hold.judged,
                    },
                ),
                None => None,
            },
            failed_holds: self.failed_holds as nat,
            cooldown: self.cooldown as nat,
        }
    }
}

impl PresentationPacer {
    pub open spec fn wf(self) -> bool {
        self@.valid()
    }

    pub fn new(refresh: Duration) -> (pacer: Self)
        ensures
            pacer.wf(),
            pacer@ == PacerState::starting_at(refresh@),
    {
        PresentationPacer {
            refresh,
            floor: EpochMin::starting_at(prior_floor(refresh)),
            approved_tick: None,
            last_frame_began: None,
            queued: false,
            last_latency: Duration { nanos: 0 },
            hold: None,
            failed_holds: 0,
            cooldown: 0,
        }
    }

    /// What the pipeline needs from submission to glass, as far as the reports tell.
    pub fn floor(&self) -> (floor: &EpochMin)
        ensures
            floor@ == self@.floor,
    {
        &self.floor
    }

    /// The display's shortest refresh interval.
    pub fn set_refresh(&mut self, refresh: Duration)
        requires
            old(self).wf(),
        ensures
            final(self).wf(),
            final(self)@ == old(self)@.set_refresh(refresh@),
    {
        if refresh.nanos != self.refresh.nanos {
            self.refresh = refresh;
            self.floor = EpochMin::starting_at(prior_floor(refresh));
        }
    }

    /// A frame was handed to the GPU.
    pub fn submitted(&mut self, at: Instant)
        requires
            old(self).wf(),
        ensures
            final(self).wf(),
            final(self)@ == old(self)@.submitted(at@),
    {
        let began = match self.approved_tick.take() {
            Some(tick) => tick,
            None => at,
        };
        self.last_frame_began = Some(began);
    }

    /// The display showed or dropped a frame.
    pub fn presented(&mut self, frame: PresentedFrame)
        requires
            old(self).wf(),
        ensures
            final(self).wf(),
            final(self)@ == old(self)@.presented(
                frame.submitted_at@,
                moment(frame.presented_at),
            ),
    {
        let presented_at = match frame.presented_at {
            Some(at) => at,
            None => return,
        };
        let latency = presented_at.saturating_duration_since(frame.submitted_at);
        if let Some(hold) = self.hold {
            // Frames submitted before the hold were already queued; they say nothing of it.
            if frame.submitted_at.nanos < hold.at.nanos {
                return;
            }
            if !hold.judged {
                self.hold = Some(Hold { judged: true, ..hold });
                if latency.nanos as u128 + (self.refresh.nanos / 2) as u128
                    > hold.latency_before.nanos as u128 {
                    self.failed_holds = self.failed_holds + 1;
                    if self.failed_holds >= FAILED_HOLDS_BEFORE_NEW_FLOOR {
                        self.failed_holds = 0;
                        self.floor.restart(latency);
                    } else {
                        proof {
                            reveal_with_fuel(cooldown_after, 3);
                        }
                        self.cooldown = if self.failed_holds == 1 {
                            COOLDOWN_REPORTS
                        } else {
                            2 * COOLDOWN_REPORTS
                        };
                    }
                    self.queued = false;
                    return;
                }
                self.failed_holds = 0;
            }
        }
        if self.cooldown > 0 {
            self.cooldown = self.cooldown - 1;
        }
        self.floor.observe(latency);
        if let Some(floor) = self.floor.get() {
            let queued_from: u128 = floor.nanos as u128 + self.refresh.nanos as u128 + (
            self.refresh.nanos / 4) as u128;
            self.queued = latency.nanos as u128 >= queued_from;
            if self.queued {
                self.last_latency = latency;
            }
        }
    }

    /// Whether no frame began within the last refresh.
    pub fn idle_for_a_refresh(&self, now: Instant) -> (idle: bool)
        ensures
            idle == self@.quiet_for(self@.refresh, now@),
    {
        match self.last_frame_began {
            Some(last) => now.saturating_duration_since(last).nanos >= self.refresh.nanos,
            None => true,
        }
    }

    /// Whether a vsync tick at `now` should draw. A tick this refuses leaves the window's
    /// demand for the next one.
    pub fn should_draw(&mut self, now: Instant) -> (draw: bool)
        requires
            old(self).wf(),
        ensures
            final(self).wf(),
            draw == old(self)@.draws(now@),
            final(self)@ == old(self)@.tick(now@),
    {
        if self.queued && self.cooldown == 0 {
            self.queued = false;
            self.hold = Some(
                Hold { at: now, latency_before: self.last_latency, judged: false },
            );
            return false;
        }
        let draw = match self.last_frame_began {
            Some(last) => now.saturating_duration_since(last).nanos >= self.refresh.nanos / 2,
            None => true,
        };
        if draw {
            self.approved_tick = Some(now);
        }
        draw
    }
}

} // verus!
