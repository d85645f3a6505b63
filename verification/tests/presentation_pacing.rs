//! Frames against a simulated display.

use apple_frames::presentation_pacing::{
    prior_floor, EpochMin, PresentationPacer, PresentedFrame, COOLDOWN_REPORTS,
    FAILED_HOLDS_BEFORE_NEW_FLOOR, FLOOR_EPOCH,
};
use apple_frames::time::{Duration, Instant};

const REFRESH: u64 = 13_333_000;
const FLOOR: u64 = 13_000_000;

/// Where the compositor's deadline sits after a tick.
const PHASE: u64 = 5_000_000;

const START: u64 = 1_000_000_000;

fn ms(value: f64) -> u64 {
    (value * 1e6).round() as u64
}

fn at(nanos: u64) -> Instant {
    Instant { nanos }
}

fn refresh() -> Duration {
    Duration { nanos: REFRESH }
}

fn shown(submitted_at: u64, presented_at: u64) -> PresentedFrame {
    PresentedFrame {
        submitted_at: at(submitted_at),
        presented_at: Some(at(presented_at)),
    }
}

/// A display that shows a frame at the first refresh at least `floor` after its submission, and
/// never sooner than a refresh after the frame ahead of it. A tick arrives every refresh.
struct Display {
    pacer: PresentationPacer,
    start: u64,
    /// Submission and presentation of frames not yet reported.
    in_flight: Vec<(u64, u64)>,
    last_frame: (u64, u64),
    holds: usize,
}

impl Display {
    /// A display whose first frame, submitted right at a deadline, reaches the glass unqueued
    /// `floor` later, and reports it when `report_first` holds.
    fn new(floor: u64, report_first: bool) -> Self {
        let start = START;
        let mut pacer = PresentationPacer::new(refresh());
        let first = (start + PHASE, start + PHASE + floor);
        pacer.submitted(at(first.0));
        if report_first {
            pacer.presented(shown(first.0, first.1));
        }
        Self {
            pacer,
            start,
            in_flight: Vec::new(),
            last_frame: first,
            holds: 0,
        }
    }

    fn at(&self, tick: u64) -> u64 {
        self.start + REFRESH * (tick + 10)
    }

    fn submit(&mut self, submitted_at: u64, floor: u64) {
        self.pacer.submitted(at(submitted_at));
        let mut on_glass = self.last_frame.1;
        while on_glass < submitted_at + floor || on_glass < self.last_frame.1 + REFRESH {
            on_glass += REFRESH;
        }
        self.last_frame = (submitted_at, on_glass);
        self.in_flight.push(self.last_frame);
    }

    /// Reports every frame on the glass by the tick, then offers it to the pacer.
    fn tick(&mut self, tick: u64, floor: u64, build: u64) {
        let now = self.at(tick);
        let (on_glass, waiting): (Vec<_>, Vec<_>) = self
            .in_flight
            .drain(..)
            .partition(|(_, on_glass)| *on_glass <= now);
        self.in_flight = waiting;
        for (submitted_at, presented_at) in on_glass {
            self.pacer.presented(shown(submitted_at, presented_at));
        }
        if self.pacer.should_draw(at(now)) {
            self.submit(now + build, floor);
        } else {
            self.holds += 1;
        }
    }

    fn latency(&self) -> u64 {
        self.last_frame.1 - self.last_frame.0
    }
}

#[test]
fn an_unqueued_animation_is_never_held() {
    let mut display = Display::new(FLOOR, true);
    for tick in 0..600 {
        display.tick(tick, FLOOR, ms(0.3));
    }
    assert_eq!(display.holds, 0);
    assert_eq!(display.latency(), FLOOR + PHASE - ms(0.3));
}

#[test]
fn a_queued_frame_is_drained_with_one_hold() {
    let mut display = Display::new(FLOOR, true);
    for tick in 0..100 {
        display.tick(tick, FLOOR, ms(0.3));
    }
    let unqueued = display.latency();
    // A second frame within the refresh, as a late tick followed by a punctual one makes,
    // bypassing the pacer.
    display.submit(display.at(99) + ms(1.), FLOOR);
    for tick in 100..400 {
        display.tick(tick, FLOOR, ms(0.3));
    }
    assert_eq!(display.holds, 1);
    assert_eq!(display.latency(), unqueued);
}

#[test]
fn a_queue_from_the_first_frames_is_drained() {
    let mut display = Display::new(FLOOR, false);
    display.submit(display.at(0) - ms(2.), FLOOR);
    for tick in 0..300 {
        display.tick(tick, FLOOR, ms(0.3));
    }
    assert_eq!(display.holds, 1);
    assert_eq!(display.latency(), FLOOR + PHASE - ms(0.3));
}

#[test]
fn a_frame_that_misses_its_deadline_is_not_queued() {
    // Built for 9 ms after the tick, each frame makes the refresh after the one an idle frame
    // makes; nothing is ahead of it, so holding a tick would only drop a frame.
    let mut display = Display::new(FLOOR, true);
    for tick in 0..600 {
        display.tick(tick, FLOOR, ms(9.));
    }
    assert_eq!(display.holds, 0);
}

#[test]
fn a_slower_pipeline_costs_a_few_holds_then_becomes_the_floor() {
    let mut display = Display::new(FLOOR, true);
    let slower = FLOOR + REFRESH + ms(2.);
    for tick in 0..600 {
        display.tick(tick, slower, ms(0.3));
    }
    assert_eq!(display.holds, FAILED_HOLDS_BEFORE_NEW_FLOOR as usize);
    for tick in 600..1200 {
        display.tick(tick, slower, ms(0.3));
    }
    assert_eq!(display.holds, FAILED_HOLDS_BEFORE_NEW_FLOOR as usize);
}

#[test]
fn a_queue_that_returns_right_after_a_hold_is_drained_later() {
    let mut display = Display::new(FLOOR, true);
    for tick in 0..100 {
        display.tick(tick, FLOOR, ms(0.3));
    }
    let unqueued = display.latency();
    display.submit(display.at(99) + ms(1.), FLOOR);
    let mut requeued = false;
    for tick in 100..400 {
        display.tick(tick, FLOOR, ms(0.3));
        if display.holds == 1 && !requeued {
            requeued = true;
            display.submit(display.at(tick) + ms(1.), FLOOR);
        }
    }
    assert_eq!(display.holds, 2);
    assert_eq!(display.latency(), unqueued);
}

#[test]
fn two_frames_never_go_within_half_a_refresh() {
    let mut pacer = PresentationPacer::new(refresh());
    assert!(pacer.should_draw(at(START)));
    pacer.submitted(at(START));
    assert!(!pacer.should_draw(at(START + ms(3.))));
    assert!(pacer.should_draw(at(START + ms(7.))));
}

#[test]
fn reports_while_a_frame_is_built_do_not_bring_the_next_one_closer() {
    let mut pacer = PresentationPacer::new(refresh());
    assert!(pacer.should_draw(at(START)));
    pacer.presented(shown(START - REFRESH, START + ms(1.)));
    pacer.submitted(at(START + ms(5.)));
    pacer.presented(shown(START + ms(5.), START + ms(5.5)));
    assert!(!pacer.should_draw(at(START + ms(6.))), "the frame began with its tick");
    assert!(pacer.should_draw(at(START + ms(7.))));
}

#[test]
fn a_frame_off_the_tick_begins_with_its_submission() {
    let mut pacer = PresentationPacer::new(refresh());
    pacer.submitted(at(START));
    assert!(!pacer.should_draw(at(START + ms(6.))));
    assert!(pacer.should_draw(at(START + ms(7.))));
}

#[test]
fn dropped_frames_teach_nothing() {
    let mut pacer = PresentationPacer::new(refresh());
    pacer.presented(PresentedFrame {
        submitted_at: at(START),
        presented_at: None,
    });
    assert_eq!(pacer.floor().get(), Some(prior_floor(refresh())));
}

#[test]
fn an_empty_minimum_knows_nothing() {
    let mut min = EpochMin::default();
    assert_eq!(min.get(), None);
    min.observe(Duration { nanos: 5 });
    assert_eq!(min.get(), Some(Duration { nanos: 5 }));
}

#[test]
fn the_prior_floor_is_three_quarters_of_a_refresh() {
    assert_eq!(prior_floor(refresh()), Duration { nanos: 9_999_750 });
}

#[test]
fn the_floor_is_the_lowest_sample_of_two_epochs() {
    let mut pacer = PresentationPacer::new(refresh());
    let low = FLOOR - ms(4.);
    pacer.presented(shown(START, START + low));
    let mut submitted_at = START;
    for report in 0..2 * FLOOR_EPOCH {
        if report < FLOOR_EPOCH {
            assert_eq!(pacer.floor().get(), Some(Duration { nanos: low }));
        }
        submitted_at += REFRESH;
        pacer.presented(shown(submitted_at, submitted_at + FLOOR));
    }
    assert_eq!(pacer.floor().get(), Some(Duration { nanos: FLOOR }));
}

/// Offers ticks and reports of frames that take `latency` until one tick is held, and returns
/// how many reports came before it.
fn reports_until_hold(pacer: &mut PresentationPacer, now: &mut u64, latency: u64) -> u32 {
    for reports in 0..200 {
        *now += REFRESH;
        if !pacer.should_draw(at(*now)) {
            return reports;
        }
        pacer.submitted(at(*now));
        pacer.presented(shown(*now, *now + latency));
    }
    panic!("no tick was held");
}

#[test]
fn failed_holds_wait_twice_as_long_each_time() {
    let mut pacer = PresentationPacer::new(refresh());
    let mut now = START;
    let slow = FLOOR + 3 * REFRESH;
    let first = reports_until_hold(&mut pacer, &mut now, slow);
    let second = reports_until_hold(&mut pacer, &mut now, slow);
    let third = reports_until_hold(&mut pacer, &mut now, slow);
    assert!(first < second && second < third);
    // The report that judges a hold starts the wait.
    assert_eq!(second - 1, COOLDOWN_REPORTS);
    assert_eq!(third - 1, 2 * COOLDOWN_REPORTS);
}
