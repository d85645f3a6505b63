//! The display link of a window: when it runs, when it pauses, and when a frame is drawn at
//! once.

use apple_frames::frame_pacing::{FramePacer, FrameSource, Wake};
use apple_frames::time::{Duration, Instant};

const REFRESH: Duration = Duration { nanos: 8_333_000 };

const START: Instant = Instant { nanos: 1_000_000_000 };

fn after(nanos: u64) -> Instant {
    Instant { nanos: START.nanos + nanos }
}

fn frame(pacer: &mut FramePacer, source: FrameSource, at: Instant, wake: bool) -> bool {
    assert!(pacer.begin_frame(source, at));
    if wake {
        assert_eq!(pacer.wake(at, true), Wake::Nothing);
    }
    pacer.end_frame()
}

#[test]
fn a_wake_from_idle_draws_at_once_and_an_idle_frame_pauses() {
    let mut pacer = FramePacer::new(REFRESH);
    assert_eq!(pacer.wake(START, true), Wake::ResumeAndDrawNow);
    assert!(
        frame(&mut pacer, FrameSource::Immediate, START, false),
        "a frame that leaves no demand pauses the link"
    );

    let later = after(REFRESH.nanos * 3);
    assert_eq!(pacer.wake(later, true), Wake::ResumeAndDrawNow);
}

#[test]
fn an_animation_keeps_the_link_running_until_it_stops() {
    let mut pacer = FramePacer::new(REFRESH);
    pacer.wake(START, true);
    assert!(!frame(&mut pacer, FrameSource::Immediate, START, true));
    for tick in 1..4 {
        let at = after(REFRESH.nanos * tick);
        assert!(
            !frame(&mut pacer, FrameSource::DisplayLink, at, true),
            "a frame that asks for the next keeps the link running"
        );
        assert_eq!(
            pacer.wake(at, true),
            Wake::Nothing,
            "a running link needs no resume"
        );
    }
    assert!(frame(
        &mut pacer,
        FrameSource::DisplayLink,
        after(REFRESH.nanos * 4),
        false
    ));
}

#[test]
fn a_wake_within_a_refresh_of_the_last_frame_waits_for_the_link() {
    let mut pacer = FramePacer::new(REFRESH);
    pacer.wake(START, true);
    assert!(frame(&mut pacer, FrameSource::Immediate, START, false));

    assert_eq!(
        pacer.wake(after(REFRESH.nanos / 2), true),
        Wake::Resume,
        "drawing again now would outrun the display"
    );
}

#[test]
fn a_hidden_window_never_draws_immediately() {
    let mut pacer = FramePacer::new(REFRESH);
    assert_eq!(pacer.wake(START, false), Wake::Resume);
}

#[test]
fn an_immediate_frame_a_tick_already_served_does_not_run() {
    let mut pacer = FramePacer::new(REFRESH);
    assert_eq!(pacer.wake(START, true), Wake::ResumeAndDrawNow);
    assert!(frame(
        &mut pacer,
        FrameSource::DisplayLink,
        after(REFRESH.nanos / 4),
        false
    ));
    assert!(
        !pacer.begin_frame(FrameSource::Immediate, after(REFRESH.nanos / 2)),
        "the queued immediate frame is stale once a tick drew"
    );
}

#[test]
fn repeated_wakes_queue_one_immediate_frame() {
    let mut pacer = FramePacer::new(REFRESH);
    assert_eq!(pacer.wake(START, true), Wake::ResumeAndDrawNow);
    assert_eq!(pacer.wake(START, true), Wake::Nothing);
}

#[test]
fn a_wake_a_whole_refresh_after_the_last_frame_draws_at_once() {
    let mut pacer = FramePacer::new(REFRESH);
    pacer.wake(START, true);
    assert!(frame(&mut pacer, FrameSource::Immediate, START, false));
    assert_eq!(
        pacer.wake(after(REFRESH.nanos), true),
        Wake::ResumeAndDrawNow
    );
}

#[test]
fn demand_during_a_frame_keeps_the_link_running() {
    let mut pacer = FramePacer::new(REFRESH);
    assert_eq!(pacer.wake(START, true), Wake::ResumeAndDrawNow);
    assert!(pacer.begin_frame(FrameSource::Immediate, START));
    assert_eq!(pacer.wake(START, true), Wake::Nothing);
    assert!(!pacer.end_frame(), "the demand is served by the next tick");
    assert!(pacer.begin_frame(FrameSource::DisplayLink, after(REFRESH.nanos)));
    assert!(pacer.end_frame());
}

#[test]
fn a_clock_that_runs_backwards_does_not_outrun_the_display() {
    let mut pacer = FramePacer::new(REFRESH);
    pacer.wake(START, true);
    assert!(frame(&mut pacer, FrameSource::Immediate, START, false));
    let before = Instant { nanos: START.nanos - 1 };
    assert_eq!(pacer.wake(before, true), Wake::Resume);
}
