//! What a window sees of its pacer: every answer follows from the calls and answers before it.

use crate::frame_pacing::{FrameSource, LinkEvent, LinkState, Wake};
use crate::time::span;
use vstd::prelude::*;

verus! {

/// What a window knows from the calls it made and the answers it got.
pub struct Seen {
    /// The link was told to resume and has not been told to pause since.
    pub running: bool,
    /// A frame began and has not ended.
    pub in_frame: bool,
    /// A wake came since the last frame began.
    pub wanted: bool,
    /// An immediate frame was asked for, and no frame has begun since.
    pub queued: bool,
    /// When the last frame began.
    pub began: Option<nat>,
}

/// What a window that made these calls on a new pacer knows.
pub open spec fn seen(refresh_interval: nat, events: Seq<LinkEvent>) -> Seen
    decreases events.len(),
{
    if events.len() == 0 {
        Seen { running: false, in_frame: false, wanted: false, queued: false, began: None }
    } else {
        let before = seen(refresh_interval, events.drop_last());
        let pacer = LinkState::starting_at(refresh_interval).run(events.drop_last());
        match events.last() {
            LinkEvent::Wake { now, visible } => {
                let asked = pacer.wake_asks(now, visible);
                Seen {
                    running: before.running || !(asked is Nothing),
                    wanted: true,
                    queued: before.queued || asked is ResumeAndDrawNow,
                    ..before
                }
            },
            LinkEvent::BeginFrame { source, now } => if pacer.runs(source) {
                Seen {
                    in_frame: true,
                    wanted: false,
                    queued: false,
                    began: Some(now),
                    ..before
                }
            } else {
                before
            },
            LinkEvent::EndFrame => Seen {
                in_frame: false,
                running: before.running && !pacer.pauses(),
                ..before
            },
        }
    }
}

/// What a pacer answers next follows from what its window has seen, however it was driven:
/// - A wake asks for nothing while the link runs or a frame is in progress. Otherwise it resumes
///   the link, and also draws at once where the window is visible and no frame, whichever source
///   it came from, began less than a refresh ago.
/// - A tick always draws. An immediate frame runs only where one was asked for and no frame has
///   begun since.
/// - The end of a frame pauses a running link exactly where no wake came since it began.
pub proof fn law_answers_follow_from_what_was_seen(
    refresh_interval: nat,
    events: Seq<LinkEvent>,
    now: nat,
    visible: bool,
)
    ensures
        ({
            let pacer = LinkState::starting_at(refresh_interval).run(events);
            let seen = seen(refresh_interval, events);
            let recent = seen.began matches Some(began) && refresh_interval > 0 && now < began
                + refresh_interval;
            &&& pacer.wake_asks(now, visible) == if seen.running || seen.in_frame {
                Wake::Nothing
            } else if visible && !recent {
                Wake::ResumeAndDrawNow
            } else {
                Wake::Resume
            }
            &&& pacer.runs(FrameSource::DisplayLink)
            &&& pacer.runs(FrameSource::Immediate) <==> seen.queued
            &&& pacer.pauses() <==> seen.running && !seen.wanted
        }),
{
    lemma_seen(refresh_interval, events);
}

proof fn lemma_seen(refresh_interval: nat, events: Seq<LinkEvent>)
    ensures
        ({
            let pacer = LinkState::starting_at(refresh_interval).run(events);
            let seen = seen(refresh_interval, events);
            &&& pacer.refresh_interval == refresh_interval
            &&& pacer.paused == !seen.running
            &&& pacer.in_frame == seen.in_frame
            &&& pacer.demand == seen.wanted
            &&& pacer.immediate_pending == seen.queued
            &&& pacer.last_frame_at == seen.began
        }),
    decreases events.len(),
{
    if events.len() > 0 {
        lemma_seen(refresh_interval, events.drop_last());
    }
}

/// Whether no frame begins among `events`.
pub open spec fn begins_nothing(state: LinkState, events: Seq<LinkEvent>) -> bool {
    forall|i: int|
        0 <= i < events.len() ==> (#[trigger] events[i] matches LinkEvent::BeginFrame {
            source,
            ..
        } ==> !state.run(events.take(i)).runs(source))
}

/// Once a frame has begun, whichever source it came from, no wake within a refresh of it draws at
/// once, until another frame has begun.
pub proof fn law_no_wake_within_a_refresh_of_a_frame_draws_at_once(
    state: LinkState,
    before: Seq<LinkEvent>,
    source: FrameSource,
    began: nat,
    later: Seq<LinkEvent>,
    now: nat,
    visible: bool,
)
    requires
        state.run(before).runs(source),
        begins_nothing(
            state.run(before.push(LinkEvent::BeginFrame { source, now: began })),
            later,
        ),
        span(began, now) < state.refresh_interval,
    ensures
        !(state.run(before.push(LinkEvent::BeginFrame { source, now: began })).run(
            later,
        ).wake_asks(now, visible) is ResumeAndDrawNow),
{
    let begin = LinkEvent::BeginFrame { source, now: began };
    assert(before.push(begin).drop_last() =~= before);
    lemma_keeps_refresh(state, before);
    lemma_keeps_the_last_frame(state.run(before.push(begin)), later);
}

proof fn lemma_keeps_refresh(state: LinkState, events: Seq<LinkEvent>)
    ensures
        state.run(events).refresh_interval == state.refresh_interval,
    decreases events.len(),
{
    if events.len() > 0 {
        lemma_keeps_refresh(state, events.drop_last());
    }
}

proof fn lemma_keeps_the_last_frame(state: LinkState, events: Seq<LinkEvent>)
    requires
        begins_nothing(state, events),
    ensures
        state.run(events).last_frame_at == state.last_frame_at,
        state.run(events).refresh_interval == state.refresh_interval,
    decreases events.len(),
{
    if events.len() > 0 {
        let earlier = events.drop_last();
        assert forall|i: int| 0 <= i < earlier.len() implies (#[trigger] earlier[i] matches LinkEvent::BeginFrame {
            source,
            ..
        } ==> !state.run(earlier.take(i)).runs(source)) by {
            assert(events[i] == earlier[i]);
            assert(events.take(i) =~= earlier.take(i));
        }
        lemma_keeps_the_last_frame(state, earlier);
        assert(events[events.len() - 1] == events.last());
        assert(events.take(events.len() - 1) =~= earlier);
    }
}

} // verus!
