//! What a pacer makes of the frames it hears of: which of them queued, which judge a held tick,
//! and when the next tick draws.

use crate::presentation_laws::{law_every_run_stays_valid, PacerEvent};
use crate::presentation_pacing::{EpochMinState, PacerState};
use crate::time::span;
use vstd::prelude::*;

verus! {

/// The tick whose frame is being built after these calls on a new pacer: the last one that drew
/// since a frame was submitted.
pub open spec fn building(refresh: nat, events: Seq<PacerEvent>) -> Option<nat>
    decreases events.len(),
{
    if events.len() == 0 {
        None
    } else {
        let before = building(refresh, events.drop_last());
        match events.last() {
            PacerEvent::Tick { now } => if PacerState::starting_at(refresh).run(
                events.drop_last(),
            ).draws(now) {
                Some(now)
            } else {
                before
            },
            PacerEvent::Submitted { .. } => None,
            _ => before,
        }
    }
}

/// When the last submitted frame began: at the tick that drew it, or, where none did, with its
/// submission.
pub open spec fn began(refresh: nat, events: Seq<PacerEvent>) -> Option<nat>
    decreases events.len(),
{
    if events.len() == 0 {
        None
    } else {
        match events.last() {
            PacerEvent::Submitted { at } => Some(
                match building(refresh, events.drop_last()) {
                    Some(tick) => tick,
                    None => at,
                },
            ),
            _ => began(refresh, events.drop_last()),
        }
    }
}

/// The refresh interval last named.
pub open spec fn refresh_after(refresh: nat, events: Seq<PacerEvent>) -> nat
    decreases events.len(),
{
    if events.len() == 0 {
        refresh
    } else {
        match events.last() {
            PacerEvent::SetRefresh { refresh: named } => named,
            _ => refresh_after(refresh, events.drop_last()),
        }
    }
}

proof fn lemma_began(refresh: nat, events: Seq<PacerEvent>)
    ensures
        ({
            let state = PacerState::starting_at(refresh).run(events);
            &&& state.approved_tick == building(refresh, events)
            &&& state.last_frame_began == began(refresh, events)
            &&& state.refresh == refresh_after(refresh, events)
        }),
    decreases events.len(),
{
    if events.len() > 0 {
        lemma_began(refresh, events.drop_last());
    }
}

/// A tick draws exactly where no tick must be held and the last frame began at least half a
/// refresh ago. A window is idle exactly where it began at least a whole refresh ago.
pub proof fn law_a_tick_draws_half_a_refresh_after_the_last_frame(
    refresh: nat,
    events: Seq<PacerEvent>,
    now: nat,
)
    ensures
        ({
            let state = PacerState::starting_at(refresh).run(events);
            let interval = refresh_after(refresh, events);
            let began = began(refresh, events);
            &&& state.draws(now) <==> !(state.queued && state.cooldown == 0) && (began matches Some(
                began,
            ) ==> interval < 2 || now >= began + interval / 2)
            &&& state.quiet_for(state.refresh, now) <==> (began matches Some(began) ==> interval == 0
                || now >= began + interval)
        }),
{
    lemma_began(refresh, events);
}

/// A new pacer, and one that hears of another refresh interval, assumes a floor of three quarters
/// of a refresh; to hear of the same interval again changes nothing. Neither ever changes what is
/// known of frames and holds.
pub proof fn law_a_new_refresh_starts_the_floor_over(state: PacerState, refresh: nat)
    ensures
        ({
            let prior = EpochMinState::empty().observe_all(seq![refresh * 3 / 4]);
            let new = PacerState::starting_at(refresh);
            let changed = state.set_refresh(refresh);
            &&& new.floor == prior
            &&& new.floor.lowest() == Some(refresh * 3 / 4)
            &&& new.refresh == refresh
            &&& !new.queued && new.cooldown == 0 && new.failed_holds == 0 && new.hold is None
            &&& changed.refresh == refresh
            &&& refresh == state.refresh ==> changed == state
            &&& refresh != state.refresh ==> changed.floor == prior
            &&& changed == PacerState { refresh, floor: changed.floor, ..state }
        }),
{
    reveal_with_fuel(EpochMinState::observe_all, 2);
    assert(seq![refresh * 3 / 4].drop_last() =~= Seq::<nat>::empty());
}

/// A frame that was dropped says nothing, whenever it was submitted.
pub proof fn law_a_dropped_frame_says_nothing(state: PacerState, submitted_at: nat)
    ensures
        state.presented(submitted_at, None) == state,
{
}

/// Where no hold waits to be judged, a frame that was shown moves the floor, and the pacer takes
/// it as queued exactly where it took a refresh and a quarter more than the floor. It counts down
/// a cooldown, and changes nothing else.
pub proof fn law_a_frame_is_queued_a_refresh_and_a_quarter_over_the_floor(
    state: PacerState,
    submitted_at: nat,
    presented_at: nat,
)
    requires
        state.valid(),
        state.hold matches Some(hold) ==> hold.judged && hold.at <= submitted_at,
    ensures
        ({
            let latency = span(submitted_at, presented_at);
            let after = state.presented(submitted_at, Some(presented_at));
            let floor = after.floor.lowest().unwrap();
            &&& after.floor == state.floor.observe(latency)
            &&& after.queued <==> latency >= floor + state.refresh + state.refresh / 4
            &&& after.queued ==> after.last_latency == latency
            &&& after.cooldown == if state.cooldown > 0 {
                state.cooldown - 1
            } else {
                0
            }
            &&& after.refresh == state.refresh
            &&& after.approved_tick == state.approved_tick
            &&& after.last_frame_began == state.last_frame_began
            &&& after.hold == state.hold
            &&& after.failed_holds == state.failed_holds
        }),
{
}

/// A frame that queued, and that no cooldown keeps the pacer from minding, costs the next tick,
/// however long ago the last frame began.
pub proof fn law_a_queued_frame_costs_the_next_tick(
    state: PacerState,
    submitted_at: nat,
    presented_at: nat,
    now: nat,
)
    requires
        state.valid(),
        state.hold matches Some(hold) ==> hold.judged && hold.at <= submitted_at,
        state.cooldown <= 1,
        ({
            let latency = span(submitted_at, presented_at);
            latency >= state.floor.observe(latency).lowest().unwrap() + state.refresh
                + state.refresh / 4
        }),
    ensures
        !state.presented(submitted_at, Some(presented_at)).draws(now),
{
}

/// A submission, and a tick that is not held, teach a pacer nothing of the queue.
pub proof fn law_ticks_and_submissions_teach_nothing(state: PacerState, at: nat)
    ensures
        ({
            let submitted = state.submitted(at);
            submitted == PacerState {
                approved_tick: submitted.approved_tick,
                last_frame_began: submitted.last_frame_began,
                ..state
            }
        }),
        !(state.queued && state.cooldown == 0) ==> state.tick(at) == (PacerState {
            approved_tick: state.tick(at).approved_tick,
            ..state
        }),
{
}

/// Whether no tick among `events` is held.
pub open spec fn holds_nothing(state: PacerState, events: Seq<PacerEvent>) -> bool {
    forall|i: int|
        0 <= i < events.len() ==> (#[trigger] events[i] is Tick ==> !(state.run(
            events.take(i),
        ).queued && state.run(events.take(i)).cooldown == 0))
}

proof fn lemma_the_hold_stays(state: PacerState, events: Seq<PacerEvent>)
    requires
        state.hold is Some,
        holds_nothing(state, events),
    ensures
        state.run(events).hold is Some,
        state.run(events).hold.unwrap().at == state.hold.unwrap().at,
    decreases events.len(),
{
    if events.len() > 0 {
        let earlier = events.drop_last();
        assert forall|i: int| 0 <= i < earlier.len() implies (#[trigger] earlier[i] is Tick ==> !(
        state.run(earlier.take(i)).queued && state.run(earlier.take(i)).cooldown == 0)) by {
            assert(events[i] == earlier[i]);
            assert(events.take(i) =~= earlier.take(i));
        }
        lemma_the_hold_stays(state, earlier);
        assert(events[events.len() - 1] == events.last());
        assert(events.take(events.len() - 1) =~= earlier);
    }
}

/// Frames that were in flight when a tick was held say nothing, whenever they are reported: a
/// report of a frame submitted before the last hold leaves the pacer as it was.
pub proof fn law_frames_in_flight_say_nothing_of_a_hold(
    state: PacerState,
    held: nat,
    later: Seq<PacerEvent>,
    submitted_at: nat,
    presented_at: Option<nat>,
)
    requires
        state.queued && state.cooldown == 0,
        holds_nothing(state.tick(held), later),
        submitted_at < held,
    ensures
        state.tick(held).run(later).presented(submitted_at, presented_at) == state.tick(held).run(
            later,
        ),
{
    lemma_the_hold_stays(state.tick(held), later);
}

/// Whether `events` report no frame that was submitted since `held` and shown, and name no other
/// refresh interval.
pub open spec fn awaits_a_frame(events: Seq<PacerEvent>, held: nat) -> bool {
    forall|i: int|
        0 <= i < events.len() ==> match #[trigger] events[i] {
            PacerEvent::Presented { submitted_at, presented_at } => submitted_at < held
                || presented_at is None,
            PacerEvent::SetRefresh { .. } => false,
            _ => true,
        }
}

proof fn lemma_a_hold_waits(state: PacerState, held: nat, events: Seq<PacerEvent>)
    requires
        state.hold matches Some(hold) && hold.at == held && !hold.judged,
        !state.queued,
        awaits_a_frame(events, held),
    ensures
        ({
            let after = state.run(events);
            after == PacerState {
                approved_tick: after.approved_tick,
                last_frame_began: after.last_frame_began,
                ..state
            }
        }),
    decreases events.len(),
{
    if events.len() > 0 {
        let earlier = events.drop_last();
        assert forall|i: int| 0 <= i < earlier.len() implies #[trigger] earlier[i]
            == events[i] by {}
        lemma_a_hold_waits(state, held, earlier);
        assert(events[events.len() - 1] == events.last());
    }
}

/// A tick held after a queued frame waits for a verdict through every report of a frame that was
/// in flight or was dropped. The first frame submitted since and shown gives it: the hold failed
/// exactly where that frame came less than half a refresh sooner than the queued one.
///
/// After the first failure the pacer sits out 8 reports, after the second in a row 16, and after
/// the third it takes the latency as the only sample of its floor. A hold that gained clears the
/// failures, and the frame counts like any other.
pub proof fn law_the_first_frame_since_judges_a_hold(
    state: PacerState,
    queued_at: nat,
    queued_shown: nat,
    held: nat,
    waiting: Seq<PacerEvent>,
    submitted_at: nat,
    presented_at: nat,
)
    requires
        state.valid(),
        state.hold matches Some(hold) ==> hold.at <= queued_at,
        ({
            let queued = state.presented(queued_at, Some(queued_shown));
            queued.queued && queued.cooldown == 0
        }),
        awaits_a_frame(waiting, held),
        held <= submitted_at,
    ensures
        ({
            let queued = state.presented(queued_at, Some(queued_shown));
            let before = queued.tick(held).run(waiting);
            let after = before.presented(submitted_at, Some(presented_at));
            let latency = span(submitted_at, presented_at);
            let failed = latency + state.refresh / 2 > span(queued_at, queued_shown);
            &&& !before.queued
            &&& before.floor == queued.floor
            &&& before.cooldown == 0
            &&& before.failed_holds == queued.failed_holds
            &&& after.hold matches Some(hold) && hold.judged && hold.at == held
            &&& failed ==> {
                &&& !after.queued
                &&& queued.failed_holds == 0 ==> after.failed_holds == 1 && after.cooldown == 8
                    && after.floor == before.floor
                &&& queued.failed_holds == 1 ==> after.failed_holds == 2 && after.cooldown == 16
                    && after.floor == before.floor
                &&& queued.failed_holds >= 2 ==> after.failed_holds == 0 && after.cooldown == 0
                    && after.floor == EpochMinState::empty().observe_all(seq![latency])
            }
            &&& !failed ==> {
                &&& after.failed_holds == 0
                &&& after.cooldown == 0
                &&& after.floor == before.floor.observe(latency)
                &&& after.queued <==> latency >= after.floor.lowest().unwrap() + state.refresh
                    + state.refresh / 4
                &&& after.queued ==> after.last_latency == latency
            }
        }),
{
    let queued = state.presented(queued_at, Some(queued_shown));
    lemma_a_hold_waits(queued.tick(held), held, waiting);
    let latency = span(submitted_at, presented_at);
    reveal_with_fuel(EpochMinState::observe_all, 2);
    assert(seq![latency].drop_last() =~= Seq::<nat>::empty());
    reveal_with_fuel(crate::presentation_pacing::cooldown_after, 3);
}

/// Whether every frame among `events` that was submitted since `held` and shown took `most` at
/// most, no tick is held, and no other refresh interval is named.
pub open spec fn gains(state: PacerState, events: Seq<PacerEvent>, held: nat, most: int) -> bool {
    &&& holds_nothing(state, events)
    &&& forall|i: int|
        0 <= i < events.len() ==> match #[trigger] events[i] {
            PacerEvent::Presented {
                submitted_at,
                presented_at: Some(presented_at),
            } => submitted_at < held || span(submitted_at, presented_at) <= most,
            PacerEvent::SetRefresh { .. } => false,
            _ => true,
        }
}

/// A hold after which every frame comes at least half a refresh sooner than the queued one never
/// counts as failed, whatever frames were in flight.
pub proof fn law_a_hold_that_gains_never_fails(
    state: PacerState,
    queued_at: nat,
    queued_shown: nat,
    held: nat,
    later: Seq<PacerEvent>,
)
    requires
        state.valid(),
        state.hold matches Some(hold) ==> hold.at <= queued_at,
        ({
            let queued = state.presented(queued_at, Some(queued_shown));
            &&& queued.queued && queued.cooldown == 0
            &&& gains(
                queued.tick(held),
                later,
                held,
                span(queued_at, queued_shown) - state.refresh / 2,
            )
        }),
    ensures
        ({
            let queued = state.presented(queued_at, Some(queued_shown));
            let after = queued.tick(held).run(later);
            &&& after.cooldown == 0
            &&& after.failed_holds == 0 || after.failed_holds == queued.failed_holds
        }),
{
    let queued = state.presented(queued_at, Some(queued_shown));
    lemma_gains(queued.tick(held), held, span(queued_at, queued_shown), later);
}

proof fn lemma_gains(state: PacerState, held: nat, latency: nat, events: Seq<PacerEvent>)
    requires
        state.valid(),
        state.hold matches Some(hold) && hold.at == held && !hold.judged && hold.latency_before
            == latency,
        gains(state, events, held, latency - state.refresh / 2),
    ensures
        ({
            let after = state.run(events);
            &&& after.valid()
            &&& after.refresh == state.refresh
            &&& after.cooldown == 0
            &&& after.hold matches Some(hold) && hold.at == held && hold.latency_before == latency
                && (!hold.judged ==> after.failed_holds == state.failed_holds) && (hold.judged
                ==> after.failed_holds == 0)
        }),
    decreases events.len(),
{
    if events.len() > 0 {
        let earlier = events.drop_last();
        assert forall|i: int| 0 <= i < earlier.len() implies #[trigger] earlier[i] == events[i]
            && earlier.take(i) == events.take(i) by {
            assert(earlier.take(i) =~= events.take(i));
        }
        lemma_gains(state, held, latency, earlier);
        assert(events[events.len() - 1] == events.last());
        assert(events.take(events.len() - 1) =~= earlier);
        law_every_run_stays_valid(state, events);
    }
}

/// Whether every frame among `events` is shown, and none is from before a held tick.
pub open spec fn shown_reports(state: PacerState, events: Seq<PacerEvent>) -> bool {
    forall|i: int|
        0 <= i < events.len() ==> (#[trigger] events[i] matches PacerEvent::Presented {
            submitted_at,
            presented_at: Some(_),
        } && (state.hold matches Some(hold) ==> hold.at <= submitted_at))
}

/// A cooldown ends: after as many frames shown as it counts, the next queued frame costs a tick
/// again.
pub proof fn law_a_cooldown_ends(state: PacerState, events: Seq<PacerEvent>)
    requires
        state.valid(),
        state.hold matches Some(hold) ==> hold.judged,
        shown_reports(state, events),
    ensures
        state.run(events).cooldown == if events.len() < state.cooldown {
            state.cooldown - events.len()
        } else {
            0
        },
        state.run(events).hold == state.hold,
        state.run(events).valid(),
    decreases events.len(),
{
    if events.len() > 0 {
        let earlier = events.drop_last();
        assert forall|i: int| 0 <= i < earlier.len() implies #[trigger] earlier[i]
            == events[i] by {}
        law_a_cooldown_ends(state, earlier);
        assert(events[events.len() - 1] == events.last());
        law_every_run_stays_valid(state, events);
    }
}

} // verus!
