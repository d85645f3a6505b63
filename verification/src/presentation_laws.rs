//! What holds of a [`PresentationPacer`](crate::presentation_pacing::PresentationPacer) over
//! whole runs of ticks, submissions and reports.

use crate::presentation_pacing::{EpochMinState, PacerState, FLOOR_EPOCH};
use crate::time::span;
use vstd::prelude::*;

verus! {

/// One call on a pacer.
pub enum PacerEvent {
    Tick { now: nat },
    Submitted { at: nat },
    Presented { submitted_at: nat, presented_at: Option<nat> },
    SetRefresh { refresh: nat },
}

impl PacerState {
    pub open spec fn step(self, event: PacerEvent) -> Self {
        match event {
            PacerEvent::Tick { now } => self.tick(now),
            PacerEvent::Submitted { at } => self.submitted(at),
            PacerEvent::Presented { submitted_at, presented_at } => self.presented(
                submitted_at,
                presented_at,
            ),
            PacerEvent::SetRefresh { refresh } => self.set_refresh(refresh),
        }
    }

    /// The pacer after every event, in order.
    pub open spec fn run(self, events: Seq<PacerEvent>) -> Self
        decreases events.len(),
    {
        if events.len() == 0 {
            self
        } else {
            self.run(events.drop_last()).step(events.last())
        }
    }
}

/// A step keeps a pacer valid.
pub proof fn lemma_step_keeps_valid(state: PacerState, event: PacerEvent)
    requires
        state.valid(),
    ensures
        state.step(event).valid(),
{
}

/// However a pacer is driven, its counters stay in range, it always has a floor, and a tick it
/// held is judged before it holds another.
pub proof fn law_every_run_stays_valid(state: PacerState, events: Seq<PacerEvent>)
    requires
        state.valid(),
    ensures
        state.run(events).valid(),
        state.run(events).awaits_judgement() ==> !state.run(events).holds_next_tick(),
    decreases events.len(),
{
    if events.len() > 0 {
        law_every_run_stays_valid(state, events.drop_last());
        lemma_step_keeps_valid(state.run(events.drop_last()), events.last());
    }
}

/// A new pacer is valid.
pub proof fn law_a_new_pacer_is_valid(refresh: nat)
    ensures
        PacerState::starting_at(refresh).valid(),
        !PacerState::starting_at(refresh).queued,
        PacerState::starting_at(refresh).queued_from() <= 2 * refresh,
{
}

/// Whether `events` submit nothing and every tick among them is refused, so that an approved tick
/// is still waiting for its frame.
pub open spec fn only_builds(state: PacerState, events: Seq<PacerEvent>) -> bool {
    forall|i: int|
        0 <= i < events.len() ==> match #[trigger] events[i] {
            PacerEvent::Tick { now } => !state.run(events.take(i)).draws(now),
            PacerEvent::Submitted { .. } => false,
            _ => true,
        }
}

/// Two frames that ticks approved never begin within half a refresh of each other, whatever
/// is reported while the first is built and after it is submitted.
pub proof fn law_frames_begin_half_a_refresh_apart(
    state: PacerState,
    tick: nat,
    building: Seq<PacerEvent>,
    at: nat,
    between: Seq<PacerEvent>,
    next: nat,
)
    requires
        state.draws(tick),
        only_builds(state.tick(tick), building),
        forall|i: int| 0 <= i < between.len() ==> between[i] !is Submitted,
    ensures
        ({
            let later = state.tick(tick).run(building).submitted(at).run(between);
            later.draws(next) ==> span(tick, next) >= later.refresh / 2
        }),
{
    lemma_building_keeps_the_tick(state.tick(tick), building);
    lemma_only_submissions_begin_frames(
        state.tick(tick).run(building).submitted(at),
        between,
    );
}

/// A tick never draws within half a refresh of a frame that no tick approved either: such a frame
/// begins with its submission.
pub proof fn law_ticks_draw_half_a_refresh_after_any_frame(
    state: PacerState,
    at: nat,
    between: Seq<PacerEvent>,
    next: nat,
)
    requires
        state.approved_tick is None,
        forall|i: int| 0 <= i < between.len() ==> between[i] !is Submitted,
    ensures
        ({
            let later = state.submitted(at).run(between);
            later.draws(next) ==> span(at, next) >= later.refresh / 2
        }),
{
    lemma_only_submissions_begin_frames(state.submitted(at), between);
}

/// An approved tick waits for its frame until one is submitted or another tick is approved.
proof fn lemma_building_keeps_the_tick(state: PacerState, events: Seq<PacerEvent>)
    requires
        only_builds(state, events),
    ensures
        state.run(events).approved_tick == state.approved_tick,
    decreases events.len(),
{
    if events.len() > 0 {
        let earlier = events.drop_last();
        assert forall|i: int| 0 <= i < earlier.len() implies match #[trigger] earlier[i] {
            PacerEvent::Tick { now } => !state.run(earlier.take(i)).draws(now),
            PacerEvent::Submitted { .. } => false,
            _ => true,
        } by {
            assert(events[i] == earlier[i]);
            assert(events.take(i) =~= earlier.take(i));
        }
        lemma_building_keeps_the_tick(state, earlier);
        assert(events[events.len() - 1] == events.last());
        assert(events.take(events.len() - 1) =~= earlier);
    }
}

/// Without a submission no frame begins.
proof fn lemma_only_submissions_begin_frames(state: PacerState, events: Seq<PacerEvent>)
    requires
        forall|i: int| 0 <= i < events.len() ==> events[i] !is Submitted,
    ensures
        state.run(events).last_frame_began == state.last_frame_began,
    decreases events.len(),
{
    if events.len() > 0 {
        assert(events[events.len() - 1] !is Submitted);
        assert forall|i: int| 0 <= i < events.drop_last().len() implies events.drop_last()[i] !is Submitted by {
            assert(events[i] !is Submitted);
        }
        lemma_only_submissions_begin_frames(state, events.drop_last());
    }
}

/// Whether every report among `events` is of a frame that took at least `lowest`, and less
/// than a refresh and a quarter more, and the refresh stays the same.
pub open spec fn reports_within(events: Seq<PacerEvent>, lowest: nat, refresh: nat) -> bool {
    forall|i: int|
        0 <= i < events.len() ==> match #[trigger] events[i] {
            PacerEvent::Presented { submitted_at, presented_at: Some(presented_at) } => {
                let latency = span(submitted_at, presented_at);
                lowest <= latency < lowest + refresh + refresh / 4
            },
            PacerEvent::SetRefresh { refresh: named } => named == refresh,
            _ => true,
        }
}

/// Frames that reach the glass within a refresh and a quarter of what the pipeline needs are
/// not queued, so no tick is ever held for them.
pub proof fn law_unqueued_frames_are_never_held(
    state: PacerState,
    events: Seq<PacerEvent>,
    lowest: nat,
)
    requires
        state.valid(),
        !state.queued,
        state.floor.lowest().unwrap() >= lowest,
        reports_within(events, lowest, state.refresh),
    ensures
        !state.run(events).queued,
        !state.run(events).holds_next_tick(),
        state.run(events).floor.lowest().unwrap() >= lowest,
        state.run(events).refresh == state.refresh,
    decreases events.len(),
{
    if events.len() > 0 {
        assert(events[events.len() - 1] == events.last());
        assert forall|i: int| 0 <= i < events.drop_last().len() implies events.drop_last()[i]
            == events[i] by {}
        law_unqueued_frames_are_never_held(state, events.drop_last(), lowest);
        law_every_run_stays_valid(state, events.drop_last());
    }
}

/// A queue costs one tick: the next one is held whenever it comes, and none after it until a
/// frame is reported again.
pub proof fn law_a_queue_holds_one_tick(state: PacerState, now: nat, later: Seq<PacerEvent>)
    requires
        state.valid(),
        state.holds_next_tick(),
        forall|i: int| 0 <= i < later.len() ==> later[i] !is Presented,
    ensures
        !state.draws(now),
        state.tick(now).last_frame_began == state.last_frame_began,
        !state.tick(now).run(later).holds_next_tick(),
    decreases later.len(),
{
    if later.len() > 0 {
        assert(later[later.len() - 1] !is Presented);
        assert forall|i: int| 0 <= i < later.drop_last().len() implies later.drop_last()[i] !is Presented by {
            assert(later[i] !is Presented);
        }
        law_a_queue_holds_one_tick(state, now, later.drop_last());
    }
}

/// How many of `events` report a frame.
pub open spec fn reports(events: Seq<PacerEvent>) -> nat
    decreases events.len(),
{
    if events.len() == 0 {
        0
    } else {
        reports(events.drop_last()) + if events.last() is Presented {
            1nat
        } else {
            0nat
        }
    }
}

/// While a cooldown runs no tick is held, and it runs for at least as many reports as it counts.
pub proof fn law_a_cooldown_counts_reports(state: PacerState, events: Seq<PacerEvent>)
    requires
        state.valid(),
        reports(events) < state.cooldown,
    ensures
        state.run(events).cooldown + reports(events) >= state.cooldown,
        !state.run(events).holds_next_tick(),
    decreases events.len(),
{
    if events.len() > 0 {
        law_a_cooldown_counts_reports(state, events.drop_last());
        law_every_run_stays_valid(state, events.drop_last());
    }
}

/// The first hold that gains nothing is followed by a wait of 8 reports, the next by one of 16.
pub proof fn law_failed_holds_wait_longer(
    state: PacerState,
    submitted_at: nat,
    presented_at: nat,
)
    requires
        state.valid(),
        state.awaits_judgement(),
        state.hold.unwrap().at <= submitted_at,
        state.gained_nothing(state.hold.unwrap(), span(submitted_at, presented_at)),
        state.failed_holds < 2,
    ensures
        ({
            let after = state.presented(submitted_at, Some(presented_at));
            &&& after.failed_holds == state.failed_holds + 1
            &&& state.failed_holds == 0 ==> after.cooldown == 8
            &&& state.failed_holds == 1 ==> after.cooldown == 16
            &&& after.floor == state.floor
            &&& !after.queued
        }),
{
    reveal_with_fuel(crate::presentation_pacing::cooldown_after, 3);
}

/// The third hold in a row that fails makes the latency the floor, and frames that keep
/// taking that long no longer count as queued.
pub proof fn law_the_last_failed_hold_moves_the_floor(
    state: PacerState,
    submitted_at: nat,
    presented_at: nat,
)
    requires
        state.valid(),
        state.awaits_judgement(),
        state.hold.unwrap().at <= submitted_at,
        state.gained_nothing(state.hold.unwrap(), span(submitted_at, presented_at)),
        state.failed_holds == 2,
    ensures
        ({
            let latency = span(submitted_at, presented_at);
            let after = state.presented(submitted_at, Some(presented_at));
            &&& after.floor.lowest() == Some(latency)
            &&& after.failed_holds == 0
            &&& !after.queued
            &&& state.refresh > 0 ==> latency < after.queued_from()
        }),
{
}

/// A hold that gained at least half a refresh ends the row of failures.
pub proof fn law_a_hold_that_gains_forgives_the_failures(
    state: PacerState,
    submitted_at: nat,
    presented_at: nat,
)
    requires
        state.valid(),
        state.awaits_judgement(),
        state.hold.unwrap().at <= submitted_at,
        !state.gained_nothing(state.hold.unwrap(), span(submitted_at, presented_at)),
    ensures
        state.presented(submitted_at, Some(presented_at)).failed_holds == 0,
        !state.presented(submitted_at, Some(presented_at)).awaits_judgement(),
{
}

impl EpochMinState {
    /// What is left of observing every sample, in order.
    pub open spec fn observe_all(self, samples: Seq<nat>) -> Self
        decreases samples.len(),
    {
        if samples.len() == 0 {
            self
        } else {
            self.observe_all(samples.drop_last()).observe(samples.last())
        }
    }
}

/// Whether `lowest` is the minimum of `samples`.
pub open spec fn is_lowest(lowest: nat, samples: Seq<nat>) -> bool {
    &&& exists|i: int| 0 <= i < samples.len() && samples[i] == lowest
    &&& forall|i: int| 0 <= i < samples.len() ==> samples[i] >= lowest
}

/// Where the samples that still count begin: with the epoch of 240 before the current one.
pub open spec fn first_counted(samples: Seq<nat>) -> int {
    let filled = samples.len() - samples.len() % 240;
    if filled >= 240 {
        filled - 240
    } else {
        0
    }
}

proof fn lemma_epochs(samples: Seq<nat>)
    ensures
        ({
            let state = EpochMinState::empty().observe_all(samples);
            let n = samples.len() as int;
            let filled = n - n % (FLOOR_EPOCH as int);
            &&& state.valid()
            &&& state.samples == n % (FLOOR_EPOCH as int)
            &&& state.current matches Some(current) ==> is_lowest(
                current,
                samples.subrange(filled, n),
            )
            &&& state.previous is Some <==> n >= FLOOR_EPOCH
            &&& state.previous matches Some(previous) ==> is_lowest(
                previous,
                samples.subrange(filled - FLOOR_EPOCH, filled),
            )
        }),
    decreases samples.len(),
{
    if samples.len() > 0 {
        let shorter = samples.drop_last();
        lemma_epochs(shorter);
        let before = EpochMinState::empty().observe_all(shorter);
        let n = samples.len() as int;
        let epoch = FLOOR_EPOCH as int;
        let filled = (n - 1) - (n - 1) % epoch;
        let open = shorter.subrange(filled, n - 1);
        let grown = samples.subrange(filled, n);
        assert(grown =~= open.push(samples.last()));
        let lowest = match before.current {
            Some(current) => if current <= samples.last() {
                current
            } else {
                samples.last()
            },
            None => samples.last(),
        };
        assert(is_lowest(lowest, grown)) by {
            match before.current {
                Some(current) => {
                    let i = choose|i: int| 0 <= i < open.len() && open[i] == current;
                    assert(grown[i] == current);
                    assert(grown[grown.len() - 1] == samples.last());
                    assert forall|j: int| 0 <= j < grown.len() implies grown[j] >= lowest by {
                        if j < open.len() {
                            assert(grown[j] == open[j]);
                        }
                    }
                },
                None => {
                    assert(open.len() == 0);
                    assert(grown[0] == samples.last());
                },
            }
        }
        if before.samples + 1 == FLOOR_EPOCH {
            assert(n % epoch == 0 && n == filled + epoch) by {
                vstd::arithmetic::div_mod::lemma_fundamental_div_mod(n - 1, epoch);
                let q = (n - 1) / epoch;
                vstd::arithmetic::div_mod::lemma_fundamental_div_mod_converse(
                    n,
                    epoch,
                    q + 1,
                    0,
                );
            }
        } else {
            assert(n % epoch == (n - 1) % epoch + 1) by {
                vstd::arithmetic::div_mod::lemma_fundamental_div_mod(n - 1, epoch);
                let q = (n - 1) / epoch;
                vstd::arithmetic::div_mod::lemma_fundamental_div_mod_converse(
                    n,
                    epoch,
                    q,
                    (n - 1) % epoch + 1,
                );
            }
            if before.previous is Some {
                assert(samples.subrange(filled - epoch, filled) =~= shorter.subrange(
                    filled - epoch,
                    filled,
                ));
            }
        }
    }
}

/// The floor is the lowest of the samples of the current epoch and the one before it.
pub proof fn law_the_floor_is_the_lowest_recent_sample(samples: Seq<nat>)
    ensures
        ({
            let floor = EpochMinState::empty().observe_all(samples).lowest();
            let recent = samples.subrange(first_counted(samples), samples.len() as int);
            &&& floor is Some <==> samples.len() > 0
            &&& floor matches Some(floor) ==> is_lowest(floor, recent)
            &&& recent.len() < 480
            &&& samples.len() >= 240 ==> recent.len() >= 240
        }),
{
    lemma_epochs(samples);
    let state = EpochMinState::empty().observe_all(samples);
    let n = samples.len() as int;
    let epoch = FLOOR_EPOCH as int;
    let filled = n - n % epoch;
    let first = first_counted(samples);
    let recent = samples.subrange(first, n);
    assert(filled == 0 || filled >= epoch) by {
        vstd::arithmetic::div_mod::lemma_fundamental_div_mod(n, epoch);
        let q = n / epoch;
        assert(filled == epoch * q);
        if q >= 1 {
            assert(epoch * q >= epoch) by (nonlinear_arith)
                requires
                    q >= 1,
                    epoch > 0,
            ;
        } else {
            assert(q == 0) by {
                vstd::arithmetic::div_mod::lemma_div_pos_is_pos(n, epoch);
            }
        }
    }
    let now = samples.subrange(filled, n);
    if state.current is Some {
        let i = choose|i: int| 0 <= i < now.len() && now[i] == state.current.unwrap();
        assert(recent[i + (filled - first)] == now[i]);
    }
    if state.previous is Some {
        let past = samples.subrange(filled - epoch, filled);
        let i = choose|i: int| 0 <= i < past.len() && past[i] == state.previous.unwrap();
        assert(recent[i] == past[i]);
        assert forall|j: int| 0 <= j < recent.len() && state.lowest() is Some implies recent[j]
            >= state.lowest().unwrap() by {
            if j < epoch {
                assert(recent[j] == past[j]);
            } else {
                assert(recent[j] == now[j - epoch]);
            }
        }
    } else {
        assert forall|j: int| 0 <= j < recent.len() && state.lowest() is Some implies recent[j]
            >= state.lowest().unwrap() by {
            assert(recent[j] == now[j]);
        }
    }
}

/// Two epochs of slower frames raise the floor to the slower pipeline.
pub proof fn law_the_floor_follows_a_slower_pipeline(samples: Seq<nat>, slower: nat)
    requires
        samples.len() >= 480,
        forall|i: int|
            samples.len() - 480 <= i < samples.len() ==> samples[i] >= slower,
    ensures
        EpochMinState::empty().observe_all(samples).lowest().unwrap() >= slower,
{
    law_the_floor_is_the_lowest_recent_sample(samples);
    let floor = EpochMinState::empty().observe_all(samples).lowest().unwrap();
    let first = first_counted(samples);
    let recent = samples.subrange(first, samples.len() as int);
    let i = choose|i: int| 0 <= i < recent.len() && recent[i] == floor;
    assert(recent[i] == samples[first + i]);
}

} // verus!
