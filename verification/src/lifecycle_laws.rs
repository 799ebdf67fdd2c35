//! What holds of the transcription lifecycle as a whole.
use vstd::prelude::*;

use crate::lifecycle;
use crate::ptt;
use crate::ptt::{
    DEBOUNCE, DOUBLE_TAP_MIN_GAP, DOUBLE_TAP_WINDOW, HANDS_FREE_HINT_DELAY, RELEASE_GRACE,
    TAP_MAX_HOLD,
};
use crate::stage;

verus! {

// ---------------------------------------------------------------------------
// Deadlines
// ---------------------------------------------------------------------------

/// An event that overtakes a deadline meets the state, and has the effects,
/// that it would have had if the deferred release had fired first.
pub proof fn late_input_meets_a_settled_state(
    s: lifecycle::LifecycleSpec,
    e: lifecycle::InputSpec,
    now: int,
)
    ensures
        s.expired(now).0.input(e, now).0 == s.input(e, now).0,
        s.input(e, now).1 == s.expired(now).1 + s.expired(now).0.input(e, now).1,
{
    let (settled, first) = s.expired(now);
    assert(settled.expired(now) == (settled, Seq::<lifecycle::EffectSpec>::empty()));
    assert(settled.input(e, now).1 =~= settled.received(e, now).1);
}

/// The hands-free key, too, meets the state that it would have met if the
/// deferred release had fired first.
pub proof fn late_latch_meets_a_settled_state(s: lifecycle::LifecycleSpec, now: int)
    ensures
        ({
            let c = lifecycle::CommandSpec::HandsFreeLatch;
            &&& s.expired(now).0.commanded(c, now).0 == s.commanded(c, now).0
            &&& s.commanded(c, now).1 == s.expired(now).1 + s.expired(now).0.commanded(c, now).1
        }),
{
    let settled = s.expired(now).0;
    assert(settled.expired(now) == (settled, Seq::<lifecycle::EffectSpec>::empty()));
    assert(settled.settled_latch(now).1 =~= settled.latched().1);
}

/// A coordinator that was busy past a deadline behaves exactly like one that
/// woke on time, whether a key event or the hands-free key comes next, where no
/// hint was due in between.
pub proof fn busy_coordinator_behaves_like_one_on_time(
    s: lifecycle::LifecycleSpec,
    c: lifecycle::CommandSpec,
    now: int,
)
    requires
        c is Input || c is HandsFreeLatch,
        !s.hint_due(now),
    ensures
        s.woken(now).0.commanded(c, now).0 == s.commanded(c, now).0,
        s.commanded(c, now).1 == s.woken(now).1 + s.woken(now).0.commanded(c, now).1,
{
    assert(s.woken(now).1 =~= s.expired(now).1);
    match c {
        lifecycle::CommandSpec::Input(e) => late_input_meets_a_settled_state(s, e, now),
        _ => late_latch_meets_a_settled_state(s, now),
    }
}

/// Once the timer has been handled, whatever deadline is left lies ahead: the
/// timer never goes off twice for the same reason.
pub proof fn timer_settles_every_due_deadline(s: lifecycle::LifecycleSpec, now: int)
    ensures
        s.woken(now).0.next_deadline() matches Some(at) ==> at > now,
        s.woken(now).0.woken(now) == (s.woken(now).0, Seq::<lifecycle::EffectSpec>::empty()),
{
    let after = s.woken(now).0;
    assert(after.woken(now).1 =~= Seq::<lifecycle::EffectSpec>::empty());
}

/// Before its next deadline the timer changes nothing.
pub proof fn timer_waits_for_its_deadline(s: lifecycle::LifecycleSpec, now: int)
    requires
        s.next_deadline() matches Some(at) ==> now < at,
    ensures
        s.woken(now) == (s, Seq::<lifecycle::EffectSpec>::empty()),
{
    assert(s.woken(now).1 =~= Seq::<lifecycle::EffectSpec>::empty());
}

/// A deferred release is due exactly one window after it was deferred.
pub open spec fn deadline_follows_release(s: lifecycle::LifecycleSpec) -> bool {
    s.pending_release matches Some(p) ==> p.deadline == p.released_at + ptt::window(p.is_tap)
}

/// Every step keeps the deadline of a deferred release one window after it.
pub proof fn deadlines_stay_consistent(
    s: lifecycle::LifecycleSpec,
    c: lifecycle::CommandSpec,
    request: lifecycle::StartSpec,
    is_recording: bool,
    now: int,
)
    requires
        deadline_follows_release(s),
    ensures
        deadline_follows_release(s.commanded(c, now).0),
        deadline_follows_release(s.woken(now).0),
        deadline_follows_release(s.started(request, is_recording).0),
{
}

// ---------------------------------------------------------------------------
// Starts and stops
// ---------------------------------------------------------------------------

/// A command that stops does nothing else: it comes upon a recording, runs one
/// stop, in its owner's name, and leaves the pipeline processing.
pub proof fn a_stop_ends_one_recording(
    s: lifecycle::LifecycleSpec,
    c: lifecycle::CommandSpec,
    now: int,
    i: int,
)
    requires
        0 <= i < s.commanded(c, now).1.len(),
        s.commanded(c, now).1[i] is Stop,
    ensures
        s.stage is Recording,
        s.commanded(c, now).1[i]->Stop_binding_id == s.stage->binding_id,
        s.commanded(c, now).1[i]->Stop_action_id == s.stage.stop_action(s.stage->binding_id),
        s.commanded(c, now).0.stage is Processing,
        s.commanded(c, now).1.len() == 1,
{
    let (settled, first) = s.expired(now);
    let then_effects = match c {
        lifecycle::CommandSpec::Input(e) => settled.received(e, now).1,
        _ => settled.latched().1,
    };
    if c is Input || c is HandsFreeLatch {
        if i < first.len() {
            assert(s.commanded(c, now).1[i] == first[i]);
        } else {
            assert(s.commanded(c, now).1[i] == then_effects[i - first.len()]);
        }
    }
}

/// A command that starts does nothing else, and comes upon an idle pipeline.
pub proof fn a_start_needs_an_idle_pipeline(
    s: lifecycle::LifecycleSpec,
    c: lifecycle::CommandSpec,
    now: int,
    i: int,
)
    requires
        0 <= i < s.commanded(c, now).1.len(),
        s.commanded(c, now).1[i] is Start,
    ensures
        s.stage is Idle,
        s.commanded(c, now).0.stage is Idle,
        s.commanded(c, now).1.len() == 1,
{
    match c {
        lifecycle::CommandSpec::Input(e) => {
            let (settled, first) = s.expired(now);
            let then_effects = settled.received(e, now).1;
            if i < first.len() {
                assert(s.input(e, now).1[i] == first[i]);
            } else {
                assert(s.input(e, now).1[i] == then_effects[i - first.len()]);
            }
        },
        _ => {},
    }
}

/// While the pipeline is processing, nothing but its end moves it on, and no
/// command and no timer has an effect.
pub proof fn processing_is_left_to_finish(
    s: lifecycle::LifecycleSpec,
    c: lifecycle::CommandSpec,
    now: int,
)
    requires
        s.stage is Processing,
    ensures
        c is ProcessingFinished <==> !(s.commanded(c, now).0.stage is Processing),
        s.commanded(c, now).1.len() == 0,
        s.woken(now).0.stage is Processing,
        s.woken(now).1.len() == 0,
{
}

/// A recording keeps its owner for as long as it lasts, whatever comes in.
pub proof fn a_recording_keeps_its_owner(
    s: lifecycle::LifecycleSpec,
    c: lifecycle::CommandSpec,
    now: int,
)
    requires
        s.stage is Recording,
        s.commanded(c, now).0.stage is Recording,
    ensures
        s.commanded(c, now).0.stage->binding_id == s.stage->binding_id,
        s.stage->latched ==> s.commanded(c, now).0.stage->latched,
{
}

/// After a cancellation nothing is recording and no timer is set.
pub proof fn cancel_leaves_nothing_pending(
    s: lifecycle::LifecycleSpec,
    recording_was_active: bool,
    now: int,
)
    ensures
        ({
            let after = s.commanded(
                lifecycle::CommandSpec::Cancel { recording_was_active },
                now,
            ).0;
            &&& !(after.stage is Recording)
            &&& after.next_deadline() is None
            &&& after.hold_started is None
        }),
{
}

/// A press that comes too soon after the last accepted one, with no release held
/// back, changes nothing.
pub proof fn rapid_presses_are_debounced(
    s: lifecycle::LifecycleSpec,
    e: lifecycle::InputSpec,
    now: int,
)
    requires
        e.is_pressed,
        s.pending_release is None,
        s.last_press matches Some(t) && t <= now < t + DEBOUNCE,
    ensures
        s.input(e, now) == (s, Seq::<lifecycle::EffectSpec>::empty()),
{
    assert(s.input(e, now).1 =~= Seq::<lifecycle::EffectSpec>::empty());
}

/// One thing that happens to the lifecycle.
pub ghost enum Step {
    Command { command: lifecycle::CommandSpec, at: int },
    Timer { at: int },
    Started { request: lifecycle::StartSpec, is_recording: bool },
}

/// The state and the effects after one step.
pub open spec fn after_step(s: lifecycle::LifecycleSpec, step: Step) -> (
    lifecycle::LifecycleSpec,
    Seq<lifecycle::EffectSpec>,
) {
    match step {
        Step::Command { command, at } => s.commanded(command, at),
        Step::Timer { at } => s.woken(at),
        Step::Started { request, is_recording } => s.started(request, is_recording),
    }
}

/// The state and all effects after a run of steps.
pub open spec fn after_steps(s: lifecycle::LifecycleSpec, steps: Seq<Step>) -> (
    lifecycle::LifecycleSpec,
    Seq<lifecycle::EffectSpec>,
)
    decreases steps.len(),
{
    if steps.len() == 0 {
        (s, Seq::empty())
    } else {
        let (before, first) = after_steps(s, steps.drop_last());
        let (after, then_effects) = after_step(before, steps.last());
        (after, first + then_effects)
    }
}

/// How many of the effects are stops.
pub open spec fn stops(effects: Seq<lifecycle::EffectSpec>) -> nat
    decreases effects.len(),
{
    if effects.len() == 0 {
        0
    } else {
        stops(effects.drop_last()) + if effects.last() is Stop {
            1nat
        } else {
            0nat
        }
    }
}

/// How many of the steps began a recording.
pub open spec fn recordings_begun(steps: Seq<Step>) -> nat
    decreases steps.len(),
{
    if steps.len() == 0 {
        0
    } else {
        recordings_begun(steps.drop_last()) + if steps.last() matches Step::Started {
            is_recording: true,
            ..
        } {
            1nat
        } else {
            0nat
        }
    }
}

proof fn lemma_stops_add_up(a: Seq<lifecycle::EffectSpec>, b: Seq<lifecycle::EffectSpec>)
    ensures
        stops(a + b) == stops(a) + stops(b),
    decreases b.len(),
{
    if b.len() == 0 {
        assert(a + b =~= a);
    } else {
        lemma_stops_add_up(a, b.drop_last());
        assert((a + b).drop_last() =~= a + b.drop_last());
        assert((a + b).last() == b.last());
    }
}

/// A step stops at most once, and only a recording, which it ends.
proof fn lemma_a_step_stops_a_recording_once(s: lifecycle::LifecycleSpec, step: Step)
    ensures
        stops(after_step(s, step).1) <= 1,
        stops(after_step(s, step).1) == 1 ==> s.stage is Recording && !(after_step(
            s,
            step,
        ).0.stage is Recording),
        after_step(s, step).0.stage is Recording ==> s.stage is Recording || (step matches
            Step::Started { is_recording: true, .. }),
{
    reveal_with_fuel(stops, 4);
    match step {
        Step::Command { command, at } => match command {
            lifecycle::CommandSpec::Input(e) => {
                let (settled, first) = s.expired(at);
                lemma_stops_add_up(first, settled.received(e, at).1);
            },
            lifecycle::CommandSpec::HandsFreeLatch => {
                let (settled, first) = s.expired(at);
                lemma_stops_add_up(first, settled.latched().1);
            },
            _ => {},
        },
        Step::Timer { at } => {
            let (hinted, first) = s.hinted(at);
            lemma_stops_add_up(first, hinted.expired(at).1);
        },
        Step::Started { .. } => {},
    }
}

/// Over any run from an idle pipeline, no more recordings are stopped than were
/// begun, and the one still running is not among the stopped.
pub proof fn no_recording_is_stopped_twice(idle: lifecycle::LifecycleSpec, steps: Seq<Step>)
    requires
        idle.stage is Idle,
    ensures
        stops(after_steps(idle, steps).1) + (if after_steps(idle, steps).0.stage is Recording {
            1int
        } else {
            0int
        }) <= recordings_begun(steps),
    decreases steps.len(),
{
    if steps.len() > 0 {
        let (before, first) = after_steps(idle, steps.drop_last());
        no_recording_is_stopped_twice(idle, steps.drop_last());
        lemma_a_step_stops_a_recording_once(before, steps.last());
        lemma_stops_add_up(first, after_step(before, steps.last()).1);
    }
}

// ---------------------------------------------------------------------------
// Releases and auto-repeat
// ---------------------------------------------------------------------------

/// `e` is a push-to-talk event of the binding that is recording.
pub open spec fn holds(s: lifecycle::LifecycleSpec, e: lifecycle::InputSpec) -> bool {
    &&& e.push_to_talk
    &&& s.stage matches stage::StageSpec::Recording { binding_id, .. }
    &&& binding_id == e.binding_id
}

/// Letting go does not stop anything by itself: the stop fires once, when the
/// window has closed without a re-press, and not before.
pub proof fn genuine_release_stops_once(
    s: lifecycle::LifecycleSpec,
    release: lifecycle::InputSpec,
    at: int,
    now: int,
)
    requires
        holds(s, release),
        s.stage.can_latch(),
        s.pending_release is None,
        !release.is_pressed,
        s.actions.contains(s.stage.stop_action(release.binding_id)),
    ensures
        ({
            let (waiting, first) = s.input(release, at);
            let deadline = at + ptt::window(s.facts(release, at).ends_tap());
            &&& first.len() == 0
            &&& waiting.stage == s.stage
            &&& waiting.next_deadline() is Some
            &&& now < deadline ==> waiting.expired(now) == (
                waiting,
                Seq::<lifecycle::EffectSpec>::empty(),
            )
            &&& now >= deadline ==> {
                let (after, stops) = waiting.expired(now);
                &&& after.stage is Processing
                &&& after.next_deadline() is None
                &&& stops == seq![
                    lifecycle::EffectSpec::Stop {
                        action_id: s.stage.stop_action(release.binding_id),
                        binding_id: release.binding_id,
                        hotkey_string: release.hotkey_string,
                    },
                ]
            }
        }),
{
    assert(s.input(release, at).1 =~= Seq::<lifecycle::EffectSpec>::empty());
}

/// The latency guarantee for ordinary dictation: a hold long enough to say
/// anything is no tap, whatever the settings, so its stop is held back for the
/// short grace only.
pub proof fn a_long_hold_pays_only_the_grace(
    s: lifecycle::LifecycleSpec,
    release: lifecycle::InputSpec,
    pressed_at: int,
    at: int,
)
    requires
        holds(s, release),
        !release.is_pressed,
        s.pending_release is None,
        s.hold_started == Some(pressed_at),
        at - pressed_at > TAP_MAX_HOLD,
    ensures
        s.input(release, at).0.pending_release matches Some(p) && !p.is_tap && p.deadline == at
            + RELEASE_GRACE,
{
}

/// The hold is timed from the accepted press that came upon no recording, or upon
/// one whose hold nobody times: neither auto-repeat, nor a press of either binding
/// during a hold, nor a debounced press, nor a release, nor the timer starts it
/// over.
pub proof fn only_an_accepted_press_times_the_hold(
    s: lifecycle::LifecycleSpec,
    c: lifecycle::CommandSpec,
    now: int,
)
    ensures
        ({
            let after = s.commanded(c, now).0.hold_started;
            ||| after == s.hold_started
            ||| after is None
            ||| {
                &&& after == Some(now)
                &&& c matches lifecycle::CommandSpec::Input(e)
                &&& e.is_pressed
                &&& s.expired(now).0.facts(e, now).action() == ptt::PttAction::Passthrough
                &&& !s.debounced(now)
                &&& !(s.expired(now).0.stage is Recording) || s.expired(now).0.hold_started is None
            }
        }),
        s.woken(now).0.hold_started == s.hold_started || s.woken(now).0.hold_started is None,
{
}

/// A release that a re-press follows sooner than a human could is auto-repeat:
/// the two together change nothing at all, latched or not, hands-free or not.
pub proof fn auto_repeat_is_absorbed(
    s: lifecycle::LifecycleSpec,
    release: lifecycle::InputSpec,
    press: lifecycle::InputSpec,
    released_at: int,
    pressed_at: int,
)
    requires
        holds(s, release),
        holds(s, press),
        !release.is_pressed,
        press.is_pressed,
        s.pending_release is None,
        released_at <= pressed_at < released_at + DOUBLE_TAP_MIN_GAP,
    ensures
        s.input(release, released_at).1.len() == 0,
        s.input(release, released_at).0.input(press, pressed_at) == (
            s,
            Seq::<lifecycle::EffectSpec>::empty(),
        ),
{
    let waiting = s.input(release, released_at).0;
    assert(waiting.input(press, pressed_at).1 =~= Seq::<lifecycle::EffectSpec>::empty());
}

/// A re-press that latches nothing, before the stop is due, also only takes the
/// release back.
pub proof fn a_re_press_takes_a_release_back(
    s: lifecycle::LifecycleSpec,
    release: lifecycle::InputSpec,
    press: lifecycle::InputSpec,
    released_at: int,
    pressed_at: int,
)
    requires
        holds(s, release),
        holds(s, press),
        !release.is_pressed,
        press.is_pressed,
        s.pending_release is None,
        released_at <= pressed_at < released_at + ptt::window(
            s.facts(release, released_at).ends_tap(),
        ),
        !press.hands_free || !s.facts(release, released_at).ends_tap(),
    ensures
        s.input(release, released_at).0.input(press, pressed_at) == (
            s,
            Seq::<lifecycle::EffectSpec>::empty(),
        ),
{
    let waiting = s.input(release, released_at).0;
    assert(waiting.input(press, pressed_at).1 =~= Seq::<lifecycle::EffectSpec>::empty());
}

/// A key event and when it comes.
pub ghost struct TimedInput {
    pub event: lifecycle::InputSpec,
    pub at: int,
}

/// The state and all effects after a run of events.
pub open spec fn after_inputs(s: lifecycle::LifecycleSpec, events: Seq<TimedInput>) -> (
    lifecycle::LifecycleSpec,
    Seq<lifecycle::EffectSpec>,
)
    decreases events.len(),
{
    if events.len() == 0 {
        (s, Seq::empty())
    } else {
        let (before, first) = after_inputs(s, events.drop_last());
        let (after, then_effects) = before.input(events.last().event, events.last().at);
        (after, first + then_effects)
    }
}

/// The events come in pairs of a release and a re-press that follows it at
/// once, all of the binding that is recording: what X11 emits while a
/// push-to-talk key is held down.
pub open spec fn auto_repeat_burst(s: lifecycle::LifecycleSpec, events: Seq<TimedInput>) -> bool {
    &&& events.len() % 2 == 0
    &&& forall|k: int|
        0 <= k < events.len() ==> holds(s, (#[trigger] events[k]).event)
            && events[k].event.is_pressed == (k % 2 == 1)
    &&& forall|k: int|
        0 <= k < events.len() - 1 && k % 2 == 0 ==> (#[trigger] events[k]).at <= events[k + 1].at
            && events[k + 1].at < events[k].at + DOUBLE_TAP_MIN_GAP
}

/// An auto-repeat burst of any length has no effect and leaves everything as it
/// was: it neither stops the recording nor latches it.
pub proof fn auto_repeat_burst_changes_nothing(
    s: lifecycle::LifecycleSpec,
    events: Seq<TimedInput>,
)
    requires
        s.pending_release is None,
        auto_repeat_burst(s, events),
    ensures
        after_inputs(s, events) == (s, Seq::<lifecycle::EffectSpec>::empty()),
    decreases events.len(),
{
    if events.len() > 0 {
        let n = events.len() as int;
        let released = events.drop_last();
        let rest = released.drop_last();
        assert forall|k: int| 0 <= k < rest.len() implies holds(s, (#[trigger] rest[k]).event)
            && rest[k].event.is_pressed == (k % 2 == 1) by {
            assert(rest[k] == events[k]);
        }
        assert forall|k: int| 0 <= k < rest.len() - 1 && k % 2 == 0 implies (
        #[trigger] rest[k]).at <= rest[k + 1].at && rest[k + 1].at < rest[k].at
            + DOUBLE_TAP_MIN_GAP by {
            assert(rest[k] == events[k]);
        }
        auto_repeat_burst_changes_nothing(s, rest);
        assert(released.last() == events[n - 2]);
        assert(events.last() == events[n - 1]);
        auto_repeat_is_absorbed(
            s,
            events[n - 2].event,
            events[n - 1].event,
            events[n - 2].at,
            events[n - 1].at,
        );
        assert(after_inputs(s, released).1 =~= Seq::<lifecycle::EffectSpec>::empty());
        assert(after_inputs(s, events).1 =~= Seq::<lifecycle::EffectSpec>::empty());
    }
}

// ---------------------------------------------------------------------------
// Hands-free
// ---------------------------------------------------------------------------

/// Where classification asks for a latch, something latches: the deferred stop
/// is never dropped by a latch that does nothing.
pub proof fn a_latch_always_latches(
    s: lifecycle::LifecycleSpec,
    e: lifecycle::InputSpec,
    now: int,
)
    requires
        s.facts(e, now).action() == ptt::PttAction::Latch,
    ensures
        s.stage.can_latch(),
        s.latched().0.stage == s.stage.latched(),
        s.latched().1 == lifecycle::latch_effects(),
{
}

/// A press that overtakes the deadline of a deferred release never latches: the
/// stop that it was racing still fires.
pub proof fn a_late_press_never_latches(
    s: lifecycle::LifecycleSpec,
    press: lifecycle::InputSpec,
    now: int,
)
    requires
        s.release_due(now),
        s.stage.stopped_by(s.pending_release->0.binding_id, false),
        s.actions.contains(s.stage.stop_action(s.pending_release->0.binding_id)),
    ensures
        s.input(press, now).0.stage is Processing,
        s.input(press, now).1 == seq![
            lifecycle::EffectSpec::Stop {
                action_id: s.stage.stop_action(s.pending_release->0.binding_id),
                binding_id: s.pending_release->0.binding_id,
                hotkey_string: s.pending_release->0.hotkey_string,
            },
        ],
{
    let (settled, first) = s.expired(now);
    assert(s.input(press, now).1 =~= first);
}

/// The recording is hands-free.
pub open spec fn is_latched(s: lifecycle::LifecycleSpec) -> bool {
    s.stage matches stage::StageSpec::Recording { latched: true, .. }
}

/// Nothing latches while hands-free is off and its key does not fire.
pub proof fn nothing_latches_until_hands_free_is_enabled(
    s: lifecycle::LifecycleSpec,
    c: lifecycle::CommandSpec,
    request: lifecycle::StartSpec,
    is_recording: bool,
    now: int,
)
    requires
        !is_latched(s),
        !(c is HandsFreeLatch),
        c matches lifecycle::CommandSpec::Input(e) ==> !e.hands_free,
    ensures
        !is_latched(s.commanded(c, now).0),
        !is_latched(s.woken(now).0),
        !is_latched(s.started(request, is_recording).0),
{
}

/// Going hands-free drops a stop that was held back and is not due, and where
/// nothing latches it stays.
pub proof fn latching_drops_the_deferred_stop(s: lifecycle::LifecycleSpec, now: int)
    requires
        !s.release_due(now),
    ensures
        ({
            let after = s.commanded(lifecycle::CommandSpec::HandsFreeLatch, now).0;
            &&& s.stage.can_latch() ==> is_latched(after) && after.pending_release is None
            &&& !s.stage.can_latch() ==> after == s
        }),
{
}

/// A hands-free key that overtakes the deadline of a deferred release never
/// latches: the stop that it was racing still fires.
pub proof fn a_late_latch_never_drops_a_due_stop(s: lifecycle::LifecycleSpec, now: int)
    requires
        s.release_due(now),
        s.stage.stopped_by(s.pending_release->0.binding_id, false),
        s.actions.contains(s.stage.stop_action(s.pending_release->0.binding_id)),
    ensures
        ({
            let (after, effects) = s.commanded(lifecycle::CommandSpec::HandsFreeLatch, now);
            &&& after.stage is Processing
            &&& after.pending_release is None
            &&& effects == seq![
                lifecycle::EffectSpec::Stop {
                    action_id: s.stage.stop_action(s.pending_release->0.binding_id),
                    binding_id: s.pending_release->0.binding_id,
                    hotkey_string: s.pending_release->0.hotkey_string,
                },
            ]
        }),
{
    assert(s.settled_latch(now).1 =~= s.expired(now).1);
}

/// The headline flow. Tap, tap again inside the window, and the recording is
/// hands-free: letting go stops nothing, and once that release has settled the
/// next press ends the recording.
pub proof fn double_tap_latches_and_next_press_stops(
    idle: lifecycle::LifecycleSpec,
    press: lifecycle::InputSpec,
    release: lifecycle::InputSpec,
    t0: int,
    t1: int,
    t2: int,
    t3: int,
    t4: int,
)
    requires
        idle.stage is Idle,
        idle.pending_release is None,
        !idle.debounced(t0),
        press.push_to_talk && press.hands_free && press.is_pressed,
        release == (lifecycle::InputSpec { is_pressed: false, ..press }),
        idle.actions.contains(press.binding_id),
        t0 <= t1 <= t0 + TAP_MAX_HOLD,
        t1 + DOUBLE_TAP_MIN_GAP <= t2 < t1 + DOUBLE_TAP_WINDOW,
        t2 <= t3,
        t3 + RELEASE_GRACE <= t4,
    ensures
        ({
            let (asked, starts) = idle.input(press, t0);
            let (recording, claims) = asked.started(press.start_at(t0), true);
            let (tapped, none1) = recording.input(release, t1);
            let (free, latches) = tapped.input(press, t2);
            let (released, none2) = free.input(release, t3);
            let (done, stops) = released.input(press, t4);
            &&& starts == seq![lifecycle::EffectSpec::Start(press.start_at(t0))]
            &&& claims == seq![
                lifecycle::EffectSpec::RegisterHandsFree { binding_id: press.binding_id },
            ]
            &&& recording.stage == stage::StageSpec::begun(press.binding_id)
            &&& none1.len() == 0 && tapped.stage == recording.stage
            &&& latches == lifecycle::latch_effects() && free.stage == recording.stage.latched()
            &&& none2.len() == 0 && released.stage == free.stage
            &&& released.expired(t4).0.stage == free.stage && released.expired(t4).1.len() == 0
            &&& done.stage is Processing
            &&& stops == seq![
                lifecycle::EffectSpec::Stop {
                    action_id: press.binding_id,
                    binding_id: press.binding_id,
                    hotkey_string: press.hotkey_string,
                },
            ]
        }),
{
    let (asked, starts) = idle.input(press, t0);
    assert(starts =~= seq![lifecycle::EffectSpec::Start(press.start_at(t0))]);
    let recording = asked.started(press.start_at(t0), true).0;
    let tapped = recording.input(release, t1).0;
    assert(tapped.pending_release->0.is_tap);
    let (free, latches) = tapped.input(press, t2);
    assert(latches =~= lifecycle::latch_effects());
    let released = free.input(release, t3).0;
    let (done, stops) = released.input(press, t4);
    assert(stops =~= seq![
        lifecycle::EffectSpec::Stop {
            action_id: press.binding_id,
            binding_id: press.binding_id,
            hotkey_string: press.hotkey_string,
        },
    ]);
}

/// The hint is offered only over a hold that can still be latched, and no
/// sooner than the hint delay after the press that began it.
pub proof fn the_hint_waits_for_a_long_hold(
    s: lifecycle::LifecycleSpec,
    request: lifecycle::StartSpec,
    is_recording: bool,
    now: int,
)
    ensures
        s.woken(now).1.contains(lifecycle::EffectSpec::OfferHandsFreeHint) ==> s.stage.can_latch()
            && s.hint_due(now),
        request.push_to_talk ==> (s.started(request, is_recording).0.hint_deadline matches Some(at)
            ==> at == request.at + HANDS_FREE_HINT_DELAY),
{
    let (hinted, first) = s.hinted(now);
    let then_effects = hinted.expired(now).1;
    if s.woken(now).1.contains(lifecycle::EffectSpec::OfferHandsFreeHint) {
        let i = choose|i: int|
            0 <= i < s.woken(now).1.len() && s.woken(now).1[i]
                == lifecycle::EffectSpec::OfferHandsFreeHint;
        if i >= first.len() {
            assert(s.woken(now).1[i] == then_effects[i - first.len()]);
        }
    }
}

/// How many of the effects offer the hint.
pub open spec fn hints(effects: Seq<lifecycle::EffectSpec>) -> nat
    decreases effects.len(),
{
    if effects.len() == 0 {
        0
    } else {
        hints(effects.drop_last()) + if effects.last() is OfferHandsFreeHint {
            1nat
        } else {
            0nat
        }
    }
}

proof fn lemma_hints_add_up(a: Seq<lifecycle::EffectSpec>, b: Seq<lifecycle::EffectSpec>)
    ensures
        hints(a + b) == hints(a) + hints(b),
    decreases b.len(),
{
    if b.len() == 0 {
        assert(a + b =~= a);
    } else {
        lemma_hints_add_up(a, b.drop_last());
        assert((a + b).drop_last() =~= a + b.drop_last());
        assert((a + b).last() == b.last());
    }
}

/// The recording goes on unlatched through all the steps.
pub open spec fn goes_on(s: lifecycle::LifecycleSpec, steps: Seq<Step>) -> bool
    decreases steps.len(),
{
    if steps.len() == 0 {
        s.stage.can_latch()
    } else {
        &&& goes_on(s, steps.drop_last())
        &&& !(steps.last() is Started)
        &&& after_steps(s, steps).0.stage.can_latch()
    }
}

/// The timer went off at `deadline` or later.
pub open spec fn timer_reached(steps: Seq<Step>, deadline: int) -> bool
    decreases steps.len(),
{
    if steps.len() == 0 {
        false
    } else {
        timer_reached(steps.drop_last(), deadline) || (steps.last() matches Step::Timer { at }
            && at >= deadline)
    }
}

/// There is an action for each way in which the recording can stop.
pub open spec fn can_stop(s: lifecycle::LifecycleSpec) -> bool {
    &&& s.stage is Recording
    &&& s.actions.contains(s.stage->binding_id)
    &&& s.actions.contains("transcribe"@)
    &&& s.actions.contains("transcribe_with_post_process"@)
}

proof fn lemma_a_step_offers_the_hint_when_due(s: lifecycle::LifecycleSpec, step: Step)
    requires
        s.stage.can_latch(),
        can_stop(s),
        !(step is Started),
        after_step(s, step).0.stage.can_latch(),
    ensures
        can_stop(after_step(s, step).0),
        ({
            let (after, effects) = after_step(s, step);
            if step matches Step::Timer { at } && s.hint_due(at) {
                hints(effects) == 1 && after.hint_deadline is None
            } else {
                hints(effects) == 0 && after.hint_deadline == s.hint_deadline
            }
        }),
{
    reveal_with_fuel(hints, 4);
    match step {
        Step::Command { command, at } => match command {
            lifecycle::CommandSpec::Input(e) => {
                let (settled, first) = s.expired(at);
                lemma_hints_add_up(first, settled.received(e, at).1);
            },
            lifecycle::CommandSpec::HandsFreeLatch => {
                let (settled, first) = s.expired(at);
                lemma_hints_add_up(first, settled.latched().1);
            },
            _ => {},
        },
        Step::Timer { at } => {
            let (hinted, first) = s.hinted(at);
            lemma_hints_add_up(first, hinted.expired(at).1);
        },
        Step::Started { .. } => {},
    }
}

/// A recording that goes on unlatched is offered the hint exactly once: when the
/// timer first goes off at its deadline or later, and never again.
pub proof fn the_hint_is_offered_exactly_once(
    s: lifecycle::LifecycleSpec,
    steps: Seq<Step>,
    deadline: int,
)
    requires
        s.hint_deadline == Some(deadline),
        can_stop(s),
        goes_on(s, steps),
    ensures
        hints(after_steps(s, steps).1) == (if timer_reached(steps, deadline) {
            1int
        } else {
            0int
        }),
        after_steps(s, steps).0.hint_deadline == (if timer_reached(steps, deadline) {
            None::<int>
        } else {
            Some(deadline)
        }),
        can_stop(after_steps(s, steps).0),
    decreases steps.len(),
{
    if steps.len() > 0 {
        let rest = steps.drop_last();
        let (before, first) = after_steps(s, rest);
        the_hint_is_offered_exactly_once(s, rest, deadline);
        assert(before.stage.can_latch()) by {
            if rest.len() == 0 {
                assert(before == s);
            }
        }
        lemma_a_step_offers_the_hint_when_due(before, steps.last());
        lemma_hints_add_up(first, after_step(before, steps.last()).1);
    }
}

} // verus!
