//! What each event does to the transcription lifecycle, case by case and field by
//! field, and what whole dictations come to.
use vstd::prelude::*;

use crate::lifecycle;
use crate::lifecycle::{Command, PendingRelease, PipelineEffect, StartRequest};
use crate::ptt::{
    DEBOUNCE, DOUBLE_TAP_MIN_GAP, DOUBLE_TAP_WINDOW, HANDS_FREE_HINT_DELAY, RELEASE_GRACE,
    TAP_MAX_HOLD,
};
use crate::stage;

verus! {

// ---------------------------------------------------------------------------
// Words for the cases
// ---------------------------------------------------------------------------

/// The time from `before` to `now`, zero if `before` lies ahead.
pub open spec fn since(now: int, before: int) -> int {
    if now < before {
        0
    } else {
        now - before
    }
}

/// Whatever release is held back, its deadline lies ahead.
pub open spec fn nothing_due(s: lifecycle::LifecycleSpec, now: int) -> bool {
    s.pending_release matches Some(p) ==> now < p.deadline
}

/// A push-to-talk press comes while a release of its own binding is held back.
pub open spec fn re_presses(s: lifecycle::LifecycleSpec, e: lifecycle::InputSpec) -> bool {
    &&& e.is_pressed
    &&& e.push_to_talk
    &&& s.pending_release matches Some(p)
    &&& p.binding_id == e.binding_id
}

/// The last accepted press is at least the debounce time ago.
pub open spec fn is_rested(s: lifecycle::LifecycleSpec, now: int) -> bool {
    s.last_press matches Some(t) ==> now >= t + DEBOUNCE
}

/// `owner` holds a recording.
pub open spec fn records(
    s: lifecycle::LifecycleSpec,
    owner: Seq<char>,
    latched: bool,
    post_process: bool,
) -> bool {
    s.stage == (stage::StageSpec::Recording { binding_id: owner, latched, post_process })
}

/// The state once a press at `now` was accepted, before it does anything else.
pub open spec fn noted(s: lifecycle::LifecycleSpec, now: int) -> lifecycle::LifecycleSpec {
    lifecycle::LifecycleSpec {
        last_press: Some(now),
        hold_started: match (s.stage, s.hold_started) {
            (stage::StageSpec::Recording { .. }, Some(at)) => Some(at),
            _ => Some(now),
        },
        ..s
    }
}

/// The action that ends a recording of `owner` in the given mode.
pub open spec fn ending_action(owner: Seq<char>, post_process: bool) -> Seq<char> {
    if post_process {
        "transcribe_with_post_process"@
    } else if owner == "transcribe_with_post_process"@ {
        "transcribe"@
    } else {
        owner
    }
}

/// The state and the effects once a recording of `owner` ended: one stop, and the
/// pipeline processes, unless the action to run does not exist.
pub open spec fn ended(
    s: lifecycle::LifecycleSpec,
    owner: Seq<char>,
    hotkey_string: Seq<char>,
    post_process: bool,
) -> (lifecycle::LifecycleSpec, Seq<lifecycle::EffectSpec>) {
    let action_id = ending_action(owner, post_process);
    let quiet = lifecycle::LifecycleSpec { hint_deadline: None, hold_started: None, ..s };
    if s.actions.contains(action_id) {
        (
            lifecycle::LifecycleSpec { stage: stage::StageSpec::Processing, ..quiet },
            seq![lifecycle::EffectSpec::Stop { action_id, binding_id: owner, hotkey_string }],
        )
    } else {
        (quiet, Seq::empty())
    }
}

/// The start that a press asks for.
pub open spec fn start_of(e: lifecycle::InputSpec, now: int) -> lifecycle::EffectSpec {
    lifecycle::EffectSpec::Start(
        lifecycle::StartSpec {
            binding_id: e.binding_id,
            hotkey_string: e.hotkey_string,
            push_to_talk: e.push_to_talk,
            hands_free: e.hands_free,
            at: now,
        },
    )
}

/// Nothing to do.
pub open spec fn no_effects() -> Seq<lifecycle::EffectSpec> {
    Seq::empty()
}

// ---------------------------------------------------------------------------
// Presses
// ---------------------------------------------------------------------------

/// A press on an idle pipeline starts a recording, unless it comes less than the
/// debounce time after the last accepted one: push-to-talk or toggle, hands-free or
/// not, however long ago the last press was.
pub proof fn a_press_on_an_idle_pipeline_starts(
    s: lifecycle::LifecycleSpec,
    e: lifecycle::InputSpec,
    now: int,
)
    requires
        s.stage is Idle,
        nothing_due(s, now),
        !re_presses(s, e),
        e.is_pressed,
        is_rested(s, now),
        s.actions.contains(e.binding_id),
    ensures
        s.commanded(lifecycle::CommandSpec::Input(e), now) == (
            noted(s, now),
            seq![start_of(e, now)],
        ),
{
    assert(s.input(e, now).1 =~= seq![start_of(e, now)]);
}

/// A press of a binding without an action starts nothing.
pub proof fn a_press_without_an_action_starts_nothing(
    s: lifecycle::LifecycleSpec,
    e: lifecycle::InputSpec,
    now: int,
)
    requires
        s.stage is Idle,
        nothing_due(s, now),
        !re_presses(s, e),
        e.is_pressed,
        is_rested(s, now),
        !s.actions.contains(e.binding_id),
    ensures
        s.commanded(lifecycle::CommandSpec::Input(e), now) == (
            lifecycle::LifecycleSpec {
                hint_deadline: if e.push_to_talk {
                    None
                } else {
                    s.hint_deadline
                },
                ..noted(s, now)
            },
            no_effects(),
        ),
{
    assert(s.input(e, now).1 =~= no_effects());
}

/// A press less than the debounce time after the last accepted one is dropped, in
/// every stage and mode.
pub proof fn a_press_inside_the_debounce_time_is_dropped(
    s: lifecycle::LifecycleSpec,
    e: lifecycle::InputSpec,
    now: int,
)
    requires
        nothing_due(s, now),
        !re_presses(s, e),
        e.is_pressed,
        !is_rested(s, now),
    ensures
        s.commanded(lifecycle::CommandSpec::Input(e), now) == (s, no_effects()),
{
    assert(s.input(e, now).1 =~= no_effects());
}

/// With push-to-talk off, a press of the binding that is recording stops it,
/// latched or not. With push-to-talk on, only a latched recording ends by a press.
pub proof fn a_press_of_the_owner_ends_a_toggle_or_latched_recording(
    s: lifecycle::LifecycleSpec,
    e: lifecycle::InputSpec,
    now: int,
    latched: bool,
    post_process: bool,
)
    requires
        records(s, e.binding_id, latched, post_process),
        nothing_due(s, now),
        !re_presses(s, e),
        e.is_pressed,
        is_rested(s, now),
    ensures
        s.commanded(lifecycle::CommandSpec::Input(e), now) == (if latched || !e.push_to_talk {
            ended(noted(s, now), e.binding_id, e.hotkey_string, post_process)
        } else {
            (noted(s, now), no_effects())
        }),
{
    let (after, effects) = s.input(e, now);
    if latched || !e.push_to_talk {
        assert(effects =~= ended(
            noted(s, now),
            e.binding_id,
            e.hotkey_string,
            post_process,
        ).1);
    } else {
        assert(effects =~= no_effects());
    }
}

/// A press of another binding than the one that is recording puts the recording in
/// its own mode, and does nothing else.
pub proof fn a_press_of_another_binding_sets_the_mode(
    s: lifecycle::LifecycleSpec,
    e: lifecycle::InputSpec,
    now: int,
    owner: Seq<char>,
    latched: bool,
    post_process: bool,
)
    requires
        records(s, owner, latched, post_process),
        owner != e.binding_id,
        nothing_due(s, now),
        !re_presses(s, e),
        e.is_pressed,
        is_rested(s, now),
    ensures
        s.commanded(lifecycle::CommandSpec::Input(e), now) == (
            lifecycle::LifecycleSpec {
                stage: stage::StageSpec::Recording {
                    binding_id: owner,
                    latched,
                    post_process: e.binding_id == "transcribe_with_post_process"@,
                },
                ..noted(s, now)
            },
            no_effects(),
        ),
{
    assert(s.input(e, now).1 =~= no_effects());
}

/// A press while the pipeline is processing is noted and does nothing else.
pub proof fn a_press_while_processing_is_only_noted(
    s: lifecycle::LifecycleSpec,
    e: lifecycle::InputSpec,
    now: int,
)
    requires
        s.stage is Processing,
        nothing_due(s, now),
        !re_presses(s, e),
        e.is_pressed,
        is_rested(s, now),
    ensures
        s.commanded(lifecycle::CommandSpec::Input(e), now) == (noted(s, now), no_effects()),
{
    assert(s.input(e, now).1 =~= no_effects());
}

/// A re-press while its own release is held back takes the release back, and makes
/// the recording hands-free exactly if hands-free is on, the release ended a tap,
/// the gap is one of a double-tap and the recording is its own and not latched yet.
pub proof fn a_re_press_latches_or_takes_the_release_back(
    s: lifecycle::LifecycleSpec,
    e: lifecycle::InputSpec,
    now: int,
)
    requires
        nothing_due(s, now),
        re_presses(s, e),
    ensures
        ({
            let p = s.pending_release->0;
            let gap = since(now, p.released_at);
            let owned = s.stage matches stage::StageSpec::Recording {
                binding_id,
                latched: false,
                ..
            } && binding_id == e.binding_id;
            let latches = owned && e.hands_free && p.is_tap && DOUBLE_TAP_MIN_GAP <= gap && gap
                < DOUBLE_TAP_WINDOW;
            let (after, effects) = s.commanded(lifecycle::CommandSpec::Input(e), now);
            if latches {
                &&& after == (lifecycle::LifecycleSpec {
                    stage: stage::StageSpec::Recording {
                        binding_id: e.binding_id,
                        latched: true,
                        post_process: s.stage->post_process,
                    },
                    pending_release: None,
                    ..s
                })
                &&& effects == seq![
                    lifecycle::EffectSpec::UnregisterHandsFree,
                    lifecycle::EffectSpec::ShowHandsFreeActive,
                    lifecycle::EffectSpec::RememberHandsFreeUsed,
                ]
            } else {
                &&& after == (lifecycle::LifecycleSpec { pending_release: None, ..s })
                &&& effects == no_effects()
            }
        }),
{
    let effects = s.input(e, now).1;
    assert(effects =~= s.received(e, now).1);
}

// ---------------------------------------------------------------------------
// Releases
// ---------------------------------------------------------------------------

/// A push-to-talk release of the binding that is recording is held back, whatever
/// the latch: for the double-tap window if it ends a tap, else for the grace. It
/// ends a tap exactly if hands-free is on, the recording is not latched and the key
/// was down no longer than a tap.
pub proof fn a_release_of_the_owner_is_held_back(
    s: lifecycle::LifecycleSpec,
    e: lifecycle::InputSpec,
    now: int,
    latched: bool,
    post_process: bool,
)
    requires
        records(s, e.binding_id, latched, post_process),
        s.pending_release is None,
        !e.is_pressed,
        e.push_to_talk,
    ensures
        ({
            let short = s.hold_started matches Some(at) && since(now, at) <= TAP_MAX_HOLD;
            let is_tap = e.hands_free && !latched && short;
            s.commanded(lifecycle::CommandSpec::Input(e), now) == (
                lifecycle::LifecycleSpec {
                    pending_release: Some(
                        lifecycle::PendingSpec {
                            binding_id: e.binding_id,
                            hotkey_string: e.hotkey_string,
                            deadline: now + if is_tap {
                                DOUBLE_TAP_WINDOW as int
                            } else {
                                RELEASE_GRACE as int
                            },
                            is_tap,
                            released_at: now,
                        },
                    ),
                    ..s
                },
                no_effects(),
            )
        }),
{
    assert(s.input(e, now).1 =~= no_effects());
}

/// A push-to-talk release that comes while another one is held back ends the
/// recording of its own binding at once, unless that is latched.
pub proof fn a_second_release_ends_its_recording(
    s: lifecycle::LifecycleSpec,
    e: lifecycle::InputSpec,
    now: int,
    post_process: bool,
)
    requires
        records(s, e.binding_id, false, post_process),
        s.pending_release is Some,
        nothing_due(s, now),
        !e.is_pressed,
        e.push_to_talk,
    ensures
        s.commanded(lifecycle::CommandSpec::Input(e), now) == ended(
            s,
            e.binding_id,
            e.hotkey_string,
            post_process,
        ),
{
    assert(s.input(e, now).1 =~= ended(s, e.binding_id, e.hotkey_string, post_process).1);
}

/// Every other release does nothing: with push-to-talk off, without a recording of
/// the binding, or over a latched one while a release is held back.
pub proof fn any_other_release_does_nothing(
    s: lifecycle::LifecycleSpec,
    e: lifecycle::InputSpec,
    now: int,
)
    requires
        nothing_due(s, now),
        !e.is_pressed,
        !e.push_to_talk || !(s.stage is Recording) || s.stage->binding_id != e.binding_id || (
        s.stage->latched && s.pending_release is Some),
    ensures
        s.commanded(lifecycle::CommandSpec::Input(e), now) == (s, no_effects()),
{
    assert(s.input(e, now).1 =~= no_effects());
}

// ---------------------------------------------------------------------------
// Deadlines
// ---------------------------------------------------------------------------

/// The state and the effects once the release that is held back, if it is due at
/// `now`, has fired: it ends an unlatched recording of its own binding, and is gone
/// either way.
pub open spec fn fired(s: lifecycle::LifecycleSpec, now: int) -> (
    lifecycle::LifecycleSpec,
    Seq<lifecycle::EffectSpec>,
) {
    match s.pending_release {
        Some(p) if p.deadline <= now => {
            let gone = lifecycle::LifecycleSpec { pending_release: None, ..s };
            match s.stage {
                stage::StageSpec::Recording { binding_id, latched, post_process } if binding_id
                    == p.binding_id && !latched => ended(
                    gone,
                    binding_id,
                    p.hotkey_string,
                    post_process,
                ),
                _ => (gone, Seq::empty()),
            }
        },
        _ => (s, Seq::empty()),
    }
}

/// When the timer goes off, the hint is offered if its time has come and the
/// recording is not latched, and the release that is due fires.
pub proof fn the_timer_offers_the_hint_and_fires_the_release(
    s: lifecycle::LifecycleSpec,
    now: int,
)
    ensures
        ({
            let due = s.hint_deadline matches Some(at) && at <= now;
            let told = if due {
                lifecycle::LifecycleSpec { hint_deadline: None, ..s }
            } else {
                s
            };
            let offer = if due && (s.stage matches stage::StageSpec::Recording {
                latched: false,
                ..
            }) {
                seq![lifecycle::EffectSpec::OfferHandsFreeHint]
            } else {
                no_effects()
            };
            s.woken(now) == (fired(told, now).0, offer + fired(told, now).1)
        }),
{
    let (told, first) = s.hinted(now);
    assert(told.expired(now).1 =~= fired(told, now).1);
    assert(first + told.expired(now).1 =~= first + fired(told, now).1);
}

/// A key event, and the hands-free key, find a release that is due already fired.
pub proof fn events_find_a_due_release_fired(
    s: lifecycle::LifecycleSpec,
    c: lifecycle::CommandSpec,
    now: int,
)
    requires
        c is Input || c is HandsFreeLatch,
    ensures
        nothing_due(fired(s, now).0, now),
        s.commanded(c, now).0 == fired(s, now).0.commanded(c, now).0,
        s.commanded(c, now).1 == fired(s, now).1 + fired(s, now).0.commanded(c, now).1,
{
    let settled = fired(s, now).0;
    assert(s.expired(now).1 =~= fired(s, now).1);
    assert(s.expired(now).0 == settled);
    assert(settled.expired(now) == (settled, no_effects()));
    match c {
        lifecycle::CommandSpec::Input(e) => {
            assert(settled.input(e, now).1 =~= settled.received(e, now).1);
        },
        _ => {
            assert(settled.settled_latch(now).1 =~= settled.latched().1);
        },
    }
}

/// The next moment for the timer is the earlier one of the two deadlines.
pub proof fn the_timer_is_set_for_the_earlier_deadline(s: lifecycle::LifecycleSpec)
    ensures
        match s.next_deadline() {
            None => s.pending_release is None && s.hint_deadline is None,
            Some(at) => {
                &&& (s.pending_release matches Some(p) && p.deadline == at) || s.hint_deadline
                    == Some(at)
                &&& s.pending_release matches Some(p) ==> at <= p.deadline
                &&& s.hint_deadline matches Some(hint) ==> at <= hint
            },
        },
{
}

/// Time that passed is counted, and time ahead counts as none.
pub proof fn elapsed_time_is_counted(now: int, before: int)
    ensures
        lifecycle::elapsed(now, before) == since(now, before),
        lifecycle::elapsed(now, before) >= 0,
        before <= now ==> before + lifecycle::elapsed(now, before) == now,
{
}

// ---------------------------------------------------------------------------
// The other commands
// ---------------------------------------------------------------------------

/// The hands-free key makes an unlatched recording hands-free, drops the stop that
/// was held back, and does nothing else; without an unlatched recording it does
/// nothing at all.
pub proof fn the_hands_free_key_latches_a_recording(s: lifecycle::LifecycleSpec, now: int)
    requires
        nothing_due(s, now),
    ensures
        s.commanded(lifecycle::CommandSpec::HandsFreeLatch, now) == (match s.stage {
            stage::StageSpec::Recording { binding_id, latched: false, post_process } => (
                lifecycle::LifecycleSpec {
                    stage: stage::StageSpec::Recording { binding_id, latched: true, post_process },
                    pending_release: None,
                    ..s
                },
                seq![
                    lifecycle::EffectSpec::UnregisterHandsFree,
                    lifecycle::EffectSpec::ShowHandsFreeActive,
                    lifecycle::EffectSpec::RememberHandsFreeUsed,
                ],
            ),
            _ => (s, no_effects()),
        }),
{
    assert(s.settled_latch(now).1 =~= s.latched().1);
}

/// A cancellation ends a recording without a stop and clears every timer; a
/// pipeline that is processing, or idle, stays so.
pub proof fn a_cancellation_ends_without_a_stop(
    s: lifecycle::LifecycleSpec,
    recording_was_active: bool,
    now: int,
)
    ensures
        s.commanded(lifecycle::CommandSpec::Cancel { recording_was_active }, now) == (
            lifecycle::LifecycleSpec {
                stage: match s.stage {
                    stage::StageSpec::Processing => stage::StageSpec::Processing,
                    _ => stage::StageSpec::Idle,
                },
                last_press: s.last_press,
                pending_release: None,
                hold_started: None,
                hint_deadline: None,
                actions: s.actions,
            },
            no_effects(),
        ),
{
}

/// The end of processing makes the pipeline idle, and does nothing else.
pub proof fn the_end_of_processing_makes_the_pipeline_idle(s: lifecycle::LifecycleSpec, now: int)
    ensures
        s.commanded(lifecycle::CommandSpec::ProcessingFinished, now) == (
            lifecycle::LifecycleSpec { stage: stage::StageSpec::Idle, ..s },
            no_effects(),
        ),
{
}

/// A start that succeeds begins a recording of its binding, not latched, that is
/// post-processed exactly if the post-processing shortcut began it: push-to-talk or
/// toggle. A start that fails begins none.
pub proof fn a_start_begins_a_recording_of_its_binding(
    s: lifecycle::LifecycleSpec,
    request: lifecycle::StartSpec,
)
    ensures
        records(
            s.started(request, true).0,
            request.binding_id,
            false,
            request.binding_id == "transcribe_with_post_process"@,
        ),
        s.started(request, false).0.stage == s.stage,
{
}

/// Beside the stage, a start sets the hint and claims the hands-free key, for a
/// push-to-talk hold with hands-free on that records; any other hold has no hint,
/// and a toggle start leaves the hint alone.
pub proof fn a_start_claims_the_hands_free_key_for_a_hold(
    s: lifecycle::LifecycleSpec,
    request: lifecycle::StartSpec,
    is_recording: bool,
)
    ensures
        ({
            let (after, effects) = s.started(request, is_recording);
            let claims = request.push_to_talk && request.hands_free && (is_recording
                || s.stage is Recording);
            &&& after.last_press == s.last_press
            &&& after.pending_release == s.pending_release
            &&& after.hold_started == s.hold_started
            &&& after.actions == s.actions
            &&& after.hint_deadline == (if claims {
                Some(request.at + HANDS_FREE_HINT_DELAY)
            } else if request.push_to_talk {
                None
            } else {
                s.hint_deadline
            })
            &&& effects == (if claims {
                seq![
                    lifecycle::EffectSpec::RegisterHandsFree { binding_id: request.binding_id },
                ]
            } else {
                no_effects()
            })
        }),
{
}

// ---------------------------------------------------------------------------
// Whole dictations
// ---------------------------------------------------------------------------

/// Toggle dictation: a press on an idle pipeline starts a recording, its release
/// does nothing, and the next accepted press of the same binding stops it once,
/// with that binding's own action, post-processing or not.
pub proof fn a_toggle_dictation_starts_and_stops_once(
    idle: lifecycle::LifecycleSpec,
    press: lifecycle::InputSpec,
    t0: int,
    t1: int,
    t2: int,
)
    requires
        idle.stage is Idle,
        idle.pending_release is None,
        is_rested(idle, t0),
        press.is_pressed && !press.push_to_talk,
        idle.actions.contains(press.binding_id),
        t0 + DEBOUNCE <= t2,
    ensures
        ({
            let input = lifecycle::CommandSpec::Input(press);
            let release = lifecycle::CommandSpec::Input(
                lifecycle::InputSpec { is_pressed: false, ..press },
            );
            let (asked, starts) = idle.commanded(input, t0);
            let (recording, claims) = asked.started(start_of(press, t0)->Start_0, true);
            let (held, none) = recording.commanded(release, t1);
            let (done, stops) = held.commanded(input, t2);
            &&& starts == seq![start_of(press, t0)]
            &&& claims == no_effects()
            &&& records(
                recording,
                press.binding_id,
                false,
                press.binding_id == "transcribe_with_post_process"@,
            )
            &&& held == recording && none == no_effects()
            &&& done.stage is Processing
            &&& stops == seq![
                lifecycle::EffectSpec::Stop {
                    action_id: press.binding_id,
                    binding_id: press.binding_id,
                    hotkey_string: press.hotkey_string,
                },
            ]
        }),
{
    let post_process = press.binding_id == "transcribe_with_post_process"@;
    a_press_on_an_idle_pipeline_starts(idle, press, t0);
    let asked = noted(idle, t0);
    let request = start_of(press, t0)->Start_0;
    a_start_begins_a_recording_of_its_binding(asked, request);
    a_start_claims_the_hands_free_key_for_a_hold(asked, request, true);
    let recording = asked.started(request, true).0;
    any_other_release_does_nothing(
        recording,
        lifecycle::InputSpec { is_pressed: false, ..press },
        t1,
    );
    a_press_of_the_owner_ends_a_toggle_or_latched_recording(
        recording,
        press,
        t2,
        false,
        post_process,
    );
}

/// Push-to-talk dictation: holding the key starts a recording, and letting go stops
/// it once, with the binding's own action, when the timer goes off after the window
/// in which the key could have come back. After the pipeline is done, the next
/// dictation goes the same way, however much later it comes.
pub proof fn a_push_to_talk_dictation_starts_and_stops_once(
    idle: lifecycle::LifecycleSpec,
    press: lifecycle::InputSpec,
    t0: int,
    t1: int,
    t2: int,
    t3: int,
    t4: int,
)
    requires
        idle.stage is Idle,
        idle.pending_release is None,
        is_rested(idle, t0),
        press.is_pressed && press.push_to_talk,
        idle.actions.contains(press.binding_id),
        t1 + DOUBLE_TAP_WINDOW <= t2 < t0 + HANDS_FREE_HINT_DELAY,
        t0 + DEBOUNCE <= t4,
    ensures
        ({
            let input = lifecycle::CommandSpec::Input(press);
            let release = lifecycle::CommandSpec::Input(
                lifecycle::InputSpec { is_pressed: false, ..press },
            );
            let (asked, starts) = idle.commanded(input, t0);
            let recording = asked.started(start_of(press, t0)->Start_0, true).0;
            let (waiting, none) = recording.commanded(release, t1);
            let (done, stops) = waiting.woken(t2);
            let (rested, nothing) = done.commanded(
                lifecycle::CommandSpec::ProcessingFinished,
                t3,
            );
            let (again, starts_again) = rested.commanded(input, t4);
            &&& starts == seq![start_of(press, t0)]
            &&& none == no_effects()
            &&& waiting.stage == recording.stage
            &&& stops == seq![
                lifecycle::EffectSpec::Stop {
                    action_id: press.binding_id,
                    binding_id: press.binding_id,
                    hotkey_string: press.hotkey_string,
                },
            ]
            &&& done.stage is Processing
            &&& nothing == no_effects()
            &&& starts_again == seq![start_of(press, t4)]
        }),
{
    let post_process = press.binding_id == "transcribe_with_post_process"@;
    let release = lifecycle::InputSpec { is_pressed: false, ..press };
    a_press_on_an_idle_pipeline_starts(idle, press, t0);
    let asked = noted(idle, t0);
    let request = start_of(press, t0)->Start_0;
    a_start_begins_a_recording_of_its_binding(asked, request);
    a_start_claims_the_hands_free_key_for_a_hold(asked, request, true);
    let recording = asked.started(request, true).0;
    a_release_of_the_owner_is_held_back(recording, release, t1, false, post_process);
    let waiting = recording.commanded(lifecycle::CommandSpec::Input(release), t1).0;
    the_timer_offers_the_hint_and_fires_the_release(waiting, t2);
    let done = waiting.woken(t2).0;
    assert(waiting.woken(t2).1 =~= seq![
        lifecycle::EffectSpec::Stop {
            action_id: press.binding_id,
            binding_id: press.binding_id,
            hotkey_string: press.hotkey_string,
        },
    ]);
    the_end_of_processing_makes_the_pipeline_idle(done, t3);
    let rested = done.commanded(lifecycle::CommandSpec::ProcessingFinished, t3).0;
    a_press_on_an_idle_pipeline_starts(rested, press, t4);
}

// ---------------------------------------------------------------------------
// What the outside sees
// ---------------------------------------------------------------------------

/// A command means what its fields say.
pub proof fn a_command_means_its_fields(c: Command)
    ensures
        match c {
            Command::Input { binding_id, hotkey_string, is_pressed, push_to_talk, hands_free } =>
                {
                &&& c@ matches lifecycle::CommandSpec::Input(e)
                &&& e.binding_id == binding_id@
                &&& e.hotkey_string == hotkey_string@
                &&& e.is_pressed == is_pressed
                &&& e.push_to_talk == push_to_talk
                &&& e.hands_free == hands_free
            },
            Command::HandsFreeLatch => c@ is HandsFreeLatch,
            Command::Cancel { recording_was_active } => c@ == (lifecycle::CommandSpec::Cancel {
                recording_was_active,
            }),
            Command::ProcessingFinished => c@ is ProcessingFinished,
        },
{
}

/// A start request and a held-back release mean what their fields say.
pub proof fn requests_and_releases_mean_their_fields(r: StartRequest, p: PendingRelease)
    ensures
        r@.binding_id == r.binding_id@ && r@.hotkey_string == r.hotkey_string@,
        r@.push_to_talk == r.push_to_talk && r@.hands_free == r.hands_free,
        r@.at == r.at,
        p@.binding_id == p.binding_id@ && p@.hotkey_string == p.hotkey_string@,
        p@.deadline == p.deadline && p@.released_at == p.released_at,
        p@.is_tap == p.is_tap,
{
}

/// An effect means what its fields say, and a list of effects is the list of what
/// they mean, in order.
pub proof fn effects_mean_their_fields(list: Seq<PipelineEffect>, i: int)
    requires
        0 <= i < list.len(),
    ensures
        lifecycle::effects(list).len() == list.len(),
        lifecycle::effects(list)[i] == list[i]@,
        match list[i] {
            PipelineEffect::Start(r) => list[i]@ matches lifecycle::EffectSpec::Start(q)
                && q.binding_id == r.binding_id@ && q.hotkey_string == r.hotkey_string@
                && q.push_to_talk == r.push_to_talk && q.hands_free == r.hands_free && q.at == r.at,
            PipelineEffect::Stop { action_id, binding_id, hotkey_string } => list[i]@ matches
                lifecycle::EffectSpec::Stop { action_id: a, binding_id: b, hotkey_string: h } && a
                == action_id@ && b == binding_id@ && h == hotkey_string@,
            PipelineEffect::RegisterHandsFree { binding_id } => list[i]@ matches
                lifecycle::EffectSpec::RegisterHandsFree { binding_id: b } && b == binding_id@,
            PipelineEffect::UnregisterHandsFree => list[i]@ is UnregisterHandsFree,
            PipelineEffect::ShowHandsFreeActive => list[i]@ is ShowHandsFreeActive,
            PipelineEffect::RememberHandsFreeUsed => list[i]@ is RememberHandsFreeUsed,
            PipelineEffect::OfferHandsFreeHint => list[i]@ is OfferHandsFreeHint,
        },
{
}

} // verus!
