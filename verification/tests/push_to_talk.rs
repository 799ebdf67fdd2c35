use handy::lifecycle::{Command, Lifecycle, PipelineEffect};
use handy::ptt::{
    classify_ptt_event, defer_window, PendingReleaseView, PttAction, PttInput, DEBOUNCE,
    DOUBLE_TAP_MIN_GAP, DOUBLE_TAP_WINDOW, HANDS_FREE_HINT_DELAY, RELEASE_GRACE, TAP_MAX_HOLD,
    UNKNOWN_HOLD,
};
use handy::stage::{is_transcribe_binding, stops_recording, switch_transcribe_mode, Stage};

fn millis(ms: u64) -> u128 {
    ms as u128 * 1_000_000
}

/// Baseline input: push-to-talk on, hands-free off, nothing pending.
fn input(is_pressed: bool) -> PttInput<'static> {
    PttInput {
        pending_release: None,
        is_pressed,
        push_to_talk: true,
        hands_free: false,
        binding_id: BINDING,
        recording: None,
        hold_elapsed: UNKNOWN_HOLD,
    }
}

/// A deferred release, re-pressed after a human-length gap.
fn pending(is_tap: bool) -> PendingReleaseView<'static> {
    PendingReleaseView {
        binding_id: BINDING,
        is_tap,
        since_release: millis(120),
    }
}

#[test]
fn push_to_talk_release_while_recording_defers_release() {
    assert_eq!(
        classify_ptt_event(PttInput {
            recording: Some((BINDING, false)),
            ..input(false)
        }),
        PttAction::DeferRelease { is_tap: false }
    );
}

#[test]
fn push_to_talk_press_matching_pending_release_cancels_release() {
    assert_eq!(
        classify_ptt_event(PttInput {
            pending_release: Some(pending(false)),
            recording: Some((BINDING, false)),
            ..input(true)
        }),
        PttAction::CancelRelease
    );
}

#[test]
fn toggle_mode_press_and_release_pass_through() {
    assert_eq!(
        classify_ptt_event(PttInput {
            pending_release: Some(pending(false)),
            push_to_talk: false,
            recording: Some((BINDING, false)),
            ..input(true)
        }),
        PttAction::Passthrough
    );
    assert_eq!(
        classify_ptt_event(PttInput {
            push_to_talk: false,
            recording: Some((BINDING, false)),
            ..input(false)
        }),
        PttAction::Passthrough
    );
}

#[test]
fn press_for_different_binding_than_pending_release_passes_through() {
    assert_eq!(
        classify_ptt_event(PttInput {
            pending_release: Some(pending(false)),
            binding_id: "transcribe_with_post_process",
            recording: Some((BINDING, false)),
            ..input(true)
        }),
        PttAction::Passthrough
    );
}

#[test]
fn press_matching_pending_release_cancels_without_recording_state() {
    assert_eq!(
        classify_ptt_event(PttInput {
            pending_release: Some(pending(false)),
            ..input(true)
        }),
        PttAction::CancelRelease
    );
}

// ---------------------------------------------------------------------
// Transcribe-mode switching (overlapping bindings, e.g. `option` holding
// the recording while `option+shift+space` fires mid-hold)
// ---------------------------------------------------------------------

const POST_PROCESS_BINDING: &str = "transcribe_with_post_process";

fn recording(binding_id: &str, post_process: bool) -> Stage {
    Stage::Recording {
        binding_id: binding_id.to_string(),
        latched: false,
        post_process,
    }
}

fn stage_post_process(stage: &Stage) -> Option<bool> {
    match stage {
        Stage::Recording { post_process, .. } => Some(*post_process),
        _ => None,
    }
}

/// The post-process combo fired while the plain transcribe binding holds
/// the recording: the recording is retargeted, not ignored.
#[test]
fn post_process_press_upgrades_an_in_flight_transcribe_recording() {
    let mut stage = recording(BINDING, false);
    assert!(switch_transcribe_mode(&mut stage, POST_PROCESS_BINDING));
    assert_eq!(stage_post_process(&stage), Some(true));
    // The owner of the hold is unchanged, so its release still stops it.
    assert!(stops_recording(&stage, BINDING, false));
}

/// Symmetric overlap: transcribe firing during a post-process hold drops
/// back to a plain transcription.
#[test]
fn transcribe_press_downgrades_an_in_flight_post_process_recording() {
    let mut stage = recording(POST_PROCESS_BINDING, true);
    assert!(switch_transcribe_mode(&mut stage, BINDING));
    assert_eq!(stage_post_process(&stage), Some(false));
}

/// A press of the binding already holding the recording is not a switch —
/// it must keep flowing to the normal stop/latch handling.
#[test]
fn same_binding_press_is_not_a_mode_switch() {
    let mut stage = recording(BINDING, false);
    assert!(!switch_transcribe_mode(&mut stage, BINDING));
    assert_eq!(stage_post_process(&stage), Some(false));

    let mut stage = Stage::Idle;
    assert!(!switch_transcribe_mode(&mut stage, POST_PROCESS_BINDING));
}

// ---------------------------------------------------------------------
// Hands-free latching
// ---------------------------------------------------------------------

/// A short hold released with hands-free enabled is a double-tap candidate,
/// so its stop earns the longer window instead of the auto-repeat grace.
#[test]
fn short_hold_release_is_a_tap_when_hands_free_is_enabled() {
    assert_eq!(
        classify_ptt_event(PttInput {
            hands_free: true,
            recording: Some((BINDING, false)),
            hold_elapsed: millis(120),
            ..input(false)
        }),
        PttAction::DeferRelease { is_tap: true }
    );
}

/// The latency guarantee for ordinary dictation: a hold long enough to say
/// anything is never a tap, so its release keeps the 50 ms grace and stops
/// as promptly as it always did.
#[test]
fn long_hold_release_is_not_a_tap() {
    assert_eq!(
        classify_ptt_event(PttInput {
            hands_free: true,
            recording: Some((BINDING, false)),
            hold_elapsed: TAP_MAX_HOLD + millis(1),
            ..input(false)
        }),
        PttAction::DeferRelease { is_tap: false }
    );
}

/// With the setting off, a short hold behaves exactly as before.
#[test]
fn short_hold_is_not_a_tap_when_hands_free_is_disabled() {
    assert_eq!(
        classify_ptt_event(PttInput {
            recording: Some((BINDING, false)),
            hold_elapsed: millis(120),
            ..input(false)
        }),
        PttAction::DeferRelease { is_tap: false }
    );
}

#[test]
fn second_tap_inside_the_window_latches() {
    assert_eq!(
        classify_ptt_event(PttInput {
            pending_release: Some(pending(true)),
            hands_free: true,
            recording: Some((BINDING, false)),
            ..input(true)
        }),
        PttAction::Latch
    );
}

/// Key chatter and X11 auto-repeat re-press almost instantly; only a human
/// gap counts as a deliberate second tap.
#[test]
fn re_press_inside_the_minimum_gap_does_not_latch() {
    assert_eq!(
        classify_ptt_event(PttInput {
            pending_release: Some(PendingReleaseView {
                since_release: DOUBLE_TAP_MIN_GAP - millis(1),
                ..pending(true)
            }),
            hands_free: true,
            recording: Some((BINDING, false)),
            ..input(true)
        }),
        PttAction::CancelRelease
    );
}

/// The double-tap window is bounded on both sides by the classifier, not
/// just by the timer: a busy coordinator thread can dequeue a press after
/// its deadline, and a late press must not latch — it would also discard the
/// stop it was racing.
#[test]
fn re_press_after_the_window_closed_does_not_latch() {
    assert_eq!(
        classify_ptt_event(PttInput {
            pending_release: Some(PendingReleaseView {
                since_release: DOUBLE_TAP_WINDOW,
                ..pending(true)
            }),
            hands_free: true,
            recording: Some((BINDING, false)),
            ..input(true)
        }),
        PttAction::CancelRelease
    );
}

/// Latching needs a recording to latch. Without one the deferred stop is
/// merely cancelled — never silently dropped by a latch that no-ops.
#[test]
fn second_tap_without_a_recording_does_not_latch() {
    assert_eq!(
        classify_ptt_event(PttInput {
            pending_release: Some(pending(true)),
            hands_free: true,
            ..input(true)
        }),
        PttAction::CancelRelease
    );
}

/// Latching requires the deferred release to have been a tap; re-pressing
/// after a long hold just keeps the existing recording open.
#[test]
fn re_press_after_a_long_hold_does_not_latch() {
    assert_eq!(
        classify_ptt_event(PttInput {
            pending_release: Some(pending(false)),
            hands_free: true,
            recording: Some((BINDING, false)),
            ..input(true)
        }),
        PttAction::CancelRelease
    );
}

/// Once latched the key no longer holds the recording open, so letting go
/// must not stop it — including the release of the second tap itself. The
/// release is still deferred (nothing fires on expiry) so that an
/// auto-repeat press behind it is recognised rather than read as a stop.
#[test]
fn release_while_latched_defers_without_arming_a_tap() {
    assert_eq!(
        classify_ptt_event(PttInput {
            hands_free: true,
            recording: Some((BINDING, true)),
            hold_elapsed: millis(80),
            ..input(false)
        }),
        PttAction::DeferRelease { is_tap: false }
    );
}

/// A press while latched is the user ending the hands-free recording; it
/// passes through to the stop branch rather than being swallowed.
#[test]
fn press_while_latched_passes_through_to_stop() {
    assert_eq!(
        classify_ptt_event(PttInput {
            hands_free: true,
            recording: Some((BINDING, true)),
            ..input(true)
        }),
        PttAction::Passthrough
    );
}

// ---------------------------------------------------------------------
// Sequences of events.
//
// Under X11 key auto-repeat, holding a push-to-talk key does not emit one
// long press. It emits the initial press followed by a stream of
// synthesized release/press pairs, then a single genuine release on key-up.
// The simulator below feeds such sequences to the lifecycle, and lets its
// timer go off whenever a deadline has passed.
// ---------------------------------------------------------------------

const BINDING: &str = "transcribe";

#[derive(Clone, Copy)]
enum Ev {
    /// A key-down event (real initial press or a synthesized auto-repeat press).
    Press,
    /// A key-up event (synthesized auto-repeat release or the genuine key-up).
    Release,
    /// The deferred-release window elapsed with no cancelling press arriving.
    Grace,
    /// Time passing with no key activity, in milliseconds.
    Wait(u64),
}

#[derive(Debug, PartialEq, Eq)]
enum SimStage {
    Idle,
    Recording { latched: bool },
    Processing,
}

struct SimResult {
    starts: u32,
    stops: u32,
    stage: SimStage,
}

fn perform(lifecycle: &mut Lifecycle, effects: Vec<PipelineEffect>, result: &mut SimResult) {
    for effect in effects {
        match effect {
            PipelineEffect::Start(request) => {
                result.starts += 1;
                let more = lifecycle.start_finished(request, true);
                perform(lifecycle, more, result);
            }
            PipelineEffect::Stop { .. } => result.stops += 1,
            _ => {}
        }
    }
}

fn simulate(events: &[Ev], hands_free: bool) -> SimResult {
    let mut lifecycle = Lifecycle::new(vec![
        BINDING.to_string(),
        POST_PROCESS_BINDING.to_string(),
    ]);
    let mut result = SimResult {
        starts: 0,
        stops: 0,
        stage: SimStage::Idle,
    };
    let mut clock_ms: u64 = 0;

    for ev in events {
        // Auto-repeat events arrive a few ms apart, well inside DEBOUNCE.
        clock_ms += match ev {
            Ev::Wait(ms) => *ms,
            // Long enough to close either deferral window.
            Ev::Grace => (DOUBLE_TAP_WINDOW / 1_000_000) as u64 + 1,
            _ => 5,
        };
        let now = millis(clock_ms);

        if lifecycle.next_deadline().is_some_and(|at| at <= now) {
            let effects = lifecycle.handle_timeout(now);
            perform(&mut lifecycle, effects, &mut result);
        }

        if let Ev::Press | Ev::Release = ev {
            let command = Command::Input {
                binding_id: BINDING.to_string(),
                hotkey_string: "option".to_string(),
                is_pressed: matches!(ev, Ev::Press),
                push_to_talk: true,
                hands_free,
            };
            let effects = lifecycle.handle(command, now);
            perform(&mut lifecycle, effects, &mut result);
        }
    }

    result.stage = match lifecycle.stage() {
        Stage::Idle => SimStage::Idle,
        Stage::Recording { latched, .. } => SimStage::Recording { latched: *latched },
        Stage::Processing => SimStage::Processing,
    };
    result
}

/// Initial press plus several synthesized release/press pairs, as X11 emits
/// while a push-to-talk key is held down. The first auto-repeat only arrives
/// after the system's repeat delay, so the hold is already well past
/// `TAP_MAX_HOLD` by then.
fn autorepeat_burst() -> Vec<Ev> {
    let mut events = vec![Ev::Press, Ev::Wait(660)];
    for _ in 0..6 {
        events.push(Ev::Release);
        events.push(Ev::Press);
        events.push(Ev::Wait(40));
    }
    events
}

/// A burst of X11 auto-repeat release/press pairs must not stop recording: the
/// releases are coalesced and recording stays continuously active for the whole
/// burst.
#[test]
fn x11_autorepeat_burst_does_not_toggle_recording() {
    let result = simulate(&autorepeat_burst(), false);
    assert_eq!(result.starts, 1, "recording should start exactly once");
    assert_eq!(
        result.stops, 0,
        "synthesized auto-repeat releases must not stop recording mid-burst"
    );
    assert_eq!(
        result.stage,
        SimStage::Recording { latched: false },
        "recording must remain active across the entire auto-repeat burst"
    );
}

/// The same burst with hands-free enabled must still not latch: auto-repeat
/// re-presses arrive far inside `DOUBLE_TAP_MIN_GAP`, and the hold they
/// interrupt is long past `TAP_MAX_HOLD`.
#[test]
fn x11_autorepeat_burst_does_not_latch_hands_free() {
    let result = simulate(&autorepeat_burst(), true);
    assert_eq!(result.starts, 1);
    assert_eq!(result.stops, 0);
    assert_eq!(
        result.stage,
        SimStage::Recording { latched: false },
        "auto-repeat must never be mistaken for a double-tap"
    );
}

/// Complements the burst test: once the key is genuinely released and the
/// grace window elapses with no re-press, recording stops exactly once. This
/// proves the debounce only coalesces synthesized releases and does not wedge
/// the coordinator or swallow the real key-up.
#[test]
fn genuine_release_after_grace_stops_recording_once() {
    let mut events = autorepeat_burst();
    events.push(Ev::Release); // genuine key-up
    events.push(Ev::Grace); // grace window elapses, no cancelling press
    let result = simulate(&events, false);
    assert_eq!(result.starts, 1, "recording should start exactly once");
    assert_eq!(
        result.stops, 1,
        "a genuine release should stop recording exactly once"
    );
    assert_eq!(result.stage, SimStage::Processing);
}

/// The headline flow: tap, tap again inside the window, then speak freely.
/// Releasing the second tap must not stop anything, and the third press
/// ends the recording.
#[test]
fn double_tap_latches_and_next_press_stops() {
    let events = [
        Ev::Press,
        Ev::Wait(90),
        Ev::Release, // first tap ends -> deferred as a tap
        Ev::Wait(120),
        Ev::Press, // second tap inside the window -> latch
        Ev::Wait(60),
        Ev::Release,     // released while latched -> ignored
        Ev::Wait(8_000), // hands-free dictation
        Ev::Press,       // deliberate stop
        Ev::Wait(80),
        Ev::Release,
    ];
    let result = simulate(&events, true);
    assert_eq!(result.starts, 1, "recording should start exactly once");
    assert_eq!(
        result.stops, 1,
        "only the press after latching should stop the recording"
    );
    assert_eq!(result.stage, SimStage::Processing);
}

/// With the setting off, the identical key sequence is two ordinary
/// push-to-talk taps — proof the feature is inert until enabled.
#[test]
fn double_tap_does_not_latch_when_hands_free_is_disabled() {
    let events = [
        Ev::Press,
        Ev::Wait(90),
        Ev::Release,
        Ev::Wait(120), // 50 ms grace elapses -> the first tap stops
    ];
    let result = simulate(&events, false);
    assert_eq!(result.starts, 1);
    assert_eq!(result.stops, 1);
    assert_eq!(result.stage, SimStage::Processing);
}

/// A lone tap with hands-free on must still transcribe once the window
/// closes — the latch path must not strand a recording that never got a
/// second tap.
#[test]
fn single_tap_still_stops_after_the_double_tap_window() {
    let events = [Ev::Press, Ev::Wait(90), Ev::Release, Ev::Wait(300)];
    let result = simulate(&events, true);
    assert_eq!(result.starts, 1);
    assert_eq!(result.stops, 1);
    assert_eq!(result.stage, SimStage::Processing);
}

/// A single tap whose second press arrives after the window closed — the
/// shape a descheduled coordinator produces, since it then dequeues the
/// press with `Ok` instead of waking on the deadline. The tap must still
/// transcribe, exactly as if the timer had fired on time.
#[test]
fn tap_still_stops_when_a_late_press_overtakes_the_deadline() {
    let events = [
        Ev::Press,
        Ev::Wait(90),
        Ev::Release,
        Ev::Wait(310), // past DOUBLE_TAP_WINDOW: the stop is now due
        Ev::Press,     // dequeued late, must not latch or swallow the stop
    ];
    let result = simulate(&events, true);
    assert_eq!(result.starts, 1);
    assert_eq!(
        result.stops, 1,
        "a late press must not discard the tap's pending stop"
    );
    assert_eq!(result.stage, SimStage::Processing);
}

/// The user latches by double-tapping but keeps the key held down, so X11
/// starts auto-repeating it. Those synthesized presses must not be read as
/// the deliberate press that ends a hands-free recording — otherwise
/// latching on X11 would stop the recording a moment later.
#[test]
fn autorepeat_while_latched_does_not_stop_recording() {
    let mut events = vec![
        Ev::Press,
        Ev::Wait(90),
        Ev::Release,
        Ev::Wait(120),
        Ev::Press,     // latches, and the key stays down
        Ev::Wait(660), // auto-repeat delay
    ];
    for _ in 0..6 {
        events.push(Ev::Release);
        events.push(Ev::Press);
        events.push(Ev::Wait(40));
    }
    let result = simulate(&events, true);
    assert_eq!(result.starts, 1);
    assert_eq!(
        result.stops, 0,
        "auto-repeat must not end a hands-free recording"
    );
    assert_eq!(result.stage, SimStage::Recording { latched: true });
}

// ---------------------------------------------------------------------
// Exact values
// ---------------------------------------------------------------------

#[test]
fn the_windows_are_what_they_are_documented_to_be() {
    assert_eq!(DEBOUNCE, millis(30));
    assert_eq!(RELEASE_GRACE, millis(50));
    assert_eq!(TAP_MAX_HOLD, millis(250));
    assert_eq!(DOUBLE_TAP_WINDOW, millis(300));
    assert_eq!(DOUBLE_TAP_MIN_GAP, millis(40));
    assert_eq!(HANDS_FREE_HINT_DELAY, millis(10_000));
    assert_eq!(UNKNOWN_HOLD, std::time::Duration::MAX.as_nanos());
    assert_eq!(defer_window(true), millis(300));
    assert_eq!(defer_window(false), millis(50));
}

#[test]
fn the_edges_of_the_windows_are_exact() {
    let tap = |hold: u128| {
        classify_ptt_event(PttInput {
            hands_free: true,
            recording: Some((BINDING, false)),
            hold_elapsed: hold,
            ..input(false)
        })
    };
    assert_eq!(tap(TAP_MAX_HOLD), PttAction::DeferRelease { is_tap: true });
    assert_eq!(tap(TAP_MAX_HOLD + 1), PttAction::DeferRelease { is_tap: false });

    let re_press = |gap: u128| {
        classify_ptt_event(PttInput {
            pending_release: Some(PendingReleaseView {
                since_release: gap,
                ..pending(true)
            }),
            hands_free: true,
            recording: Some((BINDING, false)),
            ..input(true)
        })
    };
    assert_eq!(re_press(DOUBLE_TAP_MIN_GAP - 1), PttAction::CancelRelease);
    assert_eq!(re_press(DOUBLE_TAP_MIN_GAP), PttAction::Latch);
    assert_eq!(re_press(DOUBLE_TAP_WINDOW - 1), PttAction::Latch);
    assert_eq!(re_press(DOUBLE_TAP_WINDOW), PttAction::CancelRelease);
}

#[test]
fn only_the_two_transcribe_bindings_transcribe() {
    assert!(is_transcribe_binding("transcribe"));
    assert!(is_transcribe_binding("transcribe_with_post_process"));
    assert!(!is_transcribe_binding("cancel"));
    assert!(!is_transcribe_binding("Transcribe"));
    assert!(!is_transcribe_binding(""));
}
