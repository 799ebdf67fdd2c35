use handy::coordinator::{Received, TranscriptionCoordinator};
use handy::lifecycle::{Command, Lifecycle, PipelineEffect, StartRequest};
use handy::stage::Stage;

const PLAIN: &str = "transcribe";
const POST: &str = "transcribe_with_post_process";

fn ms(n: u64) -> u128 {
    n as u128 * 1_000_000
}

fn lifecycle() -> Lifecycle {
    Lifecycle::new(vec![PLAIN.to_string(), POST.to_string()])
}

fn key(id: &str, is_pressed: bool, push_to_talk: bool, hands_free: bool) -> Command {
    Command::Input {
        binding_id: id.to_string(),
        hotkey_string: "option+space".to_string(),
        is_pressed,
        push_to_talk,
        hands_free,
    }
}

fn stop(action_id: &str, binding_id: &str) -> Vec<PipelineEffect> {
    vec![PipelineEffect::Stop {
        action_id: action_id.to_string(),
        binding_id: binding_id.to_string(),
        hotkey_string: "option+space".to_string(),
    }]
}

fn recording(id: &str, latched: bool, post_process: bool) -> Stage {
    Stage::Recording {
        binding_id: id.to_string(),
        latched,
        post_process,
    }
}

/// Presses `id` at `at` and reports that a recording began.
fn begin(l: &mut Lifecycle, id: &str, at: u128, hands_free: bool) -> Vec<PipelineEffect> {
    let mut effects = l.handle(key(id, true, true, hands_free), at);
    assert_eq!(effects.len(), 1);
    match effects.remove(0) {
        PipelineEffect::Start(request) => {
            assert_eq!(
                request,
                StartRequest {
                    binding_id: id.to_string(),
                    hotkey_string: "option+space".to_string(),
                    push_to_talk: true,
                    hands_free,
                    at,
                }
            );
            l.start_finished(request, true)
        }
        other => panic!("expected a start, got {other:?}"),
    }
}

#[test]
fn a_hold_claims_the_hands_free_key_and_sets_the_hint() {
    let mut l = lifecycle();
    assert_eq!(l.next_deadline(), None);
    let effects = begin(&mut l, PLAIN, ms(100), true);
    assert_eq!(
        effects,
        vec![PipelineEffect::RegisterHandsFree {
            binding_id: PLAIN.to_string()
        }]
    );
    assert_eq!(*l.stage(), recording(PLAIN, false, false));
    assert_eq!(l.next_deadline(), Some(ms(10_100)));
    assert_eq!(l.wait(ms(100)), Some(ms(10_000)));
    assert_eq!(l.wait(ms(20_000)), Some(0));

    // Before the deadline nothing happens; at it, the hint is offered once.
    assert_eq!(l.handle_timeout(ms(10_099)), vec![]);
    assert_eq!(
        l.handle_timeout(ms(10_100)),
        vec![PipelineEffect::OfferHandsFreeHint]
    );
    assert_eq!(l.next_deadline(), None);
    assert_eq!(l.handle_timeout(ms(10_200)), vec![]);
}

#[test]
fn without_hands_free_no_key_is_claimed() {
    let mut l = lifecycle();
    assert_eq!(begin(&mut l, POST, ms(0), false), vec![]);
    assert_eq!(*l.stage(), recording(POST, false, true));
    assert_eq!(l.next_deadline(), None);
}

#[test]
fn a_start_that_begins_no_recording_leaves_the_pipeline_idle() {
    let mut l = lifecycle();
    let mut effects = l.handle(key(PLAIN, true, true, true), ms(0));
    match effects.remove(0) {
        PipelineEffect::Start(request) => assert_eq!(l.start_finished(request, false), vec![]),
        other => panic!("expected a start, got {other:?}"),
    }
    assert_eq!(*l.stage(), Stage::Idle);
    assert_eq!(l.next_deadline(), None);
}

#[test]
fn a_binding_without_an_action_starts_nothing() {
    let mut l = Lifecycle::new(vec![PLAIN.to_string()]);
    assert_eq!(l.handle(key("other", true, true, true), ms(0)), vec![]);
    assert_eq!(*l.stage(), Stage::Idle);
    // The post-processing stop has no action to run either.
    begin(&mut l, PLAIN, ms(100), false);
    assert_eq!(l.handle(key(POST, true, true, false), ms(200)), vec![]);
    assert_eq!(*l.stage(), recording(PLAIN, false, true));
    assert_eq!(l.handle(key(PLAIN, false, true, false), ms(300)), vec![]);
    assert_eq!(l.handle_timeout(ms(400)), vec![]);
    assert_eq!(*l.stage(), recording(PLAIN, false, true));
}

#[test]
fn a_release_is_deferred_and_then_stops() {
    let mut l = lifecycle();
    begin(&mut l, PLAIN, ms(0), false);
    assert_eq!(l.handle(key(PLAIN, false, true, false), ms(500)), vec![]);
    assert_eq!(l.next_deadline(), Some(ms(550)));
    assert_eq!(l.handle_timeout(ms(549)), vec![]);
    assert_eq!(l.handle_timeout(ms(550)), stop(PLAIN, PLAIN));
    assert_eq!(*l.stage(), Stage::Processing);
    assert_eq!(l.handle(Command::ProcessingFinished, ms(600)), vec![]);
    assert_eq!(*l.stage(), Stage::Idle);
}

#[test]
fn an_event_settles_the_deadline_it_overtook() {
    let mut l = lifecycle();
    begin(&mut l, PLAIN, ms(0), false);
    l.handle(key(PLAIN, false, true, false), ms(500));
    // The stop fires first, and the late press then meets a busy pipeline.
    assert_eq!(
        l.handle(key(PLAIN, true, true, false), ms(700)),
        stop(PLAIN, PLAIN)
    );
    assert_eq!(*l.stage(), Stage::Processing);
}

#[test]
fn a_double_tap_goes_hands_free() {
    let mut l = lifecycle();
    begin(&mut l, PLAIN, ms(0), true);
    assert_eq!(l.handle(key(PLAIN, false, true, true), ms(100)), vec![]);
    assert_eq!(l.next_deadline(), Some(ms(400)));
    assert_eq!(
        l.handle(key(PLAIN, true, true, true), ms(200)),
        vec![
            PipelineEffect::UnregisterHandsFree,
            PipelineEffect::ShowHandsFreeActive,
            PipelineEffect::RememberHandsFreeUsed,
        ]
    );
    assert_eq!(*l.stage(), recording(PLAIN, true, false));
    // Its release stops nothing, and no hint is offered over it.
    assert_eq!(l.handle(key(PLAIN, false, true, true), ms(260)), vec![]);
    assert_eq!(l.handle_timeout(ms(310)), vec![]);
    assert_eq!(l.handle_timeout(ms(10_000)), vec![]);
    assert_eq!(
        l.handle(key(PLAIN, true, true, true), ms(12_000)),
        stop(PLAIN, PLAIN)
    );
}

#[test]
fn the_hands_free_key_latches_a_hold_and_nothing_else() {
    let mut l = lifecycle();
    assert_eq!(l.handle(Command::HandsFreeLatch, ms(0)), vec![]);
    begin(&mut l, PLAIN, ms(100), true);
    l.handle(key(PLAIN, false, true, true), ms(150));
    assert_eq!(l.handle(Command::HandsFreeLatch, ms(160)).len(), 3);
    assert_eq!(*l.stage(), recording(PLAIN, true, false));
    // The deferred stop is gone: what is left is the hint.
    assert_eq!(l.next_deadline(), Some(ms(10_100)));
    assert_eq!(l.handle(Command::HandsFreeLatch, ms(170)), vec![]);
}

#[test]
fn cancelling_leaves_no_timer() {
    let mut l = lifecycle();
    begin(&mut l, PLAIN, ms(0), true);
    l.handle(key(PLAIN, false, true, true), ms(100));
    let cancel = |active: bool| Command::Cancel {
        recording_was_active: active,
    };
    assert_eq!(l.handle(cancel(false), ms(110)), vec![]);
    assert_eq!(*l.stage(), Stage::Idle);
    assert_eq!(l.next_deadline(), None);

    // A pipeline that is processing is left to finish.
    begin(&mut l, PLAIN, ms(200), false);
    l.handle(key(PLAIN, false, true, false), ms(700));
    l.handle_timeout(ms(750));
    assert_eq!(*l.stage(), Stage::Processing);
    l.handle(cancel(true), ms(760));
    assert_eq!(*l.stage(), Stage::Processing);
}

#[test]
fn presses_are_debounced() {
    let mut l = lifecycle();
    begin(&mut l, PLAIN, ms(100), false);
    // A press of the other binding inside the debounce time is dropped.
    assert_eq!(l.handle(key(POST, true, true, false), ms(129)), vec![]);
    assert_eq!(*l.stage(), recording(PLAIN, false, false));
    assert_eq!(l.handle(key(POST, true, true, false), ms(130)), vec![]);
    assert_eq!(*l.stage(), recording(PLAIN, false, true));
}

#[test]
fn a_switched_recording_stops_with_the_post_processing_action() {
    let mut l = lifecycle();
    begin(&mut l, PLAIN, ms(0), false);
    l.handle(key(POST, true, true, false), ms(100));
    l.handle(key(PLAIN, false, true, false), ms(500));
    assert_eq!(l.handle_timeout(ms(550)), stop(POST, PLAIN));
}

#[test]
fn a_post_processing_hold_can_drop_back_to_a_plain_transcription() {
    let mut l = lifecycle();
    begin(&mut l, POST, ms(0), false);
    l.handle(key(PLAIN, true, true, false), ms(100));
    assert_eq!(*l.stage(), recording(POST, false, false));
    l.handle(key(POST, false, true, false), ms(500));
    assert_eq!(l.handle_timeout(ms(550)), stop(PLAIN, POST));
}

#[test]
fn toggle_presses_start_and_stop() {
    let mut l = lifecycle();
    let mut effects = l.handle(key(PLAIN, true, false, true), ms(0));
    match effects.remove(0) {
        PipelineEffect::Start(request) => assert_eq!(l.start_finished(request, true), vec![]),
        other => panic!("expected a start, got {other:?}"),
    }
    assert_eq!(l.next_deadline(), None);
    assert_eq!(l.handle(key(PLAIN, false, false, false), ms(50)), vec![]);
    assert_eq!(l.handle(key(POST, true, false, false), ms(100)), vec![]);
    assert_eq!(*l.stage(), recording(PLAIN, false, true));
    assert_eq!(
        l.handle(key(PLAIN, true, false, false), ms(200)),
        stop(POST, PLAIN)
    );
    assert_eq!(l.handle(key(PLAIN, true, false, false), ms(300)), vec![]);
    assert_eq!(*l.stage(), Stage::Processing);
}

#[test]
fn auto_repeat_puts_the_state_back() {
    for latched in [false, true] {
        let mut l = lifecycle();
        begin(&mut l, PLAIN, ms(0), true);
        if latched {
            l.handle(Command::HandsFreeLatch, ms(10));
        }
        for k in 0..20 {
            let at = ms(660 + 45 * k);
            assert_eq!(l.handle(key(PLAIN, false, true, true), at), vec![]);
            assert_eq!(l.handle(key(PLAIN, true, true, true), at + ms(5)), vec![]);
            assert_eq!(*l.stage(), recording(PLAIN, latched, false));
            assert_eq!(l.next_deadline(), Some(ms(10_000)));
        }
    }
}

#[test]
fn commands_are_received_in_order() {
    let mut c = TranscriptionCoordinator::new();
    assert_eq!(c.receive(), Received::Empty);
    assert!(c.send_input(PLAIN, "option", true, true, false));
    assert!(c.notify_hands_free_latch());
    assert!(c.notify_cancel(true));
    assert!(c.notify_processing_finished());
    assert_eq!(
        c.receive(),
        Received::Command(Command::Input {
            binding_id: PLAIN.to_string(),
            hotkey_string: "option".to_string(),
            is_pressed: true,
            push_to_talk: true,
            hands_free: false,
        })
    );
    assert_eq!(c.receive(), Received::Command(Command::HandsFreeLatch));
    // What was sent is still received after the senders are gone.
    c.disconnect();
    assert_eq!(
        c.receive(),
        Received::Command(Command::Cancel {
            recording_was_active: true
        })
    );
    assert_eq!(c.receive(), Received::Command(Command::ProcessingFinished));
    assert_eq!(c.receive(), Received::Disconnected);
}

#[test]
fn a_closed_coordinator_takes_no_commands() {
    let mut c = TranscriptionCoordinator::new();
    c.close();
    assert!(!c.send_input(PLAIN, "option", true, true, false));
    assert!(!c.notify_hands_free_latch());
    assert!(!c.notify_cancel(false));
    assert!(!c.notify_processing_finished());
}

#[test]
fn a_busy_coordinator_behaves_like_one_on_time() {
    for late in [350, 400, 900] {
        let mut on_time = lifecycle();
        let mut busy = lifecycle();
        for l in [&mut on_time, &mut busy] {
            begin(l, PLAIN, ms(0), true);
            l.handle(key(PLAIN, false, true, true), ms(50));
        }
        let at = ms(late);
        let mut expected = on_time.handle_timeout(at);
        expected.extend(on_time.handle(key(PLAIN, true, true, true), at));
        assert_eq!(busy.handle(key(PLAIN, true, true, true), at), expected);
        assert_eq!(busy.stage(), on_time.stage());
        assert_eq!(busy.next_deadline(), on_time.next_deadline());
        assert_eq!(busy.handle_timeout(at), vec![]);
    }
}

#[test]
fn no_recording_is_stopped_twice_in_any_run() {
    let mut state: u64 = 1;
    let mut random = |bound: u64| {
        state = state
            .wrapping_mul(6364136223846793005)
            .wrapping_add(1442695040888963407);
        (state >> 33) % bound
    };
    for _ in 0..200 {
        let mut l = lifecycle();
        let (mut begun, mut stops, mut clock) = (0, 0, 0);
        for _ in 0..100 {
            clock += random(400);
            let now = ms(clock);
            let id = if random(3) == 0 { POST } else { PLAIN };
            let mut effects = match random(9) {
                0 => l.handle(Command::ProcessingFinished, now),
                1 => l.handle(Command::HandsFreeLatch, now),
                2 => l.handle(
                    Command::Cancel {
                        recording_was_active: random(2) == 0,
                    },
                    now,
                ),
                3 => l.handle_timeout(now),
                n => {
                    let (toggle, free) = (random(5) == 0, random(2) == 0);
                    l.handle(key(id, n % 2 == 0, !toggle, free), now)
                }
            };
            while !effects.is_empty() {
                match effects.remove(0) {
                    PipelineEffect::Start(request) => {
                        assert_eq!(*l.stage(), Stage::Idle);
                        let is_recording = random(4) != 0;
                        begun += u32::from(is_recording);
                        effects.extend(l.start_finished(request, is_recording));
                    }
                    PipelineEffect::Stop { .. } => {
                        assert_eq!(*l.stage(), Stage::Processing);
                        stops += 1;
                    }
                    _ => {}
                }
            }
            let running = u32::from(matches!(l.stage(), Stage::Recording { .. }));
            assert!(stops + running <= begun);
        }
        assert!(begun > 0);
    }
}

#[test]
fn a_late_hands_free_key_finds_the_recording_stopped() {
    let mut l = lifecycle();
    begin(&mut l, PLAIN, ms(0), true);
    l.handle(key(PLAIN, false, true, true), ms(1_000));
    // One nanosecond before the deadline it latches, at the deadline the stop wins.
    assert_eq!(
        l.handle(Command::HandsFreeLatch, ms(1_050)),
        stop(PLAIN, PLAIN)
    );
    assert_eq!(*l.stage(), Stage::Processing);

    let mut l = lifecycle();
    begin(&mut l, PLAIN, ms(0), true);
    l.handle(key(PLAIN, false, true, true), ms(1_000));
    assert_eq!(l.handle(Command::HandsFreeLatch, ms(1_050) - 1).len(), 3);
    assert_eq!(*l.stage(), recording(PLAIN, true, false));
}

#[test]
fn a_hold_is_timed_from_the_press_that_began_it() {
    for second in [PLAIN, POST] {
        let mut l = lifecycle();
        begin(&mut l, PLAIN, ms(5), true);
        assert_eq!(l.handle(key(second, true, true, true), ms(400)), vec![]);
        assert_eq!(l.handle(key(PLAIN, false, true, true), ms(500)), vec![]);
        // A hold of 495 ms is no tap: its stop is held back for the grace only.
        assert_eq!(l.next_deadline(), Some(ms(550)));
    }
}

#[test]
fn a_hold_that_nobody_times_is_timed_from_the_next_press() {
    // With no action to stop it, the recording outlives its first release, and
    // with it goes the start of the hold.
    let mut l = Lifecycle::new(vec![PLAIN.to_string()]);
    begin(&mut l, PLAIN, ms(0), true);
    l.handle(key(POST, true, true, true), ms(100));
    l.handle(key(PLAIN, false, true, true), ms(1_000));
    assert_eq!(l.handle_timeout(ms(1_050)), vec![]);
    assert_eq!(l.handle(key(PLAIN, true, true, true), ms(2_000)), vec![]);
    assert_eq!(l.handle(key(PLAIN, false, true, true), ms(2_100)), vec![]);
    // A hold of 100 ms is a tap.
    assert_eq!(l.next_deadline(), Some(ms(2_400)));
}

#[test]
fn the_hint_is_offered_once_over_a_long_hold() {
    let mut l = lifecycle();
    begin(&mut l, PLAIN, ms(0), true);
    let mut offers = 0;
    for k in 1..40 {
        let at = ms(k * 500);
        for effect in l.handle_timeout(at) {
            assert_eq!(effect, PipelineEffect::OfferHandsFreeHint);
            assert_eq!(at, ms(10_000));
            offers += 1;
        }
        l.handle(key(PLAIN, false, true, true), at + ms(1));
        l.handle(key(PLAIN, true, true, true), at + ms(6));
        assert_eq!(*l.stage(), recording(PLAIN, false, false));
    }
    assert_eq!(offers, 1);
}
