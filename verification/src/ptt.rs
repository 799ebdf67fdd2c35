//! How a push-to-talk key event is read: as the start or end of a hold, as
//! auto-repeat to be swallowed, or as half of a double-tap.
//!
//! Points in time and lengths of time are whole nanoseconds.
use vstd::prelude::*;

use crate::text::same_text;

verus! {

/// A press this soon after the last accepted one is ignored.
pub const DEBOUNCE: u128 = 30_000_000;

/// How long a release that ends no tap is held back.
pub const RELEASE_GRACE: u128 = 50_000_000;

/// The longest hold still counted as a "tap" when looking for a double-tap.
/// A real push-to-talk hold runs longer than this, so ordinary dictation never
/// pays the `DOUBLE_TAP_WINDOW` wait below.
pub const TAP_MAX_HOLD: u128 = 250_000_000;

/// How long a tap's stop is deferred while we wait to see whether a second tap
/// arrives to latch hands-free.
pub const DOUBLE_TAP_WINDOW: u128 = 300_000_000;

/// A re-press sooner than this after a release is key chatter or X11
/// auto-repeat, never a human double-tap.
pub const DOUBLE_TAP_MIN_GAP: u128 = 40_000_000;

/// How long the shortcut must be held before the overlay offers the hands-free
/// key: long enough that ordinary dictation never sees the hint. Once the user
/// has latched hands-free at least once the hint is never shown again.
pub const HANDS_FREE_HINT_DELAY: u128 = 10_000_000_000;

/// The length of a hold that nobody saw begin: longer than any measured one
/// (the longest `std::time::Duration`).
pub const UNKNOWN_HOLD: u128 = 18_446_744_073_709_551_615_999_999_999;

/// What a push-to-talk event asks for.
#[derive(Debug, Clone, Copy, PartialEq, Eq, Structural)]
pub enum PttAction {
    /// Not a matter of deferral: debounce, then start, stop or switch.
    Passthrough,
    /// Hold the stop back briefly. `is_tap` marks a release short enough to be
    /// the first half of a double-tap, which earns the longer window.
    DeferRelease { is_tap: bool },
    /// Auto-repeat: drop the stop that was held back.
    CancelRelease,
    /// Second tap of a double-tap: keep recording, hands-free.
    Latch,
}

/// What classification reads of a release that is being held back.
#[derive(Debug, Clone, Copy)]
pub struct PendingReleaseView<'a> {
    pub binding_id: &'a str,
    pub is_tap: bool,
    /// Time since the release was deferred.
    pub since_release: u128,
}

/// Everything `classify_ptt_event` reads, gathered so the state machine stays
/// a pure function of its inputs and can be unit-tested without a running app.
#[derive(Debug, Clone, Copy)]
pub struct PttInput<'a> {
    pub pending_release: Option<PendingReleaseView<'a>>,
    pub is_pressed: bool,
    pub push_to_talk: bool,
    /// The `push_to_talk_hands_free` setting.
    pub hands_free: bool,
    pub binding_id: &'a str,
    /// `(binding currently recording, whether it is already latched)`.
    pub recording: Option<(&'a str, bool)>,
    /// How long the key has been down, measured at this event. Auto-repeat
    /// presses do not restart it: it measures the whole hold.
    pub hold_elapsed: u128,
}

/// A held-back release, in the abstract.
pub ghost struct PendingFacts {
    pub binding_id: Seq<char>,
    pub is_tap: bool,
    pub since_release: int,
}

/// A push-to-talk event and what it meets, in the abstract.
pub ghost struct PttFacts {
    pub pending_release: Option<PendingFacts>,
    pub is_pressed: bool,
    pub push_to_talk: bool,
    pub hands_free: bool,
    pub binding_id: Seq<char>,
    pub recording: Option<(Seq<char>, bool)>,
    pub hold_elapsed: int,
}

impl<'a> PttInput<'a> {
    /// The event that this input describes.
    pub open spec fn facts(&self) -> PttFacts {
        PttFacts {
            pending_release: match self.pending_release {
                Some(p) => Some(
                    PendingFacts {
                        binding_id: p.binding_id@,
                        is_tap: p.is_tap,
                        since_release: p.since_release as int,
                    },
                ),
                None => None,
            },
            is_pressed: self.is_pressed,
            push_to_talk: self.push_to_talk,
            hands_free: self.hands_free,
            binding_id: self.binding_id@,
            recording: match self.recording {
                Some((id, latched)) => Some((id@, latched)),
                None => None,
            },
            hold_elapsed: self.hold_elapsed as int,
        }
    }
}

impl PttFacts {
    /// The event belongs to the binding that is recording, whose latch is `latched`.
    pub open spec fn owns_recording(self, latched: bool) -> bool {
        self.recording == Some((self.binding_id, latched))
    }

    /// A release of this event's own binding is being held back.
    pub open spec fn matches_pending(self) -> bool {
        self.pending_release is Some && self.pending_release->0.binding_id == self.binding_id
    }

    /// The event re-presses a tap inside the double-tap window, over a
    /// recording that can still be latched.
    pub open spec fn is_second_tap(self) -> bool {
        &&& self.hands_free
        &&& self.matches_pending()
        &&& self.pending_release->0.is_tap
        &&& DOUBLE_TAP_MIN_GAP <= self.pending_release->0.since_release < DOUBLE_TAP_WINDOW
        &&& self.owns_recording(false)
    }

    /// A release now would end a tap.
    pub open spec fn ends_tap(self) -> bool {
        self.hands_free && self.owns_recording(false) && self.hold_elapsed <= TAP_MAX_HOLD
    }

    /// What the event asks for.
    pub open spec fn action(self) -> PttAction {
        if !self.push_to_talk {
            PttAction::Passthrough
        } else if self.is_pressed {
            if self.is_second_tap() {
                PttAction::Latch
            } else if self.matches_pending() {
                PttAction::CancelRelease
            } else {
                PttAction::Passthrough
            }
        } else if self.pending_release is None && (self.owns_recording(true)
            || self.owns_recording(false)) {
            PttAction::DeferRelease { is_tap: self.ends_tap() }
        } else {
            PttAction::Passthrough
        }
    }
}

/// How long a deferred release is held back before its stop fires.
pub open spec fn window(is_tap: bool) -> u128 {
    if is_tap {
        DOUBLE_TAP_WINDOW
    } else {
        RELEASE_GRACE
    }
}

/// How long a deferred release is held back before its stop fires.
pub fn defer_window(is_tap: bool) -> (res: u128)
    ensures
        res == window(is_tap),
{
    if is_tap {
        DOUBLE_TAP_WINDOW
    } else {
        RELEASE_GRACE
    }
}

/// Reads a push-to-talk event.
pub fn classify_ptt_event(input: PttInput) -> (action: PttAction)
    ensures
        action == input.facts().action(),
{
    if !input.push_to_talk {
        return PttAction::Passthrough;
    }
    let owner: Option<bool> = match input.recording {
        Some((id, latched)) => if same_text(id, input.binding_id) {
            Some(latched)
        } else {
            None
        },
        None => None,
    };
    if input.is_pressed {
        match input.pending_release {
            // The key came back down before the deferred stop fired. A tap
            // re-pressed inside the double-tap window is the user asking for
            // hands-free; anything else is auto-repeat holding the key open.
            // The window is bounded here rather than by the timer alone: a busy
            // coordinator can dequeue a press after its deadline, and a late
            // press must never latch (and drop) the stop it was racing.
            Some(pending) => if same_text(pending.binding_id, input.binding_id) {
                let in_window = DOUBLE_TAP_MIN_GAP <= pending.since_release && pending.since_release
                    < DOUBLE_TAP_WINDOW;
                // Without an unlatched recording there is nothing to latch,
                // and latching would silently discard the deferred stop.
                let can_latch = match owner {
                    Some(latched) => !latched,
                    None => false,
                };
                if input.hands_free && pending.is_tap && in_window && can_latch {
                    PttAction::Latch
                } else {
                    PttAction::CancelRelease
                }
            } else {
                PttAction::Passthrough
            },
            None => PttAction::Passthrough,
        }
    } else {
        match (owner, input.pending_release.is_none()) {
            // Every release is deferred, latched or not. Unlatched, the delay
            // absorbs auto-repeat before the stop fires; latched, nothing fires
            // on expiry, but the deferral still lets an auto-repeat press be
            // recognised and swallowed instead of ending the recording.
            (Some(latched), true) => PttAction::DeferRelease {
                is_tap: input.hands_free && !latched && input.hold_elapsed <= TAP_MAX_HOLD,
            },
            _ => PttAction::Passthrough,
        }
    }
}

// ---------------------------------------------------------------------------
// Laws
// ---------------------------------------------------------------------------

/// Only a hands-free press on a tap, inside the double-tap window, of the
/// binding whose recording is not latched yet, latches. So key chatter and
/// auto-repeat never do, nor does a press that comes after the window closed.
pub proof fn latch_needs_a_second_tap(e: PttFacts)
    ensures
        e.action() == PttAction::Latch <==> {
            &&& e.push_to_talk
            &&& e.is_pressed
            &&& e.hands_free
            &&& e.recording == Some((e.binding_id, false))
            &&& e.pending_release matches Some(p)
            &&& p.binding_id == e.binding_id
            &&& p.is_tap
            &&& DOUBLE_TAP_MIN_GAP <= p.since_release
            &&& p.since_release < DOUBLE_TAP_WINDOW
        },
{
}

/// With hands-free off no event latches and no release counts as a tap.
pub proof fn hands_free_is_inert_until_enabled(e: PttFacts)
    requires
        !e.hands_free,
    ensures
        e.action() != PttAction::Latch,
        e.action() != (PttAction::DeferRelease { is_tap: true }),
{
}

/// A hold longer than a tap is held back for no more than the release grace,
/// whatever the settings.
pub proof fn long_hold_keeps_the_short_grace(e: PttFacts)
    requires
        e.hold_elapsed > TAP_MAX_HOLD,
    ensures
        e.action() matches PttAction::DeferRelease { is_tap } ==> window(is_tap) == RELEASE_GRACE,
{
}

/// Toggle mode (push-to-talk off) defers, cancels and latches nothing.
pub proof fn toggle_events_pass_through(e: PttFacts)
    requires
        !e.push_to_talk,
    ensures
        e.action() == PttAction::Passthrough,
{
}

/// A release of the recording's own binding is deferred, unless one already is,
/// and a press never is.
pub proof fn every_owned_release_is_deferred(e: PttFacts)
    requires
        e.push_to_talk,
    ensures
        (e.action() is DeferRelease) <==> !e.is_pressed && e.pending_release is None
            && (e.owns_recording(true) || e.owns_recording(false)),
{
}

/// Letting go of a latched recording arms no tap.
pub proof fn latched_release_arms_no_tap(e: PttFacts)
    requires
        e.recording == Some((e.binding_id, true)),
    ensures
        e.action() != (PttAction::DeferRelease { is_tap: true }),
{
}

/// The facts of an event are what its fields say.
pub proof fn facts_are_the_fields(input: PttInput)
    ensures
        ({
            let f = input.facts();
            &&& f.is_pressed == input.is_pressed
            &&& f.push_to_talk == input.push_to_talk
            &&& f.hands_free == input.hands_free
            &&& f.binding_id == input.binding_id@
            &&& f.hold_elapsed == input.hold_elapsed
            &&& match input.recording {
                Some((owner, latched)) => f.recording == Some((owner@, latched)),
                None => f.recording is None,
            }
            &&& match input.pending_release {
                Some(p) => f.pending_release matches Some(q) && q.binding_id == p.binding_id@
                    && q.is_tap == p.is_tap && q.since_release == p.since_release,
                None => f.pending_release is None,
            }
        }),
{
}

/// A release is deferred exactly if push-to-talk is on, its binding is recording and
/// no release is held back yet. It is a tap exactly if, besides, hands-free is on,
/// the recording is not latched and the key was down no longer than a tap.
pub proof fn a_deferred_release_is_a_tap_when_it_is_short(e: PttFacts)
    ensures
        ({
            let owned = e.recording matches Some((owner, latched)) && owner == e.binding_id;
            let deferred = e.push_to_talk && !e.is_pressed && e.pending_release is None && owned;
            &&& e.action() is DeferRelease <==> deferred
            &&& deferred ==> e.action() == (PttAction::DeferRelease {
                is_tap: e.hands_free && e.recording == Some((e.binding_id, false))
                    && e.hold_elapsed <= TAP_MAX_HOLD,
            })
        }),
{
    if let Some((owner, latched)) = e.recording {
        assert(e.recording == Some((owner, latched)));
        if latched {
            assert(e.owns_recording(true) <==> owner == e.binding_id);
        } else {
            assert(e.owns_recording(false) <==> owner == e.binding_id);
        }
    }
}

/// A release is taken back exactly by a push-to-talk press of its own binding that
/// does not latch.
pub proof fn a_re_press_takes_its_release_back(e: PttFacts)
    ensures
        e.action() == PttAction::CancelRelease <==> {
            &&& e.push_to_talk
            &&& e.is_pressed
            &&& e.pending_release matches Some(p)
            &&& p.binding_id == e.binding_id
            &&& !(e.hands_free && p.is_tap && DOUBLE_TAP_MIN_GAP <= p.since_release
                && p.since_release < DOUBLE_TAP_WINDOW && e.recording == Some(
                (e.binding_id, false),
            ))
        },
{
}

/// A tap is held back for the double-tap window and any other release for the
/// grace, which is shorter. The shortest gap of a double-tap is shorter than both.
pub proof fn a_tap_waits_longer(is_tap: bool)
    ensures
        is_tap ==> window(is_tap) == DOUBLE_TAP_WINDOW,
        !is_tap ==> window(is_tap) == RELEASE_GRACE,
        DOUBLE_TAP_MIN_GAP < RELEASE_GRACE < DOUBLE_TAP_WINDOW,
{
}

/// The lengths of time are these, with a millisecond of a million nanoseconds. A
/// re-press in the debounce time is never a double-tap, a tap waits longer than any
/// other release, and no measured hold is as long as an unknown one.
pub proof fn the_lengths_of_time_are_these(hold_seconds: u64, hold_nanos: u32)
    requires
        hold_nanos < 1_000_000_000,
    ensures
        ({
            let millisecond = 1_000_000int;
            &&& DEBOUNCE == 30 * millisecond
            &&& RELEASE_GRACE == 50 * millisecond
            &&& TAP_MAX_HOLD == 250 * millisecond
            &&& DOUBLE_TAP_WINDOW == 300 * millisecond
            &&& DOUBLE_TAP_MIN_GAP == 40 * millisecond
            &&& HANDS_FREE_HINT_DELAY == 10_000 * millisecond
        }),
        DEBOUNCE < DOUBLE_TAP_MIN_GAP,
        RELEASE_GRACE < DOUBLE_TAP_WINDOW,
        hold_seconds * 1_000_000_000 + hold_nanos <= UNKNOWN_HOLD,
{
}

} // verus!
