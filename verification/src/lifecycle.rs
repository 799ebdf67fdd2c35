//! The transcription lifecycle: what each key event, notification and timer
//! does to the pipeline.
//!
//! `Lifecycle` decides and its owner acts: every step returns the effects that
//! the owner has to perform, in order, before it hands in the next event. Only
//! the outcome of starting a recording comes back as an event of its own.
use vstd::prelude::*;

use crate::ptt;
use crate::ptt::{
    classify_ptt_event, defer_window, PendingReleaseView, PttAction, PttInput, DEBOUNCE,
    DOUBLE_TAP_WINDOW, HANDS_FREE_HINT_DELAY, UNKNOWN_HOLD,
};
use crate::stage::{stops_recording, switch_transcribe_mode, Stage};
use crate::stage;
use crate::text;
use crate::text::same_text;

verus! {

/// Commands processed sequentially by the coordinator thread.
#[derive(Debug, PartialEq, Eq)]
pub enum Command {
    Input {
        binding_id: String,
        hotkey_string: String,
        is_pressed: bool,
        push_to_talk: bool,
        hands_free: bool,
    },
    /// The dedicated hands-free key fired during a push-to-talk hold.
    HandsFreeLatch,
    Cancel { recording_was_active: bool },
    ProcessingFinished,
}

/// A key or signal event, in the abstract.
pub ghost struct InputSpec {
    pub binding_id: Seq<char>,
    pub hotkey_string: Seq<char>,
    pub is_pressed: bool,
    pub push_to_talk: bool,
    pub hands_free: bool,
}

impl InputSpec {
    /// The start that this event asks for at `now`.
    pub open spec fn start_at(self, now: int) -> StartSpec {
        StartSpec {
            binding_id: self.binding_id,
            hotkey_string: self.hotkey_string,
            push_to_talk: self.push_to_talk,
            hands_free: self.hands_free,
            at: now,
        }
    }
}

/// A command, in the abstract.
pub ghost enum CommandSpec {
    Input(InputSpec),
    HandsFreeLatch,
    Cancel { recording_was_active: bool },
    ProcessingFinished,
}

impl View for Command {
    type V = CommandSpec;

    open spec fn view(&self) -> CommandSpec {
        match self {
            Command::Input { binding_id, hotkey_string, is_pressed, push_to_talk, hands_free } =>
                CommandSpec::Input(
                InputSpec {
                    binding_id: binding_id@,
                    hotkey_string: hotkey_string@,
                    is_pressed: *is_pressed,
                    push_to_talk: *push_to_talk,
                    hands_free: *hands_free,
                },
            ),
            Command::HandsFreeLatch => CommandSpec::HandsFreeLatch,
            Command::Cancel { recording_was_active } => CommandSpec::Cancel {
                recording_was_active: *recording_was_active,
            },
            Command::ProcessingFinished => CommandSpec::ProcessingFinished,
        }
    }
}

/// A release whose stop is being held back.
#[derive(Debug, PartialEq, Eq)]
pub struct PendingRelease {
    pub binding_id: String,
    pub hotkey_string: String,
    pub deadline: u128,
    /// Set when the release ended a tap rather than a hold, so a re-press
    /// inside the window latches instead of merely cancelling the stop.
    pub is_tap: bool,
    pub released_at: u128,
}

/// A release whose stop is being held back, in the abstract.
pub ghost struct PendingSpec {
    pub binding_id: Seq<char>,
    pub hotkey_string: Seq<char>,
    pub deadline: int,
    pub is_tap: bool,
    pub released_at: int,
}

impl View for PendingRelease {
    type V = PendingSpec;

    open spec fn view(&self) -> PendingSpec {
        PendingSpec {
            binding_id: self.binding_id@,
            hotkey_string: self.hotkey_string@,
            deadline: self.deadline as int,
            is_tap: self.is_tap,
            released_at: self.released_at as int,
        }
    }
}

/// A recording that is about to be started.
#[derive(Debug, PartialEq, Eq)]
pub struct StartRequest {
    pub binding_id: String,
    pub hotkey_string: String,
    /// The press begins a push-to-talk hold rather than a toggle.
    pub push_to_talk: bool,
    pub hands_free: bool,
    /// When the press came.
    pub at: u128,
}

/// A recording that is about to be started, in the abstract.
pub ghost struct StartSpec {
    pub binding_id: Seq<char>,
    pub hotkey_string: Seq<char>,
    pub push_to_talk: bool,
    pub hands_free: bool,
    pub at: int,
}

impl View for StartRequest {
    type V = StartSpec;

    open spec fn view(&self) -> StartSpec {
        StartSpec {
            binding_id: self.binding_id@,
            hotkey_string: self.hotkey_string@,
            push_to_talk: self.push_to_talk,
            hands_free: self.hands_free,
            at: self.at as int,
        }
    }
}

/// What the owner of a `Lifecycle` has to do.
#[derive(Debug, PartialEq, Eq)]
pub enum PipelineEffect {
    /// Run the start of the action that `binding_id` names, then hand the
    /// request to `start_finished` with whether a recording is now running.
    Start(StartRequest),
    /// Run the stop of the action `action_id`. The audio manager matches on the
    /// binding that started the recording, so that is what it is given.
    Stop { action_id: String, binding_id: String, hotkey_string: String },
    /// Claim the hands-free key for the hold of `binding_id`.
    RegisterHandsFree { binding_id: String },
    /// Give the hands-free key back to the foreground app.
    UnregisterHandsFree,
    /// Show in the overlay that the recording is hands-free.
    ShowHandsFreeActive,
    /// Note in the settings that hands-free has been used.
    RememberHandsFreeUsed,
    /// Offer the hands-free key in the overlay, unless it has been used before.
    OfferHandsFreeHint,
}

/// An effect, in the abstract.
pub ghost enum EffectSpec {
    Start(StartSpec),
    Stop { action_id: Seq<char>, binding_id: Seq<char>, hotkey_string: Seq<char> },
    RegisterHandsFree { binding_id: Seq<char> },
    UnregisterHandsFree,
    ShowHandsFreeActive,
    RememberHandsFreeUsed,
    OfferHandsFreeHint,
}

impl View for PipelineEffect {
    type V = EffectSpec;

    open spec fn view(&self) -> EffectSpec {
        match self {
            PipelineEffect::Start(request) => EffectSpec::Start(request@),
            PipelineEffect::Stop { action_id, binding_id, hotkey_string } => EffectSpec::Stop {
                action_id: action_id@,
                binding_id: binding_id@,
                hotkey_string: hotkey_string@,
            },
            PipelineEffect::RegisterHandsFree { binding_id } => EffectSpec::RegisterHandsFree {
                binding_id: binding_id@,
            },
            PipelineEffect::UnregisterHandsFree => EffectSpec::UnregisterHandsFree,
            PipelineEffect::ShowHandsFreeActive => EffectSpec::ShowHandsFreeActive,
            PipelineEffect::RememberHandsFreeUsed => EffectSpec::RememberHandsFreeUsed,
            PipelineEffect::OfferHandsFreeHint => EffectSpec::OfferHandsFreeHint,
        }
    }
}

/// A list of effects, in the abstract.
pub open spec fn effects(list: Seq<PipelineEffect>) -> Seq<EffectSpec> {
    list.map_values(|e: PipelineEffect| e@)
}

/// The time from `since` to `now`, zero where `since` is the later one.
pub open spec fn elapsed(now: int, since: int) -> int {
    if since <= now {
        now - since
    } else {
        0
    }
}

/// What going hands-free asks of the owner.
pub open spec fn latch_effects() -> Seq<EffectSpec> {
    seq![
        EffectSpec::UnregisterHandsFree,
        EffectSpec::ShowHandsFreeActive,
        EffectSpec::RememberHandsFreeUsed,
    ]
}

/// The state of the lifecycle, in the abstract.
pub ghost struct LifecycleSpec {
    pub stage: stage::StageSpec,
    pub last_press: Option<int>,
    pub pending_release: Option<PendingSpec>,
    pub hold_started: Option<int>,
    pub hint_deadline: Option<int>,
    /// The bindings that have an action.
    pub actions: Set<Seq<char>>,
}

impl LifecycleSpec {
    /// After a stop through `binding_id`: nothing happens where the action to
    /// run does not exist.
    pub open spec fn stopped(
        self,
        binding_id: Seq<char>,
        hotkey_string: Seq<char>,
    ) -> (LifecycleSpec, Seq<EffectSpec>) {
        let action_id = self.stage.stop_action(binding_id);
        if self.actions.contains(action_id) {
            (
                LifecycleSpec { stage: stage::StageSpec::Processing, ..self },
                seq![EffectSpec::Stop { action_id, binding_id, hotkey_string }],
            )
        } else {
            (self, Seq::empty())
        }
    }

    /// After the hold ended, with its stop.
    pub open spec fn hold_ended(
        self,
        binding_id: Seq<char>,
        hotkey_string: Seq<char>,
    ) -> (LifecycleSpec, Seq<EffectSpec>) {
        LifecycleSpec { hint_deadline: None, hold_started: None, ..self }.stopped(
            binding_id,
            hotkey_string,
        )
    }

    /// A held-back release is due at `now`.
    pub open spec fn release_due(self, now: int) -> bool {
        self.pending_release matches Some(pending) && pending.deadline <= now
    }

    /// After a release that is due at `now` has fired. A latched recording has
    /// no stop to fire.
    pub open spec fn expired(self, now: int) -> (LifecycleSpec, Seq<EffectSpec>) {
        if self.release_due(now) {
            let pending = self.pending_release->0;
            let settled = LifecycleSpec { pending_release: None, ..self };
            if self.stage.stopped_by(pending.binding_id, false) {
                settled.hold_ended(pending.binding_id, pending.hotkey_string)
            } else {
                (settled, Seq::empty())
            }
        } else {
            (self, Seq::empty())
        }
    }

    /// What classification reads of an event.
    pub open spec fn facts(self, e: InputSpec, now: int) -> ptt::PttFacts {
        ptt::PttFacts {
            pending_release: match self.pending_release {
                Some(p) => Some(
                    ptt::PendingFacts {
                        binding_id: p.binding_id,
                        is_tap: p.is_tap,
                        since_release: elapsed(now, p.released_at),
                    },
                ),
                None => None,
            },
            is_pressed: e.is_pressed,
            push_to_talk: e.push_to_talk,
            hands_free: e.hands_free,
            binding_id: e.binding_id,
            recording: self.stage.recording(),
            hold_elapsed: match self.hold_started {
                Some(at) => elapsed(now, at),
                None => UNKNOWN_HOLD as int,
            },
        }
    }

    /// After the hold, if there is an unlatched one, went hands-free. A stop
    /// that was held back is dropped only where something latched.
    pub open spec fn latched(self) -> (LifecycleSpec, Seq<EffectSpec>) {
        if self.stage.can_latch() {
            (
                LifecycleSpec { stage: self.stage.latched(), pending_release: None, ..self },
                latch_effects(),
            )
        } else {
            (self, Seq::empty())
        }
    }

    /// After a release of `e` was held back.
    pub open spec fn deferred(self, e: InputSpec, is_tap: bool, now: int) -> LifecycleSpec {
        LifecycleSpec {
            pending_release: Some(
                PendingSpec {
                    binding_id: e.binding_id,
                    hotkey_string: e.hotkey_string,
                    deadline: now + ptt::window(is_tap),
                    is_tap,
                    released_at: now,
                },
            ),
            ..self
        }
    }

    /// A press at `now` comes too soon after the last accepted one.
    pub open spec fn debounced(self, now: int) -> bool {
        self.last_press matches Some(t) && elapsed(now, t) < DEBOUNCE
    }

    /// After a press was accepted. Over a recording whose hold is timed it begins
    /// no hold of its own.
    pub open spec fn pressed(self, now: int) -> LifecycleSpec {
        LifecycleSpec {
            last_press: Some(now),
            hold_started: if self.stage is Recording && self.hold_started is Some {
                self.hold_started
            } else {
                Some(now)
            },
            ..self
        }
    }

    /// After a press asked for a recording. Where the binding has no action
    /// none is started, and a hold then offers no hint.
    pub open spec fn starting(self, request: StartSpec) -> (LifecycleSpec, Seq<EffectSpec>) {
        if self.actions.contains(request.binding_id) {
            (self, seq![EffectSpec::Start(request)])
        } else if request.push_to_talk {
            (LifecycleSpec { hint_deadline: None, ..self }, Seq::empty())
        } else {
            (self, Seq::empty())
        }
    }

    /// The event ends the recording. In toggle mode that is a press of its
    /// owner, latched or not.
    pub open spec fn ended_by(self, e: InputSpec) -> bool {
        if e.push_to_talk {
            self.stage.stopped_by(e.binding_id, e.is_pressed)
        } else {
            e.is_pressed && (self.stage.stopped_by(e.binding_id, true) || self.stage.stopped_by(
                e.binding_id,
                false,
            ))
        }
    }

    /// After an event that is neither deferral nor debounce: it starts, ends or
    /// retargets a recording, or does nothing.
    pub open spec fn acted(self, e: InputSpec, now: int) -> (LifecycleSpec, Seq<EffectSpec>) {
        if e.is_pressed && self.stage is Idle {
            self.starting(e.start_at(now))
        } else if self.ended_by(e) {
            self.hold_ended(e.binding_id, e.hotkey_string)
        } else if e.is_pressed {
            (LifecycleSpec { stage: self.stage.switched(e.binding_id), ..self }, Seq::empty())
        } else {
            (self, Seq::empty())
        }
    }

    /// After an event, where no held-back release is due.
    pub open spec fn received(self, e: InputSpec, now: int) -> (LifecycleSpec, Seq<EffectSpec>) {
        match self.facts(e, now).action() {
            PttAction::Latch => self.latched(),
            PttAction::CancelRelease => (
                LifecycleSpec { pending_release: None, ..self },
                Seq::empty(),
            ),
            PttAction::DeferRelease { is_tap } => (self.deferred(e, is_tap, now), Seq::empty()),
            PttAction::Passthrough => if !e.is_pressed {
                self.acted(e, now)
            } else if self.debounced(now) {
                (self, Seq::empty())
            } else {
                self.pressed(now).acted(e, now)
            },
        }
    }

    /// After an event: first whatever deadline it overtook is settled.
    pub open spec fn input(self, e: InputSpec, now: int) -> (LifecycleSpec, Seq<EffectSpec>) {
        let (settled, first) = self.expired(now);
        let (after, then_effects) = settled.received(e, now);
        (after, first + then_effects)
    }

    /// After the hands-free key fired: first whatever deadline it overtook is
    /// settled, so a stop that is due finds the recording still unlatched.
    pub open spec fn settled_latch(self, now: int) -> (LifecycleSpec, Seq<EffectSpec>) {
        let (settled, first) = self.expired(now);
        let (after, then_effects) = settled.latched();
        (after, first + then_effects)
    }

    /// After a cancellation. A pipeline that is processing is left to finish.
    pub open spec fn cancelled(self, recording_was_active: bool) -> LifecycleSpec {
        LifecycleSpec {
            stage: if self.stage is Recording || (self.stage is Idle && recording_was_active) {
                stage::StageSpec::Idle
            } else {
                self.stage
            },
            pending_release: None,
            hint_deadline: None,
            hold_started: None,
            ..self
        }
    }

    /// After a command.
    pub open spec fn commanded(self, c: CommandSpec, now: int) -> (LifecycleSpec, Seq<EffectSpec>) {
        match c {
            CommandSpec::Input(e) => self.input(e, now),
            CommandSpec::HandsFreeLatch => self.settled_latch(now),
            CommandSpec::Cancel { recording_was_active } => (
                self.cancelled(recording_was_active),
                Seq::empty(),
            ),
            CommandSpec::ProcessingFinished => (
                LifecycleSpec { stage: stage::StageSpec::Idle, ..self },
                Seq::empty(),
            ),
        }
    }

    /// The hint is due at `now`.
    pub open spec fn hint_due(self, now: int) -> bool {
        self.hint_deadline matches Some(at) && at <= now
    }

    /// After the hint, where it is due, was offered: only over a hold that can
    /// still be latched.
    pub open spec fn hinted(self, now: int) -> (LifecycleSpec, Seq<EffectSpec>) {
        if self.hint_due(now) {
            (
                LifecycleSpec { hint_deadline: None, ..self },
                if self.stage.can_latch() {
                    seq![EffectSpec::OfferHandsFreeHint]
                } else {
                    Seq::empty()
                },
            )
        } else {
            (self, Seq::empty())
        }
    }

    /// After the timer went off.
    pub open spec fn woken(self, now: int) -> (LifecycleSpec, Seq<EffectSpec>) {
        let (after_hint, first) = self.hinted(now);
        let (after, then_effects) = after_hint.expired(now);
        (after, first + then_effects)
    }

    /// After a start was carried out, with whether a recording is now running.
    pub open spec fn started(self, request: StartSpec, is_recording: bool) -> (
        LifecycleSpec,
        Seq<EffectSpec>,
    ) {
        let stage = if is_recording {
            stage::StageSpec::begun(request.binding_id)
        } else {
            self.stage
        };
        if !request.push_to_talk {
            (LifecycleSpec { stage, ..self }, Seq::empty())
        } else if request.hands_free && stage is Recording {
            (
                LifecycleSpec {
                    stage,
                    hint_deadline: Some(request.at + HANDS_FREE_HINT_DELAY),
                    ..self
                },
                seq![EffectSpec::RegisterHandsFree { binding_id: request.binding_id }],
            )
        } else {
            (LifecycleSpec { stage, hint_deadline: None, ..self }, Seq::empty())
        }
    }

    /// The earliest moment at which the timer has something to do.
    pub open spec fn next_deadline(self) -> Option<int> {
        match (self.pending_release, self.hint_deadline) {
            (Some(pending), Some(hint)) => Some(
                if pending.deadline <= hint {
                    pending.deadline
                } else {
                    hint
                },
            ),
            (Some(pending), None) => Some(pending.deadline),
            (None, hint) => hint,
        }
    }
}

/// The transcription lifecycle.
pub struct Lifecycle {
    stage: Stage,
    last_press: Option<u128>,
    pending_release: Option<PendingRelease>,
    /// Start of the current hold. No press resets it while a recording is in
    /// flight and its hold is timed, so it measures how long the key has actually been down.
    hold_started: Option<u128>,
    /// When to offer the hands-free key in the overlay.
    hint_deadline: Option<u128>,
    /// The bindings that have an action.
    actions: Vec<String>,
}

spec fn instant(at: Option<u128>) -> Option<int> {
    match at {
        Some(t) => Some(t as int),
        None => None,
    }
}

impl View for Lifecycle {
    type V = LifecycleSpec;

    closed spec fn view(&self) -> LifecycleSpec {
        LifecycleSpec {
            stage: self.stage@,
            last_press: instant(self.last_press),
            pending_release: match self.pending_release {
                Some(p) => Some(p@),
                None => None,
            },
            hold_started: instant(self.hold_started),
            hint_deadline: instant(self.hint_deadline),
            actions: text::texts(self.actions@).to_set(),
        }
    }
}

fn elapsed_since(now: u128, since: u128) -> (res: u128)
    ensures
        res == elapsed(now as int, since as int),
{
    if since <= now {
        now - since
    } else {
        0
    }
}

impl Lifecycle {
    /// An idle lifecycle. `actions` names the bindings that have an action.
    pub fn new(actions: Vec<String>) -> (res: Lifecycle)
        ensures
            res@ == (LifecycleSpec {
                stage: stage::StageSpec::Idle,
                last_press: None,
                pending_release: None,
                hold_started: None,
                hint_deadline: None,
                actions: text::texts(actions@).to_set(),
            }),
    {
        Lifecycle {
            stage: Stage::Idle,
            last_press: None,
            pending_release: None,
            hold_started: None,
            hint_deadline: None,
            actions,
        }
    }

    /// The stage the pipeline is in.
    pub fn stage(&self) -> (res: &Stage)
        ensures
            res@ == self@.stage,
    {
        &self.stage
    }

    /// The earliest moment at which the timer has something to do.
    pub fn next_deadline(&self) -> (res: Option<u128>)
        ensures
            res is Some <==> self@.next_deadline() is Some,
            res matches Some(at) ==> self@.next_deadline() == Some(at as int),
    {
        match (&self.pending_release, self.hint_deadline) {
            (Some(pending), Some(hint)) => Some(
                if pending.deadline <= hint {
                    pending.deadline
                } else {
                    hint
                },
            ),
            (Some(pending), None) => Some(pending.deadline),
            (None, hint) => hint,
        }
    }

    /// How long to wait for the next command before the timer is due; `None`
    /// where there is nothing to wait for but a command.
    pub fn wait(&self, now: u128) -> (res: Option<u128>)
        ensures
            res is Some <==> self@.next_deadline() is Some,
            res matches Some(d) ==> d == elapsed(self@.next_deadline()->0, now as int),
    {
        match self.next_deadline() {
            Some(at) => Some(elapsed_since(at, now)),
            None => None,
        }
    }

    fn has_action(&self, id: &str) -> (res: bool)
        ensures
            res == self@.actions.contains(id@),
    {
        let ghost names = text::texts(self.actions@);
        let mut i: usize = 0;
        while i < self.actions.len()
            invariant
                i <= self.actions.len(),
                names == text::texts(self.actions@),
                forall|j: int| 0 <= j < i ==> names[j] != id@,
            decreases self.actions.len() - i,
        {
            if same_text(self.actions[i].as_str(), id) {
                assert(names[i as int] == id@);
                return true;
            }
            i += 1;
        }
        false
    }

    fn stop(
        &mut self,
        binding_id: &str,
        hotkey_string: &str,
        out: &mut Vec<PipelineEffect>,
    )
        ensures
            final(self)@ == old(self)@.stopped(binding_id@, hotkey_string@).0,
            effects(final(out)@) == effects(old(out)@) + old(self)@.stopped(
                binding_id@,
                hotkey_string@,
            ).1,
    {
        let action_id = self.stage.stop_action(binding_id);
        if self.has_action(action_id) {
            let effect = PipelineEffect::Stop {
                action_id: action_id.to_owned(),
                binding_id: binding_id.to_owned(),
                hotkey_string: hotkey_string.to_owned(),
            };
            out.push(effect);
            self.stage = Stage::Processing;
        }
        assert(effects(out@) =~= effects(old(out)@) + old(self)@.stopped(
            binding_id@,
            hotkey_string@,
        ).1);
    }

    /// Ends the hold, with its stop.
    fn end_hold(&mut self, binding_id: &str, hotkey_string: &str, out: &mut Vec<PipelineEffect>)
        ensures
            final(self)@ == old(self)@.hold_ended(binding_id@, hotkey_string@).0,
            effects(final(out)@) == effects(old(out)@) + old(self)@.hold_ended(
                binding_id@,
                hotkey_string@,
            ).1,
    {
        self.hint_deadline = None;
        self.hold_started = None;
        self.stop(binding_id, hotkey_string, out);
    }

    /// Fires a deferred release whose window has closed. Called when the timer
    /// goes off, and again before any input is handled: a coordinator that was
    /// busy past a deadline dequeues the next event rather than waking on time,
    /// and it must still behave exactly like one that woke on time.
    fn expire_pending_release(&mut self, now: u128, out: &mut Vec<PipelineEffect>)
        ensures
            final(self)@ == old(self)@.expired(now as int).0,
            effects(final(out)@) == effects(old(out)@) + old(self)@.expired(now as int).1,
    {
        assert(effects(out@) + Seq::<EffectSpec>::empty() =~= effects(out@));
        let due = match &self.pending_release {
            Some(pending) => pending.deadline <= now,
            None => false,
        };
        if !due {
            return;
        }
        if let Some(pending) = self.pending_release.take() {
            // A latched recording has no stop to fire here: the deferral existed
            // only to absorb auto-repeat.
            if stops_recording(&self.stage, pending.binding_id.as_str(), false) {
                self.end_hold(pending.binding_id.as_str(), pending.hotkey_string.as_str(), out);
            }
        }
    }

    /// Switches the in-flight hold to hands-free. The hands-free key is released
    /// back to the foreground app now that it has done its job. A deferred stop
    /// is only dropped where there was a recording to latch; otherwise it still
    /// has to fire.
    fn latch(&mut self, out: &mut Vec<PipelineEffect>)
        ensures
            final(self)@ == old(self)@.latched().0,
            effects(final(out)@) == effects(old(out)@) + old(self)@.latched().1,
    {
        if self.stage.latch() {
            self.pending_release = None;
            out.push(PipelineEffect::UnregisterHandsFree);
            out.push(PipelineEffect::ShowHandsFreeActive);
            out.push(PipelineEffect::RememberHandsFreeUsed);
        }
        assert(effects(out@) =~= effects(old(out)@) + old(self)@.latched().1);
    }

    /// Asks for a recording, where the binding has an action.
    fn start(&mut self, request: StartRequest, out: &mut Vec<PipelineEffect>)
        ensures
            final(self)@ == old(self)@.starting(request@).0,
            effects(final(out)@) == effects(old(out)@) + old(self)@.starting(request@).1,
    {
        let ghost asked = request@;
        if self.has_action(request.binding_id.as_str()) {
            out.push(PipelineEffect::Start(request));
            assert(effects(out@) =~= effects(old(out)@) + seq![EffectSpec::Start(asked)]);
        } else {
            assert(effects(out@) + Seq::<EffectSpec>::empty() =~= effects(out@));
            if request.push_to_talk {
                self.hint_deadline = None;
            }
        }
    }

    /// Handles a key or signal event.
    fn handle_input(
        &mut self,
        binding_id: String,
        hotkey_string: String,
        is_pressed: bool,
        push_to_talk: bool,
        hands_free: bool,
        now: u128,
    ) -> (out: Vec<PipelineEffect>)
        requires
            now + DOUBLE_TAP_WINDOW <= u128::MAX,
        ensures
            ({
                let e = InputSpec {
                    binding_id: binding_id@,
                    hotkey_string: hotkey_string@,
                    is_pressed,
                    push_to_talk,
                    hands_free,
                };
                (final(self)@, effects(out@)) == old(self)@.input(e, now as int)
            }),
    {
        let ghost e = InputSpec {
            binding_id: binding_id@,
            hotkey_string: hotkey_string@,
            is_pressed,
            push_to_talk,
            hands_free,
        };
        let mut out: Vec<PipelineEffect> = Vec::new();
        assert(effects(out@) =~= Seq::<EffectSpec>::empty());

        // Settle any deadline this event overtook, so a late press is classified
        // against the same state it would have met had the timer fired first.
        self.expire_pending_release(now, &mut out);
        let ghost settled = self@;
        let ghost first = effects(out@);
        assert(first =~= old(self)@.expired(now as int).1);
        assert(first + Seq::<EffectSpec>::empty() =~= first);

        let pending_release = match &self.pending_release {
            Some(pending) => Some(
                PendingReleaseView {
                    binding_id: pending.binding_id.as_str(),
                    is_tap: pending.is_tap,
                    since_release: elapsed_since(now, pending.released_at),
                },
            ),
            None => None,
        };
        let hold_elapsed = match self.hold_started {
            Some(at) => elapsed_since(now, at),
            None => UNKNOWN_HOLD,
        };
        let event = PttInput {
            pending_release,
            is_pressed,
            push_to_talk,
            hands_free,
            binding_id: binding_id.as_str(),
            recording: self.stage.recording(),
            hold_elapsed,
        };
        assert(event.facts() == settled.facts(e, now as int));
        match classify_ptt_event(event) {
            PttAction::Latch => {
                self.latch(&mut out);
                return out;
            },
            PttAction::CancelRelease => {
                self.pending_release = None;
                return out;
            },
            PttAction::DeferRelease { is_tap } => {
                self.pending_release = Some(
                    PendingRelease {
                        binding_id,
                        hotkey_string,
                        deadline: now + defer_window(is_tap),
                        is_tap,
                        released_at: now,
                    },
                );
                return out;
            },
            PttAction::Passthrough => {},
        }

        // Debounce rapid-fire press events (key repeat / double-tap).
        // Push-to-talk releases may be deferred above to absorb X11 auto-repeat.
        if is_pressed {
            let too_soon = match self.last_press {
                Some(t) => elapsed_since(now, t) < DEBOUNCE,
                None => false,
            };
            if too_soon {
                return out;
            }
            self.last_press = Some(now);
            let timed = match (&self.stage, self.hold_started) {
                (Stage::Recording { .. }, Some(_)) => true,
                _ => false,
            };
            if !timed {
                self.hold_started = Some(now);
            }
        }
        let ghost ready = self@;
        assert(ready.stage == settled.stage);

        let idle = match &self.stage {
            Stage::Idle => true,
            _ => false,
        };
        let ends = if push_to_talk {
            stops_recording(&self.stage, binding_id.as_str(), is_pressed)
        } else {
            is_pressed && (stops_recording(&self.stage, binding_id.as_str(), true)
                || stops_recording(&self.stage, binding_id.as_str(), false))
        };
        if is_pressed && idle {
            let request = StartRequest {
                binding_id,
                hotkey_string,
                push_to_talk,
                hands_free,
                at: now,
            };
            assert(request@ == e.start_at(now as int));
            self.start(request, &mut out);
        } else if ends {
            self.end_hold(binding_id.as_str(), hotkey_string.as_str(), &mut out);
        } else if is_pressed {
            // The other transcribe binding fired while a recording is in flight
            // (its combo shares keys with the one holding it): retarget the
            // recording instead of dropping it.
            switch_transcribe_mode(&mut self.stage, binding_id.as_str());
        }
        out
    }

    /// Handles the next command.
    pub fn handle(&mut self, command: Command, now: u128) -> (out: Vec<PipelineEffect>)
        requires
            now + DOUBLE_TAP_WINDOW <= u128::MAX,
        ensures
            (final(self)@, effects(out@)) == old(self)@.commanded(command@, now as int),
    {
        let mut out: Vec<PipelineEffect> = Vec::new();
        assert(effects(out@) =~= Seq::<EffectSpec>::empty());
        assert(forall|s: Seq<EffectSpec>| #[trigger] (Seq::<EffectSpec>::empty() + s) =~= s);
        match command {
            Command::Input { binding_id, hotkey_string, is_pressed, push_to_talk, hands_free } => {
                return self.handle_input(
                    binding_id,
                    hotkey_string,
                    is_pressed,
                    push_to_talk,
                    hands_free,
                    now,
                );
            },
            Command::HandsFreeLatch => {
                // As with a key event: a stop that is due fires first.
                self.expire_pending_release(now, &mut out);
                self.latch(&mut out);
            },
            Command::Cancel { recording_was_active } => {
                self.pending_release = None;
                self.hint_deadline = None;
                self.hold_started = None;
                // Don't reset during processing: wait for the pipeline to finish.
                let reset = match &self.stage {
                    Stage::Idle => recording_was_active,
                    Stage::Recording { .. } => true,
                    Stage::Processing => false,
                };
                if reset {
                    self.stage = Stage::Idle;
                }
            },
            Command::ProcessingFinished => {
                self.stage = Stage::Idle;
            },
        }
        out
    }

    /// Handles the timer: offers the hint and fires the deferred release, each
    /// where its moment has come.
    pub fn handle_timeout(&mut self, now: u128) -> (out: Vec<PipelineEffect>)
        ensures
            (final(self)@, effects(out@)) == old(self)@.woken(now as int),
    {
        let mut out: Vec<PipelineEffect> = Vec::new();
        let hint_due = match self.hint_deadline {
            Some(at) => at <= now,
            None => false,
        };
        if hint_due {
            self.hint_deadline = None;
            let unlatched = match &self.stage {
                Stage::Recording { latched, .. } => !*latched,
                _ => false,
            };
            if unlatched {
                out.push(PipelineEffect::OfferHandsFreeHint);
            }
        }
        assert(effects(out@) =~= old(self)@.hinted(now as int).1);
        self.expire_pending_release(now, &mut out);
        out
    }

    /// Takes note of how a start ended. The hands-free key is claimed here, for
    /// a genuine hold, and not for a CLI or signal toggle on the same path.
    pub fn start_finished(&mut self, request: StartRequest, is_recording: bool) -> (out: Vec<
        PipelineEffect,
    >)
        requires
            request.at + HANDS_FREE_HINT_DELAY <= u128::MAX,
        ensures
            (final(self)@, effects(out@)) == old(self)@.started(request@, is_recording),
    {
        let mut out: Vec<PipelineEffect> = Vec::new();
        if is_recording {
            self.stage = Stage::begun(request.binding_id.as_str());
        }
        if request.push_to_talk {
            let recording = match &self.stage {
                Stage::Recording { .. } => true,
                _ => false,
            };
            if request.hands_free && recording {
                self.hint_deadline = Some(request.at + HANDS_FREE_HINT_DELAY);
                out.push(PipelineEffect::RegisterHandsFree { binding_id: request.binding_id });
            } else {
                self.hint_deadline = None;
            }
        }
        assert(effects(out@) =~= old(self)@.started(request@, is_recording).1);
        out
    }
}

} // verus!
