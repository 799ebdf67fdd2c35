//! The hands-free key: claimed while a push-to-talk hold records, and given back
//! as soon as the recording ends or goes hands-free.
//!
//! Registration takes its time, so a recording may end before its registration
//! lands. Every request bumps an epoch; a registration that lands in another
//! epoch than the one it began in is stale and undoes itself.
use vstd::prelude::*;
use vstd::utf8::is_ascii_chars;

use crate::effect;
use crate::effect::Effect;
use crate::hotkey;
use crate::hotkey::{compose_hands_free_hotkey, last_key};
use crate::settings::{AppSettings, DictationSettings, KeyboardImplementation, ShortcutBinding};
use crate::shortcut::unregister_shortcut_with;
use crate::text;

verus! {

/// The hands-free hotkey that is registered, if any, and the epoch of the last
/// request.
#[derive(Debug, PartialEq, Eq)]
pub struct HandsFreeSlot {
    active: Option<String>,
    epoch: u64,
}

/// The hands-free slot, in the abstract.
pub ghost struct SlotSpec {
    pub active: Option<Seq<char>>,
    pub epoch: u64,
}

impl View for HandsFreeSlot {
    type V = SlotSpec;

    closed spec fn view(&self) -> SlotSpec {
        SlotSpec { active: hotkey::optional_text(self.active), epoch: self.epoch }
    }
}

/// The epoch after `epoch`. Epochs start over once all have been used.
pub open spec fn next_epoch(epoch: u64) -> u64 {
    if epoch == u64::MAX {
        0
    } else {
        (epoch + 1) as u64
    }
}

impl SlotSpec {
    /// After a registration was requested.
    pub open spec fn claimed(self) -> SlotSpec {
        SlotSpec { epoch: next_epoch(self.epoch), ..self }
    }

    /// After a registration from the epoch `epoch` landed.
    pub open spec fn landed(self, epoch: u64, hotkey: Seq<char>) -> SlotSpec {
        if epoch == self.epoch {
            SlotSpec { active: Some(hotkey), ..self }
        } else {
            self
        }
    }

    /// After the key was given back.
    pub open spec fn released(self) -> SlotSpec {
        SlotSpec { active: None, epoch: next_epoch(self.epoch) }
    }

    /// The key that the overlay names.
    pub open spec fn key(self) -> Option<Seq<char>> {
        match self.active {
            Some(hotkey) => Some(text::pieces(hotkey, '+').last()),
            None => None,
        }
    }
}

impl HandsFreeSlot {
    pub fn new() -> (slot: Self)
        ensures
            slot@ == (SlotSpec { active: None, epoch: 0 }),
    {
        HandsFreeSlot { active: None, epoch: 0 }
    }

    /// Claims an epoch for a registration, so an unregister that arrives while
    /// the registration is still in flight can invalidate it.
    pub fn claim(&mut self) -> (epoch: u64)
        ensures
            final(self)@ == old(self)@.claimed(),
            epoch == final(self)@.epoch,
    {
        self.epoch = self.epoch.wrapping_add(1);
        self.epoch
    }

    /// Notes that a registration from the epoch `epoch` has landed. Returns
    /// whether it is stale: the hold may already have ended (or latched) while
    /// it was registering.
    pub fn land(&mut self, epoch: u64, hotkey: String) -> (stale: bool)
        ensures
            final(self)@ == old(self)@.landed(epoch, hotkey@),
            stale == (epoch != old(self)@.epoch),
    {
        if epoch == self.epoch {
            self.active = Some(hotkey);
            false
        } else {
            true
        }
    }

    /// Gives the key back. Returns the hotkey that was registered, if any. A
    /// registration still in flight recognises itself as stale.
    pub fn release(&mut self) -> (hotkey: Option<String>)
        ensures
            final(self)@ == old(self)@.released(),
            hotkey::optional_text(hotkey) == old(self)@.active,
    {
        self.epoch = self.epoch.wrapping_add(1);
        self.active.take()
    }
}

/// The key to show in the overlay's hands-free hint, if the hotkey is live.
/// Only the main key: the composed hotkey's modifiers are the ones the user is
/// already holding down.
pub fn active_hands_free_key(slot: &HandsFreeSlot) -> (key: Option<String>)
    ensures
        hotkey::optional_text(key) == slot@.key(),
{
    match &slot.active {
        Some(hotkey) => Some(last_key(hotkey.as_str())),
        None => None,
    }
}

// ---------------------------------------------------------------------------
// Registering and unregistering
// ---------------------------------------------------------------------------

/// What the registration of the hands-free key comes to.
#[derive(Debug, PartialEq, Eq)]
pub enum HandsFreePlan {
    /// The settings lack one of the two bindings.
    Missing,
    /// The hands-free key is the one that the transcribe shortcut holds.
    Collision,
    /// Register `binding`, whose shortcut is `hotkey`.
    Register { implementation: KeyboardImplementation, hotkey: String, binding: ShortcutBinding },
}

/// The plan for a hotkey that could be composed or not, from the two bindings.
pub open spec fn plan_matches(
    plan: HandsFreePlan,
    implementation: KeyboardImplementation,
    hands_free: ShortcutBinding,
    composed: Option<Seq<char>>,
) -> bool {
    match composed {
        None => plan is Collision,
        Some(text) => plan matches HandsFreePlan::Register { implementation: i, hotkey, binding }
            && i == implementation && hotkey@ == text && binding == (ShortcutBinding {
            current_binding: hotkey,
            ..hands_free
        }),
    }
}

/// The plan once the hotkey has been composed.
pub fn hands_free_plan(
    implementation: KeyboardImplementation,
    hands_free: &ShortcutBinding,
    composed: Option<String>,
) -> (plan: HandsFreePlan)
    ensures
        plan_matches(plan, implementation, *hands_free, hotkey::optional_text(composed)),
{
    match composed {
        None => HandsFreePlan::Collision,
        Some(hotkey) => {
            let mut binding = hands_free.clone();
            binding.current_binding = hotkey.clone();
            HandsFreePlan::Register { implementation, hotkey, binding }
        },
    }
}

/// Of a hotkey in ASCII it is known what its parts are.
pub open spec fn ascii_parts_are_known(hotkey: Seq<char>) -> bool {
    is_ascii_chars(hotkey) ==> hotkey::parts(hotkey) == hotkey::ascii_parts(hotkey)
}

/// What the hands-free shortcut is registered as while the binding
/// `transcribe_binding_id` holds a recording.
pub fn hands_free_registration(
    settings: &AppSettings,
    transcribe_binding_id: &str,
) -> (plan: HandsFreePlan)
    ensures
        ({
            let bindings = settings.bindings@;
            if bindings.contains_key(transcribe_binding_id@) && bindings.contains_key(
                "hands_free"@,
            ) {
                plan_matches(
                    plan,
                    settings.keyboard_implementation,
                    bindings["hands_free"@],
                    hotkey::composed(
                        hotkey::parts(bindings[transcribe_binding_id@].current_binding@),
                        hotkey::parts(bindings["hands_free"@].current_binding@),
                    ),
                ) && ascii_parts_are_known(bindings[transcribe_binding_id@].current_binding@)
                    && ascii_parts_are_known(bindings["hands_free"@].current_binding@)
            } else {
                plan is Missing
            }
        }),
{
    match (settings.bindings.get(transcribe_binding_id), settings.bindings.get("hands_free")) {
        (Some(transcribe), Some(hands_free)) => {
            let composed = compose_hands_free_hotkey(
                transcribe.current_binding.as_str(),
                hands_free.current_binding.as_str(),
            );
            hands_free_plan(settings.keyboard_implementation, hands_free, composed)
        },
        _ => HandsFreePlan::Missing,
    }
}

/// Begins to register the hands-free shortcut (called by the coordinator when a
/// real push-to-talk hold begins recording), so the key is swallowed from the
/// foreground app for no longer than the recording itself. Returns the epoch of
/// the registration; there is none where shortcuts cannot be registered
/// dynamically.
pub fn register_hands_free_shortcut(slot: &mut HandsFreeSlot, dynamic: bool) -> (epoch: Option<u64>)
    ensures
        dynamic ==> final(slot)@ == old(slot)@.claimed() && epoch == Some(final(slot)@.epoch),
        !dynamic ==> final(slot)@ == old(slot)@ && epoch is None,
{
    if dynamic {
        Some(slot.claim())
    } else {
        None
    }
}

/// Ends the registration of the hands-free shortcut once `binding` has been
/// registered: a stale registration is undone.
pub fn hands_free_landed(
    slot: &mut HandsFreeSlot,
    epoch: u64,
    implementation: KeyboardImplementation,
    hotkey: String,
    binding: ShortcutBinding,
) -> (undo: Option<Effect>)
    ensures
        final(slot)@ == old(slot)@.landed(epoch, hotkey@),
        match undo {
            Some(call) => epoch != old(slot)@.epoch && call@ == (effect::EffectSpec::Unregister {
                implementation,
                binding,
            }),
            None => epoch == old(slot)@.epoch,
        },
{
    if slot.land(epoch, hotkey) {
        Some(unregister_shortcut_with(implementation, binding))
    } else {
        None
    }
}

/// Begins to unregister the hands-free shortcut (called when recording stops,
/// and as soon as a hold latches — once it has done its job the key belongs to
/// the foreground app again). Returns the hotkey to unregister; there is none
/// when the key was never registered.
pub fn unregister_hands_free_shortcut(slot: &mut HandsFreeSlot) -> (hotkey: Option<String>)
    ensures
        final(slot)@ == old(slot)@.released(),
        hotkey::optional_text(hotkey) == old(slot)@.active,
{
    slot.release()
}

/// The call that unregisters the hands-free shortcut `hotkey`, if the settings
/// hold the binding.
pub fn hands_free_unregistration(settings: &AppSettings, hotkey: String) -> (call: Option<Effect>)
    ensures
        match call {
            Some(call) => settings.bindings@.contains_key("hands_free"@) && call@ == (
            effect::EffectSpec::Unregister {
                implementation: settings.keyboard_implementation,
                binding: (ShortcutBinding {
                    current_binding: hotkey,
                    ..settings.bindings@["hands_free"@]
                }),
            }),
            None => !settings.bindings@.contains_key("hands_free"@),
        },
{
    match settings.bindings.get("hands_free") {
        Some(hands_free) => {
            let mut binding = hands_free.clone();
            binding.current_binding = hotkey;
            Some(unregister_shortcut_with(settings.keyboard_implementation, binding))
        },
        None => None,
    }
}

/// Notes that hands-free has been used: the overlay hint has done its job and is
/// never shown again. Returns whether that is news, to be saved.
pub fn remember_hands_free_used(settings: &mut AppSettings) -> (news: bool)
    ensures
        *final(settings) == (AppSettings {
            dictation: (DictationSettings { hands_free_used: true, ..old(settings).dictation }),
            ..*old(settings)
        }),
        news == !old(settings).dictation.hands_free_used,
{
    let news = !settings.dictation.hands_free_used;
    settings.dictation.hands_free_used = true;
    news
}

/// The key to offer in the overlay once a hold has become long: none where
/// hands-free has been used before, or where the key is not live.
pub fn hands_free_hint(settings: &AppSettings, slot: &HandsFreeSlot) -> (key: Option<String>)
    ensures
        hotkey::optional_text(key) == (if settings.dictation.hands_free_used {
            None
        } else {
            slot@.key()
        }),
{
    if settings.dictation.hands_free_used {
        None
    } else {
        active_hands_free_key(slot)
    }
}

// ---------------------------------------------------------------------------
// What holds of the slot
// ---------------------------------------------------------------------------

/// A request: a registration, or giving the key back.
pub ghost enum Request {
    Claim,
    Release,
}

/// The slot after a run of requests.
pub open spec fn after_requests(slot: SlotSpec, requests: Seq<Request>) -> SlotSpec
    decreases requests.len(),
{
    if requests.len() == 0 {
        slot
    } else {
        let before = after_requests(slot, requests.drop_last());
        match requests.last() {
            Request::Claim => before.claimed(),
            Request::Release => before.released(),
        }
    }
}

/// Every request brings a new epoch, which comes back only after all others.
pub proof fn epochs_count_requests(slot: SlotSpec, requests: Seq<Request>)
    ensures
        after_requests(slot, requests).epoch == (slot.epoch + requests.len()) % (u64::MAX + 1),
    decreases requests.len(),
{
    if requests.len() > 0 {
        epochs_count_requests(slot, requests.drop_last());
        let n = slot.epoch + requests.len() - 1;
        let m = u64::MAX + 1;
        assert((n + 1) % m == (if n % m == m - 1 {
            0
        } else {
            n % m + 1
        })) by (nonlinear_arith)
            requires
                m > 1,
                n >= 0,
        ;
    } else {
        assert(slot.epoch as int % (u64::MAX + 1) == slot.epoch);
    }
}

/// A registration that lands after any other request is stale: it leaves the
/// slot alone, so the hotkey is not held beyond its recording. Only after as many
/// requests as there are epochs could it be mistaken for a fresh one.
pub proof fn a_late_registration_is_stale(
    slot: SlotSpec,
    requests: Seq<Request>,
    hotkey: Seq<char>,
)
    requires
        0 < requests.len() <= u64::MAX,
    ensures
        slot.claimed().epoch != after_requests(slot.claimed(), requests).epoch,
        after_requests(slot.claimed(), requests).landed(slot.claimed().epoch, hotkey)
            == after_requests(slot.claimed(), requests),
{
    let claimed = slot.claimed();
    epochs_count_requests(claimed, requests);
    let e = claimed.epoch as int;
    let k = requests.len() as int;
    let m = u64::MAX + 1;
    assert((e + k) % m != e) by (nonlinear_arith)
        requires
            0 <= e < m,
            0 < k < m,
    ;
}

/// A registration that no other request overtakes takes the slot, and giving the
/// key back returns exactly what it registered.
pub proof fn a_timely_registration_is_given_back(slot: SlotSpec, hotkey: Seq<char>)
    ensures
        slot.claimed().landed(slot.claimed().epoch, hotkey).active == Some(hotkey),
        slot.claimed().landed(slot.claimed().epoch, hotkey).released().active is None,
{
}

/// Giving the key back leaves nothing registered: after it, the overlay has no
/// key to name, and giving it back again finds nothing.
pub proof fn a_released_slot_is_empty(slot: SlotSpec)
    ensures
        slot.released().active is None,
        slot.released().key() is None,
{
}

/// While a composed hotkey is live, the key that the overlay names is the main key
/// of the hands-free binding: no modifier, and without a `+`.
pub proof fn the_hint_names_the_hands_free_key(
    slot: SlotSpec,
    transcribe: Seq<Seq<char>>,
    hands_free: Seq<Seq<char>>,
)
    requires
        slot.active is Some,
        slot.active == hotkey::composed(transcribe, hands_free),
        hotkey::key_is_free_of_plus(hands_free),
    ensures
        slot.key() == hotkey::main_key(hands_free),
        slot.key() matches Some(key) && !key.contains('+') && !hotkey::is_modifier(key),
{
    hotkey::a_composed_hotkey_reads_back(transcribe, hands_free);
    hotkey::the_main_key_is_no_modifier(hands_free);
    text::lemma_pieces_are_free_of_the_separator(slot.active->0, '+');
}

/// The same of every hands-free binding in ASCII, whatever the transcribe shortcut.
pub proof fn the_hint_names_an_ascii_hands_free_key(
    slot: SlotSpec,
    transcribe: Seq<Seq<char>>,
    hands_free: Seq<char>,
)
    requires
        slot.active is Some,
        slot.active == hotkey::composed(transcribe, hotkey::ascii_parts(hands_free)),
        is_ascii_chars(hands_free),
    ensures
        slot.key() == hotkey::main_key(hotkey::ascii_parts(hands_free)),
        slot.key() matches Some(key) && !key.contains('+') && !hotkey::is_modifier(key),
{
    hotkey::an_ascii_key_is_free_of_plus(hands_free);
    the_hint_names_the_hands_free_key(slot, transcribe, hotkey::ascii_parts(hands_free));
}

/// Each request begins an epoch of its own, the next in turn, and the one after the
/// last is the first again.
pub proof fn epochs_go_round(epoch: u64)
    ensures
        next_epoch(epoch) == (epoch + 1) % 0x1_0000_0000_0000_0000,
        next_epoch(epoch) != epoch,
{
}

/// A request leaves the registered hotkey as it is. A registration counts only in its
/// own epoch, and then the hotkey is the one that landed. Giving the key back leaves
/// none.
pub proof fn a_slot_holds_what_landed_in_its_epoch(slot: SlotSpec, epoch: u64, hotkey: Seq<char>)
    ensures
        slot.claimed().active == slot.active,
        slot.claimed().epoch == (slot.epoch + 1) % 0x1_0000_0000_0000_0000,
        epoch == slot.epoch ==> slot.landed(epoch, hotkey).active == Some(hotkey),
        epoch != slot.epoch ==> slot.landed(epoch, hotkey).active == slot.active,
        slot.landed(epoch, hotkey).epoch == slot.epoch,
        slot.released().active is None,
        slot.released().epoch == (slot.epoch + 1) % 0x1_0000_0000_0000_0000,
{
}

/// The overlay names what stands behind the last `+` of the hotkey, and nothing while
/// none is registered.
pub proof fn the_overlay_names_the_main_key(slot: SlotSpec)
    ensures
        slot.active is None <==> slot.key() is None,
        slot.active matches Some(hotkey) ==> !slot.key()->0.contains('+') && (slot.key()->0
            == hotkey || exists|front: Seq<char>| hotkey == #[trigger] front.push('+') + slot.key()->0),
{
    if slot.active is Some {
        let hotkey = slot.active->0;
        let pieces = text::pieces(hotkey, '+');
        text::lemma_pieces_are_free_of_the_separator(hotkey, '+');
        text::lemma_joined_pieces(hotkey, '+');
        assert(pieces[pieces.len() - 1] == pieces.last());
        if pieces.len() > 1 {
            let front = text::joined(pieces.drop_last(), seq!['+']);
            text::lemma_joined_grows(pieces.drop_last(), pieces.last(), seq!['+']);
            assert(pieces.drop_last().push(pieces.last()) =~= pieces);
            assert(hotkey =~= front.push('+') + pieces.last());
        } else {
            text::lemma_joined_grows(Seq::empty(), pieces.last(), seq!['+']);
            assert(pieces =~= seq![pieces.last()]);
        }
    }
}

/// Where no hotkey can be composed, nothing is registered. Otherwise the hands-free
/// binding is, with that hotkey as its shortcut and all else as it was.
pub proof fn a_plan_registers_the_composed_hotkey(
    plan: HandsFreePlan,
    implementation: KeyboardImplementation,
    hands_free: ShortcutBinding,
    composed: Option<Seq<char>>,
)
    requires
        plan_matches(plan, implementation, hands_free, composed),
    ensures
        composed is None <==> plan is Collision,
        match plan {
            HandsFreePlan::Register { implementation: with, hotkey, binding } => {
                &&& composed == Some(hotkey@)
                &&& with == implementation
                &&& binding.current_binding == hotkey
                &&& binding.id == hands_free.id
                &&& binding.default_binding == hands_free.default_binding
            },
            HandsFreePlan::Collision => true,
            HandsFreePlan::Missing => false,
        },
{
}

/// What is known of a hotkey in ASCII is how it is read.
pub proof fn an_ascii_hotkey_is_read_as_ascii(hotkey: Seq<char>)
    requires
        is_ascii_chars(hotkey),
        ascii_parts_are_known(hotkey),
    ensures
        hotkey::parts(hotkey) == hotkey::normalized(
            text::pieces(hotkey, '+'),
            |s: Seq<char>| hotkey::ascii_lowercase(s),
        ),
{
}

} // verus!
