//! Changing a binding, step by step.
//!
//! A change alternates between decisions, which are made here, and calls of the
//! shortcut implementation, which the application makes: it performs what
//! [`BindingChange::action`] names and hands the outcome to
//! [`BindingChange::advance`], until the change has its answer.
use vstd::prelude::*;

use crate::effect;
use crate::effect::Effect;
use crate::settings::{KeyboardImplementation, ShortcutBinding};
use crate::shortcut;
use crate::shortcut::{
    is_dynamic_binding, is_in_bulk, register_shortcut_with, unregister_shortcut_with,
};
use crate::string_map::StringMap;
use crate::text;
use crate::text::{concat3, is_blank};

verus! {

/// What the frontend is told of a change.
#[derive(Debug, PartialEq, Eq)]
pub struct BindingResponse {
    pub success: bool,
    pub binding: Option<ShortcutBinding>,
    pub error: Option<String>,
}

/// A response, in the abstract.
pub ghost struct ResponseSpec {
    pub success: bool,
    pub binding: Option<ShortcutBinding>,
    pub error: Option<Seq<char>>,
}

impl View for BindingResponse {
    type V = ResponseSpec;

    open spec fn view(&self) -> ResponseSpec {
        ResponseSpec {
            success: self.success,
            binding: self.binding,
            error: match self.error {
                Some(e) => Some(e@),
                None => None,
            },
        }
    }
}

impl ResponseSpec {
    pub open spec fn changed_to(binding: ShortcutBinding) -> ResponseSpec {
        ResponseSpec { success: true, binding: Some(binding), error: None }
    }

    pub open spec fn failed(error: Seq<char>) -> ResponseSpec {
        ResponseSpec { success: false, binding: None, error: Some(error) }
    }
}

impl BindingResponse {
    fn changed_to(binding: ShortcutBinding) -> (res: BindingResponse)
        ensures
            res@ == ResponseSpec::changed_to(binding),
    {
        BindingResponse { success: true, binding: Some(binding), error: None }
    }

    fn failed(error: String) -> (res: BindingResponse)
        ensures
            res@ == ResponseSpec::failed(error@),
    {
        BindingResponse { success: false, binding: None, error: Some(error) }
    }
}

/// How a change ends, in the abstract.
pub ghost enum AnswerSpec {
    /// The request fails with an error.
    Refused(Seq<char>),
    Responded(ResponseSpec),
}

/// How a change ends.
pub open spec fn answer(res: Result<BindingResponse, String>) -> AnswerSpec {
    match res {
        Ok(response) => AnswerSpec::Responded(response@),
        Err(e) => AnswerSpec::Refused(e@),
    }
}

/// The error of an outcome, if it is one.
pub open spec fn failure(outcome: Result<(), String>) -> Option<Seq<char>> {
    match outcome {
        Ok(_) => None,
        Err(e) => Some(e@),
    }
}

/// A change of one binding, and how far it has come. `live` says whether the
/// previous binding is registered when the change begins.
#[derive(Debug, PartialEq, Eq)]
pub enum BindingChange {
    /// The existing binding is to be unregistered.
    Unregistering {
        id: String,
        previous: ShortcutBinding,
        updated: ShortcutBinding,
        live: bool,
    },
    /// The new shortcut is to be validated for the current implementation.
    Validating {
        id: String,
        previous: ShortcutBinding,
        updated: ShortcutBinding,
        live: bool,
    },
    /// The new binding is to be registered.
    Registering {
        id: String,
        previous: ShortcutBinding,
        updated: ShortcutBinding,
        live: bool,
    },
    /// The change failed, and the previous binding is to be registered again where
    /// it was live, so that the user's shortcut works exactly as before.
    Restoring {
        previous: ShortcutBinding,
        live: bool,
        answer: Result<BindingResponse, String>,
    },
    /// The settings hold the new binding and are to be saved.
    Saving { answer: Result<BindingResponse, String> },
    Finished { answer: Result<BindingResponse, String> },
}

/// A change of one binding, in the abstract.
pub ghost enum ChangeSpec {
    Unregistering {
        id: Seq<char>,
        previous: ShortcutBinding,
        updated: ShortcutBinding,
        live: bool,
    },
    Validating {
        id: Seq<char>,
        previous: ShortcutBinding,
        updated: ShortcutBinding,
        live: bool,
    },
    Registering {
        id: Seq<char>,
        previous: ShortcutBinding,
        updated: ShortcutBinding,
        live: bool,
    },
    Restoring { previous: ShortcutBinding, live: bool, answer: AnswerSpec },
    Saving { answer: AnswerSpec },
    Finished { answer: AnswerSpec },
}

impl View for BindingChange {
    type V = ChangeSpec;

    open spec fn view(&self) -> ChangeSpec {
        match self {
            BindingChange::Unregistering { id, previous, updated, live } => ChangeSpec::Unregistering {
                id: id@,
                previous: *previous,
                updated: *updated,
                live: *live,
            },
            BindingChange::Validating { id, previous, updated, live } => ChangeSpec::Validating {
                id: id@,
                previous: *previous,
                updated: *updated,
                live: *live,
            },
            BindingChange::Registering { id, previous, updated, live } => ChangeSpec::Registering {
                id: id@,
                previous: *previous,
                updated: *updated,
                live: *live,
            },
            BindingChange::Restoring { previous, live, answer: a } => ChangeSpec::Restoring {
                previous: *previous,
                live: *live,
                answer: answer(*a),
            },
            BindingChange::Saving { answer: a } => ChangeSpec::Saving { answer: answer(*a) },
            BindingChange::Finished { answer: a } => ChangeSpec::Finished { answer: answer(*a) },
        }
    }
}

/// What the application has to do next.
#[derive(Debug, PartialEq, Eq)]
pub enum BindingAction {
    /// Perform the effects. The outcome does not matter.
    Perform(Vec<Effect>),
    /// Have the implementation validate the shortcut; the outcome decides.
    Validate { implementation: KeyboardImplementation, raw: String },
    /// Register the binding; the outcome decides.
    Register { implementation: KeyboardImplementation, binding: ShortcutBinding },
    /// The change has its answer.
    Answer,
}

/// What the application has to do next, in the abstract.
pub ghost enum ActionSpec {
    Perform(Seq<effect::EffectSpec>),
    Validate { implementation: KeyboardImplementation, raw: Seq<char> },
    Register { implementation: KeyboardImplementation, binding: ShortcutBinding },
    Answer,
}

impl View for BindingAction {
    type V = ActionSpec;

    open spec fn view(&self) -> ActionSpec {
        match self {
            BindingAction::Perform(calls) => ActionSpec::Perform(effect::effects(calls@)),
            BindingAction::Validate { implementation, raw } => ActionSpec::Validate {
                implementation: *implementation,
                raw: raw@,
            },
            BindingAction::Register { implementation, binding } => ActionSpec::Register {
                implementation: *implementation,
                binding: *binding,
            },
            BindingAction::Answer => ActionSpec::Answer,
        }
    }
}

impl ChangeSpec {
    /// How a change of the binding `id` to `raw` begins, where `post_process` says
    /// whether post-processing is on.
    pub open spec fn begun(
        bindings: Map<Seq<char>, ShortcutBinding>,
        defaults: Map<Seq<char>, ShortcutBinding>,
        post_process: bool,
        id: Seq<char>,
        raw: String,
    ) -> ChangeSpec {
        if text::blank(raw@) {
            ChangeSpec::Finished { answer: AnswerSpec::Refused("Binding cannot be empty"@) }
        } else if !bindings.contains_key(id) && !defaults.contains_key(id) {
            ChangeSpec::Finished {
                answer: AnswerSpec::Responded(
                    ResponseSpec::failed(
                        "Binding with id '"@ + id + "' not found in defaults"@,
                    ),
                ),
            }
        } else {
            let previous = if bindings.contains_key(id) {
                bindings[id]
            } else {
                defaults[id]
            };
            let updated = ShortcutBinding { current_binding: raw, ..previous };
            if shortcut::dynamic(id) {
                ChangeSpec::Saving {
                    answer: AnswerSpec::Responded(ResponseSpec::changed_to(updated)),
                }
            } else {
                ChangeSpec::Unregistering {
                    id,
                    previous,
                    updated,
                    live: shortcut::in_bulk(id, post_process),
                }
            }
        }
    }

    /// What is to be done next.
    pub open spec fn action(self, implementation: KeyboardImplementation) -> ActionSpec {
        match self {
            ChangeSpec::Unregistering { previous, .. } => ActionSpec::Perform(
                seq![effect::EffectSpec::Unregister { implementation, binding: previous }],
            ),
            ChangeSpec::Validating { updated, .. } => ActionSpec::Validate {
                implementation,
                raw: updated.current_binding@,
            },
            ChangeSpec::Registering { updated, .. } => ActionSpec::Register {
                implementation,
                binding: updated,
            },
            ChangeSpec::Restoring { previous, live, .. } => ActionSpec::Perform(
                if live {
                    seq![effect::EffectSpec::Register { implementation, binding: previous }]
                } else {
                    Seq::empty()
                },
            ),
            ChangeSpec::Saving { .. } => ActionSpec::Perform(
                seq![effect::EffectSpec::SaveSettings, effect::EffectSpec::ReconcileFallback],
            ),
            ChangeSpec::Finished { .. } => ActionSpec::Answer,
        }
    }

    /// Where the change stands once that is done, with `error` as its failure.
    pub open spec fn next(self, error: Option<Seq<char>>) -> ChangeSpec {
        match self {
            ChangeSpec::Unregistering { id, previous, updated, live } => ChangeSpec::Validating {
                id,
                previous,
                updated,
                live,
            },
            ChangeSpec::Validating { id, previous, updated, live } => match error {
                None => ChangeSpec::Registering { id, previous, updated, live },
                Some(e) => ChangeSpec::Restoring {
                    previous,
                    live,
                    answer: AnswerSpec::Refused(e),
                },
            },
            ChangeSpec::Registering { id, previous, updated, live } => match error {
                None => ChangeSpec::Saving {
                    answer: AnswerSpec::Responded(ResponseSpec::changed_to(updated)),
                },
                Some(e) => ChangeSpec::Restoring {
                    previous,
                    live,
                    answer: AnswerSpec::Responded(
                        ResponseSpec::failed("Failed to register shortcut: "@ + e),
                    ),
                },
            },
            ChangeSpec::Restoring { answer, .. } => ChangeSpec::Finished { answer },
            ChangeSpec::Saving { answer } => ChangeSpec::Finished { answer },
            ChangeSpec::Finished { answer } => ChangeSpec::Finished { answer },
        }
    }

    /// The bindings in the settings once that is done: only a new binding that
    /// was registered gets there.
    pub open spec fn stored(
        self,
        bindings: Map<Seq<char>, ShortcutBinding>,
        error: Option<Seq<char>>,
    ) -> Map<Seq<char>, ShortcutBinding> {
        match self {
            ChangeSpec::Registering { id, updated, .. } if error is None => bindings.insert(
                id,
                updated,
            ),
            _ => bindings,
        }
    }

    /// The number of steps that are left at most.
    pub open spec fn steps_left(self) -> nat {
        match self {
            ChangeSpec::Unregistering { .. } => 4,
            ChangeSpec::Validating { .. } => 3,
            ChangeSpec::Registering { .. } => 2,
            ChangeSpec::Restoring { .. } => 1,
            ChangeSpec::Saving { .. } => 1,
            ChangeSpec::Finished { .. } => 0,
        }
    }
}

/// Begins to change the binding `id` to `binding`, in the settings whose
/// bindings these are.
///
/// An empty binding is rejected: every shortcut should have a value. A binding
/// that the settings lack is made from its default. Dynamic bindings are
/// registered only while a recording is in flight, so of those only the settings
/// change. `post_process` says whether post-processing is on, and with it whether
/// its shortcut is live.
pub fn change_binding(
    bindings: &mut StringMap<ShortcutBinding>,
    defaults: &StringMap<ShortcutBinding>,
    post_process: bool,
    id: String,
    binding: String,
) -> (change: BindingChange)
    ensures
        change@ == ChangeSpec::begun(old(bindings)@, defaults@, post_process, id@, binding),
        final(bindings)@ == (match change@ {
            ChangeSpec::Saving {
                answer: AnswerSpec::Responded(ResponseSpec { binding: Some(updated), .. }),
            } => old(bindings)@.insert(id@, updated),
            _ => old(bindings)@,
        }),
{
    if is_blank(binding.as_str()) {
        return BindingChange::Finished { answer: Err("Binding cannot be empty".to_owned()) };
    }
    let previous = match bindings.get(id.as_str()) {
        Some(b) => b.clone(),
        None => match defaults.get(id.as_str()) {
            Some(b) => b.clone(),
            None => {
                let error = concat3("Binding with id '", id.as_str(), "' not found in defaults");
                return BindingChange::Finished { answer: Ok(BindingResponse::failed(error)) };
            },
        },
    };
    let mut updated = previous.clone();
    updated.current_binding = binding;
    if is_dynamic_binding(id.as_str()) {
        bindings.insert(id, updated.clone());
        return BindingChange::Saving { answer: Ok(BindingResponse::changed_to(updated)) };
    }
    let live = is_in_bulk(id.as_str(), post_process);
    BindingChange::Unregistering { id, previous, updated, live }
}

/// Begins to change the binding `id`, of which `stored` is what the settings
/// hold, back to its default.
pub fn reset_binding(
    bindings: &mut StringMap<ShortcutBinding>,
    defaults: &StringMap<ShortcutBinding>,
    post_process: bool,
    stored: ShortcutBinding,
    id: String,
) -> (change: BindingChange)
    ensures
        change@ == ChangeSpec::begun(
            old(bindings)@,
            defaults@,
            post_process,
            id@,
            stored.default_binding,
        ),
        final(bindings)@ == (match change@ {
            ChangeSpec::Saving {
                answer: AnswerSpec::Responded(ResponseSpec { binding: Some(updated), .. }),
            } => old(bindings)@.insert(id@, updated),
            _ => old(bindings)@,
        }),
{
    change_binding(bindings, defaults, post_process, id, stored.default_binding)
}

/// Registers the previous binding again after a change failed, where it was live.
fn restore_registration(
    implementation: KeyboardImplementation,
    binding: &ShortcutBinding,
    live: bool,
) -> (calls: Vec<Effect>)
    ensures
        effect::effects(calls@) == (if live {
            seq![effect::EffectSpec::Register { implementation, binding: *binding }]
        } else {
            Seq::empty()
        }),
{
    let mut calls: Vec<Effect> = Vec::new();
    if live {
        calls.push(register_shortcut_with(implementation, binding.clone()));
    }
    calls
}

impl BindingChange {
    /// What the application has to do next, with the implementation that the
    /// settings name.
    pub fn action(&self, implementation: KeyboardImplementation) -> (action: BindingAction)
        ensures
            action@ == self@.action(implementation),
    {
        let action = match self {
            BindingChange::Unregistering { previous, .. } => BindingAction::Perform(
                vec![unregister_shortcut_with(implementation, previous.clone())],
            ),
            BindingChange::Validating { updated, .. } => BindingAction::Validate {
                implementation,
                raw: updated.current_binding.clone(),
            },
            BindingChange::Registering { updated, .. } => BindingAction::Register {
                implementation,
                binding: updated.clone(),
            },
            BindingChange::Restoring { previous, live, .. } => BindingAction::Perform(
                restore_registration(implementation, previous, *live),
            ),
            BindingChange::Saving { .. } => BindingAction::Perform(
                vec![Effect::SaveSettings, Effect::ReconcileFallback],
            ),
            BindingChange::Finished { .. } => BindingAction::Answer,
        };
        assert(match (action@, self@.action(implementation)) {
            (ActionSpec::Perform(a), ActionSpec::Perform(b)) => a =~= b,
            _ => true,
        });
        action
    }

    /// Goes on once that is done.
    pub fn advance(
        self,
        bindings: &mut StringMap<ShortcutBinding>,
        outcome: Result<(), String>,
    ) -> (next: Self)
        ensures
            next@ == self@.next(failure(outcome)),
            final(bindings)@ == self@.stored(old(bindings)@, failure(outcome)),
    {
        match self {
            BindingChange::Unregistering { id, previous, updated, live } =>
                BindingChange::Validating { id, previous, updated, live },
            BindingChange::Validating { id, previous, updated, live } => match outcome {
                Ok(_) => BindingChange::Registering { id, previous, updated, live },
                Err(e) => BindingChange::Restoring { previous, live, answer: Err(e) },
            },
            BindingChange::Registering { id, previous, updated, live } => match outcome {
                Ok(_) => {
                    bindings.insert(id, updated.clone());
                    BindingChange::Saving { answer: Ok(BindingResponse::changed_to(updated)) }
                },
                Err(e) => {
                    let error = "Failed to register shortcut: ".to_owned().concat(e.as_str());
                    BindingChange::Restoring {
                        previous,
                        live,
                        answer: Ok(BindingResponse::failed(error)),
                    }
                },
            },
            BindingChange::Restoring { answer, .. } => BindingChange::Finished { answer },
            BindingChange::Saving { answer } => BindingChange::Finished { answer },
            BindingChange::Finished { answer } => BindingChange::Finished { answer },
        }
    }
}

// ---------------------------------------------------------------------------
// What holds of a change
// ---------------------------------------------------------------------------

/// Every step brings the change nearer to its answer.
pub proof fn a_change_comes_to_an_end(change: ChangeSpec, error: Option<Seq<char>>)
    requires
        !(change is Finished),
    ensures
        change.next(error).steps_left() < change.steps_left(),
{
}

/// The live shortcuts after an action with the outcome `error`. A call that fails
/// changes nothing.
pub open spec fn live_after(
    live: Set<ShortcutBinding>,
    action: ActionSpec,
    error: Option<Seq<char>>,
) -> Set<ShortcutBinding> {
    match action {
        ActionSpec::Perform(effects) if error is None => effect::live_after(live, effects),
        ActionSpec::Register { binding, .. } if error is None => live.insert(binding),
        _ => live,
    }
}

/// The shortcuts that are live, the bindings in the settings, and the change that
/// is under way.
pub ghost struct World {
    pub live: Set<ShortcutBinding>,
    pub bindings: Map<Seq<char>, ShortcutBinding>,
    pub change: ChangeSpec,
}

impl World {
    /// After the next action, with the outcome `error`.
    pub open spec fn stepped(
        self,
        implementation: KeyboardImplementation,
        error: Option<Seq<char>>,
    ) -> World {
        World {
            live: live_after(self.live, self.change.action(implementation), error),
            bindings: self.change.stored(self.bindings, error),
            change: self.change.next(error),
        }
    }
}

/// A change whose new shortcut is invalid, or cannot be registered, leaves the
/// settings and the live shortcuts exactly as they were, whether or not the
/// binding was live and whether or not it could be unregistered, as long as the
/// implementation accepts the previous binding again. It answers with the reason.
pub proof fn a_failed_change_puts_everything_back(
    live: Set<ShortcutBinding>,
    bindings: Map<Seq<char>, ShortcutBinding>,
    defaults: Map<Seq<char>, ShortcutBinding>,
    post_process: bool,
    id: Seq<char>,
    raw: String,
    implementation: KeyboardImplementation,
    unregistering: Option<Seq<char>>,
    validating: Option<Seq<char>>,
    registering: Option<Seq<char>>,
)
    requires
        ({
            let change = ChangeSpec::begun(bindings, defaults, post_process, id, raw);
            &&& change is Unregistering
            &&& live.contains(change->Unregistering_previous) <==> shortcut::in_bulk(
                id,
                post_process,
            )
        }),
        validating is Some || registering is Some,
    ensures
        ({
            let change = ChangeSpec::begun(bindings, defaults, post_process, id, raw);
            let judged = World { live, bindings, change }.stepped(
                implementation,
                unregistering,
            ).stepped(implementation, validating);
            let failed = if validating is Some {
                judged
            } else {
                judged.stepped(implementation, registering)
            };
            let after = failed.stepped(implementation, None);
            &&& after.live == live
            &&& after.bindings == bindings
            &&& after.change == (ChangeSpec::Finished {
                answer: match validating {
                    Some(e) => AnswerSpec::Refused(e),
                    None => AnswerSpec::Responded(
                        ResponseSpec::failed("Failed to register shortcut: "@ + registering->0),
                    ),
                },
            })
        }),
{
    reveal_with_fuel(effect::live_after, 2);
    let change = ChangeSpec::begun(bindings, defaults, post_process, id, raw);
    let previous = change->Unregistering_previous;
    let first = World { live, bindings, change }.stepped(implementation, unregistering);
    assert(first.live == live || first.live == live.remove(previous));
    assert(live.remove(previous).insert(previous) =~= live.insert(previous));
    if live.contains(previous) {
        assert(live.insert(previous) =~= live);
    } else {
        assert(live.remove(previous) =~= live);
    }
}

/// A change that goes through unregisters the previous binding, registers the
/// new one, and only then stores it: the settings never name a binding that was
/// not registered.
pub proof fn a_change_is_stored_once_it_is_registered(
    live: Set<ShortcutBinding>,
    bindings: Map<Seq<char>, ShortcutBinding>,
    id: Seq<char>,
    previous: ShortcutBinding,
    updated: ShortcutBinding,
    was_live: bool,
    implementation: KeyboardImplementation,
)
    ensures
        ({
            let change = ChangeSpec::Unregistering { id, previous, updated, live: was_live };
            let w0 = World { live, bindings, change };
            let w1 = w0.stepped(implementation, None);
            let w2 = w1.stepped(implementation, None);
            let w3 = w2.stepped(implementation, None);
            let w4 = w3.stepped(implementation, None);
            &&& w1.live == live.remove(previous) && w1.bindings == bindings
            &&& w2.live == w1.live && w2.bindings == bindings
            &&& w3.live == live.remove(previous).insert(updated)
            &&& w3.bindings == bindings.insert(id, updated)
            &&& w4.live == w3.live && w4.bindings == w3.bindings
            &&& w4.change == (ChangeSpec::Finished {
                answer: AnswerSpec::Responded(ResponseSpec::changed_to(updated)),
            })
        }),
{
    reveal_with_fuel(effect::live_after, 3);
}

/// Whatever a binding is changed to, its name and its default stay.
pub proof fn a_change_keeps_the_default(
    bindings: Map<Seq<char>, ShortcutBinding>,
    defaults: Map<Seq<char>, ShortcutBinding>,
    post_process: bool,
    id: Seq<char>,
    raw: String,
)
    ensures
        ChangeSpec::begun(bindings, defaults, post_process, id, raw) matches
            ChangeSpec::Unregistering { previous, updated, .. } ==> updated.id == previous.id
            && updated.default_binding == previous.default_binding && updated.current_binding
            == raw,
{
}

/// The binding that a change would give `id`, and that the settings hold once it
/// went through.
pub open spec fn changed_binding(
    bindings: Map<Seq<char>, ShortcutBinding>,
    defaults: Map<Seq<char>, ShortcutBinding>,
    id: Seq<char>,
    raw: String,
) -> ShortcutBinding {
    ShortcutBinding {
        current_binding: raw,
        ..if bindings.contains_key(id) {
            bindings[id]
        } else {
            defaults[id]
        }
    }
}

/// Whatever a binding was changed to, dynamic or not, resetting it goes for the
/// default that it had before the change.
pub proof fn a_reset_undoes_any_change(
    bindings: Map<Seq<char>, ShortcutBinding>,
    defaults: Map<Seq<char>, ShortcutBinding>,
    post_process: bool,
    id: Seq<char>,
    raw: String,
)
    requires
        bindings.contains_key(id) || defaults.contains_key(id),
        !text::blank(raw@),
        !text::blank(changed_binding(bindings, defaults, id, raw).default_binding@),
    ensures
        ({
            let changed = changed_binding(bindings, defaults, id, raw);
            let now = bindings.insert(id, changed);
            let reset = ChangeSpec::begun(
                now,
                defaults,
                post_process,
                id,
                now[id].default_binding,
            );
            let restored = ShortcutBinding {
                current_binding: changed.default_binding,
                ..changed
            };
            &&& ChangeSpec::begun(bindings, defaults, post_process, id, raw) == (
            if shortcut::dynamic(id) {
                ChangeSpec::Saving {
                    answer: AnswerSpec::Responded(ResponseSpec::changed_to(changed)),
                }
            } else {
                ChangeSpec::Unregistering {
                    id,
                    previous: if bindings.contains_key(id) {
                        bindings[id]
                    } else {
                        defaults[id]
                    },
                    updated: changed,
                    live: shortcut::in_bulk(id, post_process),
                }
            })
            &&& reset == (if shortcut::dynamic(id) {
                ChangeSpec::Saving {
                    answer: AnswerSpec::Responded(ResponseSpec::changed_to(restored)),
                }
            } else {
                ChangeSpec::Unregistering {
                    id,
                    previous: changed,
                    updated: restored,
                    live: shortcut::in_bulk(id, post_process),
                }
            })
        }),
{
}

/// A change of a dynamic binding makes no call of the shortcut implementation:
/// it only reaches the settings.
pub proof fn a_dynamic_binding_is_only_stored(
    bindings: Map<Seq<char>, ShortcutBinding>,
    defaults: Map<Seq<char>, ShortcutBinding>,
    post_process: bool,
    id: Seq<char>,
    raw: String,
)
    requires
        shortcut::dynamic(id),
    ensures
        ({
            let change = ChangeSpec::begun(bindings, defaults, post_process, id, raw);
            &&& change is Saving || change is Finished
            &&& change is Saving <==> !text::blank(raw@) && (bindings.contains_key(id)
                || defaults.contains_key(id))
        }),
{
}

/// A change that cannot begin says why: nothing but white space is no shortcut, and a
/// binding that neither the settings nor the defaults hold is not known.
pub proof fn a_change_begins_with_a_shortcut_for_a_known_binding(
    bindings: Map<Seq<char>, ShortcutBinding>,
    defaults: Map<Seq<char>, ShortcutBinding>,
    post_process: bool,
    id: Seq<char>,
    raw: String,
)
    ensures
        ({
            let change = ChangeSpec::begun(bindings, defaults, post_process, id, raw);
            let empty = forall|i: int| 0 <= i < raw@.len() ==> text::white_space(#[trigger] raw@[i]);
            let known = bindings.contains_key(id) || defaults.contains_key(id);
            &&& change is Finished <==> empty || !known
            &&& empty ==> change->Finished_answer == AnswerSpec::Refused("Binding cannot be empty"@)
            &&& !empty && !known ==> change->Finished_answer == AnswerSpec::Responded(
                ResponseSpec {
                    success: false,
                    binding: None,
                    error: Some("Binding with id '"@ + id + "' not found in defaults"@),
                },
            )
        }),
{
    text::lemma_blank_is_white_space(raw@);
}

/// What a change starts from is the binding in the settings, or its default where
/// they lack it, and what it aims for differs from that in the shortcut alone, which
/// is the one that was asked for. The bindings to cancel a recording and to go
/// hands-free are stored at once; for all others the previous one is taken to be
/// live, but for the post-processing shortcut while post-processing is off.
pub proof fn a_change_aims_for_what_was_asked(
    bindings: Map<Seq<char>, ShortcutBinding>,
    defaults: Map<Seq<char>, ShortcutBinding>,
    post_process: bool,
    id: Seq<char>,
    raw: String,
)
    requires
        exists|i: int| 0 <= i < raw@.len() && !text::white_space(#[trigger] raw@[i]),
        bindings.contains_key(id) || defaults.contains_key(id),
    ensures
        ({
            let known = if bindings.contains_key(id) {
                bindings[id]
            } else {
                defaults[id]
            };
            let during_recording = id == "cancel"@ || id == "hands_free"@;
            match ChangeSpec::begun(bindings, defaults, post_process, id, raw) {
                ChangeSpec::Saving { answer: AnswerSpec::Responded(response) } => {
                    &&& during_recording
                    &&& response.success
                    &&& response.error is None
                    &&& response.binding is Some
                    &&& response.binding->0.id == known.id
                    &&& response.binding->0.default_binding == known.default_binding
                    &&& response.binding->0.current_binding == raw
                },
                ChangeSpec::Unregistering { id: i, previous, updated, live } => {
                    &&& !during_recording
                    &&& i == id
                    &&& previous == known
                    &&& updated.id == known.id
                    &&& updated.default_binding == known.default_binding
                    &&& updated.current_binding == raw
                    &&& live <==> id != "transcribe_with_post_process"@ || post_process
                },
                _ => false,
            }
        }),
{
    text::lemma_blank_is_white_space(raw@);
}

/// What is asked for is what is validated, what is validated is what is registered,
/// and what is registered is what the settings come to hold and the answer names.
/// Before that the previous binding is unregistered, whatever comes of it, and after
/// it the settings are saved.
pub proof fn what_is_asked_for_is_validated_registered_and_stored(
    bindings: Map<Seq<char>, ShortcutBinding>,
    defaults: Map<Seq<char>, ShortcutBinding>,
    post_process: bool,
    id: Seq<char>,
    raw: String,
    implementation: KeyboardImplementation,
    unregistering: Option<Seq<char>>,
    saving: Option<Seq<char>>,
)
    requires
        exists|i: int| 0 <= i < raw@.len() && !text::white_space(#[trigger] raw@[i]),
        bindings.contains_key(id) || defaults.contains_key(id),
        id != "cancel"@ && id != "hands_free"@,
    ensures
        ({
            let known = if bindings.contains_key(id) {
                bindings[id]
            } else {
                defaults[id]
            };
            let begun = ChangeSpec::begun(bindings, defaults, post_process, id, raw);
            let unregistered = begun.next(unregistering);
            let validated = unregistered.next(None);
            let registered = validated.next(None);
            let saved = registered.next(saving);
            &&& begun.action(implementation) == ActionSpec::Perform(
                seq![effect::EffectSpec::Unregister { implementation, binding: known }],
            )
            &&& begun.stored(bindings, unregistering) == bindings
            &&& unregistered.action(implementation) == (ActionSpec::Validate {
                implementation,
                raw: raw@,
            })
            &&& unregistered.stored(bindings, None) == bindings
            &&& match validated.action(implementation) {
                ActionSpec::Register { implementation: i, binding } => {
                    &&& i == implementation
                    &&& binding.current_binding == raw
                    &&& binding.id == known.id
                    &&& binding.default_binding == known.default_binding
                    &&& validated.stored(bindings, None) == bindings.insert(id, binding)
                    &&& saved == (ChangeSpec::Finished {
                        answer: AnswerSpec::Responded(
                            ResponseSpec { success: true, binding: Some(binding), error: None },
                        ),
                    })
                },
                _ => false,
            }
            &&& registered.action(implementation) == ActionSpec::Perform(
                seq![effect::EffectSpec::SaveSettings, effect::EffectSpec::ReconcileFallback],
            )
            &&& saved.action(implementation) is Answer
        }),
{
    a_change_aims_for_what_was_asked(bindings, defaults, post_process, id, raw);
}

/// A shortcut that is found invalid, or that cannot be registered, reaches neither
/// the settings nor the implementation again. The previous binding is registered
/// once more where it was live, and the answer gives the reason.
pub proof fn what_fails_is_not_stored(
    bindings: Map<Seq<char>, ShortcutBinding>,
    defaults: Map<Seq<char>, ShortcutBinding>,
    post_process: bool,
    id: Seq<char>,
    raw: String,
    implementation: KeyboardImplementation,
    unregistering: Option<Seq<char>>,
    error: Seq<char>,
    restoring: Option<Seq<char>>,
)
    requires
        exists|i: int| 0 <= i < raw@.len() && !text::white_space(#[trigger] raw@[i]),
        bindings.contains_key(id) || defaults.contains_key(id),
        id != "cancel"@ && id != "hands_free"@,
    ensures
        ({
            let known = if bindings.contains_key(id) {
                bindings[id]
            } else {
                defaults[id]
            };
            let live = id != "transcribe_with_post_process"@ || post_process;
            let begun = ChangeSpec::begun(bindings, defaults, post_process, id, raw);
            let unregistered = begun.next(unregistering);
            let invalid = unregistered.next(Some(error));
            let validated = unregistered.next(None);
            let unregistrable = validated.next(Some(error));
            let restoration = if live {
                seq![effect::EffectSpec::Register { implementation, binding: known }]
            } else {
                Seq::empty()
            };
            &&& unregistered.stored(bindings, Some(error)) == bindings
            &&& validated.stored(bindings, Some(error)) == bindings
            &&& invalid.action(implementation) == ActionSpec::Perform(restoration)
            &&& unregistrable.action(implementation) == ActionSpec::Perform(restoration)
            &&& invalid.stored(bindings, restoring) == bindings
            &&& unregistrable.stored(bindings, restoring) == bindings
            &&& invalid.next(restoring) == (ChangeSpec::Finished {
                answer: AnswerSpec::Refused(error),
            })
            &&& unregistrable.next(restoring) == (ChangeSpec::Finished {
                answer: AnswerSpec::Responded(
                    ResponseSpec {
                        success: false,
                        binding: None,
                        error: Some("Failed to register shortcut: "@ + error),
                    },
                ),
            })
        }),
{
    a_change_aims_for_what_was_asked(bindings, defaults, post_process, id, raw);
}

/// A binding that is stored at once is saved, and then the change has its answer.
/// After the answer nothing happens any more.
pub proof fn a_stored_change_is_saved_and_answered(
    bindings: Map<Seq<char>, ShortcutBinding>,
    answer: AnswerSpec,
    implementation: KeyboardImplementation,
    error: Option<Seq<char>>,
)
    ensures
        (ChangeSpec::Saving { answer }).action(implementation) == ActionSpec::Perform(
            seq![effect::EffectSpec::SaveSettings, effect::EffectSpec::ReconcileFallback],
        ),
        (ChangeSpec::Saving { answer }).next(error) == (ChangeSpec::Finished { answer }),
        (ChangeSpec::Saving { answer }).stored(bindings, error) == bindings,
        (ChangeSpec::Finished { answer }).action(implementation) is Answer,
        (ChangeSpec::Finished { answer }).next(error) == (ChangeSpec::Finished { answer }),
        (ChangeSpec::Finished { answer }).stored(bindings, error) == bindings,
{
}

/// Responses, answers and outcomes stand for what they hold.
pub proof fn a_response_means_its_fields(
    success: bool,
    binding: Option<ShortcutBinding>,
    error: String,
)
    ensures
        (BindingResponse { success, binding, error: None })@ == (ResponseSpec {
            success,
            binding,
            error: None,
        }),
        (BindingResponse { success, binding, error: Some(error) })@ == (ResponseSpec {
            success,
            binding,
            error: Some(error@),
        }),
        answer(Err(error)) == AnswerSpec::Refused(error@),
        answer(Ok(BindingResponse { success, binding, error: None })) == AnswerSpec::Responded(
            ResponseSpec { success, binding, error: None },
        ),
        answer(Ok(BindingResponse { success, binding, error: Some(error) }))
            == AnswerSpec::Responded(
            ResponseSpec { success, binding, error: Some(error@) },
        ),
        failure(Ok(())) is None,
        failure(Err(error)) == Some(error@),
{
}

/// A change stands for the step it is at and what it holds there.
pub proof fn a_change_means_its_fields(
    id: String,
    previous: ShortcutBinding,
    updated: ShortcutBinding,
    live: bool,
    a: Result<BindingResponse, String>,
)
    ensures
        (BindingChange::Unregistering { id, previous, updated, live })@ == (
        ChangeSpec::Unregistering { id: id@, previous, updated, live }),
        (BindingChange::Validating { id, previous, updated, live })@ == (ChangeSpec::Validating {
            id: id@,
            previous,
            updated,
            live,
        }),
        (BindingChange::Registering { id, previous, updated, live })@ == (
        ChangeSpec::Registering { id: id@, previous, updated, live }),
        (BindingChange::Restoring { previous, live, answer: a })@ == (ChangeSpec::Restoring {
            previous,
            live,
            answer: answer(a),
        }),
        (BindingChange::Saving { answer: a })@ == (ChangeSpec::Saving { answer: answer(a) }),
        (BindingChange::Finished { answer: a })@ == (ChangeSpec::Finished { answer: answer(a) }),
{
}

/// An action stands for what it asks for.
pub proof fn an_action_means_its_fields(
    calls: Vec<Effect>,
    implementation: KeyboardImplementation,
    raw: String,
    binding: ShortcutBinding,
)
    ensures
        BindingAction::Perform(calls)@ == ActionSpec::Perform(effect::effects(calls@)),
        (BindingAction::Validate { implementation, raw })@ == (ActionSpec::Validate {
            implementation,
            raw: raw@,
        }),
        (BindingAction::Register { implementation, binding })@ == (ActionSpec::Register {
            implementation,
            binding,
        }),
        BindingAction::Answer@ is Answer,
{
}

} // verus!
