//! Choosing and switching the keyboard implementation.
//!
//! A switch alternates between decisions, which are made here, and work of the
//! implementations, which the application does: a [`SwitchStep`] names that
//! work, and the function that takes its outcome gives the next step. The
//! effects that come with a step are performed before it.
use vstd::prelude::*;

use crate::effect;
use crate::effect::Effect;
use crate::settings::{AppSettings, KeyboardImplementation, ShortcutBinding};
use crate::shortcut;
use crate::shortcut::{is_in_bulk, register_shortcut_with, unregister_all_shortcuts};
use crate::string_map::StringMap;
use crate::text;
use crate::text::{concat3, same_text};

verus! {

// ---------------------------------------------------------------------------
// Names
// ---------------------------------------------------------------------------

/// The name of an implementation.
pub open spec fn name_of(implementation: KeyboardImplementation) -> Seq<char> {
    match implementation {
        KeyboardImplementation::Tauri => "tauri"@,
        KeyboardImplementation::HandyKeys => "handy_keys"@,
    }
}

/// The implementation that a name stands for. Any name but that of handy-keys
/// stands for Tauri.
pub open spec fn named(name: Seq<char>) -> KeyboardImplementation {
    if name == "handy_keys"@ {
        KeyboardImplementation::HandyKeys
    } else {
        KeyboardImplementation::Tauri
    }
}

/// Get the current keyboard implementation.
pub fn get_keyboard_implementation(settings: &AppSettings) -> (name: String)
    ensures
        name@ == name_of(settings.keyboard_implementation),
{
    match settings.keyboard_implementation {
        KeyboardImplementation::Tauri => "tauri".to_owned(),
        KeyboardImplementation::HandyKeys => "handy_keys".to_owned(),
    }
}

/// Parse a keyboard implementation string into the enum.
pub fn parse_keyboard_implementation(s: &str) -> (implementation: KeyboardImplementation)
    ensures
        implementation == named(s@),
{
    if same_text(s, "handy_keys") {
        KeyboardImplementation::HandyKeys
    } else {
        KeyboardImplementation::Tauri
    }
}

/// The name of an implementation stands for it.
pub proof fn a_name_stands_for_its_implementation(implementation: KeyboardImplementation)
    ensures
        named(name_of(implementation)) == implementation,
{
    reveal_strlit("tauri");
    reveal_strlit("handy_keys");
    assert("tauri"@.len() != "handy_keys"@.len());
}

// ---------------------------------------------------------------------------
// Startup
// ---------------------------------------------------------------------------

/// What startup initializes.
pub open spec fn startup(settings: AppSettings) -> effect::EffectSpec {
    effect::EffectSpec::InitShortcuts(settings.keyboard_implementation)
}

/// The settings once handy-keys has been given up.
pub open spec fn fallen_back(settings: AppSettings) -> AppSettings {
    AppSettings { keyboard_implementation: KeyboardImplementation::Tauri, ..settings }
}

/// Initialize shortcuts using the configured implementation.
pub fn init_shortcuts(settings: &AppSettings) -> (call: Effect)
    ensures
        call@ == startup(*settings),
{
    Effect::InitShortcuts(settings.keyboard_implementation)
}

/// Falls back to Tauri after handy-keys failed to initialize at startup, and
/// saves that, so that handy-keys is not tried again on the next launch.
pub fn init_shortcuts_failed(settings: &mut AppSettings) -> (calls: Vec<Effect>)
    ensures
        *final(settings) == fallen_back(*old(settings)),
        effect::effects(calls@) == seq![
            effect::EffectSpec::SaveSettings,
            startup(fallen_back(*old(settings))),
        ],
{
    settings.keyboard_implementation = KeyboardImplementation::Tauri;
    vec![Effect::SaveSettings, Effect::InitShortcuts(KeyboardImplementation::Tauri)]
}

/// After a fallback, handy-keys is not tried again on the next launch.
pub proof fn a_fallback_is_not_retried(settings: AppSettings)
    ensures
        startup(fallen_back(settings)) == effect::EffectSpec::InitShortcuts(
            KeyboardImplementation::Tauri,
        ),
{
}

// ---------------------------------------------------------------------------
// Registering everything anew
// ---------------------------------------------------------------------------

/// A binding that is about to be registered with an implementation.
#[derive(Debug, PartialEq, Eq)]
pub struct Candidate {
    pub id: String,
    pub binding: ShortcutBinding,
    /// What the binding falls back to if the implementation rejects it.
    pub default_shortcut: String,
}

/// A binding that is about to be registered, in the abstract.
pub ghost struct CandidateSpec {
    pub id: Seq<char>,
    pub binding: ShortcutBinding,
    pub default_shortcut: String,
}

impl View for Candidate {
    type V = CandidateSpec;

    open spec fn view(&self) -> CandidateSpec {
        CandidateSpec {
            id: self.id@,
            binding: self.binding,
            default_shortcut: self.default_shortcut,
        }
    }
}

impl CandidateSpec {
    /// The candidate for the binding `id`: as the settings have it, else as it
    /// is by default.
    pub open spec fn for_binding(
        id: Seq<char>,
        bindings: Map<Seq<char>, ShortcutBinding>,
        defaults: Map<Seq<char>, ShortcutBinding>,
    ) -> CandidateSpec {
        CandidateSpec {
            id,
            binding: if bindings.contains_key(id) {
                bindings[id]
            } else {
                defaults[id]
            },
            default_shortcut: defaults[id].current_binding,
        }
    }

    /// What is registered: the binding, reset to its default where it is not
    /// valid.
    pub open spec fn settled(self, valid: bool) -> ShortcutBinding {
        if valid {
            self.binding
        } else {
            ShortcutBinding { current_binding: self.default_shortcut, ..self.binding }
        }
    }
}

/// A list of candidates, in the abstract.
pub open spec fn candidate_list(list: Seq<Candidate>) -> Seq<CandidateSpec> {
    list.map_values(|c: Candidate| c@)
}

/// The candidates for all bindings that have a default, less the dynamic ones
/// and, while post-processing is off, its shortcut.
pub open spec fn candidates_for(
    keys: Seq<Seq<char>>,
    bindings: Map<Seq<char>, ShortcutBinding>,
    defaults: Map<Seq<char>, ShortcutBinding>,
    post_process: bool,
) -> Seq<CandidateSpec> {
    shortcut::bulk_ids(keys, post_process).map_values(
        |id: Seq<char>| CandidateSpec::for_binding(id, bindings, defaults),
    )
}

/// The bindings to be registered with an implementation.
pub fn registration_candidates(
    settings: &AppSettings,
    defaults: &StringMap<ShortcutBinding>,
) -> (candidates: Vec<Candidate>)
    ensures
        candidate_list(candidates@) == candidates_for(
            defaults.keys(),
            settings.bindings@,
            defaults@,
            settings.post_processes(),
        ),
{
    let post_process = settings.post_process_active();
    let mut candidates: Vec<Candidate> = Vec::new();
    let mut i: usize = 0;
    let n = defaults.len();
    assert(candidate_list(candidates@) =~= candidates_for(
        defaults.keys().take(0),
        settings.bindings@,
        defaults@,
        post_process,
    ));
    while i < n
        invariant
            n == defaults.keys().len(),
            i <= n,
            candidate_list(candidates@) == candidates_for(
                defaults.keys().take(i as int),
                settings.bindings@,
                defaults@,
                post_process,
            ),
        decreases n - i,
    {
        let ghost next = defaults.keys().take(i as int + 1);
        let ghost before = candidate_list(candidates@);
        assert(next.drop_last() =~= defaults.keys().take(i as int));
        let id = defaults.key_at(i);
        let default_binding = defaults.value_at(i);
        if is_in_bulk(id.as_str(), post_process) {
            let binding = match settings.bindings.get(id.as_str()) {
                Some(binding) => binding.clone(),
                None => default_binding.clone(),
            };
            candidates.push(
                Candidate {
                    id: id.clone(),
                    binding,
                    default_shortcut: default_binding.current_binding.clone(),
                },
            );
            assert(candidate_list(candidates@) =~= before.push(candidates@.last()@));
            assert(candidate_list(candidates@) =~= candidates_for(
                next,
                settings.bindings@,
                defaults@,
                post_process,
            ));
        }
        i = i + 1;
    }
    assert(defaults.keys().take(i as int) =~= defaults.keys());
    candidates
}

/// A candidate, and whether its shortcut is valid.
pub ghost struct JudgedSpec {
    pub candidate: CandidateSpec,
    pub valid: bool,
}

/// A list of candidates and verdicts, in the abstract.
pub open spec fn judged_list(list: Seq<(Candidate, bool)>) -> Seq<JudgedSpec> {
    list.map_values(|j: (Candidate, bool)| JudgedSpec { candidate: j.0@, valid: j.1 })
}

/// The bindings that are reset: those whose shortcut is not valid.
pub open spec fn resets(judged: Seq<JudgedSpec>) -> Seq<Seq<char>>
    decreases judged.len(),
{
    if judged.len() == 0 {
        Seq::empty()
    } else {
        let before = resets(judged.drop_last());
        if judged.last().valid {
            before
        } else {
            before.push(judged.last().candidate.id)
        }
    }
}

/// The bindings in the settings, with the invalid ones reset.
pub open spec fn with_resets(
    bindings: Map<Seq<char>, ShortcutBinding>,
    judged: Seq<JudgedSpec>,
) -> Map<Seq<char>, ShortcutBinding>
    decreases judged.len(),
{
    if judged.len() == 0 {
        bindings
    } else {
        let before = with_resets(bindings, judged.drop_last());
        let last = judged.last();
        if last.valid {
            before
        } else {
            before.insert(last.candidate.id, last.candidate.settled(false))
        }
    }
}

/// The calls that register the candidates.
pub open spec fn settled_registrations(
    judged: Seq<JudgedSpec>,
    implementation: KeyboardImplementation,
) -> Seq<effect::EffectSpec> {
    judged.map_values(
        |j: JudgedSpec|
            effect::EffectSpec::Register {
                implementation,
                binding: j.candidate.settled(j.valid),
            },
    )
}

/// Register all shortcuts for a specific implementation, resetting invalid ones.
/// The settings are saved if any bindings were reset, whose ids are returned.
pub fn register_all_shortcuts_for_implementation(
    bindings: &mut StringMap<ShortcutBinding>,
    implementation: KeyboardImplementation,
    judged: Vec<(Candidate, bool)>,
) -> (res: (Vec<String>, Vec<Effect>))
    ensures
        text::texts(res.0@) == resets(judged_list(judged@)),
        final(bindings)@ == with_resets(old(bindings)@, judged_list(judged@)),
        effect::effects(res.1@) == settled_registrations(judged_list(judged@), implementation) + (
        if resets(judged_list(judged@)).len() > 0 {
            seq![effect::EffectSpec::SaveSettings]
        } else {
            Seq::empty()
        }),
{
    let mut reset_bindings: Vec<String> = Vec::new();
    let mut calls: Vec<Effect> = Vec::new();
    let ghost all = judged_list(judged@);
    let ghost start = bindings@;
    let mut i: usize = 0;
    assert(text::texts(reset_bindings@) =~= resets(all.take(0)));
    assert(effect::effects(calls@) =~= settled_registrations(all.take(0), implementation));
    while i < judged.len()
        invariant
            i <= judged.len(),
            all == judged_list(judged@),
            text::texts(reset_bindings@) == resets(all.take(i as int)),
            bindings@ == with_resets(start, all.take(i as int)),
            effect::effects(calls@) == settled_registrations(all.take(i as int), implementation),
        decreases judged.len() - i,
    {
        let ghost next = all.take(i as int + 1);
        let ghost calls_before = effect::effects(calls@);
        let ghost resets_before = text::texts(reset_bindings@);
        assert(next.drop_last() =~= all.take(i as int));
        let candidate = &judged[i].0;
        let mut binding = candidate.binding.clone();
        if !judged[i].1 {
            binding.current_binding = candidate.default_shortcut.clone();
            bindings.insert(candidate.id.clone(), binding.clone());
            reset_bindings.push(candidate.id.clone());
            assert(text::texts(reset_bindings@) =~= resets_before.push(candidate.id@));
        }
        calls.push(register_shortcut_with(implementation, binding));
        assert(effect::effects(calls@) =~= calls_before.push(calls@.last()@));
        assert(effect::effects(calls@) =~= settled_registrations(next, implementation));
        i = i + 1;
    }
    assert(all.take(i as int) =~= all);
    let ghost registered = effect::effects(calls@);
    if reset_bindings.len() > 0 {
        calls.push(Effect::SaveSettings);
    }
    assert(text::texts(reset_bindings@).len() == reset_bindings@.len());
    assert(effect::effects(calls@) =~= registered + (if resets(all).len() > 0 {
        seq![effect::EffectSpec::SaveSettings]
    } else {
        Seq::empty()
    }));
    (reset_bindings, calls)
}

// ---------------------------------------------------------------------------
// Switching
// ---------------------------------------------------------------------------

/// Result of changing keyboard implementation.
#[derive(Debug, PartialEq, Eq)]
pub struct ImplementationChangeResult {
    pub success: bool,
    /// List of binding IDs that were reset to defaults due to incompatibility.
    pub reset_bindings: Vec<String>,
}

/// Result of changing keyboard implementation, in the abstract.
pub ghost struct SwitchResultSpec {
    pub success: bool,
    pub reset_bindings: Seq<Seq<char>>,
}

impl View for ImplementationChangeResult {
    type V = SwitchResultSpec;

    open spec fn view(&self) -> SwitchResultSpec {
        SwitchResultSpec {
            success: self.success,
            reset_bindings: text::texts(self.reset_bindings@),
        }
    }
}

impl SwitchResultSpec {
    /// The switch went through without a reset.
    pub open spec fn plain() -> SwitchResultSpec {
        SwitchResultSpec { success: true, reset_bindings: Seq::empty() }
    }
}

impl ImplementationChangeResult {
    fn plain() -> (res: ImplementationChangeResult)
        ensures
            res@ == SwitchResultSpec::plain(),
    {
        let res = ImplementationChangeResult { success: true, reset_bindings: Vec::new() };
        assert(res@.reset_bindings =~= Seq::<Seq<char>>::empty());
        res
    }
}

/// What a switch needs next.
#[derive(Debug, PartialEq, Eq)]
pub enum SwitchStep {
    /// Find out whether handy-keys is set up already, for
    /// [`handy_keys_checked`].
    CheckHandyKeys,
    /// Set handy-keys up, for [`handy_keys_initialized`].
    InitHandyKeys,
    /// Have the implementation judge the shortcut of every candidate, for
    /// [`shortcuts_validated`].
    Validate { implementation: KeyboardImplementation, candidates: Vec<Candidate> },
    /// The switch has its result.
    Answer(ImplementationChangeResult),
}

/// What a switch needs next, in the abstract.
pub ghost enum StepSpec {
    CheckHandyKeys,
    InitHandyKeys,
    Validate { implementation: KeyboardImplementation, candidates: Seq<CandidateSpec> },
    Answer(SwitchResultSpec),
}

impl View for SwitchStep {
    type V = StepSpec;

    open spec fn view(&self) -> StepSpec {
        match self {
            SwitchStep::CheckHandyKeys => StepSpec::CheckHandyKeys,
            SwitchStep::InitHandyKeys => StepSpec::InitHandyKeys,
            SwitchStep::Validate { implementation, candidates } => StepSpec::Validate {
                implementation: *implementation,
                candidates: candidate_list(candidates@),
            },
            SwitchStep::Answer(result) => StepSpec::Answer(result@),
        }
    }
}

/// The bindings that an implementation is to judge.
pub open spec fn validation(
    settings: AppSettings,
    defaults: StringMap<ShortcutBinding>,
    implementation: KeyboardImplementation,
) -> StepSpec {
    StepSpec::Validate {
        implementation,
        candidates: candidates_for(
            defaults.keys(),
            settings.bindings@,
            defaults@,
            settings.post_processes(),
        ),
    }
}

/// What a switch to `new` begins with: the shortcuts of the old implementation
/// are unregistered and the choice is saved. Fallback registrations use Tauri, so
/// they are removed before its full set is registered, to avoid duplicate
/// conflicts.
pub open spec fn departure(
    settings: AppSettings,
    new: KeyboardImplementation,
) -> Seq<effect::EffectSpec> {
    shortcut::unregistrations(
        shortcut::bulk_ids(settings.bindings.keys(), true),
        settings.bindings@,
        settings.keyboard_implementation,
    ) + (match new {
        KeyboardImplementation::Tauri => seq![
            effect::EffectSpec::SaveSettings,
            effect::EffectSpec::ReconcileFallback,
        ],
        KeyboardImplementation::HandyKeys => seq![effect::EffectSpec::SaveSettings],
    })
}

/// What a switch to `new` begins with.
fn departure_calls(settings: &AppSettings, new: KeyboardImplementation) -> (calls: Vec<Effect>)
    ensures
        effect::effects(calls@) == departure(*settings, new),
{
    let mut calls = unregister_all_shortcuts(&settings.bindings, settings.keyboard_implementation);
    let ghost unregistered = effect::effects(calls@);
    calls.push(Effect::SaveSettings);
    if new == KeyboardImplementation::Tauri {
        calls.push(Effect::ReconcileFallback);
        assert(effect::effects(calls@) =~= unregistered + seq![
            effect::EffectSpec::SaveSettings,
            effect::EffectSpec::ReconcileFallback,
        ]);
    } else {
        assert(effect::effects(calls@) =~= unregistered + seq![effect::EffectSpec::SaveSettings]);
    }
    calls
}

/// The first step of a switch to `new`, which the settings name by now:
/// handy-keys may have to be set up first.
pub open spec fn arrival(
    settings: AppSettings,
    defaults: StringMap<ShortcutBinding>,
    new: KeyboardImplementation,
) -> StepSpec {
    match new {
        KeyboardImplementation::Tauri => validation(settings, defaults, new),
        KeyboardImplementation::HandyKeys => StepSpec::CheckHandyKeys,
    }
}

/// Change the keyboard implementation with runtime switching.
/// This will unregister all shortcuts from the old implementation,
/// validate shortcuts for the new implementation (resetting invalid ones to
/// defaults), and register them with the new implementation.
///
/// If the implementation is the same, there is nothing to do.
pub fn change_keyboard_implementation_setting(
    settings: &mut AppSettings,
    defaults: &StringMap<ShortcutBinding>,
    implementation: &str,
) -> (res: (SwitchStep, Vec<Effect>))
    ensures
        old(settings).keyboard_implementation == named(implementation@) ==> {
            &&& *final(settings) == *old(settings)
            &&& res.0@ == StepSpec::Answer(SwitchResultSpec::plain())
            &&& effect::effects(res.1@) == Seq::<effect::EffectSpec>::empty()
        },
        old(settings).keyboard_implementation != named(implementation@) ==> {
            &&& *final(settings) == (AppSettings {
                keyboard_implementation: named(implementation@),
                ..*old(settings)
            })
            &&& res.0@ == arrival(*final(settings), *defaults, named(implementation@))
            &&& effect::effects(res.1@) == departure(*old(settings), named(implementation@))
        },
{
    let new = parse_keyboard_implementation(implementation);
    if settings.keyboard_implementation == new {
        let calls: Vec<Effect> = Vec::new();
        assert(effect::effects(calls@) =~= Seq::<effect::EffectSpec>::empty());
        return (SwitchStep::Answer(ImplementationChangeResult::plain()), calls);
    }
    let calls = departure_calls(settings, new);
    settings.keyboard_implementation = new;
    let step = match new {
        KeyboardImplementation::Tauri => SwitchStep::Validate {
            implementation: new,
            candidates: registration_candidates(settings, defaults),
        },
        KeyboardImplementation::HandyKeys => SwitchStep::CheckHandyKeys,
    };
    (step, calls)
}

/// Goes on with a switch to handy-keys: where it is set up already its shortcuts
/// are validated, else it is set up, which registers them.
pub fn handy_keys_checked(
    settings: &AppSettings,
    defaults: &StringMap<ShortcutBinding>,
    ready: bool,
) -> (step: SwitchStep)
    ensures
        step@ == (if ready {
            validation(*settings, *defaults, KeyboardImplementation::HandyKeys)
        } else {
            StepSpec::InitHandyKeys
        }),
{
    if ready {
        SwitchStep::Validate {
            implementation: KeyboardImplementation::HandyKeys,
            candidates: registration_candidates(settings, defaults),
        }
    } else {
        SwitchStep::InitHandyKeys
    }
}

/// Keeps handy-keys if setting it up went well, else rolls back to Tauri.
pub fn initialize_handy_keys_with_rollback(
    settings: &mut AppSettings,
    outcome: Result<(), String>,
) -> (res: (Result<bool, String>, Vec<Effect>))
    ensures
        outcome is Ok ==> {
            &&& *final(settings) == *old(settings)
            &&& res.0 == Ok::<bool, String>(true)
            &&& effect::effects(res.1@) == Seq::<effect::EffectSpec>::empty()
        },
        outcome matches Err(e) ==> {
            &&& *final(settings) == fallen_back(*old(settings))
            &&& res.0 matches Err(message) && message@ == "Failed to initialize HandyKeys: "@ + e@
                + ". Reverted to Tauri."@
            &&& effect::effects(res.1@) == seq![
                effect::EffectSpec::SaveSettings,
                effect::EffectSpec::ReconcileFallback,
                effect::EffectSpec::InitShortcuts(KeyboardImplementation::Tauri),
            ]
        },
{
    match outcome {
        Ok(_) => {
            let calls: Vec<Effect> = Vec::new();
            assert(effect::effects(calls@) =~= Seq::<effect::EffectSpec>::empty());
            (Ok(true), calls)
        },
        Err(e) => {
            settings.keyboard_implementation = KeyboardImplementation::Tauri;
            let calls = vec![
                Effect::SaveSettings,
                Effect::ReconcileFallback,
                Effect::InitShortcuts(KeyboardImplementation::Tauri),
            ];
            assert(effect::effects(calls@) =~= seq![
                effect::EffectSpec::SaveSettings,
                effect::EffectSpec::ReconcileFallback,
                effect::EffectSpec::InitShortcuts(KeyboardImplementation::Tauri),
            ]);
            let message = concat3(
                "Failed to initialize HandyKeys: ",
                e.as_str(),
                ". Reverted to Tauri.",
            );
            (Err(message), calls)
        },
    }
}

/// Ends a switch to handy-keys that had to set it up. Its shortcuts were
/// registered in doing so.
pub fn handy_keys_initialized(
    settings: &mut AppSettings,
    outcome: Result<(), String>,
) -> (res: (Result<ImplementationChangeResult, String>, Vec<Effect>))
    ensures
        outcome is Ok ==> {
            &&& *final(settings) == *old(settings)
            &&& res.0 matches Ok(result) && result@ == SwitchResultSpec::plain()
            &&& effect::effects(res.1@) == seq![effect::EffectSpec::ReconcileFallback]
        },
        outcome matches Err(e) ==> {
            &&& *final(settings) == fallen_back(*old(settings))
            &&& res.0 matches Err(message) && message@ == "Failed to initialize HandyKeys: "@ + e@
                + ". Reverted to Tauri."@
            &&& effect::effects(res.1@) == seq![
                effect::EffectSpec::SaveSettings,
                effect::EffectSpec::ReconcileFallback,
                effect::EffectSpec::InitShortcuts(KeyboardImplementation::Tauri),
            ]
        },
{
    let (initialized, mut calls) = initialize_handy_keys_with_rollback(settings, outcome);
    match initialized {
        Ok(_) => {
            assert(calls@.len() == effect::effects(calls@).len());
            calls.push(Effect::ReconcileFallback);
            assert(effect::effects(calls@) =~= seq![effect::EffectSpec::ReconcileFallback]);
            (Ok(ImplementationChangeResult::plain()), calls)
        },
        Err(message) => (Err(message), calls),
    }
}

/// A copy of a list of strings.
fn copy_of(list: &Vec<String>) -> (copy: Vec<String>)
    ensures
        text::texts(copy@) == text::texts(list@),
{
    let mut copy: Vec<String> = Vec::new();
    let mut i: usize = 0;
    while i < list.len()
        invariant
            i <= list.len(),
            text::texts(copy@) == text::texts(list@).take(i as int),
        decreases list.len() - i,
    {
        let ghost before = text::texts(copy@);
        copy.push(list[i].clone());
        assert(text::texts(copy@) =~= before.push(list@[i as int]@));
        assert(text::texts(list@).take(i as int + 1) =~= before.push(list@[i as int]@));
        i = i + 1;
    }
    assert(text::texts(list@).take(i as int) =~= text::texts(list@));
    copy
}

/// Ends a switch to the implementation named `name` whose candidates have been
/// judged: registers them, resetting the invalid ones, and tells the frontend.
pub fn shortcuts_validated(
    bindings: &mut StringMap<ShortcutBinding>,
    implementation: KeyboardImplementation,
    name: &str,
    judged: Vec<(Candidate, bool)>,
) -> (res: (ImplementationChangeResult, Vec<Effect>))
    ensures
        res.0@ == (SwitchResultSpec {
            success: true,
            reset_bindings: resets(judged_list(judged@)),
        }),
        final(bindings)@ == with_resets(old(bindings)@, judged_list(judged@)),
        effect::effects(res.1@) == settled_registrations(judged_list(judged@), implementation) + (
        if resets(judged_list(judged@)).len() > 0 {
            seq![effect::EffectSpec::SaveSettings]
        } else {
            Seq::empty()
        }) + seq![
            effect::EffectSpec::ReconcileFallback,
            effect::EffectSpec::EmitImplementationChanged {
                name: name@,
                reset_bindings: resets(judged_list(judged@)),
            },
        ],
{
    let (reset_bindings, mut calls) = register_all_shortcuts_for_implementation(
        bindings,
        implementation,
        judged,
    );
    let ghost registered = effect::effects(calls@);
    calls.push(Effect::ReconcileFallback);
    calls.push(
        Effect::EmitImplementationChanged {
            name: name.to_owned(),
            reset_bindings: copy_of(&reset_bindings),
        },
    );
    assert(effect::effects(calls@) =~= registered + seq![
        effect::EffectSpec::ReconcileFallback,
        calls@.last()@,
    ]);
    (ImplementationChangeResult { success: true, reset_bindings }, calls)
}

// ---------------------------------------------------------------------------
// What holds of a switch
// ---------------------------------------------------------------------------

/// No binding has two candidates.
pub proof fn candidates_are_distinct(
    keys: Seq<Seq<char>>,
    bindings: Map<Seq<char>, ShortcutBinding>,
    defaults: Map<Seq<char>, ShortcutBinding>,
    post_process: bool,
    a: int,
    b: int,
)
    requires
        keys.no_duplicates(),
        0 <= a < b < candidates_for(keys, bindings, defaults, post_process).len(),
    ensures
        candidates_for(keys, bindings, defaults, post_process)[a].id != candidates_for(
            keys,
            bindings,
            defaults,
            post_process,
        )[b].id,
{
    let ids = shortcut::bulk_ids(keys, post_process);
    shortcut::bulk_leaves_out_the_dynamic_bindings(keys, post_process, ids[a]);
}

/// A switch registers exactly the bindings that have a default, less the dynamic
/// ones and, while post-processing is off, its shortcut.
pub proof fn every_binding_with_a_default_is_a_candidate(
    keys: Seq<Seq<char>>,
    bindings: Map<Seq<char>, ShortcutBinding>,
    defaults: Map<Seq<char>, ShortcutBinding>,
    post_process: bool,
    id: Seq<char>,
)
    ensures
        (exists|i: int|
            0 <= i < candidates_for(keys, bindings, defaults, post_process).len()
                && #[trigger] candidates_for(keys, bindings, defaults, post_process)[i]
                == CandidateSpec::for_binding(id, bindings, defaults)) <==> keys.contains(id)
            && shortcut::in_bulk(id, post_process),
{
    let ids = shortcut::bulk_ids(keys, post_process);
    let candidates = candidates_for(keys, bindings, defaults, post_process);
    shortcut::bulk_leaves_out_the_dynamic_bindings(keys, post_process, id);
    if ids.contains(id) {
        let i = choose|i: int| 0 <= i < ids.len() && ids[i] == id;
        assert(candidates[i] == CandidateSpec::for_binding(id, bindings, defaults));
    }
    if exists|i: int|
        0 <= i < candidates.len() && #[trigger] candidates[i] == CandidateSpec::for_binding(
            id,
            bindings,
            defaults,
        ) {
        let i = choose|i: int|
            0 <= i < candidates.len() && #[trigger] candidates[i] == CandidateSpec::for_binding(
                id,
                bindings,
                defaults,
            );
        assert(candidates[i].id == ids[i]);
        assert(ids.contains(ids[i]));
    }
}

/// A binding is reset exactly if a candidate for it was found invalid.
pub proof fn what_is_invalid_is_reset(judged: Seq<JudgedSpec>, id: Seq<char>)
    ensures
        resets(judged).contains(id) <==> exists|i: int|
            0 <= i < judged.len() && !(#[trigger] judged[i]).valid && judged[i].candidate.id == id,
    decreases judged.len(),
{
    let all = resets(judged);
    if judged.len() > 0 {
        let rest = judged.drop_last();
        let before = resets(rest);
        what_is_invalid_is_reset(rest, id);
        assert(judged[judged.len() - 1] == judged.last());
        if all.contains(id) {
            let k = choose|k: int| 0 <= k < all.len() && all[k] == id;
            if k < before.len() {
                assert(before[k] == id);
                let i = choose|i: int|
                    0 <= i < rest.len() && !(#[trigger] rest[i]).valid && rest[i].candidate.id
                        == id;
                assert(judged[i] == rest[i]);
            }
        }
        if exists|i: int|
            0 <= i < judged.len() && !(#[trigger] judged[i]).valid && judged[i].candidate.id
                == id {
            let i = choose|i: int|
                0 <= i < judged.len() && !(#[trigger] judged[i]).valid && judged[i].candidate.id
                    == id;
            if i < rest.len() {
                assert(rest[i] == judged[i]);
                let k = choose|k: int| 0 <= k < before.len() && before[k] == id;
                assert(all[k] == id);
            } else {
                assert(all[before.len() as int] == id);
            }
        }
    }
}

/// A switch changes no binding but those it resets.
pub proof fn what_is_not_reset_stays(
    bindings: Map<Seq<char>, ShortcutBinding>,
    judged: Seq<JudgedSpec>,
    id: Seq<char>,
)
    requires
        !resets(judged).contains(id),
    ensures
        with_resets(bindings, judged).contains_key(id) == bindings.contains_key(id),
        with_resets(bindings, judged)[id] == bindings[id],
    decreases judged.len(),
{
    if judged.len() > 0 {
        let rest = judged.drop_last();
        let before = resets(rest);
        let all = resets(judged);
        if before.contains(id) {
            let k = choose|k: int| 0 <= k < before.len() && before[k] == id;
            assert(all[k] == id);
        }
        if !judged.last().valid {
            assert(all[before.len() as int] == judged.last().candidate.id);
        }
        what_is_not_reset_stays(bindings, rest, id);
    }
}

/// What a switch resets, it sets to its default, and that is what it registers.
pub proof fn what_is_reset_gets_its_default(
    bindings: Map<Seq<char>, ShortcutBinding>,
    judged: Seq<JudgedSpec>,
    i: int,
    implementation: KeyboardImplementation,
)
    requires
        0 <= i < judged.len(),
        !judged[i].valid,
        forall|a: int, b: int|
            0 <= a < b < judged.len() ==> (#[trigger] judged[a]).candidate.id != (
            #[trigger] judged[b]).candidate.id,
    ensures
        ({
            let candidate = judged[i].candidate;
            let now = with_resets(bindings, judged);
            &&& now.contains_key(candidate.id)
            &&& now[candidate.id].current_binding == candidate.default_shortcut
            &&& now[candidate.id] == candidate.settled(false)
            &&& settled_registrations(judged, implementation)[i] == (effect::EffectSpec::Register {
                implementation,
                binding: now[candidate.id],
            })
        }),
    decreases judged.len(),
{
    let rest = judged.drop_last();
    assert(judged.last() == judged[judged.len() - 1]);
    if i < rest.len() {
        assert(rest[i] == judged[i]);
        assert forall|a: int, b: int| 0 <= a < b < rest.len() implies (
        #[trigger] rest[a]).candidate.id != (#[trigger] rest[b]).candidate.id by {
            assert(rest[a] == judged[a] && rest[b] == judged[b]);
        }
        what_is_reset_gets_its_default(bindings, rest, i, implementation);
    }
}

/// A binding whose shortcut is valid is registered exactly as it is, and one whose
/// shortcut is not is registered with its default in place of the shortcut. Each
/// candidate is registered once, in order, and with the implementation given.
pub proof fn a_valid_binding_is_registered_as_it_is(
    judged: Seq<JudgedSpec>,
    implementation: KeyboardImplementation,
    i: int,
)
    requires
        0 <= i < judged.len(),
    ensures
        settled_registrations(judged, implementation).len() == judged.len(),
        match settled_registrations(judged, implementation)[i] {
            effect::EffectSpec::Register { implementation: with, binding } => {
                let candidate = judged[i].candidate;
                &&& with == implementation
                &&& judged[i].valid ==> binding == candidate.binding
                &&& !judged[i].valid ==> binding.current_binding == candidate.default_shortcut
                &&& binding.id == candidate.binding.id
                &&& binding.default_binding == candidate.binding.default_binding
            },
            _ => false,
        },
{
}

/// The candidates are the bindings that are handled in bulk, in order: each as the
/// settings hold it, else as it is by default, and with the shortcut that it has by
/// default to fall back to.
pub proof fn candidates_are_taken_from_the_settings(
    keys: Seq<Seq<char>>,
    bindings: Map<Seq<char>, ShortcutBinding>,
    defaults: Map<Seq<char>, ShortcutBinding>,
    post_process: bool,
)
    ensures
        ({
            let ids = shortcut::bulk_ids(keys, post_process);
            let candidates = candidates_for(keys, bindings, defaults, post_process);
            &&& candidates.len() == ids.len()
            &&& forall|i: int|
                0 <= i < ids.len() ==> {
                    let candidate = #[trigger] candidates[i];
                    &&& candidate.id == ids[i]
                    &&& bindings.contains_key(ids[i]) ==> candidate.binding == bindings[ids[i]]
                    &&& !bindings.contains_key(ids[i]) ==> candidate.binding == defaults[ids[i]]
                    &&& candidate.default_shortcut == defaults[ids[i]].current_binding
                }
        }),
{
}

/// The verdicts on the candidates for a switch.
pub open spec fn is_judged(
    judged: Seq<JudgedSpec>,
    keys: Seq<Seq<char>>,
    bindings: Map<Seq<char>, ShortcutBinding>,
    defaults: Map<Seq<char>, ShortcutBinding>,
    post_process: bool,
) -> bool {
    let candidates = candidates_for(keys, bindings, defaults, post_process);
    &&& judged.len() == candidates.len()
    &&& forall|i: int| 0 <= i < judged.len() ==> (#[trigger] judged[i]).candidate == candidates[i]
}

/// A switch registers the binding that the settings hold, unchanged, wherever the
/// implementation accepts it. Where it does not, the default shortcut takes its
/// place, and the settings hold that. So after a switch every registered binding is
/// the one that the settings name, but for a valid default that they never held.
pub proof fn what_is_registered_is_what_the_settings_name(
    keys: Seq<Seq<char>>,
    bindings: Map<Seq<char>, ShortcutBinding>,
    defaults: Map<Seq<char>, ShortcutBinding>,
    post_process: bool,
    judged: Seq<JudgedSpec>,
    implementation: KeyboardImplementation,
    i: int,
)
    requires
        keys.no_duplicates(),
        is_judged(judged, keys, bindings, defaults, post_process),
        0 <= i < judged.len(),
    ensures
        ({
            let id = shortcut::bulk_ids(keys, post_process)[i];
            let now = with_resets(bindings, judged);
            match settled_registrations(judged, implementation)[i] {
                effect::EffectSpec::Register { implementation: with, binding } => {
                    &&& with == implementation
                    &&& now.contains_key(id) ==> binding == now[id]
                    &&& !now.contains_key(id) ==> binding == defaults[id]
                    &&& now.contains_key(id) <==> bindings.contains_key(id) || !judged[i].valid
                    &&& judged[i].valid && bindings.contains_key(id) ==> binding == bindings[id]
                    &&& !judged[i].valid ==> binding.current_binding
                        == defaults[id].current_binding
                    &&& !judged[i].valid && bindings.contains_key(id) ==> binding.id
                        == bindings[id].id && binding.default_binding
                        == bindings[id].default_binding
                    &&& !judged[i].valid && !bindings.contains_key(id) ==> binding == defaults[id]
                },
                _ => false,
            }
        }),
{
    let ids = shortcut::bulk_ids(keys, post_process);
    let id = ids[i];
    let candidates = candidates_for(keys, bindings, defaults, post_process);
    assert(judged[i].candidate == candidates[i]);
    assert forall|a: int, b: int| 0 <= a < b < judged.len() implies (
    #[trigger] judged[a]).candidate.id != (#[trigger] judged[b]).candidate.id by {
        assert(judged[a].candidate == candidates[a] && judged[b].candidate == candidates[b]);
        candidates_are_distinct(keys, bindings, defaults, post_process, a, b);
    }
    if judged[i].valid {
        what_is_invalid_is_reset(judged, id);
        assert(!resets(judged).contains(id)) by {
            if resets(judged).contains(id) {
                let k = choose|k: int|
                    0 <= k < judged.len() && !(#[trigger] judged[k]).valid
                        && judged[k].candidate.id == id;
                if k < i {
                    assert(judged[k].candidate.id != judged[i].candidate.id);
                } else if i < k {
                    assert(judged[i].candidate.id != judged[k].candidate.id);
                }
            }
        }
        what_is_not_reset_stays(bindings, judged, id);
    } else {
        what_is_reset_gets_its_default(bindings, judged, i, implementation);
    }
}

/// Resets are made and listed in the order of the candidates: a further invalid one
/// comes last, and a valid one changes nothing.
pub proof fn resets_follow_the_candidates(
    bindings: Map<Seq<char>, ShortcutBinding>,
    judged: Seq<JudgedSpec>,
    next: JudgedSpec,
)
    ensures
        resets(Seq::empty()).len() == 0,
        with_resets(bindings, Seq::empty()) == bindings,
        next.valid ==> resets(judged.push(next)) == resets(judged) && with_resets(
            bindings,
            judged.push(next),
        ) == with_resets(bindings, judged),
        !next.valid ==> resets(judged.push(next)) == resets(judged).push(next.candidate.id),
        !next.valid ==> with_resets(bindings, judged.push(next)).contains_key(next.candidate.id),
        !next.valid ==> with_resets(
            bindings,
            judged.push(next),
        )[next.candidate.id].current_binding == next.candidate.default_shortcut,
{
    assert(judged.push(next).drop_last() =~= judged);
}

/// The two implementations go by these names, and any other name stands for Tauri.
pub proof fn implementations_go_by_their_names(name: Seq<char>)
    ensures
        name_of(KeyboardImplementation::Tauri) == "tauri"@,
        name_of(KeyboardImplementation::HandyKeys) == "handy_keys"@,
        named(name) == KeyboardImplementation::HandyKeys <==> name == "handy_keys"@,
        named(name) == KeyboardImplementation::Tauri <==> name != "handy_keys"@,
{
}

/// Startup sets up the implementation that the settings name, and a fallback changes
/// nothing in them but that name, to Tauri.
pub proof fn a_fallback_changes_the_implementation_only(settings: AppSettings)
    ensures
        startup(settings) == effect::EffectSpec::InitShortcuts(settings.keyboard_implementation),
        fallen_back(settings).keyboard_implementation == KeyboardImplementation::Tauri,
        settings == (AppSettings {
            keyboard_implementation: settings.keyboard_implementation,
            ..fallen_back(settings)
        }),
{
}

/// A switch first unregisters every binding in the settings that is handled in bulk,
/// the post-processing shortcut with them, from the old implementation. Then the
/// settings are saved and, for Tauri alone, the fallback registrations are removed.
pub proof fn a_switch_leaves_nothing_with_the_old_implementation(
    settings: AppSettings,
    new: KeyboardImplementation,
)
    ensures
        ({
            let ids = shortcut::bulk_ids(settings.bindings.keys(), true);
            let calls = departure(settings, new);
            &&& calls.len() == ids.len() + (if new == KeyboardImplementation::Tauri {
                2int
            } else {
                1int
            })
            &&& forall|i: int|
                0 <= i < ids.len() ==> #[trigger] calls[i] == (effect::EffectSpec::Unregister {
                    implementation: settings.keyboard_implementation,
                    binding: settings.bindings@[ids[i]],
                })
            &&& calls[ids.len() as int] == effect::EffectSpec::SaveSettings
            &&& new == KeyboardImplementation::Tauri ==> calls[ids.len() as int + 1]
                == effect::EffectSpec::ReconcileFallback
        }),
{
}

/// A switch to Tauri goes on with judging the candidates, one to handy-keys with
/// finding out whether that is set up.
pub proof fn a_switch_goes_on_with_its_candidates(
    settings: AppSettings,
    defaults: StringMap<ShortcutBinding>,
    implementation: KeyboardImplementation,
)
    ensures
        arrival(settings, defaults, KeyboardImplementation::HandyKeys) is CheckHandyKeys,
        arrival(settings, defaults, KeyboardImplementation::Tauri) == (StepSpec::Validate {
            implementation: KeyboardImplementation::Tauri,
            candidates: candidates_for(
                defaults.keys(),
                settings.bindings@,
                defaults@,
                settings.post_processes(),
            ),
        }),
        validation(settings, defaults, implementation) == (StepSpec::Validate {
            implementation,
            candidates: candidates_for(
                defaults.keys(),
                settings.bindings@,
                defaults@,
                settings.post_processes(),
            ),
        }),
        SwitchResultSpec::plain().success,
        SwitchResultSpec::plain().reset_bindings.len() == 0,
{
}

/// Candidates, verdicts, steps and results stand for what they hold.
pub proof fn a_step_means_its_fields(
    candidate: Candidate,
    list: Vec<Candidate>,
    judged: Seq<(Candidate, bool)>,
    implementation: KeyboardImplementation,
    success: bool,
    names: Vec<String>,
)
    ensures
        candidate@.id == candidate.id@,
        candidate@.binding == candidate.binding,
        candidate@.default_shortcut == candidate.default_shortcut,
        candidate_list(list@).len() == list@.len(),
        forall|i: int| 0 <= i < list@.len() ==> #[trigger] candidate_list(list@)[i] == list@[i]@,
        judged_list(judged).len() == judged.len(),
        forall|i: int|
            0 <= i < judged.len() ==> (#[trigger] judged_list(judged)[i]).candidate == judged[i].0@
                && judged_list(judged)[i].valid == judged[i].1,
        SwitchStep::CheckHandyKeys@ is CheckHandyKeys,
        SwitchStep::InitHandyKeys@ is InitHandyKeys,
        (SwitchStep::Validate { implementation, candidates: list })@ == (StepSpec::Validate {
            implementation,
            candidates: candidate_list(list@),
        }),
        SwitchStep::Answer(ImplementationChangeResult { success, reset_bindings: names })@
            == StepSpec::Answer(
            SwitchResultSpec { success, reset_bindings: text::texts(names@) },
        ),
{
}

} // verus!
