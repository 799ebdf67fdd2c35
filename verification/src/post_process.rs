//! Commands on post-processing: its providers, its prompts and its shortcut.
use vstd::prelude::*;

use crate::commands;
use crate::commands::saved;
use crate::effect;
use crate::effect::Effect;
use crate::hotkey;
use crate::outside::timestamp_millis;
use crate::settings;
use crate::settings::{AppSettings, LLMPrompt, PostProcessProvider, PostProcessSettings};
use crate::shortcut::{register_shortcut, unregister_shortcut};
use crate::stage::TRANSCRIBE_WITH_POST_PROCESS;
use crate::text;
use crate::text::{concat3, decimal_i128, is_blank, same_text};

verus! {

// ---------------------------------------------------------------------------
// The switch and its shortcut
// ---------------------------------------------------------------------------

/// The calls that bring the post-processing shortcut in line with whether the
/// feature is active.
pub open spec fn reconciled(settings: AppSettings) -> Seq<effect::EffectSpec> {
    let id = TRANSCRIBE_WITH_POST_PROCESS@;
    let implementation = settings.keyboard_implementation;
    if settings.bindings@.contains_key(id) {
        let binding = settings.bindings@[id];
        if settings.post_processes() {
            seq![
                effect::EffectSpec::Register { implementation, binding },
                effect::EffectSpec::ReconcileFallback,
            ]
        } else {
            seq![
                effect::EffectSpec::Unregister { implementation, binding },
                effect::EffectSpec::ReconcileFallback,
            ]
        }
    } else {
        seq![effect::EffectSpec::ReconcileFallback]
    }
}

/// The settings are saved, and the post-processing shortcut is registered or
/// unregistered to match whether the feature is currently active (its own toggle
/// AND the experimental gate).
fn reconcile_post_process_shortcut(settings: &AppSettings) -> (res: Result<Vec<Effect>, String>)
    ensures
        commands::does(res, seq![effect::EffectSpec::SaveSettings] + reconciled(*settings)),
{
    let mut calls: Vec<Effect> = vec![Effect::SaveSettings];
    if let Some(binding) = settings.bindings.get(TRANSCRIBE_WITH_POST_PROCESS) {
        if settings.post_process_active() {
            calls.push(register_shortcut(settings, binding.clone()));
        } else {
            calls.push(unregister_shortcut(settings, binding.clone()));
        }
    }
    calls.push(Effect::ReconcileFallback);
    assert(effect::effects(calls@) =~= seq![effect::EffectSpec::SaveSettings] + reconciled(
        *settings,
    ));
    Ok(calls)
}

pub fn change_post_process_enabled_setting(
    settings: &mut AppSettings,
    enabled: bool,
) -> (res: Result<Vec<Effect>, String>)
    ensures
        *final(settings) == (AppSettings {
            post_process: (PostProcessSettings {
                post_process_enabled: enabled,
                ..old(settings).post_process
            }),
            ..*old(settings)
        }),
        commands::does(
            res,
            seq![effect::EffectSpec::SaveSettings] + reconciled(*final(settings)),
        ),
{
    settings.post_process.post_process_enabled = enabled;
    reconcile_post_process_shortcut(settings)
}

/// The experimental gate also turns post-processing (and its shortcut) on or off
/// — it must not stay live once its section is hidden.
pub fn change_experimental_enabled_setting(
    settings: &mut AppSettings,
    enabled: bool,
) -> (res: Result<Vec<Effect>, String>)
    ensures
        *final(settings) == (AppSettings {
            post_process: (PostProcessSettings {
                experimental_enabled: enabled,
                ..old(settings).post_process
            }),
            ..*old(settings)
        }),
        commands::does(
            res,
            seq![effect::EffectSpec::SaveSettings] + reconciled(*final(settings)),
        ),
{
    settings.post_process.experimental_enabled = enabled;
    reconcile_post_process_shortcut(settings)
}

/// Whichever of the two toggles is off, the shortcut is not left registered.
pub proof fn the_shortcut_follows_both_toggles(settings: AppSettings)
    requires
        settings.bindings@.contains_key(TRANSCRIBE_WITH_POST_PROCESS@),
    ensures
        reconciled(settings)[0] is Register <==> settings.post_process.post_process_enabled
            && settings.post_process.experimental_enabled,
        reconciled(settings)[0] is Unregister <==> !settings.post_process.post_process_enabled
            || !settings.post_process.experimental_enabled,
{
}

// ---------------------------------------------------------------------------
// Providers
// ---------------------------------------------------------------------------

/// What is said of a provider that does not exist.
pub open spec fn provider_not_found(id: Seq<char>) -> Seq<char> {
    "Provider '"@ + id + "' not found"@
}

/// The command fails with `message`.
pub open spec fn fails(res: Result<Vec<Effect>, String>, message: Seq<char>) -> bool {
    res matches Err(e) && e@ == message
}

/// Checks that a provider exists.
pub fn validate_provider_exists(
    post_process: &PostProcessSettings,
    provider_id: &str,
) -> (res: Result<(), String>)
    ensures
        match res {
            Ok(_) => settings::provider_exists(
                post_process.post_process_providers@,
                provider_id@,
            ),
            Err(e) => !settings::provider_exists(
                post_process.post_process_providers@,
                provider_id@,
            ) && e@ == provider_not_found(provider_id@),
        },
{
    match post_process.post_process_provider(provider_id) {
        Some(i) => {
            assert(post_process.post_process_providers@[i as int].id@ == provider_id@);
            Ok(())
        },
        None => Err(concat3("Provider '", provider_id, "' not found")),
    }
}

/// Sets the base URL of a provider. Only the custom one allows that.
pub fn change_post_process_base_url_setting(
    post_process: &mut PostProcessSettings,
    provider_id: String,
    base_url: String,
) -> (res: Result<Vec<Effect>, String>)
    ensures
        ({
            let before = old(post_process).post_process_providers@;
            let after = final(post_process).post_process_providers@;
            &&& !settings::provider_exists(before, provider_id@) ==> {
                &&& *final(post_process) == *old(post_process)
                &&& fails(res, provider_not_found(provider_id@))
            }
            &&& forall|i: int| #[trigger]
                settings::provider_at(before, provider_id@, i) ==> if provider_id@ == "custom"@ {
                    &&& after == before.update(
                        i,
                        (PostProcessProvider { base_url, ..before[i] }),
                    )
                    &&& commands::does(res, seq![effect::EffectSpec::SaveSettings])
                } else {
                    &&& *final(post_process) == *old(post_process)
                    &&& fails(
                        res,
                        "Provider '"@ + before[i].label@
                            + "' does not allow editing the base URL"@,
                    )
                }
        }),
        *final(post_process) == (PostProcessSettings {
            post_process_providers: final(post_process).post_process_providers,
            ..*old(post_process)
        }),
{
    match post_process.post_process_provider(provider_id.as_str()) {
        None => Err(concat3("Provider '", provider_id.as_str(), "' not found")),
        Some(i) => {
            proof {
                let before = post_process.post_process_providers@;
                assert(before[i as int].id@ == provider_id@);
                assert forall|k: int| #[trigger]
                    settings::provider_at(before, provider_id@, k) implies k == i by {
                    settings::the_first_provider_is_unique(before, provider_id@, k, i as int);
                }
            }
            if same_text(provider_id.as_str(), "custom") {
                let mut provider = post_process.post_process_providers[i].clone();
                provider.base_url = base_url;
                post_process.post_process_providers.set(i, provider);
                saved()
            } else {
                Err(
                    concat3(
                        "Provider '",
                        post_process.post_process_providers[i].label.as_str(),
                        "' does not allow editing the base URL",
                    ),
                )
            }
        },
    }
}

pub fn change_post_process_api_key_setting(
    post_process: &mut PostProcessSettings,
    provider_id: String,
    api_key: String,
) -> (res: Result<Vec<Effect>, String>)
    ensures
        settings::provider_exists(old(post_process).post_process_providers@, provider_id@) ==> {
            &&& final(post_process).post_process_api_keys@ == old(
                post_process,
            ).post_process_api_keys@.insert(provider_id@, api_key)
            &&& commands::does(res, seq![effect::EffectSpec::SaveSettings])
        },
        !settings::provider_exists(old(post_process).post_process_providers@, provider_id@) ==> {
            &&& *final(post_process) == *old(post_process)
            &&& fails(res, provider_not_found(provider_id@))
        },
        *final(post_process) == (PostProcessSettings {
            post_process_api_keys: final(post_process).post_process_api_keys,
            ..*old(post_process)
        }),
{
    match validate_provider_exists(post_process, provider_id.as_str()) {
        Err(e) => Err(e),
        Ok(_) => {
            post_process.post_process_api_keys.insert(provider_id, api_key);
            saved()
        },
    }
}

pub fn change_post_process_model_setting(
    post_process: &mut PostProcessSettings,
    provider_id: String,
    model: String,
) -> (res: Result<Vec<Effect>, String>)
    ensures
        settings::provider_exists(old(post_process).post_process_providers@, provider_id@) ==> {
            &&& final(post_process).post_process_models@ == old(
                post_process,
            ).post_process_models@.insert(provider_id@, model)
            &&& commands::does(res, seq![effect::EffectSpec::SaveSettings])
        },
        !settings::provider_exists(old(post_process).post_process_providers@, provider_id@) ==> {
            &&& *final(post_process) == *old(post_process)
            &&& fails(res, provider_not_found(provider_id@))
        },
        *final(post_process) == (PostProcessSettings {
            post_process_models: final(post_process).post_process_models,
            ..*old(post_process)
        }),
{
    match validate_provider_exists(post_process, provider_id.as_str()) {
        Err(e) => Err(e),
        Ok(_) => {
            post_process.post_process_models.insert(provider_id, model);
            saved()
        },
    }
}

pub fn set_post_process_provider(
    post_process: &mut PostProcessSettings,
    provider_id: String,
) -> (res: Result<Vec<Effect>, String>)
    ensures
        settings::provider_exists(old(post_process).post_process_providers@, provider_id@) ==> {
            &&& *final(post_process) == (PostProcessSettings {
                post_process_provider_id: provider_id,
                ..*old(post_process)
            })
            &&& commands::does(res, seq![effect::EffectSpec::SaveSettings])
        },
        !settings::provider_exists(old(post_process).post_process_providers@, provider_id@) ==> {
            &&& *final(post_process) == *old(post_process)
            &&& fails(res, provider_not_found(provider_id@))
        },
{
    match validate_provider_exists(post_process, provider_id.as_str()) {
        Err(e) => Err(e),
        Ok(_) => {
            post_process.post_process_provider_id = provider_id;
            saved()
        },
    }
}

/// How the models of a provider are found.
#[derive(Debug, PartialEq, Eq)]
pub enum ModelSource {
    /// These are the models.
    Known(Vec<String>),
    /// The provider is to be asked.
    Ask { provider: PostProcessProvider, api_key: String },
}

/// Decides how the models of a provider are found. Apple Intelligence, whose
/// provider id is `apple_provider_id`, has the model `apple_model` where the
/// machine has it at all. Providers other than the custom one are not asked
/// without an API key.
pub fn fetch_post_process_models(
    post_process: &PostProcessSettings,
    provider_id: &str,
    apple_provider_id: &str,
    apple_model: Option<String>,
) -> (res: Result<ModelSource, String>)
    ensures
        ({
            let providers = post_process.post_process_providers@;
            let keys = post_process.post_process_api_keys@;
            let key = if keys.contains_key(provider_id@) {
                keys[provider_id@]@
            } else {
                Seq::empty()
            };
            &&& !settings::provider_exists(providers, provider_id@) ==> (res matches Err(e) && e@
                == provider_not_found(provider_id@))
            &&& forall|i: int| #[trigger]
                settings::provider_at(providers, provider_id@, i) ==> if provider_id@
                    == apple_provider_id@ {
                    match apple_model {
                        Some(model) => res matches Ok(ModelSource::Known(models)) && models@
                            == seq![model],
                        None => res matches Err(e) && e@
                            == "Apple Intelligence is only available on Apple silicon Macs running macOS 15 or later."@,
                    }
                } else if text::blank(key) && provider_id@ != "custom"@ {
                    res matches Err(e) && e@ == "API key is required for "@ + providers[i].label@
                        + ". Please add an API key to list available models."@
                } else {
                    res matches Ok(ModelSource::Ask { provider, api_key }) && provider
                        == providers[i] && api_key@ == key
                }
        }),
{
    let at = match post_process.post_process_provider(provider_id) {
        None => {
            return Err(concat3("Provider '", provider_id, "' not found"));
        },
        Some(i) => i,
    };
    proof {
        let providers = post_process.post_process_providers@;
        assert(providers[at as int].id@ == provider_id@);
        assert forall|k: int| #[trigger]
            settings::provider_at(providers, provider_id@, k) implies k == at by {
            settings::the_first_provider_is_unique(providers, provider_id@, k, at as int);
        }
    }
    let provider = &post_process.post_process_providers[at];
    if same_text(provider_id, apple_provider_id) {
        return match apple_model {
            Some(model) => Ok(ModelSource::Known(vec![model])),
            None => Err(
                "Apple Intelligence is only available on Apple silicon Macs running macOS 15 or later.".to_owned(),
            ),
        };
    }
    let api_key = match post_process.post_process_api_keys.get(provider_id) {
        Some(key) => key.clone(),
        None => String::new(),
    };
    if is_blank(api_key.as_str()) && !same_text(provider_id, "custom") {
        return Err(
            concat3(
                "API key is required for ",
                provider.label.as_str(),
                ". Please add an API key to list available models.",
            ),
        );
    }
    Ok(ModelSource::Ask { provider: provider.clone(), api_key })
}

/// Editing a base URL neither removes nor renames a provider.
pub proof fn editing_a_url_keeps_every_provider(
    providers: Seq<PostProcessProvider>,
    i: int,
    base_url: String,
    id: Seq<char>,
)
    requires
        0 <= i < providers.len(),
    ensures
        settings::provider_exists(
            providers.update(i, (PostProcessProvider { base_url, ..providers[i] })),
            id,
        ) <==> settings::provider_exists(providers, id),
{
    let after = providers.update(i, (PostProcessProvider { base_url, ..providers[i] }));
    if settings::provider_exists(providers, id) {
        let k = choose|k: int| 0 <= k < providers.len() && (#[trigger] providers[k]).id@ == id;
        assert(after[k].id@ == id);
    }
    if settings::provider_exists(after, id) {
        let k = choose|k: int| 0 <= k < after.len() && (#[trigger] after[k]).id@ == id;
        assert(providers[k].id@ == id);
    }
}

// ---------------------------------------------------------------------------
// Prompts
// ---------------------------------------------------------------------------

/// There is a prompt with the id `id`.
pub open spec fn prompt_exists(prompts: Seq<LLMPrompt>, id: Seq<char>) -> bool {
    exists|i: int| 0 <= i < prompts.len() && (#[trigger] prompts[i]).id@ == id
}

/// `i` is where the first prompt with the id `id` stands.
pub open spec fn prompt_at(prompts: Seq<LLMPrompt>, id: Seq<char>, i: int) -> bool {
    &&& 0 <= i < prompts.len()
    &&& prompts[i].id@ == id
    &&& forall|j: int| 0 <= j < i ==> (#[trigger] prompts[j]).id@ != id
}

/// What is said of a prompt that does not exist.
pub open spec fn prompt_not_found(id: Seq<char>) -> Seq<char> {
    "Prompt with id '"@ + id + "' not found"@
}

/// The prompts other than those with the id `id`.
pub open spec fn without_prompt(prompts: Seq<LLMPrompt>, id: Seq<char>) -> Seq<LLMPrompt>
    decreases prompts.len(),
{
    if prompts.len() == 0 {
        Seq::empty()
    } else {
        let before = without_prompt(prompts.drop_last(), id);
        if prompts.last().id@ == id {
            before
        } else {
            before.push(prompts.last())
        }
    }
}

/// What becomes of the prompts when those with the id `id` are deleted: the
/// others, or why nothing is deleted. The last prompt stays.
pub open spec fn after_deletion(prompts: Seq<LLMPrompt>, id: Seq<char>) -> Result<
    Seq<LLMPrompt>,
    Seq<char>,
> {
    if prompts.len() <= 1 {
        Err("Cannot delete the last prompt"@)
    } else if !prompt_exists(prompts, id) {
        Err(prompt_not_found(id))
    } else if without_prompt(prompts, id).len() == 0 {
        Err("Cannot delete the last prompt"@)
    } else {
        Ok(without_prompt(prompts, id))
    }
}

/// What is selected once the prompt `id` is gone and `left` are left: the first
/// of them, where it was the one.
pub open spec fn reselected(
    selected: Option<Seq<char>>,
    left: Seq<LLMPrompt>,
    id: Seq<char>,
) -> Option<Seq<char>>
    recommends
        left.len() > 0,
{
    if selected == Some(id) {
        Some(left[0].id@)
    } else {
        selected
    }
}

/// The prompt id with the number `m`.
pub open spec fn prompt_id(m: int) -> Seq<char> {
    "prompt_"@ + text::decimal(m)
}

/// `m` is the first number from `from` on whose prompt id is not taken.
pub open spec fn first_free(prompts: Seq<LLMPrompt>, from: int, m: int) -> bool {
    &&& from <= m
    &&& !prompt_exists(prompts, prompt_id(m))
    &&& forall|k: int| from <= k < m ==> prompt_exists(prompts, #[trigger] prompt_id(k))
}

/// Where the first prompt with the id `id` stands.
fn find_prompt(prompts: &Vec<LLMPrompt>, id: &str) -> (at: Option<usize>)
    ensures
        match at {
            Some(i) => prompt_at(prompts@, id@, i as int),
            None => !prompt_exists(prompts@, id@),
        },
{
    let mut i: usize = 0;
    while i < prompts.len()
        invariant
            i <= prompts@.len(),
            forall|j: int| 0 <= j < i ==> (#[trigger] prompts@[j]).id@ != id@,
        decreases prompts@.len() - i,
    {
        if same_text(prompts[i].id.as_str(), id) {
            return Some(i);
        }
        i = i + 1;
    }
    None
}

/// No more numbers in a row are taken than there are prompts.
proof fn lemma_taken_ids_are_bounded(prompts: Seq<LLMPrompt>, from: int, taken: nat)
    requires
        forall|k: int| from <= k < from + taken ==> prompt_exists(prompts, #[trigger] prompt_id(k)),
    ensures
        taken <= prompts.len(),
{
    let places = Seq::new(
        taken,
        |k: int|
            choose|i: int|
                0 <= i < prompts.len() && (#[trigger] prompts[i]).id@ == prompt_id(from + k),
    );
    assert forall|k: int| 0 <= k < taken implies 0 <= #[trigger] places[k] < prompts.len()
        && prompts[places[k]].id@ == prompt_id(from + k) by {
        assert(prompt_exists(prompts, prompt_id(from + k)));
    }
    assert(places.no_duplicates()) by {
        assert forall|a: int, b: int| 0 <= a < taken && 0 <= b < taken && a != b implies places[a]
            != places[b] by {
            if places[a] == places[b] {
                prompt_ids_tell_numbers_apart(from + a, from + b);
            }
        }
    }
    places.unique_seq_to_set();
    let all = vstd::set_lib::set_int_range(0, prompts.len() as int);
    vstd::set_lib::lemma_int_range(0, prompts.len() as int);
    assert(places.to_set().subset_of(all));
    vstd::set_lib::lemma_len_subset(places.to_set(), all);
}

/// The id of a prompt that is made at `millis`: the first one from then on that
/// is not taken.
fn free_prompt_id(prompts: &Vec<LLMPrompt>, millis: i64) -> (id: String)
    ensures
        exists|m: int| #[trigger] first_free(prompts@, millis as int, m) && id@ == prompt_id(m),
{
    let from: i128 = millis as i128;
    let count: usize = prompts.len();
    let mut m: i128 = from;
    loop
        invariant
            from == millis,
            count == prompts@.len(),
            from <= m <= from + count,
            forall|k: int|
                from <= k < m ==> prompt_exists(prompts@, #[trigger] prompt_id(k)),
        decreases from + count - m,
    {
        let id = "prompt_".to_owned().concat(decimal_i128(m).as_str());
        match find_prompt(prompts, id.as_str()) {
            None => {
                assert(first_free(prompts@, millis as int, m as int));
                return id;
            },
            Some(i) => {
                assert(prompts@[i as int].id@ == prompt_id(m as int));
                proof {
                    lemma_taken_ids_are_bounded(prompts@, from as int, (m + 1 - from) as nat);
                }
                m = m + 1;
            },
        }
    }
}

/// Adds a prompt that is made at `millis`. Its id is no other prompt's.
pub fn add_post_process_prompt_at(
    post_process: &mut PostProcessSettings,
    millis: i64,
    name: String,
    prompt: String,
) -> (res: (LLMPrompt, Vec<Effect>))
    ensures
        exists|m: int| #[trigger]
            first_free(old(post_process).post_process_prompts@, millis as int, m) && res.0.id@
                == prompt_id(m),
        !prompt_exists(old(post_process).post_process_prompts@, res.0.id@),
        res.0.name == name,
        res.0.prompt == prompt,
        effect::effects(res.1@) == seq![effect::EffectSpec::SaveSettings],
        final(post_process).post_process_prompts@ == old(post_process).post_process_prompts@.push(
            res.0,
        ),
        *final(post_process) == (PostProcessSettings {
            post_process_prompts: final(post_process).post_process_prompts,
            ..*old(post_process)
        }),
{
    let id = free_prompt_id(&post_process.post_process_prompts, millis);
    let new_prompt = LLMPrompt { id, name, prompt };
    post_process.post_process_prompts.push(new_prompt.clone());
    let calls = vec![Effect::SaveSettings];
    assert(effect::effects(calls@) =~= seq![effect::EffectSpec::SaveSettings]);
    (new_prompt, calls)
}

/// Adds a prompt, whose id is made from the time and is no other prompt's.
pub fn add_post_process_prompt(
    post_process: &mut PostProcessSettings,
    name: String,
    prompt: String,
) -> (res: Result<(LLMPrompt, Vec<Effect>), String>)
    ensures
        res matches Ok((new_prompt, calls)) && {
            &&& exists|millis: int, m: int|
                0 <= millis <= i64::MAX && #[trigger] first_free(
                    old(post_process).post_process_prompts@,
                    millis,
                    m,
                ) && new_prompt.id@ == prompt_id(m)
            &&& !prompt_exists(old(post_process).post_process_prompts@, new_prompt.id@)
            &&& new_prompt.name == name
            &&& new_prompt.prompt == prompt
            &&& effect::effects(calls@) == seq![effect::EffectSpec::SaveSettings]
            &&& final(post_process).post_process_prompts@ == old(
                post_process,
            ).post_process_prompts@.push(new_prompt)
        },
        *final(post_process) == (PostProcessSettings {
            post_process_prompts: final(post_process).post_process_prompts,
            ..*old(post_process)
        }),
{
    let millis = timestamp_millis();
    Ok(add_post_process_prompt_at(post_process, millis, name, prompt))
}

/// Gives the first prompt with the id `id` another name and text.
pub fn update_post_process_prompt(
    post_process: &mut PostProcessSettings,
    id: String,
    name: String,
    prompt: String,
) -> (res: Result<Vec<Effect>, String>)
    ensures
        ({
            let before = old(post_process).post_process_prompts@;
            let after = final(post_process).post_process_prompts@;
            &&& !prompt_exists(before, id@) ==> {
                &&& *final(post_process) == *old(post_process)
                &&& fails(res, prompt_not_found(id@))
            }
            &&& forall|i: int| #[trigger]
                prompt_at(before, id@, i) ==> {
                    &&& after == before.update(i, (LLMPrompt { name, prompt, ..before[i] }))
                    &&& commands::does(res, seq![effect::EffectSpec::SaveSettings])
                }
        }),
        *final(post_process) == (PostProcessSettings {
            post_process_prompts: final(post_process).post_process_prompts,
            ..*old(post_process)
        }),
{
    match find_prompt(&post_process.post_process_prompts, id.as_str()) {
        Some(i) => {
            let ghost before = post_process.post_process_prompts@;
            assert(before[i as int].id@ == id@);
            assert(forall|k: int| #[trigger] prompt_at(before, id@, k) ==> k == i);
            let existing = LLMPrompt {
                id: post_process.post_process_prompts[i].id.clone(),
                name,
                prompt,
            };
            post_process.post_process_prompts.set(i, existing);
            saved()
        },
        None => Err(concat3("Prompt with id '", id.as_str(), "' not found")),
    }
}

/// The prompts other than those with the id `id`.
fn prompts_without(prompts: &Vec<LLMPrompt>, id: &str) -> (left: Vec<LLMPrompt>)
    ensures
        left@ == without_prompt(prompts@, id@),
{
    let mut left: Vec<LLMPrompt> = Vec::new();
    let mut i: usize = 0;
    while i < prompts.len()
        invariant
            i <= prompts.len(),
            left@ == without_prompt(prompts@.take(i as int), id@),
        decreases prompts.len() - i,
    {
        assert(prompts@.take(i as int + 1).drop_last() =~= prompts@.take(i as int));
        if !same_text(prompts[i].id.as_str(), id) {
            left.push(prompts[i].clone());
        }
        i = i + 1;
    }
    assert(prompts@.take(i as int) =~= prompts@);
    left
}

/// Deletes the prompts with the id `id`. The last prompt cannot be deleted, nor
/// can all of them at once. If the deleted prompt was selected, the first one that
/// is left is.
pub fn delete_post_process_prompt(
    post_process: &mut PostProcessSettings,
    id: String,
) -> (res: Result<Vec<Effect>, String>)
    ensures
        match after_deletion(old(post_process).post_process_prompts@, id@) {
            Err(message) => {
                &&& *final(post_process) == *old(post_process)
                &&& fails(res, message)
            },
            Ok(left) => {
                &&& final(post_process).post_process_prompts@ == left
                &&& hotkey::optional_text(final(post_process).post_process_selected_prompt_id)
                    == reselected(
                    hotkey::optional_text(old(post_process).post_process_selected_prompt_id),
                    left,
                    id@,
                )
                &&& commands::does(res, seq![effect::EffectSpec::SaveSettings])
            },
        },
        *final(post_process) == (PostProcessSettings {
            post_process_prompts: final(post_process).post_process_prompts,
            post_process_selected_prompt_id: final(post_process).post_process_selected_prompt_id,
            ..*old(post_process)
        }),
{
    if post_process.post_process_prompts.len() <= 1 {
        return Err("Cannot delete the last prompt".to_owned());
    }
    let left = prompts_without(&post_process.post_process_prompts, id.as_str());
    proof {
        lemma_without_prompt_is_shorter(post_process.post_process_prompts@, id@);
    }
    if left.len() == post_process.post_process_prompts.len() {
        return Err(concat3("Prompt with id '", id.as_str(), "' not found"));
    }
    if left.len() == 0 {
        return Err("Cannot delete the last prompt".to_owned());
    }
    let was_selected = match &post_process.post_process_selected_prompt_id {
        Some(selected) => same_text(selected.as_str(), id.as_str()),
        None => false,
    };
    if was_selected {
        post_process.post_process_selected_prompt_id = Some(left[0].id.clone());
    }
    post_process.post_process_prompts = left;
    saved()
}

/// Selects a prompt.
pub fn set_post_process_selected_prompt(
    post_process: &mut PostProcessSettings,
    id: String,
) -> (res: Result<Vec<Effect>, String>)
    ensures
        prompt_exists(old(post_process).post_process_prompts@, id@) ==> {
            &&& *final(post_process) == (PostProcessSettings {
                post_process_selected_prompt_id: Some(id),
                ..*old(post_process)
            })
            &&& commands::does(res, seq![effect::EffectSpec::SaveSettings])
        },
        !prompt_exists(old(post_process).post_process_prompts@, id@) ==> {
            &&& *final(post_process) == *old(post_process)
            &&& fails(res, prompt_not_found(id@))
        },
{
    match find_prompt(&post_process.post_process_prompts, id.as_str()) {
        None => Err(concat3("Prompt with id '", id.as_str(), "' not found")),
        Some(i) => {
            assert(post_process.post_process_prompts@[i as int].id@ == id@);
            post_process.post_process_selected_prompt_id = Some(id);
            saved()
        },
    }
}

// ---------------------------------------------------------------------------
// What holds of the prompts
// ---------------------------------------------------------------------------

/// Deleting removes something exactly if there is a prompt with that id.
proof fn lemma_without_prompt_is_shorter(prompts: Seq<LLMPrompt>, id: Seq<char>)
    ensures
        without_prompt(prompts, id).len() <= prompts.len(),
        without_prompt(prompts, id).len() == prompts.len() <==> !prompt_exists(prompts, id),
    decreases prompts.len(),
{
    if prompts.len() > 0 {
        let rest = prompts.drop_last();
        lemma_without_prompt_is_shorter(rest, id);
        assert(prompts[prompts.len() - 1] == prompts.last());
        if prompt_exists(rest, id) {
            let k = choose|k: int| 0 <= k < rest.len() && (#[trigger] rest[k]).id@ == id;
            assert(prompts[k].id@ == id);
        }
        if prompt_exists(prompts, id) {
            let k = choose|k: int| 0 <= k < prompts.len() && (#[trigger] prompts[k]).id@ == id;
            if k < rest.len() {
                assert(rest[k].id@ == id);
            }
        }
    }
}

/// After a deletion no prompt has the id, and every other prompt is still there.
pub proof fn deleting_removes_one_id_only(
    prompts: Seq<LLMPrompt>,
    id: Seq<char>,
    other: Seq<char>,
)
    ensures
        prompt_exists(without_prompt(prompts, id), other) <==> prompt_exists(prompts, other)
            && other != id,
    decreases prompts.len(),
{
    let left = without_prompt(prompts, id);
    if prompts.len() > 0 {
        let rest = prompts.drop_last();
        let before = without_prompt(rest, id);
        deleting_removes_one_id_only(rest, id, other);
        assert(prompts[prompts.len() - 1] == prompts.last());
        if prompt_exists(left, other) {
            let k = choose|k: int| 0 <= k < left.len() && (#[trigger] left[k]).id@ == other;
            if k < before.len() {
                assert(before[k].id@ == other);
                let m = choose|m: int| 0 <= m < rest.len() && (#[trigger] rest[m]).id@ == other;
                assert(prompts[m].id@ == other);
            }
        }
        if prompt_exists(prompts, other) && other != id {
            let k = choose|k: int| 0 <= k < prompts.len() && (#[trigger] prompts[k]).id@ == other;
            if k < rest.len() {
                assert(rest[k].id@ == other);
                let m = choose|m: int| 0 <= m < before.len() && (#[trigger] before[m]).id@ == other;
                assert(left[m].id@ == other);
            } else {
                assert(left[left.len() - 1].id@ == other);
            }
        }
    }
}

/// A selected prompt exists.
pub open spec fn selection_exists(prompts: Seq<LLMPrompt>, selected: Option<Seq<char>>) -> bool {
    selected matches Some(id) ==> prompt_exists(prompts, id)
}

/// The selected prompt exists, whatever is added, changed or deleted.
pub proof fn the_selected_prompt_stays_valid(
    prompts: Seq<LLMPrompt>,
    selected: Option<Seq<char>>,
    added: LLMPrompt,
    i: int,
    name: String,
    prompt: String,
    deleted: Seq<char>,
)
    requires
        selection_exists(prompts, selected),
    ensures
        selection_exists(prompts.push(added), selected),
        0 <= i < prompts.len() ==> selection_exists(
            prompts.update(i, (LLMPrompt { name, prompt, ..prompts[i] })),
            selected,
        ),
        after_deletion(prompts, deleted) matches Ok(left) ==> selection_exists(
            left,
            reselected(selected, left, deleted),
        ),
{
    let left = without_prompt(prompts, deleted);
    if selected is Some {
        let id = selected->0;
        let k = choose|k: int| 0 <= k < prompts.len() && (#[trigger] prompts[k]).id@ == id;
        assert(prompts.push(added)[k].id@ == id);
        if 0 <= i < prompts.len() {
            let updated = prompts.update(i, (LLMPrompt { name, prompt, ..prompts[i] }));
            assert(updated[k].id@ == id);
        }
        deleting_removes_one_id_only(prompts, deleted, id);
        if left.len() > 0 {
            assert(left[0].id@ == left[0].id@);
        }
    }
}

/// A deletion never takes the last prompt: where there was one before, there is
/// one after, whatever the ids.
pub proof fn deleting_never_takes_the_last_prompt(prompts: Seq<LLMPrompt>, id: Seq<char>)
    ensures
        after_deletion(prompts, id) matches Ok(left) ==> 0 < left.len() < prompts.len()
            && !prompt_exists(left, id),
{
    lemma_without_prompt_is_shorter(prompts, id);
    deleting_removes_one_id_only(prompts, id, id);
}

/// No two prompts have the same id.
pub open spec fn ids_are_distinct(prompts: Seq<LLMPrompt>) -> bool {
    forall|i: int, j: int|
        0 <= i < j < prompts.len() ==> (#[trigger] prompts[i]).id@ != (#[trigger] prompts[j]).id@
}

/// Where no id occurs twice, each of several prompts can be deleted.
pub proof fn one_of_several_prompts_can_be_deleted(prompts: Seq<LLMPrompt>, id: Seq<char>)
    requires
        prompts.len() > 1,
        ids_are_distinct(prompts),
        prompt_exists(prompts, id),
    ensures
        after_deletion(prompts, id) is Ok,
{
    if without_prompt(prompts, id).len() == 0 {
        deleting_removes_one_id_only(prompts, id, prompts[0].id@);
        deleting_removes_one_id_only(prompts, id, prompts[1].id@);
        assert(prompt_exists(prompts, prompts[0].id@));
        assert(prompt_exists(prompts, prompts[1].id@));
        let other = if prompts[0].id@ == id {
            prompts[1].id@
        } else {
            prompts[0].id@
        };
        assert(prompt_exists(without_prompt(prompts, id), other));
    }
}

/// Adding, changing and deleting prompts gives no two of them the same id.
pub proof fn prompt_ids_stay_distinct(
    prompts: Seq<LLMPrompt>,
    added: LLMPrompt,
    i: int,
    name: String,
    prompt: String,
    deleted: Seq<char>,
)
    requires
        ids_are_distinct(prompts),
        !prompt_exists(prompts, added.id@),
    ensures
        ids_are_distinct(prompts.push(added)),
        0 <= i < prompts.len() ==> ids_are_distinct(
            prompts.update(i, (LLMPrompt { name, prompt, ..prompts[i] })),
        ),
        after_deletion(prompts, deleted) matches Ok(left) ==> ids_are_distinct(left),
{
    let grown = prompts.push(added);
    assert forall|a: int, b: int| 0 <= a < b < grown.len() implies (#[trigger] grown[a]).id@ != (
    #[trigger] grown[b]).id@ by {
        assert(grown[a] == prompts[a]);
        if b < prompts.len() {
            assert(grown[b] == prompts[b]);
        }
    }
    if 0 <= i < prompts.len() {
        let changed = prompts.update(i, (LLMPrompt { name, prompt, ..prompts[i] }));
        assert forall|a: int, b: int| 0 <= a < b < changed.len() implies (
        #[trigger] changed[a]).id@ != (#[trigger] changed[b]).id@ by {
            assert(changed[a].id == prompts[a].id && changed[b].id == prompts[b].id);
        }
    }
    lemma_deleting_keeps_ids_distinct(prompts, deleted);
}

proof fn lemma_deleting_keeps_ids_distinct(prompts: Seq<LLMPrompt>, id: Seq<char>)
    requires
        ids_are_distinct(prompts),
    ensures
        ids_are_distinct(without_prompt(prompts, id)),
    decreases prompts.len(),
{
    if prompts.len() > 0 {
        let rest = prompts.drop_last();
        let before = without_prompt(rest, id);
        let left = without_prompt(prompts, id);
        assert forall|a: int, b: int| 0 <= a < b < rest.len() implies (#[trigger] rest[a]).id@ != (
        #[trigger] rest[b]).id@ by {
            assert(rest[a] == prompts[a] && rest[b] == prompts[b]);
        }
        lemma_deleting_keeps_ids_distinct(rest, id);
        assert forall|a: int, b: int| 0 <= a < b < left.len() implies (#[trigger] left[a]).id@ != (
        #[trigger] left[b]).id@ by {
            assert(left[a] == before[a]);
            if b < before.len() {
                assert(left[b] == before[b]);
            } else {
                deleting_removes_one_id_only(rest, id, before[a].id@);
                assert(prompt_exists(before, before[a].id@));
                let k = choose|k: int|
                    0 <= k < rest.len() && (#[trigger] rest[k]).id@ == before[a].id@;
                assert(prompts[k] == rest[k]);
                assert(prompts[prompts.len() - 1] == prompts.last());
            }
        }
    }
}

/// Different numbers make different prompt ids.
pub proof fn prompt_ids_tell_numbers_apart(a: int, b: int)
    requires
        prompt_id(a) == prompt_id(b),
    ensures
        a == b,
{
    let n = "prompt_"@.len() as int;
    assert(text::decimal(a) =~= prompt_id(a).skip(n));
    assert(text::decimal(b) =~= prompt_id(b).skip(n));
    text::lemma_decimal_injective(a, b);
}

/// A deletion that succeeds leaves the selection alone, unless what was selected is
/// what is deleted. Then, and only then, it goes to the first prompt that is left.
pub proof fn a_deletion_keeps_another_selection(
    prompts: Seq<LLMPrompt>,
    selected: Option<Seq<char>>,
    id: Seq<char>,
)
    requires
        after_deletion(prompts, id) is Ok,
    ensures
        ({
            let left = after_deletion(prompts, id)->Ok_0;
            &&& left.len() > 0
            &&& selected is None ==> reselected(selected, left, id) is None
            &&& selected is Some && selected->0 != id ==> reselected(selected, left, id)
                == selected
            &&& selected is Some && selected->0 == id ==> reselected(selected, left, id) == Some(
                left[0].id@,
            )
            &&& reselected(selected, left, id) != Some(id)
        }),
{
    let left = after_deletion(prompts, id)->Ok_0;
    deleting_removes_one_id_only(prompts, id, id);
    if left[0].id@ == id {
        assert(prompt_exists(left, id));
    }
}

/// Of several prompts those with another id stay, as they are and in order. Deleting
/// fails exactly where no prompt has the id or where none would be left.
pub proof fn a_deletion_succeeds_where_a_prompt_is_left(prompts: Seq<LLMPrompt>, id: Seq<char>)
    ensures
        after_deletion(prompts, id) is Ok <==> (exists|i: int|
            0 <= i < prompts.len() && (#[trigger] prompts[i]).id@ == id) && (exists|i: int|
            0 <= i < prompts.len() && (#[trigger] prompts[i]).id@ != id),
        after_deletion(prompts, id) matches Ok(left) ==> left == prompts.filter(
            |p: LLMPrompt| p.id@ != id,
        ),
        after_deletion(prompts, id) matches Err(message) ==> message == (if prompts.len() > 1 && (
        forall|i: int| 0 <= i < prompts.len() ==> (#[trigger] prompts[i]).id@ != id) {
            "Prompt with id '"@ + id + "' not found"@
        } else {
            "Cannot delete the last prompt"@
        }),
{
    lemma_without_prompt_filters(prompts, id);
    let left = without_prompt(prompts, id);
    if exists|i: int| 0 <= i < prompts.len() && (#[trigger] prompts[i]).id@ != id {
        let i = choose|i: int| 0 <= i < prompts.len() && (#[trigger] prompts[i]).id@ != id;
        deleting_removes_one_id_only(prompts, id, prompts[i].id@);
        assert(prompt_exists(prompts, prompts[i].id@));
        assert(prompt_exists(left, prompts[i].id@));
    } else if left.len() > 0 {
        deleting_removes_one_id_only(prompts, id, left[0].id@);
        assert(prompt_exists(left, left[0].id@));
        assert(prompt_exists(prompts, left[0].id@));
    }
}

/// What stays is what has another id.
proof fn lemma_without_prompt_filters(prompts: Seq<LLMPrompt>, id: Seq<char>)
    ensures
        without_prompt(prompts, id) == prompts.filter(|p: LLMPrompt| p.id@ != id),
    decreases prompts.len(),
{
    reveal(Seq::filter);
    if prompts.len() > 0 {
        lemma_without_prompt_filters(prompts.drop_last(), id);
    }
}

/// A prompt exists where one has its id, and the first of them is found.
pub proof fn a_prompt_is_found_by_its_id(prompts: Seq<LLMPrompt>, id: Seq<char>, i: int)
    ensures
        !prompt_exists(prompts, id) <==> (forall|j: int|
            0 <= j < prompts.len() ==> (#[trigger] prompts[j]).id@ != id),
        prompt_at(prompts, id, i) <==> 0 <= i < prompts.len() && prompts[i].id@ == id
            && !prompt_exists(prompts.take(i), id),
{
    if prompt_at(prompts, id, i) && prompt_exists(prompts.take(i), id) {
        let j = choose|j: int|
            0 <= j < prompts.take(i).len() && (#[trigger] prompts.take(i)[j]).id@ == id;
        assert(prompts[j].id@ == id);
    }
    if 0 <= i < prompts.len() && !prompt_exists(prompts.take(i), id) {
        assert forall|j: int| 0 <= j < i implies (#[trigger] prompts[j]).id@ != id by {
            assert(prompts.take(i)[j] == prompts[j]);
        }
    }
}

/// A prompt id is made of a number, and the number taken is the first from the given
/// one on whose id no prompt has. There is one wherever any such number is.
pub proof fn a_new_prompt_takes_the_first_free_number(
    prompts: Seq<LLMPrompt>,
    from: int,
    m: int,
    k: int,
)
    ensures
        prompt_id(m) == "prompt_"@ + text::decimal(m),
        first_free(prompts, from, m) ==> from <= m && (forall|j: int|
            0 <= j < prompts.len() ==> (#[trigger] prompts[j]).id@ != prompt_id(m)),
        first_free(prompts, from, m) && from <= k < m ==> (exists|j: int|
            0 <= j < prompts.len() && (#[trigger] prompts[j]).id@ == prompt_id(k)),
        first_free(prompts, from, m) && first_free(prompts, from, k) ==> m == k,
        from <= m && !prompt_exists(prompts, prompt_id(m)) ==> exists|n: int|
            n <= m && #[trigger] first_free(prompts, from, n),
    decreases m - from,
{
    if from <= m && !prompt_exists(prompts, prompt_id(m)) && !first_free(prompts, from, m) {
        let n = choose|n: int|
            from <= n < m && !prompt_exists(prompts, #[trigger] prompt_id(n));
        a_new_prompt_takes_the_first_free_number(prompts, from, n, k);
    }
    if first_free(prompts, from, m) && from <= k < m {
        assert(prompt_exists(prompts, prompt_id(k)));
    }
    if first_free(prompts, from, m) && first_free(prompts, from, k) {
        if m < k {
            assert(prompt_exists(prompts, prompt_id(m)));
        }
    }
}

/// The post-processing shortcut is registered as the settings hold it while both
/// toggles are on, and unregistered otherwise. Where the settings lack it no call goes
/// out for it. In any case the shadows of secure input follow.
pub proof fn the_shortcut_is_registered_as_the_settings_hold_it(settings: AppSettings)
    ensures
        ({
            let held = settings.bindings@.contains_key("transcribe_with_post_process"@);
            let calls = reconciled(settings);
            let on = settings.post_processes();
            &&& calls.len() == (if held {
                2int
            } else {
                1int
            })
            &&& calls.last() == effect::EffectSpec::ReconcileFallback
            &&& held ==> match calls[0] {
                effect::EffectSpec::Register { implementation, binding } => on && implementation
                    == settings.keyboard_implementation && binding
                    == settings.bindings@["transcribe_with_post_process"@],
                effect::EffectSpec::Unregister { implementation, binding } => !on
                    && implementation == settings.keyboard_implementation && binding
                    == settings.bindings@["transcribe_with_post_process"@],
                _ => false,
            }
        }),
{
}

/// What is missing is named, and a command that fails does so with exactly what it
/// says.
pub proof fn failures_name_what_is_missing(
    id: Seq<char>,
    res: Result<Vec<Effect>, String>,
    message: Seq<char>,
)
    ensures
        provider_not_found(id) == "Provider '"@ + id + "' not found"@,
        prompt_not_found(id) == "Prompt with id '"@ + id + "' not found"@,
        fails(res, message) <==> res is Err && res->Err_0@ == message,
{
}

} // verus!
