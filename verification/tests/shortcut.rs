use handy::binding_change::{
    change_binding, reset_binding, BindingAction, BindingChange, BindingResponse,
};
use handy::effect::Effect;
use handy::implementation_change::{
    change_keyboard_implementation_setting, get_keyboard_implementation, handy_keys_checked,
    handy_keys_initialized, init_shortcuts, init_shortcuts_failed,
    initialize_handy_keys_with_rollback, parse_keyboard_implementation, registration_candidates,
    shortcuts_validated, Candidate, ImplementationChangeResult, SwitchStep,
};
use handy::settings::{
    AcceleratorSettings, AppSettings, AppearanceSettings, AutoSubmitKey, ClipboardHandling,
    DictationSettings, KeyboardImplementation, OrtAcceleratorSetting, OutputSettings,
    OverlayPosition, OverlayStyle, PasteMethod, PostProcessSettings, ShortcutBinding, SoundTheme,
    StartupSettings, Theme, TranscribeAcceleratorSetting, TypingTool,
};
use handy::string_map::StringMap;

use handy::shortcut::{
    is_dynamic_binding, register_cancel_shortcut, register_shortcut, resume_all_bindings,
    resume_all_shortcuts, suspend_all_bindings, suspend_all_shortcuts,
    unregister_all_shortcuts, unregister_cancel_shortcut, unregister_shortcut,
};

fn binding(id: &str, current: &str) -> ShortcutBinding {
    ShortcutBinding {
        id: id.to_string(),
        default_binding: format!("default {id}"),
        current_binding: current.to_string(),
    }
}

fn bindings(list: &[(&str, &str)]) -> StringMap<ShortcutBinding> {
    let mut map = StringMap::new();
    for (id, current) in list {
        map.insert(id.to_string(), binding(id, current));
    }
    map
}

fn settings_with(bindings: StringMap<ShortcutBinding>) -> AppSettings {
    AppSettings {
        bindings,
        keyboard_implementation: KeyboardImplementation::Tauri,
        dictation: DictationSettings {
            push_to_talk: true,
            push_to_talk_hands_free: false,
            hands_free_used: false,
            mute_while_recording: false,
            lazy_stream_close: false,
            vad_enabled: true,
            extra_recording_buffer_ms: 0,
        },
        output: OutputSettings {
            translate_to_english: false,
            selected_language: "auto".to_string(),
            custom_words: vec![],
            append_trailing_space: false,
            paste_method: PasteMethod::CtrlV,
            paste_delay_ms: 60,
            paste_delay_after_ms: 60,
            reliable_paste: false,
            typing_tool: TypingTool::Auto,
            external_script_path: None,
            clipboard_handling: ClipboardHandling::DontModify,
            auto_submit: false,
            auto_submit_key: AutoSubmitKey::Enter,
        },
        appearance: AppearanceSettings {
            audio_feedback: false,
            sound_theme: SoundTheme::Marimba,
            theme: Theme::System,
            overlay_position: OverlayPosition::Bottom,
            overlay_style: OverlayStyle::Minimal,
            app_language: "en".to_string(),
            show_tray_icon: true,
            debug_mode: false,
        },
        startup: StartupSettings {
            start_hidden: false,
            autostart_enabled: false,
            update_checks_enabled: true,
            show_whats_new_on_update: true,
            whats_new_last_seen_version: String::new(),
        },
        post_process: PostProcessSettings {
            experimental_enabled: false,
            post_process_enabled: false,
            post_process_provider_id: "openai".to_string(),
            post_process_providers: vec![],
            post_process_api_keys: StringMap::new(),
            post_process_models: StringMap::new(),
            post_process_prompts: vec![],
            post_process_selected_prompt_id: None,
        },
        accelerators: AcceleratorSettings {
            transcribe_accelerator: TranscribeAcceleratorSetting {
                name: "auto".to_string(),
            },
            ort_accelerator: OrtAcceleratorSetting {
                name: "auto".to_string(),
            },
            transcribe_gpu_device: -1,
        },
    }
}

const STOCK: [(&str, &str); 4] = [
    ("transcribe", "ctrl+space"),
    ("cancel", "escape"),
    ("transcribe_with_post_process", "ctrl+shift+space"),
    ("hands_free", "tab"),
];

fn register(implementation: KeyboardImplementation, id: &str, current: &str) -> Effect {
    Effect::Register {
        implementation,
        binding: binding(id, current),
    }
}

fn unregister(implementation: KeyboardImplementation, id: &str, current: &str) -> Effect {
    Effect::Unregister {
        implementation,
        binding: binding(id, current),
    }
}

const TAURI: KeyboardImplementation = KeyboardImplementation::Tauri;
const HANDY_KEYS: KeyboardImplementation = KeyboardImplementation::HandyKeys;

/// The final answer of a change, and every effect and call on the way to it.
fn run(
    mut change: BindingChange,
    bindings: &mut StringMap<ShortcutBinding>,
    valid: Result<(), String>,
    registered: Result<(), String>,
) -> (Result<BindingResponse, String>, Vec<Effect>) {
    let mut calls = Vec::new();
    loop {
        let outcome = match change.action(TAURI) {
            BindingAction::Perform(effects) => {
                calls.extend(effects);
                Err("does not matter".to_string())
            }
            BindingAction::Validate {
                implementation,
                raw,
            } => {
                assert_eq!(implementation, TAURI);
                assert!(!raw.is_empty());
                valid.clone()
            }
            BindingAction::Register {
                implementation,
                binding,
            } => {
                calls.push(Effect::Register {
                    implementation,
                    binding,
                });
                registered.clone()
            }
            BindingAction::Answer => match change {
                BindingChange::Finished { answer } => return (answer, calls),
                other => panic!("no answer in {other:?}"),
            },
        };
        change = change.advance(bindings, outcome);
    }
}

#[test]
fn dynamic_bindings_are_cancel_and_hands_free() {
    assert!(is_dynamic_binding("cancel"));
    assert!(is_dynamic_binding("hands_free"));
    assert!(!is_dynamic_binding("transcribe"));
    assert!(!is_dynamic_binding(""));
}

#[test]
fn calls_go_to_the_configured_implementation() {
    let mut settings = settings_with(bindings(&STOCK));
    settings.keyboard_implementation = HANDY_KEYS;
    assert_eq!(
        register_shortcut(&settings, binding("transcribe", "f13")),
        register(HANDY_KEYS, "transcribe", "f13")
    );
    assert_eq!(
        unregister_shortcut(&settings, binding("transcribe", "f13")),
        unregister(HANDY_KEYS, "transcribe", "f13")
    );
    assert_eq!(
        register_cancel_shortcut(&settings),
        vec![
            Effect::RegisterCancelFallback,
            Effect::RegisterCancel(HANDY_KEYS)
        ]
    );
    assert_eq!(
        unregister_cancel_shortcut(&settings),
        vec![
            Effect::UnregisterCancelFallback,
            Effect::UnregisterCancel(HANDY_KEYS)
        ]
    );
}

#[test]
fn suspending_skips_the_dynamic_bindings() {
    let settings = settings_with(bindings(&STOCK));
    let expected = vec![
        unregister(TAURI, "transcribe", "ctrl+space"),
        unregister(TAURI, "transcribe_with_post_process", "ctrl+shift+space"),
    ];
    assert_eq!(suspend_all_shortcuts(&settings), expected);
    assert_eq!(suspend_all_bindings(&settings), Ok(suspend_all_shortcuts(&settings)));
    assert_eq!(
        unregister_all_shortcuts(&settings.bindings, HANDY_KEYS),
        vec![
            unregister(HANDY_KEYS, "transcribe", "ctrl+space"),
            unregister(HANDY_KEYS, "transcribe_with_post_process", "ctrl+shift+space"),
        ]
    );
}

#[test]
fn resuming_leaves_post_processing_out_while_it_is_off() {
    let mut settings = settings_with(bindings(&STOCK));
    let plain = vec![register(TAURI, "transcribe", "ctrl+space")];
    assert_eq!(resume_all_shortcuts(&settings), plain);
    settings.post_process.post_process_enabled = true;
    assert_eq!(resume_all_shortcuts(&settings), plain);
    settings.post_process.experimental_enabled = true;
    assert_eq!(
        resume_all_bindings(&settings),
        Ok(vec![
            register(TAURI, "transcribe", "ctrl+space"),
            register(TAURI, "transcribe_with_post_process", "ctrl+shift+space"),
        ])
    );
}

/// What is live after the effects.
fn live_after(mut live: Vec<ShortcutBinding>, effects: Vec<Effect>) -> Vec<ShortcutBinding> {
    for effect in effects {
        match effect {
            Effect::Register { binding, .. } => {
                if !live.contains(&binding) {
                    live.push(binding);
                }
            }
            Effect::Unregister { binding, .. } => live.retain(|b| *b != binding),
            _ => {}
        }
    }
    live
}

#[test]
fn resuming_restores_what_was_live_and_is_idempotent() {
    for post_process in [false, true] {
        let mut settings = settings_with(bindings(&STOCK));
        settings.post_process.post_process_enabled = post_process;
        settings.post_process.experimental_enabled = post_process;
        let mut live = vec![
            binding("hands_free", "ctrl+tab"),
            binding("transcribe", "ctrl+space"),
        ];
        if post_process {
            live.push(binding("transcribe_with_post_process", "ctrl+shift+space"));
        }
        let suspended = live_after(live.clone(), suspend_all_shortcuts(&settings));
        assert_eq!(suspended, vec![binding("hands_free", "ctrl+tab")]);
        let resumed = live_after(suspended, resume_all_shortcuts(&settings));
        assert_eq!(resumed, live);
        assert_eq!(live_after(resumed, resume_all_shortcuts(&settings)), live);
    }
}

#[test]
fn an_empty_binding_is_rejected() {
    let mut map = bindings(&STOCK);
    let change = change_binding(
        &mut map,
        &bindings(&STOCK),
        true,
        "transcribe".to_string(),
        " \t".to_string(),
    );
    assert_eq!(
        run(change, &mut map, Ok(()), Ok(())),
        (Err("Binding cannot be empty".to_string()), vec![])
    );
    assert_eq!(map, bindings(&STOCK));
}

#[test]
fn an_unknown_binding_is_not_changed() {
    let mut map = bindings(&STOCK);
    let change = change_binding(
        &mut map,
        &bindings(&STOCK),
        true,
        "other".to_string(),
        "f1".to_string(),
    );
    assert_eq!(
        run(change, &mut map, Ok(()), Ok(())),
        (
            Ok(BindingResponse {
                success: false,
                binding: None,
                error: Some("Binding with id 'other' not found in defaults".to_string()),
            }),
            vec![]
        )
    );
    assert_eq!(map, bindings(&STOCK));
}

#[test]
fn a_change_unregisters_registers_and_saves() {
    let mut map = bindings(&STOCK);
    let change = change_binding(
        &mut map,
        &bindings(&STOCK),
        true,
        "transcribe".to_string(),
        "f13".to_string(),
    );
    assert_eq!(map, bindings(&STOCK));
    assert_eq!(
        run(change, &mut map, Ok(()), Ok(())),
        (
            Ok(BindingResponse {
                success: true,
                binding: Some(binding("transcribe", "f13")),
                error: None,
            }),
            vec![
                unregister(TAURI, "transcribe", "ctrl+space"),
                register(TAURI, "transcribe", "f13"),
                Effect::SaveSettings,
                Effect::ReconcileFallback,
            ]
        )
    );
    assert_eq!(map.get("transcribe"), Some(&binding("transcribe", "f13")));
    assert_eq!(map.get("cancel"), Some(&binding("cancel", "escape")));
}

#[test]
fn an_invalid_change_restores_the_previous_binding() {
    let mut map = bindings(&STOCK);
    let change = change_binding(
        &mut map,
        &bindings(&STOCK),
        true,
        "transcribe".to_string(),
        "f13".to_string(),
    );
    assert_eq!(
        run(change, &mut map, Err("no such key".to_string()), Ok(())),
        (
            Err("no such key".to_string()),
            vec![
                unregister(TAURI, "transcribe", "ctrl+space"),
                register(TAURI, "transcribe", "ctrl+space"),
            ]
        )
    );
    assert_eq!(map, bindings(&STOCK));
}

#[test]
fn a_change_that_cannot_be_registered_restores_the_previous_binding() {
    let mut map = bindings(&STOCK);
    let change = change_binding(
        &mut map,
        &bindings(&STOCK),
        true,
        "transcribe".to_string(),
        "f13".to_string(),
    );
    assert_eq!(
        run(change, &mut map, Ok(()), Err("taken".to_string())),
        (
            Ok(BindingResponse {
                success: false,
                binding: None,
                error: Some("Failed to register shortcut: taken".to_string()),
            }),
            vec![
                unregister(TAURI, "transcribe", "ctrl+space"),
                register(TAURI, "transcribe", "f13"),
                register(TAURI, "transcribe", "ctrl+space"),
            ]
        )
    );
    assert_eq!(map, bindings(&STOCK));
}

#[test]
fn a_failed_change_leaves_an_inactive_shortcut_inactive() {
    for (valid, registered) in [
        (Err("no such key".to_string()), Ok(())),
        (Ok(()), Err("taken".to_string())),
    ] {
        for post_process in [false, true] {
            let mut map = bindings(&STOCK);
            let change = change_binding(
                &mut map,
                &bindings(&STOCK),
                post_process,
                "transcribe_with_post_process".to_string(),
                "f13".to_string(),
            );
            let (_, calls) = run(change, &mut map, valid.clone(), registered.clone());
            let id = "transcribe_with_post_process";
            let previous = register(TAURI, id, "ctrl+shift+space");
            assert_eq!(calls[0], unregister(TAURI, id, "ctrl+shift+space"));
            assert_eq!(calls.contains(&previous), post_process);
            assert!(!calls.contains(&Effect::SaveSettings));
            assert_eq!(map, bindings(&STOCK));
        }
    }
}

#[test]
fn a_dynamic_binding_is_stored_without_a_call() {
    let mut map = bindings(&STOCK);
    let change = change_binding(
        &mut map,
        &bindings(&STOCK),
        true,
        "hands_free".to_string(),
        "f9".to_string(),
    );
    assert_eq!(map.get("hands_free"), Some(&binding("hands_free", "f9")));
    assert_eq!(
        run(change, &mut map, Err(String::new()), Err(String::new())),
        (
            Ok(BindingResponse {
                success: true,
                binding: Some(binding("hands_free", "f9")),
                error: None,
            }),
            vec![Effect::SaveSettings, Effect::ReconcileFallback]
        )
    );
}

#[test]
fn a_missing_binding_is_made_from_its_default() {
    let mut map = bindings(&[("cancel", "escape")]);
    let change = change_binding(
        &mut map,
        &bindings(&STOCK),
        true,
        "transcribe".to_string(),
        "f1".to_string(),
    );
    let (answer, calls) = run(change, &mut map, Ok(()), Ok(()));
    assert_eq!(answer.unwrap().binding, Some(binding("transcribe", "f1")));
    assert_eq!(calls[0], unregister(TAURI, "transcribe", "ctrl+space"));
    assert_eq!(map.get("transcribe"), Some(&binding("transcribe", "f1")));
}

#[test]
fn a_missing_dynamic_binding_is_made_without_a_call() {
    let mut map = bindings(&[("transcribe", "ctrl+space")]);
    let change = change_binding(
        &mut map,
        &bindings(&STOCK),
        true,
        "cancel".to_string(),
        "f1".to_string(),
    );
    let (answer, calls) = run(change, &mut map, Ok(()), Ok(()));
    assert_eq!(answer.unwrap().binding, Some(binding("cancel", "f1")));
    assert_eq!(calls, vec![Effect::SaveSettings, Effect::ReconcileFallback]);
    assert_eq!(map.get("cancel"), Some(&binding("cancel", "f1")));
}

#[test]
fn resetting_goes_back_to_the_default() {
    let mut map = bindings(&STOCK);
    let change = reset_binding(
        &mut map,
        &bindings(&STOCK),
        true,
        binding("transcribe", "ctrl+space"),
        "transcribe".to_string(),
    );
    let (answer, _) = run(change, &mut map, Ok(()), Ok(()));
    assert_eq!(
        answer.unwrap().binding,
        Some(binding("transcribe", "default transcribe"))
    );
}

#[test]
fn implementations_are_named() {
    let mut settings = settings_with(bindings(&STOCK));
    assert_eq!(get_keyboard_implementation(&settings), "tauri");
    settings.keyboard_implementation = HANDY_KEYS;
    assert_eq!(get_keyboard_implementation(&settings), "handy_keys");
    assert_eq!(parse_keyboard_implementation("tauri"), TAURI);
    assert_eq!(parse_keyboard_implementation("handy_keys"), HANDY_KEYS);
    assert_eq!(parse_keyboard_implementation("other"), TAURI);
}

#[test]
fn startup_falls_back_to_tauri() {
    let mut settings = settings_with(bindings(&STOCK));
    settings.keyboard_implementation = HANDY_KEYS;
    assert_eq!(init_shortcuts(&settings), Effect::InitShortcuts(HANDY_KEYS));
    assert_eq!(
        init_shortcuts_failed(&mut settings),
        vec![Effect::SaveSettings, Effect::InitShortcuts(TAURI)]
    );
    assert_eq!(settings, settings_with(bindings(&STOCK)));
}

#[test]
fn switching_to_the_same_implementation_does_nothing() {
    let mut settings = settings_with(bindings(&STOCK));
    let (step, calls) =
        change_keyboard_implementation_setting(&mut settings, &bindings(&STOCK), "tauri");
    assert_eq!(
        step,
        SwitchStep::Answer(ImplementationChangeResult {
            success: true,
            reset_bindings: vec![],
        })
    );
    assert_eq!(calls, vec![]);
    assert_eq!(settings, settings_with(bindings(&STOCK)));
}

#[test]
fn switching_to_tauri_resets_what_it_rejects() {
    let defaults = bindings(&[
        ("transcribe", "ctrl+space"),
        ("cancel", "escape"),
        ("extra", "f5"),
        ("transcribe_with_post_process", "ctrl+shift+space"),
    ]);
    let mut settings = settings_with(bindings(&[("cancel", "escape"), ("transcribe", "fn")]));
    settings.keyboard_implementation = HANDY_KEYS;
    let (step, calls) =
        change_keyboard_implementation_setting(&mut settings, &defaults, "tauri");
    assert_eq!(settings.keyboard_implementation, TAURI);
    assert_eq!(
        calls,
        vec![
            unregister(HANDY_KEYS, "transcribe", "fn"),
            Effect::SaveSettings,
            Effect::ReconcileFallback,
        ]
    );
    let candidates = match step {
        SwitchStep::Validate {
            implementation: KeyboardImplementation::Tauri,
            candidates,
        } => candidates,
        other => panic!("expected validation, got {other:?}"),
    };
    assert_eq!(
        candidates,
        vec![
            Candidate {
                id: "transcribe".to_string(),
                binding: binding("transcribe", "fn"),
                default_shortcut: "ctrl+space".to_string(),
            },
            Candidate {
                id: "extra".to_string(),
                binding: binding("extra", "f5"),
                default_shortcut: "f5".to_string(),
            },
        ]
    );
    let judged = candidates
        .into_iter()
        .map(|c| {
            let valid = c.binding.current_binding != "fn";
            (c, valid)
        })
        .collect();
    let (result, calls) = shortcuts_validated(&mut settings.bindings, TAURI, "tauri", judged);
    assert_eq!(
        result,
        ImplementationChangeResult {
            success: true,
            reset_bindings: vec!["transcribe".to_string()],
        }
    );
    assert_eq!(
        calls,
        vec![
            register(TAURI, "transcribe", "ctrl+space"),
            register(TAURI, "extra", "f5"),
            Effect::SaveSettings,
            Effect::ReconcileFallback,
            Effect::EmitImplementationChanged {
                name: "tauri".to_string(),
                reset_bindings: vec!["transcribe".to_string()],
            },
        ]
    );
    assert_eq!(
        settings.bindings.get("transcribe"),
        Some(&binding("transcribe", "ctrl+space"))
    );
    assert_eq!(settings.bindings.get("extra"), None);
    assert_eq!(settings.bindings.get("cancel"), Some(&binding("cancel", "escape")));
}

#[test]
fn a_switch_without_resets_is_not_saved_again() {
    let mut settings = settings_with(bindings(&STOCK));
    let candidates = registration_candidates(&settings, &bindings(&STOCK));
    assert_eq!(candidates.len(), 1);
    let judged = candidates.into_iter().map(|c| (c, true)).collect();
    let (result, calls) =
        shortcuts_validated(&mut settings.bindings, HANDY_KEYS, "handy_keys", judged);
    assert_eq!(result.reset_bindings, Vec::<String>::new());
    assert_eq!(
        calls,
        vec![
            register(HANDY_KEYS, "transcribe", "ctrl+space"),
            Effect::ReconcileFallback,
            Effect::EmitImplementationChanged {
                name: "handy_keys".to_string(),
                reset_bindings: vec![],
            },
        ]
    );
}

#[test]
fn switching_to_handy_keys_sets_it_up_first() {
    let mut settings = settings_with(bindings(&STOCK));
    let (step, calls) =
        change_keyboard_implementation_setting(&mut settings, &bindings(&STOCK), "handy_keys");
    assert_eq!(step, SwitchStep::CheckHandyKeys);
    assert_eq!(
        calls,
        vec![
            unregister(TAURI, "transcribe", "ctrl+space"),
            unregister(TAURI, "transcribe_with_post_process", "ctrl+shift+space"),
            Effect::SaveSettings,
        ]
    );
    assert_eq!(settings.keyboard_implementation, HANDY_KEYS);
    assert_eq!(
        handy_keys_checked(&settings, &bindings(&STOCK), false),
        SwitchStep::InitHandyKeys
    );
    assert!(matches!(
        handy_keys_checked(&settings, &bindings(&STOCK), true),
        SwitchStep::Validate {
            implementation: KeyboardImplementation::HandyKeys,
            ..
        }
    ));
    assert_eq!(
        handy_keys_initialized(&mut settings, Ok(())),
        (
            Ok(ImplementationChangeResult {
                success: true,
                reset_bindings: vec![],
            }),
            vec![Effect::ReconcileFallback]
        )
    );
    assert_eq!(settings.keyboard_implementation, HANDY_KEYS);
}

#[test]
fn a_failed_set_up_rolls_back_to_tauri() {
    let mut settings = settings_with(bindings(&STOCK));
    settings.keyboard_implementation = HANDY_KEYS;
    assert_eq!(
        handy_keys_initialized(&mut settings, Err("no access".to_string())),
        (
            Err("Failed to initialize HandyKeys: no access. Reverted to Tauri.".to_string()),
            vec![
                Effect::SaveSettings,
                Effect::ReconcileFallback,
                Effect::InitShortcuts(TAURI),
            ]
        )
    );
    assert_eq!(settings.keyboard_implementation, TAURI);
    assert_eq!(
        initialize_handy_keys_with_rollback(&mut settings, Ok(())),
        (Ok(true), vec![])
    );
}
