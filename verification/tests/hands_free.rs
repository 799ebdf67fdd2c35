use handy::effect::Effect;
use handy::hands_free::{
    active_hands_free_key, hands_free_hint, hands_free_landed, hands_free_plan,
    hands_free_registration, hands_free_unregistration, register_hands_free_shortcut,
    remember_hands_free_used, unregister_hands_free_shortcut, HandsFreePlan, HandsFreeSlot,
};
use handy::settings::{
    AcceleratorSettings, AppSettings, AppearanceSettings, AutoSubmitKey, ClipboardHandling,
    DictationSettings, KeyboardImplementation, OrtAcceleratorSetting, OutputSettings,
    OverlayPosition, OverlayStyle, PasteMethod, PostProcessSettings, ShortcutBinding, SoundTheme,
    StartupSettings, Theme, TranscribeAcceleratorSetting, TypingTool,
};
use handy::string_map::StringMap;

fn binding(id: &str, current: &str) -> ShortcutBinding {
    ShortcutBinding {
        id: id.to_string(),
        default_binding: format!("default {id}"),
        current_binding: current.to_string(),
    }
}

fn bindings(list: &[(&str, &str)]) -> StringMap<ShortcutBinding> {
    let mut map = StringMap::new();
    for (id, current) in list {
        map.insert(id.to_string(), binding(id, current));
    }
    map
}

fn settings_with(bindings: StringMap<ShortcutBinding>) -> AppSettings {
    AppSettings {
        bindings,
        keyboard_implementation: KeyboardImplementation::Tauri,
        dictation: DictationSettings {
            push_to_talk: true,
            push_to_talk_hands_free: false,
            hands_free_used: false,
            mute_while_recording: false,
            lazy_stream_close: false,
            vad_enabled: true,
            extra_recording_buffer_ms: 0,
        },
        output: OutputSettings {
            translate_to_english: false,
            selected_language: "auto".to_string(),
            custom_words: vec![],
            append_trailing_space: false,
            paste_method: PasteMethod::CtrlV,
            paste_delay_ms: 60,
            paste_delay_after_ms: 60,
            reliable_paste: false,
            typing_tool: TypingTool::Auto,
            external_script_path: None,
            clipboard_handling: ClipboardHandling::DontModify,
            auto_submit: false,
            auto_submit_key: AutoSubmitKey::Enter,
        },
        appearance: AppearanceSettings {
            audio_feedback: false,
            sound_theme: SoundTheme::Marimba,
            theme: Theme::System,
            overlay_position: OverlayPosition::Bottom,
            overlay_style: OverlayStyle::Minimal,
            app_language: "en".to_string(),
            show_tray_icon: true,
            debug_mode: false,
        },
        startup: StartupSettings {
            start_hidden: false,
            autostart_enabled: false,
            update_checks_enabled: true,
            show_whats_new_on_update: true,
            whats_new_last_seen_version: String::new(),
        },
        post_process: PostProcessSettings {
            experimental_enabled: false,
            post_process_enabled: false,
            post_process_provider_id: "openai".to_string(),
            post_process_providers: vec![],
            post_process_api_keys: StringMap::new(),
            post_process_models: StringMap::new(),
            post_process_prompts: vec![],
            post_process_selected_prompt_id: None,
        },
        accelerators: AcceleratorSettings {
            transcribe_accelerator: TranscribeAcceleratorSetting {
                name: "auto".to_string(),
            },
            ort_accelerator: OrtAcceleratorSetting {
                name: "auto".to_string(),
            },
            transcribe_gpu_device: -1,
        },
    }
}

const TAURI: KeyboardImplementation = KeyboardImplementation::Tauri;

fn land(slot: &mut HandsFreeSlot, epoch: u64) -> Option<Effect> {
    hands_free_landed(
        slot,
        epoch,
        TAURI,
        "ctrl+tab".to_string(),
        binding("hands_free", "ctrl+tab"),
    )
}

fn undo() -> Option<Effect> {
    Some(Effect::Unregister {
        implementation: TAURI,
        binding: binding("hands_free", "ctrl+tab"),
    })
}

#[test]
fn a_registration_in_time_takes_the_slot() {
    let mut slot = HandsFreeSlot::new();
    assert_eq!(active_hands_free_key(&slot), None);
    let epoch = register_hands_free_shortcut(&mut slot, true).unwrap();
    assert_eq!(active_hands_free_key(&slot), None);
    assert_eq!(land(&mut slot, epoch), None);
    assert_eq!(active_hands_free_key(&slot).as_deref(), Some("tab"));
    assert_eq!(
        unregister_hands_free_shortcut(&mut slot).as_deref(),
        Some("ctrl+tab")
    );
    assert_eq!(active_hands_free_key(&slot), None);
    assert_eq!(unregister_hands_free_shortcut(&mut slot), None);
}

#[test]
fn a_late_registration_undoes_itself() {
    let mut slot = HandsFreeSlot::new();
    let epoch = register_hands_free_shortcut(&mut slot, true).unwrap();
    assert_eq!(unregister_hands_free_shortcut(&mut slot), None);
    assert_eq!(land(&mut slot, epoch), undo());
    assert_eq!(active_hands_free_key(&slot), None);

    // A newer registration overtakes an older one too.
    let older = register_hands_free_shortcut(&mut slot, true).unwrap();
    let newer = register_hands_free_shortcut(&mut slot, true).unwrap();
    assert_ne!(older, newer);
    assert_eq!(land(&mut slot, older), undo());
    assert_eq!(land(&mut slot, newer), None);
    assert_eq!(active_hands_free_key(&slot).as_deref(), Some("tab"));
}

#[test]
fn nothing_is_claimed_where_shortcuts_are_not_dynamic() {
    let mut slot = HandsFreeSlot::new();
    assert_eq!(register_hands_free_shortcut(&mut slot, false), None);
    assert_eq!(slot, HandsFreeSlot::new());
}

#[test]
fn the_registration_is_composed_from_both_bindings() {
    let mut settings = settings_with(bindings(&[
        ("transcribe", "Right Option+Space"),
        ("hands_free", "shift+tab"),
        ("other", "tab"),
    ]));
    settings.keyboard_implementation = KeyboardImplementation::HandyKeys;
    assert_eq!(
        hands_free_registration(&settings, "transcribe"),
        HandsFreePlan::Register {
            implementation: KeyboardImplementation::HandyKeys,
            hotkey: "option+shift+tab".to_string(),
            binding: binding("hands_free", "option+shift+tab"),
        }
    );
    assert_eq!(
        hands_free_registration(&settings, "other"),
        HandsFreePlan::Collision
    );
    assert_eq!(
        hands_free_registration(&settings, "missing"),
        HandsFreePlan::Missing
    );
    let settings = settings_with(bindings(&[("transcribe", "ctrl+space")]));
    assert_eq!(
        hands_free_registration(&settings, "transcribe"),
        HandsFreePlan::Missing
    );
    assert_eq!(
        hands_free_plan(TAURI, &binding("hands_free", "tab"), None),
        HandsFreePlan::Collision
    );
}

#[test]
fn the_unregistration_names_the_registered_hotkey() {
    let settings = settings_with(bindings(&[("hands_free", "tab")]));
    assert_eq!(
        hands_free_unregistration(&settings, "ctrl+tab".to_string()),
        undo()
    );
    let settings = settings_with(bindings(&[]));
    assert_eq!(
        hands_free_unregistration(&settings, "ctrl+tab".to_string()),
        None
    );
}

#[test]
fn the_hint_is_given_until_hands_free_has_been_used() {
    let mut settings = settings_with(bindings(&[]));
    let mut slot = HandsFreeSlot::new();
    assert_eq!(hands_free_hint(&settings, &slot), None);
    let epoch = register_hands_free_shortcut(&mut slot, true).unwrap();
    land(&mut slot, epoch);
    assert_eq!(hands_free_hint(&settings, &slot).as_deref(), Some("tab"));
    assert!(remember_hands_free_used(&mut settings));
    assert!(settings.dictation.hands_free_used);
    assert!(!remember_hands_free_used(&mut settings));
    assert_eq!(hands_free_hint(&settings, &slot), None);
}
