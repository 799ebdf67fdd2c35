use handy::commands::{
    apply_window_theme, change_app_language_setting, change_append_trailing_space_setting,
    change_audio_feedback_setting, change_auto_submit_key_setting, change_auto_submit_setting,
    change_autostart_setting, change_clipboard_handling_setting, change_debug_mode_setting,
    change_external_script_path_setting, change_extra_recording_buffer_setting,
    change_lazy_stream_close_setting, change_mute_while_recording_setting,
    change_ort_accelerator_setting, change_overlay_position_setting,
    change_overlay_style_setting, change_paste_delay_after_ms_setting,
    change_paste_delay_ms_setting, change_paste_method_setting, change_ptt_hands_free_setting,
    change_ptt_setting, change_reliable_paste_setting, change_selected_language_setting,
    change_show_tray_icon_setting, change_show_whats_new_on_update_setting,
    change_sound_theme_setting, change_start_hidden_setting, change_theme_setting,
    change_transcribe_accelerator_setting, change_transcribe_gpu_device,
    change_translate_to_english_setting, change_typing_tool_setting,
    change_update_checks_setting, change_vad_enabled_setting,
    change_whats_new_last_seen_version_setting, get_available_typing_tools, update_custom_words,
};
use handy::effect::{Effect, SettingValue};
use handy::settings::{
    AcceleratorSettings, AppSettings, AppearanceSettings, AutoSubmitKey, ClipboardHandling,
    DictationSettings, KeyboardImplementation, OrtAcceleratorSetting, OutputSettings,
    OverlayPosition, OverlayStyle, PasteMethod, PostProcessSettings, ShortcutBinding, SoundTheme,
    StartupSettings, Theme, TranscribeAcceleratorSetting, TypingTool,
};
use handy::string_map::StringMap;

use handy::settings::WindowTheme;

fn binding(id: &str, current: &str) -> ShortcutBinding {
    ShortcutBinding {
        id: id.to_string(),
        default_binding: format!("default {id}"),
        current_binding: current.to_string(),
    }
}

fn bindings(list: &[(&str, &str)]) -> StringMap<ShortcutBinding> {
    let mut map = StringMap::new();
    for (id, current) in list {
        map.insert(id.to_string(), binding(id, current));
    }
    map
}

fn settings_with(bindings: StringMap<ShortcutBinding>) -> AppSettings {
    AppSettings {
        bindings,
        keyboard_implementation: KeyboardImplementation::Tauri,
        dictation: DictationSettings {
            push_to_talk: true,
            push_to_talk_hands_free: false,
            hands_free_used: false,
            mute_while_recording: false,
            lazy_stream_close: false,
            vad_enabled: true,
            extra_recording_buffer_ms: 0,
        },
        output: OutputSettings {
            translate_to_english: false,
            selected_language: "auto".to_string(),
            custom_words: vec![],
            append_trailing_space: false,
            paste_method: PasteMethod::CtrlV,
            paste_delay_ms: 60,
            paste_delay_after_ms: 60,
            reliable_paste: false,
            typing_tool: TypingTool::Auto,
            external_script_path: None,
            clipboard_handling: ClipboardHandling::DontModify,
            auto_submit: false,
            auto_submit_key: AutoSubmitKey::Enter,
        },
        appearance: AppearanceSettings {
            audio_feedback: false,
            sound_theme: SoundTheme::Marimba,
            theme: Theme::System,
            overlay_position: OverlayPosition::Bottom,
            overlay_style: OverlayStyle::Minimal,
            app_language: "en".to_string(),
            show_tray_icon: true,
            debug_mode: false,
        },
        startup: StartupSettings {
            start_hidden: false,
            autostart_enabled: false,
            update_checks_enabled: true,
            show_whats_new_on_update: true,
            whats_new_last_seen_version: String::new(),
        },
        post_process: PostProcessSettings {
            experimental_enabled: false,
            post_process_enabled: false,
            post_process_provider_id: "openai".to_string(),
            post_process_providers: vec![],
            post_process_api_keys: StringMap::new(),
            post_process_models: StringMap::new(),
            post_process_prompts: vec![],
            post_process_selected_prompt_id: None,
        },
        accelerators: AcceleratorSettings {
            transcribe_accelerator: TranscribeAcceleratorSetting {
                name: "auto".to_string(),
            },
            ort_accelerator: OrtAcceleratorSetting {
                name: "auto".to_string(),
            },
            transcribe_gpu_device: -1,
        },
    }
}

fn settings() -> AppSettings {
    let mut s = settings_with(bindings(&[]));
    s.bindings.insert("transcribe".to_string(), binding("transcribe", "f13"));
    s
}

type Outcome = Result<Vec<Effect>, String>;

/// Runs a command on fresh settings, and checks that it left `expected` to do
/// and that the settings differ from fresh ones as `edit` says and in no other
/// way.
fn check(
    command: impl Fn(&mut AppSettings) -> Outcome,
    edit: impl Fn(&mut AppSettings),
    more: Vec<Effect>,
) {
    let mut changed = settings();
    let mut calls = vec![Effect::SaveSettings];
    calls.extend(more);
    assert_eq!(command(&mut changed), Ok(calls));
    let mut expected = settings();
    edit(&mut expected);
    assert_eq!(changed, expected);
}

fn flag(setting: &str, on: bool) -> Effect {
    Effect::EmitSettingChanged {
        setting: setting.to_string(),
        value: SettingValue::Flag(on),
    }
}

#[test]
fn plain_flags_are_set_and_saved() {
    for on in [false, true] {
        check(|s| change_ptt_setting(s, on), |s| s.dictation.push_to_talk = on, vec![]);
        check(
            |s| change_ptt_hands_free_setting(s, on),
            |s| s.dictation.push_to_talk_hands_free = on,
            vec![],
        );
        check(
            |s| change_audio_feedback_setting(s, on),
            |s| s.appearance.audio_feedback = on,
            vec![],
        );
        check(
            |s| change_translate_to_english_setting(s, on),
            |s| s.output.translate_to_english = on,
            vec![],
        );
        check(
            |s| change_reliable_paste_setting(s, on),
            |s| s.output.reliable_paste = on,
            vec![],
        );
        check(
            |s| change_auto_submit_setting(s, on),
            |s| s.output.auto_submit = on,
            vec![],
        );
        check(
            |s| change_mute_while_recording_setting(s, on),
            |s| s.dictation.mute_while_recording = on,
            vec![],
        );
        check(
            |s| change_append_trailing_space_setting(s, on),
            |s| s.output.append_trailing_space = on,
            vec![],
        );
        check(
            |s| change_lazy_stream_close_setting(s, on),
            |s| s.dictation.lazy_stream_close = on,
            vec![],
        );
        check(
            |s| change_vad_enabled_setting(s, on),
            |s| s.dictation.vad_enabled = on,
            vec![],
        );
    }
}

#[test]
fn plain_values_are_set_and_saved() {
    check(
        |s| change_extra_recording_buffer_setting(s, 250),
        |s| s.dictation.extra_recording_buffer_ms = 250,
        vec![],
    );
    check(
        |s| change_paste_delay_ms_setting(s, 7),
        |s| s.output.paste_delay_ms = 7,
        vec![],
    );
    check(
        |s| change_paste_delay_after_ms_setting(s, u64::MAX),
        |s| s.output.paste_delay_after_ms = u64::MAX,
        vec![],
    );
    check(
        |s| change_selected_language_setting(s, "de".to_string()),
        |s| s.output.selected_language = "de".to_string(),
        vec![],
    );
    check(
        |s| update_custom_words(s, vec!["Verus".to_string(), String::new()]),
        |s| s.output.custom_words = vec!["Verus".to_string(), String::new()],
        vec![],
    );
    check(
        |s| change_external_script_path_setting(s, Some("/bin/x".to_string())),
        |s| s.output.external_script_path = Some("/bin/x".to_string()),
        vec![],
    );
    check(
        |s| change_external_script_path_setting(s, None),
        |s| s.output.external_script_path = None,
        vec![],
    );
}

#[test]
fn sound_themes_are_chosen_by_name() {
    for (name, theme) in [
        ("marimba", SoundTheme::Marimba),
        ("pop", SoundTheme::Pop),
        ("custom", SoundTheme::Custom),
        ("Pop", SoundTheme::Marimba),
    ] {
        check(
            |s| change_sound_theme_setting(s, name.to_string()),
            |s| s.appearance.sound_theme = theme,
            vec![],
        );
    }
}

#[test]
fn themes_are_chosen_by_name_and_applied() {
    for (name, theme, window) in [
        ("system", Theme::System, None),
        ("light", Theme::Light, Some(WindowTheme::Light)),
        ("dark", Theme::Dark, Some(WindowTheme::Dark)),
        ("blue", Theme::System, None),
    ] {
        check(
            |s| change_theme_setting(s, name.to_string()),
            |s| s.appearance.theme = theme,
            vec![Effect::ApplyWindowTheme(window)],
        );
        assert_eq!(apply_window_theme(theme), Effect::ApplyWindowTheme(window));
    }
}

#[test]
fn the_overlay_is_placed_and_styled_by_name() {
    for (name, position) in [
        ("none", OverlayPosition::Bottom),
        ("bottom", OverlayPosition::Bottom),
        ("top", OverlayPosition::Top),
        ("left", OverlayPosition::Bottom),
    ] {
        check(
            |s| change_overlay_position_setting(s, name.to_string()),
            |s| s.appearance.overlay_position = position,
            vec![Effect::UpdateOverlayPosition],
        );
    }
    for (name, style, shown) in [
        ("none", OverlayStyle::Hidden, false),
        ("minimal", OverlayStyle::Minimal, true),
        ("live", OverlayStyle::Live, true),
        ("fancy", OverlayStyle::Minimal, true),
    ] {
        check(
            |s| change_overlay_style_setting(s, name.to_string()),
            |s| s.appearance.overlay_style = style,
            vec![
                Effect::SetOverlayEnabled(shown),
                Effect::UpdateOverlayPosition,
            ],
        );
    }
}

#[test]
fn ways_to_paste_are_chosen_by_name() {
    for (name, method) in [
        ("ctrl_v", PasteMethod::CtrlV),
        ("direct", PasteMethod::Direct),
        ("none", PasteMethod::Off),
        ("shift_insert", PasteMethod::ShiftInsert),
        ("ctrl_shift_v", PasteMethod::CtrlShiftV),
        ("external_script", PasteMethod::ExternalScript),
        ("", PasteMethod::CtrlV),
    ] {
        check(
            |s| change_paste_method_setting(s, name.to_string()),
            |s| s.output.paste_method = method,
            vec![],
        );
    }
    for (name, tool) in [
        ("auto", TypingTool::Auto),
        ("wtype", TypingTool::Wtype),
        ("kwtype", TypingTool::Kwtype),
        ("dotool", TypingTool::Dotool),
        ("ydotool", TypingTool::Ydotool),
        ("xdotool", TypingTool::Xdotool),
        ("zdotool", TypingTool::Auto),
    ] {
        check(
            |s| change_typing_tool_setting(s, name.to_string()),
            |s| s.output.typing_tool = tool,
            vec![],
        );
    }
    for (name, handling) in [
        ("dont_modify", ClipboardHandling::DontModify),
        ("copy_to_clipboard", ClipboardHandling::CopyToClipboard),
        ("copy", ClipboardHandling::DontModify),
    ] {
        check(
            |s| change_clipboard_handling_setting(s, name.to_string()),
            |s| s.output.clipboard_handling = handling,
            vec![],
        );
    }
    for (name, key) in [
        ("enter", AutoSubmitKey::Enter),
        ("ctrl_enter", AutoSubmitKey::CtrlEnter),
        ("cmd_enter", AutoSubmitKey::CmdEnter),
        ("space", AutoSubmitKey::Enter),
    ] {
        check(
            |s| change_auto_submit_key_setting(s, name.to_string()),
            |s| s.output.auto_submit_key = key,
            vec![],
        );
    }
}

#[test]
fn typing_tools_are_those_detected() {
    assert_eq!(get_available_typing_tools(None), vec!["auto".to_string()]);
    assert_eq!(
        get_available_typing_tools(Some(vec!["auto".to_string(), "wtype".to_string()])),
        vec!["auto".to_string(), "wtype".to_string()]
    );
    assert_eq!(get_available_typing_tools(Some(vec![])), Vec::<String>::new());
}

#[test]
fn the_frontend_hears_of_flags() {
    for on in [false, true] {
        check(
            |s| change_debug_mode_setting(s, on),
            |s| s.appearance.debug_mode = on,
            vec![Effect::StreamLogs(on), flag("debug_mode", on)],
        );
        check(
            |s| change_start_hidden_setting(s, on),
            |s| s.startup.start_hidden = on,
            vec![flag("start_hidden", on)],
        );
        check(
            |s| change_autostart_setting(s, on),
            |s| s.startup.autostart_enabled = on,
            vec![Effect::ApplyAutostart(on), flag("autostart_enabled", on)],
        );
        check(
            |s| change_update_checks_setting(s, on),
            |s| s.startup.update_checks_enabled = on,
            vec![flag("update_checks_enabled", on)],
        );
        check(
            |s| change_show_whats_new_on_update_setting(s, on),
            |s| s.startup.show_whats_new_on_update = on,
            vec![flag("show_whats_new_on_update", on)],
        );
        check(
            |s| change_show_tray_icon_setting(s, on),
            |s| s.appearance.show_tray_icon = on,
            vec![Effect::SetTrayVisibility(on)],
        );
    }
}

#[test]
fn the_last_seen_version_is_trimmed() {
    check(
        |s| change_whats_new_last_seen_version_setting(s, " 0.8.2\n".to_string()),
        |s| s.startup.whats_new_last_seen_version = "0.8.2".to_string(),
        vec![Effect::EmitSettingChanged {
            setting: "whats_new_last_seen_version".to_string(),
            value: SettingValue::Text("0.8.2".to_string()),
        }],
    );
}

#[test]
fn the_tray_speaks_the_language() {
    check(
        |s| change_app_language_setting(s, "fr".to_string()),
        |s| s.appearance.app_language = "fr".to_string(),
        vec![Effect::UpdateTrayMenu {
            language: "fr".to_string(),
        }],
    );
}

#[test]
fn accelerators_reload_the_model() {
    check(
        |s| {
            change_transcribe_accelerator_setting(
                s,
                TranscribeAcceleratorSetting {
                    name: "gpu".to_string(),
                },
            )
        },
        |s| s.accelerators.transcribe_accelerator.name = "gpu".to_string(),
        vec![Effect::ReloadModelOnNextUse],
    );
    check(
        |s| {
            change_ort_accelerator_setting(
                s,
                OrtAcceleratorSetting {
                    name: "cuda".to_string(),
                },
            )
        },
        |s| s.accelerators.ort_accelerator.name = "cuda".to_string(),
        vec![Effect::ReloadModelOnNextUse],
    );
    check(
        |s| change_transcribe_gpu_device(s, 2),
        |s| s.accelerators.transcribe_gpu_device = 2,
        vec![Effect::ReloadModelOnNextUse],
    );
}
