use handy::effect::Effect;
use handy::post_process::{
    add_post_process_prompt, add_post_process_prompt_at, change_experimental_enabled_setting,
    change_post_process_api_key_setting, change_post_process_base_url_setting,
    change_post_process_enabled_setting, change_post_process_model_setting,
    delete_post_process_prompt, fetch_post_process_models, set_post_process_provider,
    set_post_process_selected_prompt, update_post_process_prompt, validate_provider_exists,
    ModelSource,
};
use handy::settings::{
    AcceleratorSettings, AppSettings, AppearanceSettings, AutoSubmitKey, ClipboardHandling,
    DictationSettings, KeyboardImplementation, OrtAcceleratorSetting, OutputSettings,
    OverlayPosition, OverlayStyle, PasteMethod, PostProcessSettings, ShortcutBinding, SoundTheme,
    StartupSettings, Theme, TranscribeAcceleratorSetting, TypingTool,
};
use handy::string_map::StringMap;

use handy::settings::{LLMPrompt, PostProcessProvider};

fn binding(id: &str, current: &str) -> ShortcutBinding {
    ShortcutBinding {
        id: id.to_string(),
        default_binding: format!("default {id}"),
        current_binding: current.to_string(),
    }
}

fn bindings(list: &[(&str, &str)]) -> StringMap<ShortcutBinding> {
    let mut map = StringMap::new();
    for (id, current) in list {
        map.insert(id.to_string(), binding(id, current));
    }
    map
}

fn settings_with(bindings: StringMap<ShortcutBinding>) -> AppSettings {
    AppSettings {
        bindings,
        keyboard_implementation: KeyboardImplementation::Tauri,
        dictation: DictationSettings {
            push_to_talk: true,
            push_to_talk_hands_free: false,
            hands_free_used: false,
            mute_while_recording: false,
            lazy_stream_close: false,
            vad_enabled: true,
            extra_recording_buffer_ms: 0,
        },
        output: OutputSettings {
            translate_to_english: false,
            selected_language: "auto".to_string(),
            custom_words: vec![],
            append_trailing_space: false,
            paste_method: PasteMethod::CtrlV,
            paste_delay_ms: 60,
            paste_delay_after_ms: 60,
            reliable_paste: false,
            typing_tool: TypingTool::Auto,
            external_script_path: None,
            clipboard_handling: ClipboardHandling::DontModify,
            auto_submit: false,
            auto_submit_key: AutoSubmitKey::Enter,
        },
        appearance: AppearanceSettings {
            audio_feedback: false,
            sound_theme: SoundTheme::Marimba,
            theme: Theme::System,
            overlay_position: OverlayPosition::Bottom,
            overlay_style: OverlayStyle::Minimal,
            app_language: "en".to_string(),
            show_tray_icon: true,
            debug_mode: false,
        },
        startup: StartupSettings {
            start_hidden: false,
            autostart_enabled: false,
            update_checks_enabled: true,
            show_whats_new_on_update: true,
            whats_new_last_seen_version: String::new(),
        },
        post_process: PostProcessSettings {
            experimental_enabled: false,
            post_process_enabled: false,
            post_process_provider_id: "openai".to_string(),
            post_process_providers: vec![],
            post_process_api_keys: StringMap::new(),
            post_process_models: StringMap::new(),
            post_process_prompts: vec![],
            post_process_selected_prompt_id: None,
        },
        accelerators: AcceleratorSettings {
            transcribe_accelerator: TranscribeAcceleratorSetting {
                name: "auto".to_string(),
            },
            ort_accelerator: OrtAcceleratorSetting {
                name: "auto".to_string(),
            },
            transcribe_gpu_device: -1,
        },
    }
}

const SHORTCUT: &str = "transcribe_with_post_process";

fn provider(id: &str) -> PostProcessProvider {
    PostProcessProvider {
        id: id.to_string(),
        label: format!("The {id}"),
        base_url: format!("https://{id}"),
    }
}

fn prompt(id: &str) -> LLMPrompt {
    LLMPrompt {
        id: id.to_string(),
        name: format!("name {id}"),
        prompt: format!("text {id}"),
    }
}

fn post_process() -> PostProcessSettings {
    let mut p = settings_with(bindings(&[])).post_process;
    p.post_process_providers = vec![provider("openai"), provider("custom"), provider("apple")];
    p.post_process_prompts = vec![prompt("a"), prompt("b"), prompt("c")];
    p.post_process_selected_prompt_id = Some("b".to_string());
    p
}

fn saved() -> Result<Vec<Effect>, String> {
    Ok(vec![Effect::SaveSettings])
}

fn failed<T>(message: &str) -> Result<T, String> {
    Err(message.to_string())
}

#[test]
fn the_shortcut_follows_the_toggles() {
    let implementation = KeyboardImplementation::Tauri;
    let register = Effect::Register {
        implementation,
        binding: binding(SHORTCUT, "f14"),
    };
    let unregister = || Effect::Unregister {
        implementation,
        binding: binding(SHORTCUT, "f14"),
    };
    let mut s = settings_with(bindings(&[(SHORTCUT, "f14")]));
    assert_eq!(
        change_post_process_enabled_setting(&mut s, true),
        Ok(vec![
            Effect::SaveSettings,
            unregister(),
            Effect::ReconcileFallback
        ])
    );
    assert!(s.post_process.post_process_enabled);
    assert_eq!(
        change_experimental_enabled_setting(&mut s, true),
        Ok(vec![
            Effect::SaveSettings,
            register,
            Effect::ReconcileFallback
        ])
    );
    assert!(s.post_process_active());
    assert_eq!(
        change_experimental_enabled_setting(&mut s, false),
        Ok(vec![
            Effect::SaveSettings,
            unregister(),
            Effect::ReconcileFallback
        ])
    );
    let mut s = settings_with(bindings(&[]));
    assert_eq!(
        change_post_process_enabled_setting(&mut s, true),
        Ok(vec![Effect::SaveSettings, Effect::ReconcileFallback])
    );
}

#[test]
fn providers_are_looked_up_by_id() {
    let p = post_process();
    assert_eq!(validate_provider_exists(&p, "custom"), Ok(()));
    assert_eq!(
        validate_provider_exists(&p, "Custom"),
        failed("Provider 'Custom' not found")
    );
    assert_eq!(p.post_process_provider("apple"), Some(2));
    assert_eq!(p.post_process_provider("none"), None);
}

#[test]
fn only_the_custom_provider_has_an_editable_url() {
    let mut p = post_process();
    let mut edit = |id: &str| {
        change_post_process_base_url_setting(&mut p, id.to_string(), "http://x".to_string())
    };
    assert_eq!(edit("nobody"), failed("Provider 'nobody' not found"));
    assert_eq!(
        edit("openai"),
        failed("Provider 'The openai' does not allow editing the base URL")
    );
    assert_eq!(edit("custom"), saved());
    let mut expected = post_process();
    expected.post_process_providers[1].base_url = "http://x".to_string();
    assert_eq!(p, expected);
}

#[test]
fn keys_models_and_the_choice_need_a_provider() {
    let mut p = post_process();
    let s = |t: &str| t.to_string();
    assert_eq!(
        change_post_process_api_key_setting(&mut p, s("x"), s("k")),
        failed("Provider 'x' not found")
    );
    assert_eq!(
        change_post_process_model_setting(&mut p, s("x"), s("m")),
        failed("Provider 'x' not found")
    );
    assert_eq!(
        set_post_process_provider(&mut p, s("x")),
        failed("Provider 'x' not found")
    );
    assert_eq!(p, post_process());
    assert_eq!(
        change_post_process_api_key_setting(&mut p, s("custom"), s("k")),
        saved()
    );
    assert_eq!(
        change_post_process_model_setting(&mut p, s("custom"), s("m")),
        saved()
    );
    assert_eq!(set_post_process_provider(&mut p, s("custom")), saved());
    assert_eq!(p.post_process_api_keys.get("custom"), Some(&s("k")));
    assert_eq!(p.post_process_models.get("custom"), Some(&s("m")));
    assert_eq!(p.post_process_provider_id, "custom");
}

#[test]
fn models_are_known_asked_for_or_refused() {
    let mut p = post_process();
    let fetch = |p: &PostProcessSettings, id: &str, model: Option<&str>| {
        fetch_post_process_models(p, id, "apple", model.map(str::to_string))
    };
    assert_eq!(fetch(&p, "x", None), failed("Provider 'x' not found"));
    assert_eq!(
        fetch(&p, "apple", Some("Apple Intelligence")),
        Ok(ModelSource::Known(vec!["Apple Intelligence".to_string()]))
    );
    assert_eq!(
        fetch(&p, "apple", None),
        failed(
            "Apple Intelligence is only available on Apple silicon Macs running macOS 15 or later."
        )
    );
    assert_eq!(
        fetch(&p, "openai", None),
        failed("API key is required for The openai. Please add an API key to list available models.")
    );
    assert_eq!(
        fetch(&p, "custom", None),
        Ok(ModelSource::Ask {
            provider: provider("custom"),
            api_key: String::new(),
        })
    );
    p.post_process_api_keys
        .insert("openai".to_string(), "  ".to_string());
    assert!(fetch(&p, "openai", None).is_err());
    p.post_process_api_keys
        .insert("openai".to_string(), " key ".to_string());
    assert_eq!(
        fetch(&p, "openai", None),
        Ok(ModelSource::Ask {
            provider: provider("openai"),
            api_key: " key ".to_string(),
        })
    );
}

#[test]
fn prompts_are_added_with_the_time_in_their_id() {
    let mut p = post_process();
    let (added, calls) = add_post_process_prompt_at(
        &mut p,
        1_700_000_000_123,
        "n".to_string(),
        "t".to_string(),
    );
    assert_eq!(added.id, "prompt_1700000000123");
    assert_eq!(calls, vec![Effect::SaveSettings]);
    let mut expected = post_process();
    expected.post_process_prompts.push(LLMPrompt {
        id: "prompt_1700000000123".to_string(),
        name: "n".to_string(),
        prompt: "t".to_string(),
    });
    assert_eq!(p, expected);

    let (now, _) = add_post_process_prompt(&mut p, "m".to_string(), "u".to_string()).unwrap();
    let millis: i64 = now.id.strip_prefix("prompt_").unwrap().parse().unwrap();
    // The clock reads a time after this was written.
    assert!(millis > 1_700_000_000_123);
    assert_eq!(p.post_process_prompts.last(), Some(&now));
}

#[test]
fn prompts_are_updated_by_id() {
    let mut p = post_process();
    let mut update =
        |id: &str| update_post_process_prompt(&mut p, id.to_string(), "n".to_string(), "t".to_string());
    assert_eq!(update("z"), failed("Prompt with id 'z' not found"));
    assert_eq!(update("b"), saved());
    let mut expected = post_process();
    expected.post_process_prompts[1].name = "n".to_string();
    expected.post_process_prompts[1].prompt = "t".to_string();
    assert_eq!(p, expected);
}

#[test]
fn deleting_reselects_the_first_prompt() {
    let mut p = post_process();
    assert_eq!(
        delete_post_process_prompt(&mut p, "z".to_string()),
        failed("Prompt with id 'z' not found")
    );
    assert_eq!(p, post_process());
    assert_eq!(delete_post_process_prompt(&mut p, "b".to_string()), saved());
    assert_eq!(p.post_process_prompts, vec![prompt("a"), prompt("c")]);
    assert_eq!(p.post_process_selected_prompt_id.as_deref(), Some("a"));
    assert_eq!(delete_post_process_prompt(&mut p, "c".to_string()), saved());
    assert_eq!(p.post_process_selected_prompt_id.as_deref(), Some("a"));
    assert_eq!(
        delete_post_process_prompt(&mut p, "a".to_string()),
        failed("Cannot delete the last prompt")
    );
    assert_eq!(p.post_process_prompts, vec![prompt("a")]);
}

#[test]
fn deleting_takes_every_prompt_of_that_id() {
    let mut p = post_process();
    p.post_process_prompts = vec![prompt("b"), prompt("a"), prompt("b")];
    assert_eq!(delete_post_process_prompt(&mut p, "b".to_string()), saved());
    assert_eq!(p.post_process_prompts, vec![prompt("a")]);
    assert_eq!(p.post_process_selected_prompt_id.as_deref(), Some("a"));
}

#[test]
fn the_last_prompts_are_not_deleted_together() {
    let mut p = post_process();
    p.post_process_prompts = vec![prompt("b"), prompt("b")];
    assert_eq!(
        delete_post_process_prompt(&mut p, "b".to_string()),
        failed("Cannot delete the last prompt")
    );
    assert_eq!(p.post_process_prompts, vec![prompt("b"), prompt("b")]);
    assert_eq!(p.post_process_selected_prompt_id.as_deref(), Some("b"));
}

#[test]
fn prompts_of_one_millisecond_get_different_ids() {
    let mut p = post_process();
    p.post_process_prompts.push(prompt("prompt_7"));
    let mut add = |millis: i64| {
        add_post_process_prompt_at(&mut p, millis, "n".to_string(), "t".to_string())
            .0
            .id
    };
    assert_eq!(add(5), "prompt_5");
    assert_eq!(add(5), "prompt_6");
    assert_eq!(add(5), "prompt_8");
    assert_eq!(add(8), "prompt_9");
    assert_eq!(add(i64::MAX), "prompt_9223372036854775807");
    assert_eq!(add(i64::MAX), "prompt_9223372036854775808");
    assert_eq!(add(-1), "prompt_-1");
    for _ in 0..50 {
        add_post_process_prompt(&mut p, "n".to_string(), "t".to_string()).unwrap();
    }
    let mut ids: Vec<&str> = p.post_process_prompts.iter().map(|q| q.id.as_str()).collect();
    let count = ids.len();
    ids.sort();
    ids.dedup();
    assert_eq!(ids.len(), count);
}

#[test]
fn only_a_prompt_that_exists_is_selected() {
    let mut p = post_process();
    assert_eq!(
        set_post_process_selected_prompt(&mut p, "z".to_string()),
        failed("Prompt with id 'z' not found")
    );
    assert_eq!(p, post_process());
    assert_eq!(
        set_post_process_selected_prompt(&mut p, "c".to_string()),
        saved()
    );
    assert_eq!(p.post_process_selected_prompt_id.as_deref(), Some("c"));
}
