//! Commands that change one setting each.
//!
//! A command changes the settings it is given and returns what is left to do.
use vstd::prelude::*;

use crate::effect;
use crate::effect::{Effect, SettingValue};
use crate::settings::{
    AcceleratorSettings, AppSettings, AppearanceSettings, AutoSubmitKey, ClipboardHandling,
    DictationSettings, OrtAcceleratorSetting, OutputSettings, OverlayPosition, OverlayStyle,
    PasteMethod, SoundTheme, StartupSettings, Theme, TranscribeAcceleratorSetting, TypingTool,
    WindowTheme,
};
use crate::text;
use crate::text::{same_text, trim};

verus! {

/// The command succeeds and leaves `expected` to do.
pub open spec fn does(
    res: Result<Vec<Effect>, String>,
    expected: Seq<effect::EffectSpec>,
) -> bool {
    res matches Ok(calls) && effect::effects(calls@) == expected
}

/// The frontend is told that the flag `setting` is now `on`.
pub open spec fn flag_changed(setting: Seq<char>, on: bool) -> effect::EffectSpec {
    effect::EffectSpec::EmitSettingChanged { setting, value: effect::ValueSpec::Flag(on) }
}

/// The settings are saved.
pub(crate) fn saved() -> (res: Result<Vec<Effect>, String>)
    ensures
        does(res, seq![effect::EffectSpec::SaveSettings]),
{
    let calls = vec![Effect::SaveSettings];
    assert(effect::effects(calls@) =~= seq![effect::EffectSpec::SaveSettings]);
    Ok(calls)
}

/// The settings are saved, and one more thing is done.
fn saved_and(call: Effect) -> (res: Result<Vec<Effect>, String>)
    ensures
        does(res, seq![effect::EffectSpec::SaveSettings, call@]),
{
    let calls = vec![Effect::SaveSettings, call];
    assert(effect::effects(calls@) =~= seq![effect::EffectSpec::SaveSettings, call@]);
    Ok(calls)
}

/// The settings are saved, and two more things are done.
fn saved_and_both(first: Effect, second: Effect) -> (res: Result<Vec<Effect>, String>)
    ensures
        does(res, seq![effect::EffectSpec::SaveSettings, first@, second@]),
{
    let calls = vec![Effect::SaveSettings, first, second];
    assert(effect::effects(calls@) =~= seq![effect::EffectSpec::SaveSettings, first@, second@]);
    Ok(calls)
}

/// Tells the frontend that the flag `setting` is now `on`.
fn emit_flag(setting: &str, on: bool) -> (call: Effect)
    ensures
        call@ == flag_changed(setting@, on),
{
    Effect::EmitSettingChanged { setting: setting.to_owned(), value: SettingValue::Flag(on) }
}

// ---------------------------------------------------------------------------
// Plain values
// ---------------------------------------------------------------------------

/// Turns push-to-talk on or off.
pub fn change_ptt_setting(
    settings: &mut AppSettings,
    enabled: bool,
) -> (res: Result<Vec<Effect>, String>)
    ensures
        *final(settings) == (AppSettings {
            dictation: (DictationSettings { push_to_talk: enabled, ..old(settings).dictation }),
            ..*old(settings)
        }),
        does(res, seq![effect::EffectSpec::SaveSettings]),
{
    settings.dictation.push_to_talk = enabled;
    saved()
}

/// Allows a push-to-talk hold to go hands-free, or not.
pub fn change_ptt_hands_free_setting(
    settings: &mut AppSettings,
    enabled: bool,
) -> (res: Result<Vec<Effect>, String>)
    ensures
        *final(settings) == (AppSettings {
            dictation: (DictationSettings {
                push_to_talk_hands_free: enabled,
                ..old(settings).dictation
            }),
            ..*old(settings)
        }),
        does(res, seq![effect::EffectSpec::SaveSettings]),
{
    settings.dictation.push_to_talk_hands_free = enabled;
    saved()
}

/// Turns the sounds on or off.
pub fn change_audio_feedback_setting(
    settings: &mut AppSettings,
    enabled: bool,
) -> (res: Result<Vec<Effect>, String>)
    ensures
        *final(settings) == (AppSettings {
            appearance: (AppearanceSettings {
                audio_feedback: enabled,
                ..old(settings).appearance
            }),
            ..*old(settings)
        }),
        does(res, seq![effect::EffectSpec::SaveSettings]),
{
    settings.appearance.audio_feedback = enabled;
    saved()
}

/// Turns translation to English on or off.
pub fn change_translate_to_english_setting(
    settings: &mut AppSettings,
    enabled: bool,
) -> (res: Result<Vec<Effect>, String>)
    ensures
        *final(settings) == (AppSettings {
            output: (OutputSettings { translate_to_english: enabled, ..old(settings).output }),
            ..*old(settings)
        }),
        does(res, seq![effect::EffectSpec::SaveSettings]),
{
    settings.output.translate_to_english = enabled;
    saved()
}

/// Turns reliable pasting on or off.
pub fn change_reliable_paste_setting(
    settings: &mut AppSettings,
    enabled: bool,
) -> (res: Result<Vec<Effect>, String>)
    ensures
        *final(settings) == (AppSettings {
            output: (OutputSettings { reliable_paste: enabled, ..old(settings).output }),
            ..*old(settings)
        }),
        does(res, seq![effect::EffectSpec::SaveSettings]),
{
    settings.output.reliable_paste = enabled;
    saved()
}

/// Turns submitting after a paste on or off.
pub fn change_auto_submit_setting(
    settings: &mut AppSettings,
    enabled: bool,
) -> (res: Result<Vec<Effect>, String>)
    ensures
        *final(settings) == (AppSettings {
            output: (OutputSettings { auto_submit: enabled, ..old(settings).output }),
            ..*old(settings)
        }),
        does(res, seq![effect::EffectSpec::SaveSettings]),
{
    settings.output.auto_submit = enabled;
    saved()
}

/// Mutes other sound while recording, or not.
pub fn change_mute_while_recording_setting(
    settings: &mut AppSettings,
    enabled: bool,
) -> (res: Result<Vec<Effect>, String>)
    ensures
        *final(settings) == (AppSettings {
            dictation: (DictationSettings {
                mute_while_recording: enabled,
                ..old(settings).dictation
            }),
            ..*old(settings)
        }),
        does(res, seq![effect::EffectSpec::SaveSettings]),
{
    settings.dictation.mute_while_recording = enabled;
    saved()
}

/// Appends a space to every transcript, or not.
pub fn change_append_trailing_space_setting(
    settings: &mut AppSettings,
    enabled: bool,
) -> (res: Result<Vec<Effect>, String>)
    ensures
        *final(settings) == (AppSettings {
            output: (OutputSettings { append_trailing_space: enabled, ..old(settings).output }),
            ..*old(settings)
        }),
        does(res, seq![effect::EffectSpec::SaveSettings]),
{
    settings.output.append_trailing_space = enabled;
    saved()
}

/// Keeps the microphone open between recordings, or not.
pub fn change_lazy_stream_close_setting(
    settings: &mut AppSettings,
    enabled: bool,
) -> (res: Result<Vec<Effect>, String>)
    ensures
        *final(settings) == (AppSettings {
            dictation: (DictationSettings {
                lazy_stream_close: enabled,
                ..old(settings).dictation
            }),
            ..*old(settings)
        }),
        does(res, seq![effect::EffectSpec::SaveSettings]),
{
    settings.dictation.lazy_stream_close = enabled;
    saved()
}

/// Turns voice activity detection on or off.
pub fn change_vad_enabled_setting(
    settings: &mut AppSettings,
    enabled: bool,
) -> (res: Result<Vec<Effect>, String>)
    ensures
        *final(settings) == (AppSettings {
            dictation: (DictationSettings { vad_enabled: enabled, ..old(settings).dictation }),
            ..*old(settings)
        }),
        does(res, seq![effect::EffectSpec::SaveSettings]),
{
    settings.dictation.vad_enabled = enabled;
    saved()
}

/// Sets how long a recording goes on after its end.
pub fn change_extra_recording_buffer_setting(
    settings: &mut AppSettings,
    ms: u64,
) -> (res: Result<Vec<Effect>, String>)
    ensures
        *final(settings) == (AppSettings {
            dictation: (DictationSettings {
                extra_recording_buffer_ms: ms,
                ..old(settings).dictation
            }),
            ..*old(settings)
        }),
        does(res, seq![effect::EffectSpec::SaveSettings]),
{
    settings.dictation.extra_recording_buffer_ms = ms;
    saved()
}

/// Sets the delay before a paste.
pub fn change_paste_delay_ms_setting(
    settings: &mut AppSettings,
    ms: u64,
) -> (res: Result<Vec<Effect>, String>)
    ensures
        *final(settings) == (AppSettings {
            output: (OutputSettings { paste_delay_ms: ms, ..old(settings).output }),
            ..*old(settings)
        }),
        does(res, seq![effect::EffectSpec::SaveSettings]),
{
    settings.output.paste_delay_ms = ms;
    saved()
}

/// Sets the delay after a paste.
pub fn change_paste_delay_after_ms_setting(
    settings: &mut AppSettings,
    ms: u64,
) -> (res: Result<Vec<Effect>, String>)
    ensures
        *final(settings) == (AppSettings {
            output: (OutputSettings { paste_delay_after_ms: ms, ..old(settings).output }),
            ..*old(settings)
        }),
        does(res, seq![effect::EffectSpec::SaveSettings]),
{
    settings.output.paste_delay_after_ms = ms;
    saved()
}

/// Sets the language that is transcribed.
pub fn change_selected_language_setting(
    settings: &mut AppSettings,
    language: String,
) -> (res: Result<Vec<Effect>, String>)
    ensures
        *final(settings) == (AppSettings {
            output: (OutputSettings { selected_language: language, ..old(settings).output }),
            ..*old(settings)
        }),
        does(res, seq![effect::EffectSpec::SaveSettings]),
{
    settings.output.selected_language = language;
    saved()
}

/// Replaces the custom words.
pub fn update_custom_words(
    settings: &mut AppSettings,
    words: Vec<String>,
) -> (res: Result<Vec<Effect>, String>)
    ensures
        *final(settings) == (AppSettings {
            output: (OutputSettings { custom_words: words, ..old(settings).output }),
            ..*old(settings)
        }),
        does(res, seq![effect::EffectSpec::SaveSettings]),
{
    settings.output.custom_words = words;
    saved()
}

/// Sets the script that pastes, if any.
pub fn change_external_script_path_setting(
    settings: &mut AppSettings,
    path: Option<String>,
) -> (res: Result<Vec<Effect>, String>)
    ensures
        *final(settings) == (AppSettings {
            output: (OutputSettings { external_script_path: path, ..old(settings).output }),
            ..*old(settings)
        }),
        does(res, seq![effect::EffectSpec::SaveSettings]),
{
    settings.output.external_script_path = path;
    saved()
}

// ---------------------------------------------------------------------------
// Choices by name
// ---------------------------------------------------------------------------

/// The sound theme of that name; marimba for "marimba" and any other.
pub open spec fn sound_theme_named(name: Seq<char>) -> SoundTheme {
    if name == "pop"@ {
        SoundTheme::Pop
    } else if name == "custom"@ {
        SoundTheme::Custom
    } else {
        SoundTheme::Marimba
    }
}

/// The sound theme of that name; marimba for "marimba" and any other.
fn parse_sound_theme(name: &str) -> (choice: SoundTheme)
    ensures
        choice == sound_theme_named(name@),
{
    if same_text(name, "pop") {
        SoundTheme::Pop
    } else if same_text(name, "custom") {
        SoundTheme::Custom
    } else {
        SoundTheme::Marimba
    }
}

/// Sets the sound theme.
pub fn change_sound_theme_setting(
    settings: &mut AppSettings,
    theme: String,
) -> (res: Result<Vec<Effect>, String>)
    ensures
        *final(settings) == (AppSettings {
            appearance: (AppearanceSettings {
                sound_theme: sound_theme_named(theme@),
                ..old(settings).appearance
            }),
            ..*old(settings)
        }),
        does(res, seq![effect::EffectSpec::SaveSettings]),
{
    let parsed = parse_sound_theme(theme.as_str());
    settings.appearance.sound_theme = parsed;
    saved()
}

/// The theme of that name; that of the system for "system" and any other.
pub open spec fn theme_named(name: Seq<char>) -> Theme {
    if name == "light"@ {
        Theme::Light
    } else if name == "dark"@ {
        Theme::Dark
    } else {
        Theme::System
    }
}

/// The theme of that name; that of the system for "system" and any other.
fn parse_theme(name: &str) -> (choice: Theme)
    ensures
        choice == theme_named(name@),
{
    if same_text(name, "light") {
        Theme::Light
    } else if same_text(name, "dark") {
        Theme::Dark
    } else {
        Theme::System
    }
}

/// The theme that a window is forced into.
pub open spec fn window_theme(theme: Theme) -> Option<WindowTheme> {
    match theme {
        Theme::System => None,
        Theme::Light => Some(WindowTheme::Light),
        Theme::Dark => Some(WindowTheme::Dark),
    }
}

/// Applies the appearance setting to the Windows title bar, which the styles of
/// the page cannot reach. `System` clears the override so the window follows
/// Windows. Call this on startup and whenever the setting changes to keep the
/// title bar in sync with the in-app palette.
pub fn apply_window_theme(theme: Theme) -> (call: Effect)
    ensures
        call@ == effect::EffectSpec::ApplyWindowTheme(window_theme(theme)),
{
    Effect::ApplyWindowTheme(
        match theme {
            Theme::System => None,
            Theme::Light => Some(WindowTheme::Light),
            Theme::Dark => Some(WindowTheme::Dark),
        },
    )
}

/// Sets the theme, and applies it to the title bar.
pub fn change_theme_setting(
    settings: &mut AppSettings,
    theme: String,
) -> (res: Result<Vec<Effect>, String>)
    ensures
        *final(settings) == (AppSettings {
            appearance: (AppearanceSettings {
                theme: theme_named(theme@),
                ..old(settings).appearance
            }),
            ..*old(settings)
        }),
        does(
            res,
            seq![
                effect::EffectSpec::SaveSettings,
                effect::EffectSpec::ApplyWindowTheme(window_theme(theme_named(theme@))),
            ],
        ),
{
    let parsed = parse_theme(theme.as_str());
    settings.appearance.theme = parsed;
    saved_and(apply_window_theme(parsed))
}

/// The overlay position of that name; the bottom for "bottom", for "none", which
/// is retired, and for any other.
pub open spec fn overlay_position_named(name: Seq<char>) -> OverlayPosition {
    if name == "top"@ {
        OverlayPosition::Top
    } else {
        OverlayPosition::Bottom
    }
}

/// The overlay position of that name; the bottom for "bottom", for "none", which
/// is retired, and for any other.
fn parse_overlay_position(name: &str) -> (choice: OverlayPosition)
    ensures
        choice == overlay_position_named(name@),
{
    if same_text(name, "top") {
        OverlayPosition::Top
    } else {
        OverlayPosition::Bottom
    }
}

/// Whether the overlay shows at all is owned by its style; the position only ever
/// toggles top and bottom.
pub fn change_overlay_position_setting(
    settings: &mut AppSettings,
    position: String,
) -> (res: Result<Vec<Effect>, String>)
    ensures
        *final(settings) == (AppSettings {
            appearance: (AppearanceSettings {
                overlay_position: overlay_position_named(position@),
                ..old(settings).appearance
            }),
            ..*old(settings)
        }),
        does(
            res,
            seq![
                effect::EffectSpec::SaveSettings,
                effect::EffectSpec::UpdateOverlayPosition,
            ],
        ),
{
    let parsed = parse_overlay_position(position.as_str());
    settings.appearance.overlay_position = parsed;
    saved_and(Effect::UpdateOverlayPosition)
}

/// The overlay style of that name; minimal for "minimal" and any other.
pub open spec fn overlay_style_named(name: Seq<char>) -> OverlayStyle {
    if name == "none"@ {
        OverlayStyle::Hidden
    } else if name == "live"@ {
        OverlayStyle::Live
    } else {
        OverlayStyle::Minimal
    }
}

/// The overlay style of that name; minimal for "minimal" and any other.
fn parse_overlay_style(name: &str) -> (choice: OverlayStyle)
    ensures
        choice == overlay_style_named(name@),
{
    if same_text(name, "none") {
        OverlayStyle::Hidden
    } else if same_text(name, "live") {
        OverlayStyle::Live
    } else {
        OverlayStyle::Minimal
    }
}

/// The overlay is repositioned in case its window needs to re-center for the new
/// style.
pub fn change_overlay_style_setting(
    settings: &mut AppSettings,
    style: String,
) -> (res: Result<Vec<Effect>, String>)
    ensures
        *final(settings) == (AppSettings {
            appearance: (AppearanceSettings {
                overlay_style: overlay_style_named(style@),
                ..old(settings).appearance
            }),
            ..*old(settings)
        }),
        does(
            res,
            seq![
                effect::EffectSpec::SaveSettings,
                effect::EffectSpec::SetOverlayEnabled(
                    overlay_style_named(style@) != OverlayStyle::Hidden,
                ),
                effect::EffectSpec::UpdateOverlayPosition,
            ],
        ),
{
    let parsed = parse_overlay_style(style.as_str());
    settings.appearance.overlay_style = parsed;
    saved_and_both(
        Effect::SetOverlayEnabled(parsed != OverlayStyle::Hidden),
        Effect::UpdateOverlayPosition,
    )
}

/// The paste method of that name; Ctrl+V for "ctrl_v" and any other.
pub open spec fn paste_method_named(name: Seq<char>) -> PasteMethod {
    if name == "direct"@ {
        PasteMethod::Direct
    } else if name == "none"@ {
        PasteMethod::Off
    } else if name == "shift_insert"@ {
        PasteMethod::ShiftInsert
    } else if name == "ctrl_shift_v"@ {
        PasteMethod::CtrlShiftV
    } else if name == "external_script"@ {
        PasteMethod::ExternalScript
    } else {
        PasteMethod::CtrlV
    }
}

/// The paste method of that name; Ctrl+V for "ctrl_v" and any other.
fn parse_paste_method(name: &str) -> (choice: PasteMethod)
    ensures
        choice == paste_method_named(name@),
{
    if same_text(name, "direct") {
        PasteMethod::Direct
    } else if same_text(name, "none") {
        PasteMethod::Off
    } else if same_text(name, "shift_insert") {
        PasteMethod::ShiftInsert
    } else if same_text(name, "ctrl_shift_v") {
        PasteMethod::CtrlShiftV
    } else if same_text(name, "external_script") {
        PasteMethod::ExternalScript
    } else {
        PasteMethod::CtrlV
    }
}

/// Sets how transcripts are pasted.
pub fn change_paste_method_setting(
    settings: &mut AppSettings,
    method: String,
) -> (res: Result<Vec<Effect>, String>)
    ensures
        *final(settings) == (AppSettings {
            output: (OutputSettings {
                paste_method: paste_method_named(method@),
                ..old(settings).output
            }),
            ..*old(settings)
        }),
        does(res, seq![effect::EffectSpec::SaveSettings]),
{
    let parsed = parse_paste_method(method.as_str());
    settings.output.paste_method = parsed;
    saved()
}

/// The typing tool of that name; the automatic choice for "auto" and any other.
pub open spec fn typing_tool_named(name: Seq<char>) -> TypingTool {
    if name == "wtype"@ {
        TypingTool::Wtype
    } else if name == "kwtype"@ {
        TypingTool::Kwtype
    } else if name == "dotool"@ {
        TypingTool::Dotool
    } else if name == "ydotool"@ {
        TypingTool::Ydotool
    } else if name == "xdotool"@ {
        TypingTool::Xdotool
    } else {
        TypingTool::Auto
    }
}

/// The typing tool of that name; the automatic choice for "auto" and any other.
fn parse_typing_tool(name: &str) -> (choice: TypingTool)
    ensures
        choice == typing_tool_named(name@),
{
    if same_text(name, "wtype") {
        TypingTool::Wtype
    } else if same_text(name, "kwtype") {
        TypingTool::Kwtype
    } else if same_text(name, "dotool") {
        TypingTool::Dotool
    } else if same_text(name, "ydotool") {
        TypingTool::Ydotool
    } else if same_text(name, "xdotool") {
        TypingTool::Xdotool
    } else {
        TypingTool::Auto
    }
}

/// Sets the tool that types transcripts.
pub fn change_typing_tool_setting(
    settings: &mut AppSettings,
    tool: String,
) -> (res: Result<Vec<Effect>, String>)
    ensures
        *final(settings) == (AppSettings {
            output: (OutputSettings {
                typing_tool: typing_tool_named(tool@),
                ..old(settings).output
            }),
            ..*old(settings)
        }),
        does(res, seq![effect::EffectSpec::SaveSettings]),
{
    let parsed = parse_typing_tool(tool.as_str());
    settings.output.typing_tool = parsed;
    saved()
}

/// The clipboard handling of that name; no change for "dont_modify" and any other.
pub open spec fn clipboard_handling_named(name: Seq<char>) -> ClipboardHandling {
    if name == "copy_to_clipboard"@ {
        ClipboardHandling::CopyToClipboard
    } else {
        ClipboardHandling::DontModify
    }
}

/// The clipboard handling of that name; no change for "dont_modify" and any other.
fn parse_clipboard_handling(name: &str) -> (choice: ClipboardHandling)
    ensures
        choice == clipboard_handling_named(name@),
{
    if same_text(name, "copy_to_clipboard") {
        ClipboardHandling::CopyToClipboard
    } else {
        ClipboardHandling::DontModify
    }
}

/// Sets what becomes of the clipboard.
pub fn change_clipboard_handling_setting(
    settings: &mut AppSettings,
    handling: String,
) -> (res: Result<Vec<Effect>, String>)
    ensures
        *final(settings) == (AppSettings {
            output: (OutputSettings {
                clipboard_handling: clipboard_handling_named(handling@),
                ..old(settings).output
            }),
            ..*old(settings)
        }),
        does(res, seq![effect::EffectSpec::SaveSettings]),
{
    let parsed = parse_clipboard_handling(handling.as_str());
    settings.output.clipboard_handling = parsed;
    saved()
}

/// The submit key of that name; Enter for "enter" and any other.
pub open spec fn auto_submit_key_named(name: Seq<char>) -> AutoSubmitKey {
    if name == "ctrl_enter"@ {
        AutoSubmitKey::CtrlEnter
    } else if name == "cmd_enter"@ {
        AutoSubmitKey::CmdEnter
    } else {
        AutoSubmitKey::Enter
    }
}

/// The submit key of that name; Enter for "enter" and any other.
fn parse_auto_submit_key(name: &str) -> (choice: AutoSubmitKey)
    ensures
        choice == auto_submit_key_named(name@),
{
    if same_text(name, "ctrl_enter") {
        AutoSubmitKey::CtrlEnter
    } else if same_text(name, "cmd_enter") {
        AutoSubmitKey::CmdEnter
    } else {
        AutoSubmitKey::Enter
    }
}

/// Sets the key that submits.
pub fn change_auto_submit_key_setting(
    settings: &mut AppSettings,
    key: String,
) -> (res: Result<Vec<Effect>, String>)
    ensures
        *final(settings) == (AppSettings {
            output: (OutputSettings {
                auto_submit_key: auto_submit_key_named(key@),
                ..old(settings).output
            }),
            ..*old(settings)
        }),
        does(res, seq![effect::EffectSpec::SaveSettings]),
{
    let parsed = parse_auto_submit_key(key.as_str());
    settings.output.auto_submit_key = parsed;
    saved()
}

/// The typing tools to choose from: those that were detected, or the automatic
/// choice where there is nothing to detect.
pub fn get_available_typing_tools(detected: Option<Vec<String>>) -> (tools: Vec<String>)
    ensures
        match detected {
            Some(found) => tools == found,
            None => text::texts(tools@) == seq!["auto"@],
        },
{
    match detected {
        Some(found) => found,
        None => {
            let tools = vec!["auto".to_owned()];
            assert(text::texts(tools@) =~= seq!["auto"@]);
            tools
        },
    }
}

// ---------------------------------------------------------------------------
// Settings that others hear of
// ---------------------------------------------------------------------------

/// The live log viewer only exists in debug mode, so logs are forwarded to the
/// frontend only while it is on.
pub fn change_debug_mode_setting(
    settings: &mut AppSettings,
    enabled: bool,
) -> (res: Result<Vec<Effect>, String>)
    ensures
        *final(settings) == (AppSettings {
            appearance: (AppearanceSettings { debug_mode: enabled, ..old(settings).appearance }),
            ..*old(settings)
        }),
        does(
            res,
            seq![
                effect::EffectSpec::SaveSettings,
                effect::EffectSpec::StreamLogs(enabled),
                flag_changed("debug_mode"@, enabled),
            ],
        ),
{
    settings.appearance.debug_mode = enabled;
    saved_and_both(Effect::StreamLogs(enabled), emit_flag("debug_mode", enabled))
}

/// Starts the application hidden, or not.
pub fn change_start_hidden_setting(
    settings: &mut AppSettings,
    enabled: bool,
) -> (res: Result<Vec<Effect>, String>)
    ensures
        *final(settings) == (AppSettings {
            startup: (StartupSettings { start_hidden: enabled, ..old(settings).startup }),
            ..*old(settings)
        }),
        does(res, seq![effect::EffectSpec::SaveSettings, flag_changed("start_hidden"@, enabled)]),
{
    settings.startup.start_hidden = enabled;
    saved_and(emit_flag("start_hidden", enabled))
}

/// Starts the application at login, or not, from now on.
pub fn change_autostart_setting(
    settings: &mut AppSettings,
    enabled: bool,
) -> (res: Result<Vec<Effect>, String>)
    ensures
        *final(settings) == (AppSettings {
            startup: (StartupSettings { autostart_enabled: enabled, ..old(settings).startup }),
            ..*old(settings)
        }),
        does(
            res,
            seq![
                effect::EffectSpec::SaveSettings,
                effect::EffectSpec::ApplyAutostart(enabled),
                flag_changed("autostart_enabled"@, enabled),
            ],
        ),
{
    settings.startup.autostart_enabled = enabled;
    saved_and_both(Effect::ApplyAutostart(enabled), emit_flag("autostart_enabled", enabled))
}

/// Turns update checks on or off.
pub fn change_update_checks_setting(
    settings: &mut AppSettings,
    enabled: bool,
) -> (res: Result<Vec<Effect>, String>)
    ensures
        *final(settings) == (AppSettings {
            startup: (StartupSettings { update_checks_enabled: enabled, ..old(settings).startup }),
            ..*old(settings)
        }),
        does(
            res,
            seq![
                effect::EffectSpec::SaveSettings,
                flag_changed("update_checks_enabled"@, enabled),
            ],
        ),
{
    settings.startup.update_checks_enabled = enabled;
    saved_and(emit_flag("update_checks_enabled", enabled))
}

/// Shows what is new after an update, or not.
pub fn change_show_whats_new_on_update_setting(
    settings: &mut AppSettings,
    enabled: bool,
) -> (res: Result<Vec<Effect>, String>)
    ensures
        *final(settings) == (AppSettings {
            startup: (StartupSettings {
                show_whats_new_on_update: enabled,
                ..old(settings).startup
            }),
            ..*old(settings)
        }),
        does(
            res,
            seq![
                effect::EffectSpec::SaveSettings,
                flag_changed("show_whats_new_on_update"@, enabled),
            ],
        ),
{
    settings.startup.show_whats_new_on_update = enabled;
    saved_and(emit_flag("show_whats_new_on_update", enabled))
}

/// Notes the version whose news were last seen, without surrounding white space.
pub fn change_whats_new_last_seen_version_setting(
    settings: &mut AppSettings,
    version: String,
) -> (res: Result<Vec<Effect>, String>)
    ensures
        final(settings).startup.whats_new_last_seen_version@ == text::trimmed(version@),
        *final(settings) == (AppSettings {
            startup: (StartupSettings {
                whats_new_last_seen_version: final(settings).startup.whats_new_last_seen_version,
                ..old(settings).startup
            }),
            ..*old(settings)
        }),
        does(
            res,
            seq![
                effect::EffectSpec::SaveSettings,
                effect::EffectSpec::EmitSettingChanged {
                    setting: "whats_new_last_seen_version"@,
                    value: effect::ValueSpec::Text(text::trimmed(version@)),
                },
            ],
        ),
{
    let version = trim(version.as_str()).to_owned();
    settings.startup.whats_new_last_seen_version = version.clone();
    saved_and(
        Effect::EmitSettingChanged {
            setting: "whats_new_last_seen_version".to_owned(),
            value: SettingValue::Text(version),
        },
    )
}

/// The tray menu is refreshed with the new language.
pub fn change_app_language_setting(
    settings: &mut AppSettings,
    language: String,
) -> (res: Result<Vec<Effect>, String>)
    ensures
        *final(settings) == (AppSettings {
            appearance: (AppearanceSettings { app_language: language, ..old(settings).appearance }),
            ..*old(settings)
        }),
        does(
            res,
            seq![
                effect::EffectSpec::SaveSettings,
                effect::EffectSpec::UpdateTrayMenu { language: language@ },
            ],
        ),
{
    settings.appearance.app_language = language.clone();
    saved_and(Effect::UpdateTrayMenu { language })
}

/// Shows the tray icon, or not, from now on.
pub fn change_show_tray_icon_setting(
    settings: &mut AppSettings,
    enabled: bool,
) -> (res: Result<Vec<Effect>, String>)
    ensures
        *final(settings) == (AppSettings {
            appearance: (AppearanceSettings {
                show_tray_icon: enabled,
                ..old(settings).appearance
            }),
            ..*old(settings)
        }),
        does(
            res,
            seq![
                effect::EffectSpec::SaveSettings,
                effect::EffectSpec::SetTrayVisibility(enabled),
            ],
        ),
{
    settings.appearance.show_tray_icon = enabled;
    saved_and(Effect::SetTrayVisibility(enabled))
}

// ---------------------------------------------------------------------------
// Accelerators
// ---------------------------------------------------------------------------

/// Save accelerator settings and make the next model use reload with them.
/// The currently running transcription, if any, keeps its existing engine.
fn save_accelerator_and_reload_next_use() -> (res: Result<Vec<Effect>, String>)
    ensures
        does(
            res,
            seq![effect::EffectSpec::SaveSettings, effect::EffectSpec::ReloadModelOnNextUse],
        ),
{
    saved_and(Effect::ReloadModelOnNextUse)
}

/// Sets the accelerator of transcription.
pub fn change_transcribe_accelerator_setting(
    settings: &mut AppSettings,
    accelerator: TranscribeAcceleratorSetting,
) -> (res: Result<Vec<Effect>, String>)
    ensures
        *final(settings) == (AppSettings {
            accelerators: (AcceleratorSettings {
                transcribe_accelerator: accelerator,
                ..old(settings).accelerators
            }),
            ..*old(settings)
        }),
        does(res, seq![effect::EffectSpec::SaveSettings, effect::EffectSpec::ReloadModelOnNextUse]),
{
    settings.accelerators.transcribe_accelerator = accelerator;
    save_accelerator_and_reload_next_use()
}

/// Sets the accelerator of the ONNX runtime.
pub fn change_ort_accelerator_setting(
    settings: &mut AppSettings,
    accelerator: OrtAcceleratorSetting,
) -> (res: Result<Vec<Effect>, String>)
    ensures
        *final(settings) == (AppSettings {
            accelerators: (AcceleratorSettings {
                ort_accelerator: accelerator,
                ..old(settings).accelerators
            }),
            ..*old(settings)
        }),
        does(res, seq![effect::EffectSpec::SaveSettings, effect::EffectSpec::ReloadModelOnNextUse]),
{
    settings.accelerators.ort_accelerator = accelerator;
    save_accelerator_and_reload_next_use()
}

/// Sets the device that transcription runs on.
pub fn change_transcribe_gpu_device(
    settings: &mut AppSettings,
    device: i32,
) -> (res: Result<Vec<Effect>, String>)
    ensures
        *final(settings) == (AppSettings {
            accelerators: (AcceleratorSettings {
                transcribe_gpu_device: device,
                ..old(settings).accelerators
            }),
            ..*old(settings)
        }),
        does(res, seq![effect::EffectSpec::SaveSettings, effect::EffectSpec::ReloadModelOnNextUse]),
{
    settings.accelerators.transcribe_gpu_device = device;
    save_accelerator_and_reload_next_use()
}

// ---------------------------------------------------------------------------
// What names and results stand for
// ---------------------------------------------------------------------------

/// A command that does something succeeds with exactly those effects, in that order.
pub proof fn doing_is_succeeding_with_these_effects(
    res: Result<Vec<Effect>, String>,
    expected: Seq<effect::EffectSpec>,
)
    ensures
        does(res, expected) <==> {
            &&& res is Ok
            &&& res->Ok_0@.len() == expected.len()
            &&& forall|i: int|
                0 <= i < expected.len() ==> (#[trigger] res->Ok_0@[i])@ == expected[i]
        },
{
    if res is Ok {
        let calls = res->Ok_0@;
        let seen = effect::effects(calls);
        if calls.len() == expected.len() && (forall|i: int|
            0 <= i < expected.len() ==> (#[trigger] calls[i])@ == expected[i]) {
            assert(seen =~= expected);
        }
        if seen == expected {
            assert forall|i: int| 0 <= i < expected.len() implies (#[trigger] calls[i])@
                == expected[i] by {
                assert(seen[i] == calls[i]@);
            }
        }
    }
}

/// The frontend is told the name of the flag and its value.
pub proof fn a_changed_flag_is_told_by_name(setting: Seq<char>, on: bool)
    ensures
        match flag_changed(setting, on) {
            effect::EffectSpec::EmitSettingChanged {
                setting: told,
                value: effect::ValueSpec::Flag(value),
            } => told == setting && value == on,
            _ => false,
        },
{
}

/// A window is forced into the theme that is chosen, and into none where that is the
/// one of the system.
pub proof fn a_window_follows_its_theme(theme: Theme)
    ensures
        window_theme(theme) is None <==> theme == Theme::System,
        window_theme(theme) == Some(WindowTheme::Light) <==> theme == Theme::Light,
        window_theme(theme) == Some(WindowTheme::Dark) <==> theme == Theme::Dark,
{
}

/// Each sound theme goes by its own name, and any other name stands for marimba.
pub proof fn a_sound_theme_goes_by_its_name(name: Seq<char>)
    ensures
        sound_theme_named(name) == SoundTheme::Pop <==> name == "pop"@,
        sound_theme_named(name) == SoundTheme::Custom <==> name == "custom"@,
        sound_theme_named(name) == SoundTheme::Marimba <==> name != "pop"@ && name != "custom"@,
{
    reveal_strlit("pop");
    reveal_strlit("custom");
    assert("pop"@.len() != "custom"@.len());
}

/// Each theme goes by its own name, and any other name stands for that of the system.
pub proof fn a_theme_goes_by_its_name(name: Seq<char>)
    ensures
        theme_named(name) == Theme::Light <==> name == "light"@,
        theme_named(name) == Theme::Dark <==> name == "dark"@,
        theme_named(name) == Theme::System <==> name != "light"@ && name != "dark"@,
{
    reveal_strlit("light");
    reveal_strlit("dark");
    assert("light"@.len() != "dark"@.len());
}

/// The top goes by its own name, and any other name stands for the bottom.
pub proof fn an_overlay_position_goes_by_its_name(name: Seq<char>)
    ensures
        overlay_position_named(name) == OverlayPosition::Top <==> name == "top"@,
        overlay_position_named(name) == OverlayPosition::Bottom <==> name != "top"@,
{
}

/// Each overlay style goes by its own name, and any other name stands for the
/// minimal one.
pub proof fn an_overlay_style_goes_by_its_name(name: Seq<char>)
    ensures
        overlay_style_named(name) == OverlayStyle::Hidden <==> name == "none"@,
        overlay_style_named(name) == OverlayStyle::Live <==> name == "live"@,
        overlay_style_named(name) == OverlayStyle::Minimal <==> name != "none"@ && name != "live"@,
{
    reveal_strlit("none");
    reveal_strlit("live");
    assert("none"@[0] != "live"@[0]);
}

/// Each paste method goes by its own name, and any other name stands for Ctrl+V.
pub proof fn a_paste_method_goes_by_its_name(name: Seq<char>)
    ensures
        paste_method_named(name) == PasteMethod::Direct <==> name == "direct"@,
        paste_method_named(name) == PasteMethod::Off <==> name == "none"@,
        paste_method_named(name) == PasteMethod::ShiftInsert <==> name == "shift_insert"@,
        paste_method_named(name) == PasteMethod::CtrlShiftV <==> name == "ctrl_shift_v"@,
        paste_method_named(name) == PasteMethod::ExternalScript <==> name == "external_script"@,
        paste_method_named(name) == PasteMethod::CtrlV <==> name != "direct"@ && name != "none"@ && name != "shift_insert"@ && name != "ctrl_shift_v"@ && name != "external_script"@,
{
    reveal_strlit("direct");
    reveal_strlit("none");
    reveal_strlit("shift_insert");
    reveal_strlit("ctrl_shift_v");
    reveal_strlit("external_script");
    assert("direct"@.len() != "none"@.len());
    assert("direct"@.len() != "shift_insert"@.len());
    assert("none"@.len() != "shift_insert"@.len());
    assert("direct"@.len() != "ctrl_shift_v"@.len());
    assert("none"@.len() != "ctrl_shift_v"@.len());
    assert("shift_insert"@[0] != "ctrl_shift_v"@[0]);
    assert("direct"@.len() != "external_script"@.len());
    assert("none"@.len() != "external_script"@.len());
    assert("shift_insert"@.len() != "external_script"@.len());
    assert("ctrl_shift_v"@.len() != "external_script"@.len());
}

/// Each typing tool goes by its own name, and any other name stands for the
/// automatic choice.
pub proof fn a_typing_tool_goes_by_its_name(name: Seq<char>)
    ensures
        typing_tool_named(name) == TypingTool::Wtype <==> name == "wtype"@,
        typing_tool_named(name) == TypingTool::Kwtype <==> name == "kwtype"@,
        typing_tool_named(name) == TypingTool::Dotool <==> name == "dotool"@,
        typing_tool_named(name) == TypingTool::Ydotool <==> name == "ydotool"@,
        typing_tool_named(name) == TypingTool::Xdotool <==> name == "xdotool"@,
        typing_tool_named(name) == TypingTool::Auto <==> name != "wtype"@ && name != "kwtype"@ && name != "dotool"@ && name != "ydotool"@ && name != "xdotool"@,
{
    reveal_strlit("wtype");
    reveal_strlit("kwtype");
    reveal_strlit("dotool");
    reveal_strlit("ydotool");
    reveal_strlit("xdotool");
    assert("wtype"@.len() != "kwtype"@.len());
    assert("wtype"@.len() != "dotool"@.len());
    assert("kwtype"@[0] != "dotool"@[0]);
    assert("wtype"@.len() != "ydotool"@.len());
    assert("kwtype"@.len() != "ydotool"@.len());
    assert("dotool"@.len() != "ydotool"@.len());
    assert("wtype"@.len() != "xdotool"@.len());
    assert("kwtype"@.len() != "xdotool"@.len());
    assert("dotool"@.len() != "xdotool"@.len());
    assert("ydotool"@[0] != "xdotool"@[0]);
}

/// Copying goes by its own name, and any other name stands for leaving the clipboard
/// alone.
pub proof fn clipboard_handling_goes_by_its_name(name: Seq<char>)
    ensures
        clipboard_handling_named(name) == ClipboardHandling::CopyToClipboard <==> name == "copy_to_clipboard"@,
        clipboard_handling_named(name) == ClipboardHandling::DontModify <==> name != "copy_to_clipboard"@,
{
}

/// Each submit key goes by its own name, and any other name stands for Enter.
pub proof fn a_submit_key_goes_by_its_name(name: Seq<char>)
    ensures
        auto_submit_key_named(name) == AutoSubmitKey::CtrlEnter <==> name == "ctrl_enter"@,
        auto_submit_key_named(name) == AutoSubmitKey::CmdEnter <==> name == "cmd_enter"@,
        auto_submit_key_named(name) == AutoSubmitKey::Enter <==> name != "ctrl_enter"@ && name != "cmd_enter"@,
{
    reveal_strlit("ctrl_enter");
    reveal_strlit("cmd_enter");
    assert("ctrl_enter"@.len() != "cmd_enter"@.len());
}

} // verus!
