//! The settings that the shortcut commands read and change.
use vstd::prelude::*;

use crate::string_map::StringMap;
use crate::text::same_text;

verus! {

/// A shortcut: what it is called, what it is by default, and what the user has
/// set it to.
#[derive(Debug, PartialEq, Eq)]
pub struct ShortcutBinding {
    pub id: String,
    pub default_binding: String,
    pub current_binding: String,
}

impl Clone for ShortcutBinding {
    fn clone(&self) -> (res: Self)
        ensures
            res == *self,
    {
        ShortcutBinding {
            id: self.id.clone(),
            default_binding: self.default_binding.clone(),
            current_binding: self.current_binding.clone(),
        }
    }
}

/// A prompt for post-processing.
#[derive(Debug, PartialEq, Eq)]
pub struct LLMPrompt {
    pub id: String,
    pub name: String,
    pub prompt: String,
}

impl Clone for LLMPrompt {
    fn clone(&self) -> (res: Self)
        ensures
            res == *self,
    {
        LLMPrompt {
            id: self.id.clone(),
            name: self.name.clone(),
            prompt: self.prompt.clone(),
        }
    }
}

/// A service that post-processes transcripts.
#[derive(Debug, PartialEq, Eq)]
pub struct PostProcessProvider {
    pub id: String,
    pub label: String,
    pub base_url: String,
}

impl Clone for PostProcessProvider {
    fn clone(&self) -> (res: Self)
        ensures
            res == *self,
    {
        PostProcessProvider {
            id: self.id.clone(),
            label: self.label.clone(),
            base_url: self.base_url.clone(),
        }
    }
}

/// The library through which shortcuts are registered.
#[derive(Debug, Clone, Copy, PartialEq, Eq, Structural)]
pub enum KeyboardImplementation {
    Tauri,
    HandyKeys,
}

#[derive(Debug, Clone, Copy, PartialEq, Eq, Structural)]
pub enum SoundTheme {
    Marimba,
    Pop,
    Custom,
}

#[derive(Debug, Clone, Copy, PartialEq, Eq, Structural)]
pub enum Theme {
    System,
    Light,
    Dark,
}

/// A theme that a window is forced into.
#[derive(Debug, Clone, Copy, PartialEq, Eq, Structural)]
pub enum WindowTheme {
    Light,
    Dark,
}

#[derive(Debug, Clone, Copy, PartialEq, Eq, Structural)]
pub enum OverlayPosition {
    Top,
    Bottom,
}

#[derive(Debug, Clone, Copy, PartialEq, Eq, Structural)]
pub enum OverlayStyle {
    /// The overlay is not shown.
    Hidden,
    Minimal,
    Live,
}

#[derive(Debug, Clone, Copy, PartialEq, Eq, Structural)]
pub enum PasteMethod {
    CtrlV,
    Direct,
    /// The transcript is not pasted.
    Off,
    ShiftInsert,
    CtrlShiftV,
    ExternalScript,
}

#[derive(Debug, Clone, Copy, PartialEq, Eq, Structural)]
pub enum TypingTool {
    Auto,
    Wtype,
    Kwtype,
    Dotool,
    Ydotool,
    Xdotool,
}

#[derive(Debug, Clone, Copy, PartialEq, Eq, Structural)]
pub enum ClipboardHandling {
    DontModify,
    CopyToClipboard,
}

#[derive(Debug, Clone, Copy, PartialEq, Eq, Structural)]
pub enum AutoSubmitKey {
    Enter,
    CtrlEnter,
    CmdEnter,
}

/// The accelerator that transcription runs on, by name.
#[derive(Debug, PartialEq, Eq)]
pub struct TranscribeAcceleratorSetting {
    pub name: String,
}

/// The accelerator that the ONNX runtime runs on, by name.
#[derive(Debug, PartialEq, Eq)]
pub struct OrtAcceleratorSetting {
    pub name: String,
}

/// How a recording is begun, held and ended.
#[derive(Debug, PartialEq, Eq)]
pub struct DictationSettings {
    pub push_to_talk: bool,
    pub push_to_talk_hands_free: bool,
    pub hands_free_used: bool,
    pub mute_while_recording: bool,
    pub lazy_stream_close: bool,
    pub vad_enabled: bool,
    pub extra_recording_buffer_ms: u64,
}

/// What becomes of a transcript.
#[derive(Debug, PartialEq, Eq)]
pub struct OutputSettings {
    pub translate_to_english: bool,
    pub selected_language: String,
    pub custom_words: Vec<String>,
    pub append_trailing_space: bool,
    pub paste_method: PasteMethod,
    pub paste_delay_ms: u64,
    pub paste_delay_after_ms: u64,
    pub reliable_paste: bool,
    pub typing_tool: TypingTool,
    pub external_script_path: Option<String>,
    pub clipboard_handling: ClipboardHandling,
    pub auto_submit: bool,
    pub auto_submit_key: AutoSubmitKey,
}

/// What the user sees and hears.
#[derive(Debug, PartialEq, Eq)]
pub struct AppearanceSettings {
    pub audio_feedback: bool,
    pub sound_theme: SoundTheme,
    pub theme: Theme,
    pub overlay_position: OverlayPosition,
    pub overlay_style: OverlayStyle,
    pub app_language: String,
    pub show_tray_icon: bool,
    pub debug_mode: bool,
}

/// What happens when the application starts.
#[derive(Debug, PartialEq, Eq)]
pub struct StartupSettings {
    pub start_hidden: bool,
    pub autostart_enabled: bool,
    pub update_checks_enabled: bool,
    pub show_whats_new_on_update: bool,
    pub whats_new_last_seen_version: String,
}

/// How transcripts are post-processed.
#[derive(Debug, PartialEq, Eq)]
pub struct PostProcessSettings {
    pub experimental_enabled: bool,
    pub post_process_enabled: bool,
    pub post_process_provider_id: String,
    pub post_process_providers: Vec<PostProcessProvider>,
    pub post_process_api_keys: StringMap<String>,
    pub post_process_models: StringMap<String>,
    pub post_process_prompts: Vec<LLMPrompt>,
    pub post_process_selected_prompt_id: Option<String>,
}

/// What the models run on.
#[derive(Debug, PartialEq, Eq)]
pub struct AcceleratorSettings {
    pub transcribe_accelerator: TranscribeAcceleratorSetting,
    pub ort_accelerator: OrtAcceleratorSetting,
    pub transcribe_gpu_device: i32,
}

/// The settings of the application.
#[derive(Debug, PartialEq, Eq)]
pub struct AppSettings {
    pub bindings: StringMap<ShortcutBinding>,
    pub keyboard_implementation: KeyboardImplementation,
    pub dictation: DictationSettings,
    pub output: OutputSettings,
    pub appearance: AppearanceSettings,
    pub startup: StartupSettings,
    pub post_process: PostProcessSettings,
    pub accelerators: AcceleratorSettings,
}

/// `i` is where the first provider with the id `id` stands.
pub open spec fn provider_at(providers: Seq<PostProcessProvider>, id: Seq<char>, i: int) -> bool {
    &&& 0 <= i < providers.len()
    &&& providers[i].id@ == id
    &&& forall|j: int| 0 <= j < i ==> (#[trigger] providers[j]).id@ != id
}

/// There is a provider with the id `id`.
pub open spec fn provider_exists(providers: Seq<PostProcessProvider>, id: Seq<char>) -> bool {
    exists|i: int| 0 <= i < providers.len() && (#[trigger] providers[i]).id@ == id
}

impl PostProcessSettings {
    /// Post-processing is on: its own toggle is, and so is the experimental
    /// gate.
    pub open spec fn active(self) -> bool {
        self.post_process_enabled && self.experimental_enabled
    }

    /// Where the first provider with the id `id` stands.
    pub fn post_process_provider(&self, id: &str) -> (at: Option<usize>)
        ensures
            match at {
                Some(i) => provider_at(self.post_process_providers@, id@, i as int),
                None => !provider_exists(self.post_process_providers@, id@),
            },
    {
        let mut i: usize = 0;
        while i < self.post_process_providers.len()
            invariant
                i <= self.post_process_providers@.len(),
                forall|j: int|
                    0 <= j < i ==> (#[trigger] self.post_process_providers@[j]).id@ != id@,
            decreases self.post_process_providers@.len() - i,
        {
            if same_text(self.post_process_providers[i].id.as_str(), id) {
                return Some(i);
            }
            i = i + 1;
        }
        None
    }
}

impl AppSettings {
    /// Post-processing is on.
    pub open spec fn post_processes(self) -> bool {
        self.post_process.active()
    }

    /// Whether post-processing is on.
    pub fn post_process_active(&self) -> (active: bool)
        ensures
            active == self.post_processes(),
    {
        self.post_process.post_process_enabled && self.post_process.experimental_enabled
    }
}

/// A provider that exists has a first place.
pub proof fn a_provider_that_exists_has_a_first_place(
    providers: Seq<PostProcessProvider>,
    id: Seq<char>,
)
    requires
        provider_exists(providers, id),
    ensures
        exists|i: int| provider_at(providers, id, i),
    decreases providers.len(),
{
    let rest = providers.drop_last();
    if provider_exists(rest, id) {
        a_provider_that_exists_has_a_first_place(rest, id);
        let i = choose|i: int| provider_at(rest, id, i);
        assert forall|j: int| 0 <= j < i implies (#[trigger] providers[j]).id@ != id by {
            assert(rest[j] == providers[j]);
        }
        assert(provider_at(providers, id, i));
    } else {
        let last = providers.len() - 1;
        let k = choose|k: int| 0 <= k < providers.len() && (#[trigger] providers[k]).id@ == id;
        assert(k < rest.len() ==> rest[k] == providers[k]);
        assert forall|j: int| 0 <= j < last implies (#[trigger] providers[j]).id@ != id by {
            assert(rest[j] == providers[j]);
        }
        assert(provider_at(providers, id, last));
    }
}

/// There is one first place only.
pub proof fn the_first_provider_is_unique(
    providers: Seq<PostProcessProvider>,
    id: Seq<char>,
    i: int,
    j: int,
)
    requires
        provider_at(providers, id, i),
        provider_at(providers, id, j),
    ensures
        i == j,
        provider_exists(providers, id),
{
}

/// Post-processing is on exactly if both its toggle and the experimental gate are.
pub proof fn post_processing_needs_both_toggles(settings: AppSettings)
    ensures
        settings.post_processes() <==> settings.post_process.post_process_enabled
            && settings.post_process.experimental_enabled,
        settings.post_process.active() <==> settings.post_processes(),
{
}

/// A provider exists exactly if one of the list has the id; its first place is the
/// least such.
pub proof fn a_provider_is_found_by_its_id(
    providers: Seq<PostProcessProvider>,
    id: Seq<char>,
    i: int,
)
    ensures
        0 <= i < providers.len() && providers[i].id@ == id ==> provider_exists(providers, id),
        provider_at(providers, id, i) ==> 0 <= i < providers.len() && providers[i].id@ == id,
        provider_exists(providers, id) ==> exists|k: int|
            0 <= k < providers.len() && (#[trigger] providers[k]).id@ == id,
        provider_at(providers, id, i) ==> forall|j: int|
            0 <= j < providers.len() && (#[trigger] providers[j]).id@ == id ==> i <= j,
        0 <= i < providers.len() && providers[i].id@ == id && (forall|j: int|
            0 <= j < providers.len() && (#[trigger] providers[j]).id@ == id ==> i <= j)
            ==> provider_at(providers, id, i),
{
}

} // verus!
