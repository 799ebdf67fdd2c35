//! What a command asks of the application around it.
use vstd::prelude::*;

use crate::settings::{KeyboardImplementation, ShortcutBinding, WindowTheme};
use crate::text;

verus! {

/// The value of a setting, as the frontend is told of it.
#[derive(Debug, PartialEq, Eq)]
pub enum SettingValue {
    Flag(bool),
    Text(String),
}

/// The value of a setting, in the abstract.
pub ghost enum ValueSpec {
    Flag(bool),
    Text(Seq<char>),
}

impl View for SettingValue {
    type V = ValueSpec;

    open spec fn view(&self) -> ValueSpec {
        match self {
            SettingValue::Flag(b) => ValueSpec::Flag(*b),
            SettingValue::Text(t) => ValueSpec::Text(t@),
        }
    }
}

/// One thing for the application to do. Effects are performed in the order in
/// which they are listed.
#[derive(Debug, PartialEq, Eq)]
pub enum Effect {
    /// Store the settings as the command left them.
    SaveSettings,
    /// Tell the frontend that `setting` changed.
    EmitSettingChanged { setting: String, value: SettingValue },
    /// Tell the frontend that the keyboard implementation changed, and which
    /// bindings fell back to their defaults.
    EmitImplementationChanged { name: String, reset_bindings: Vec<String> },
    /// Forward logs to the frontend, or stop.
    StreamLogs(bool),
    /// Start the application at login, or stop doing so.
    ApplyAutostart(bool),
    /// On Windows, force the title bar into a theme, or let it follow the
    /// system.
    ApplyWindowTheme(Option<WindowTheme>),
    /// Note whether the overlay shows at all.
    SetOverlayEnabled(bool),
    /// Put the overlay where the settings say.
    UpdateOverlayPosition,
    /// Rebuild the tray menu in `language`.
    UpdateTrayMenu { language: String },
    SetTrayVisibility(bool),
    /// Make the next use of the model load it anew.
    ReloadModelOnNextUse,
    /// Register a shortcut. The command goes on whether or not this succeeds.
    Register { implementation: KeyboardImplementation, binding: ShortcutBinding },
    /// Unregister a shortcut. The command goes on whether or not this succeeds.
    Unregister { implementation: KeyboardImplementation, binding: ShortcutBinding },
    RegisterCancel(KeyboardImplementation),
    UnregisterCancel(KeyboardImplementation),
    /// Begin to shadow the cancel shortcut while secure input is on.
    RegisterCancelFallback,
    UnregisterCancelFallback,
    /// Bring the shadows of secure input in line with the settings.
    ReconcileFallback,
    /// Set the implementation up and register all its shortcuts.
    InitShortcuts(KeyboardImplementation),
}

/// An effect, in the abstract.
pub ghost enum EffectSpec {
    SaveSettings,
    EmitSettingChanged { setting: Seq<char>, value: ValueSpec },
    EmitImplementationChanged { name: Seq<char>, reset_bindings: Seq<Seq<char>> },
    StreamLogs(bool),
    ApplyAutostart(bool),
    ApplyWindowTheme(Option<WindowTheme>),
    SetOverlayEnabled(bool),
    UpdateOverlayPosition,
    UpdateTrayMenu { language: Seq<char> },
    SetTrayVisibility(bool),
    ReloadModelOnNextUse,
    Register { implementation: KeyboardImplementation, binding: ShortcutBinding },
    Unregister { implementation: KeyboardImplementation, binding: ShortcutBinding },
    RegisterCancel(KeyboardImplementation),
    UnregisterCancel(KeyboardImplementation),
    RegisterCancelFallback,
    UnregisterCancelFallback,
    ReconcileFallback,
    InitShortcuts(KeyboardImplementation),
}

impl View for Effect {
    type V = EffectSpec;

    open spec fn view(&self) -> EffectSpec {
        match self {
            Effect::SaveSettings => EffectSpec::SaveSettings,
            Effect::EmitSettingChanged { setting, value } => EffectSpec::EmitSettingChanged {
                setting: setting@,
                value: value@,
            },
            Effect::EmitImplementationChanged { name, reset_bindings } =>
                EffectSpec::EmitImplementationChanged {
                name: name@,
                reset_bindings: text::texts(reset_bindings@),
            },
            Effect::StreamLogs(on) => EffectSpec::StreamLogs(*on),
            Effect::ApplyAutostart(on) => EffectSpec::ApplyAutostart(*on),
            Effect::ApplyWindowTheme(theme) => EffectSpec::ApplyWindowTheme(*theme),
            Effect::SetOverlayEnabled(on) => EffectSpec::SetOverlayEnabled(*on),
            Effect::UpdateOverlayPosition => EffectSpec::UpdateOverlayPosition,
            Effect::UpdateTrayMenu { language } => EffectSpec::UpdateTrayMenu {
                language: language@,
            },
            Effect::SetTrayVisibility(on) => EffectSpec::SetTrayVisibility(*on),
            Effect::ReloadModelOnNextUse => EffectSpec::ReloadModelOnNextUse,
            Effect::Register { implementation, binding } => EffectSpec::Register {
                implementation: *implementation,
                binding: *binding,
            },
            Effect::Unregister { implementation, binding } => EffectSpec::Unregister {
                implementation: *implementation,
                binding: *binding,
            },
            Effect::RegisterCancel(i) => EffectSpec::RegisterCancel(*i),
            Effect::UnregisterCancel(i) => EffectSpec::UnregisterCancel(*i),
            Effect::RegisterCancelFallback => EffectSpec::RegisterCancelFallback,
            Effect::UnregisterCancelFallback => EffectSpec::UnregisterCancelFallback,
            Effect::ReconcileFallback => EffectSpec::ReconcileFallback,
            Effect::InitShortcuts(i) => EffectSpec::InitShortcuts(*i),
        }
    }
}

/// A list of effects, in the abstract.
pub open spec fn effects(list: Seq<Effect>) -> Seq<EffectSpec> {
    list.map_values(|e: Effect| e@)
}

/// The shortcuts that are live after the effects have been performed, where
/// `live` were before.
pub open spec fn live_after(
    live: Set<ShortcutBinding>,
    effects: Seq<EffectSpec>,
) -> Set<ShortcutBinding>
    decreases effects.len(),
{
    if effects.len() == 0 {
        live
    } else {
        let before = live_after(live, effects.drop_last());
        match effects.last() {
            EffectSpec::Register { binding, .. } => before.insert(binding),
            EffectSpec::Unregister { binding, .. } => before.remove(binding),
            _ => before,
        }
    }
}

// ---------------------------------------------------------------------------
// What an effect stands for
// ---------------------------------------------------------------------------

/// An effect stands for what it says: the same request, with the same values.
pub proof fn an_effect_means_its_fields(
    setting: String,
    flag: bool,
    value: String,
    names: Vec<String>,
    theme: Option<WindowTheme>,
    implementation: KeyboardImplementation,
    binding: ShortcutBinding,
)
    ensures
        Effect::SaveSettings@ == EffectSpec::SaveSettings,
        (Effect::EmitSettingChanged { setting, value: SettingValue::Flag(flag) })@ == (
        EffectSpec::EmitSettingChanged { setting: setting@, value: ValueSpec::Flag(flag) }),
        (Effect::EmitSettingChanged { setting, value: SettingValue::Text(value) })@ == (
        EffectSpec::EmitSettingChanged { setting: setting@, value: ValueSpec::Text(value@) }),
        (Effect::EmitImplementationChanged { name: value, reset_bindings: names })@ == (
        EffectSpec::EmitImplementationChanged {
            name: value@,
            reset_bindings: text::texts(names@),
        }),
        Effect::StreamLogs(flag)@ == EffectSpec::StreamLogs(flag),
        Effect::ApplyAutostart(flag)@ == EffectSpec::ApplyAutostart(flag),
        Effect::ApplyWindowTheme(theme)@ == EffectSpec::ApplyWindowTheme(theme),
        Effect::SetOverlayEnabled(flag)@ == EffectSpec::SetOverlayEnabled(flag),
        Effect::UpdateOverlayPosition@ == EffectSpec::UpdateOverlayPosition,
        (Effect::UpdateTrayMenu { language: value })@ == (EffectSpec::UpdateTrayMenu {
            language: value@,
        }),
        Effect::SetTrayVisibility(flag)@ == EffectSpec::SetTrayVisibility(flag),
        Effect::ReloadModelOnNextUse@ == EffectSpec::ReloadModelOnNextUse,
        (Effect::Register { implementation, binding })@ == (EffectSpec::Register {
            implementation,
            binding,
        }),
        (Effect::Unregister { implementation, binding })@ == (EffectSpec::Unregister {
            implementation,
            binding,
        }),
        Effect::RegisterCancel(implementation)@ == EffectSpec::RegisterCancel(implementation),
        Effect::UnregisterCancel(implementation)@ == EffectSpec::UnregisterCancel(implementation),
        Effect::RegisterCancelFallback@ == EffectSpec::RegisterCancelFallback,
        Effect::UnregisterCancelFallback@ == EffectSpec::UnregisterCancelFallback,
        Effect::ReconcileFallback@ == EffectSpec::ReconcileFallback,
        Effect::InitShortcuts(implementation)@ == EffectSpec::InitShortcuts(implementation),
{
}

/// A list of effects stands for each of them, in the same order.
pub proof fn a_list_means_its_effects(list: Seq<Effect>)
    ensures
        effects(list).len() == list.len(),
        forall|i: int| 0 <= i < list.len() ==> #[trigger] effects(list)[i] == list[i]@,
{
}

/// Registering a shortcut makes it live, unregistering it makes it no longer live,
/// and nothing else has a say in what is live.
pub proof fn only_registrations_change_what_is_live(
    live: Set<ShortcutBinding>,
    done: Seq<EffectSpec>,
    next: EffectSpec,
    b: ShortcutBinding,
)
    ensures
        live_after(live, Seq::empty()) == live,
        live_after(live, done.push(next)).contains(b) <==> (next is Register
            && next->Register_binding == b) || (live_after(live, done).contains(b) && !(
        next is Unregister && next->Unregister_binding == b)),
{
    assert(done.push(next).drop_last() =~= done);
}

} // verus!
