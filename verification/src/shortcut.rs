//! Registering and unregistering shortcuts.
use vstd::prelude::*;

use crate::effect;
use crate::effect::Effect;
use crate::settings::{AppSettings, KeyboardImplementation, ShortcutBinding};
use crate::stage::TRANSCRIBE_WITH_POST_PROCESS;
use crate::string_map::StringMap;
use crate::text::same_text;

verus! {

/// `id` names a binding that is registered only while a recording is in flight.
pub open spec fn dynamic(id: Seq<char>) -> bool {
    id == "cancel"@ || id == "hands_free"@
}

/// Bindings that are registered only while a recording is in flight, so they
/// are skipped everywhere the full set of shortcuts is registered in bulk.
pub fn is_dynamic_binding(id: &str) -> (res: bool)
    ensures
        res == dynamic(id@),
{
    same_text(id, "cancel") || same_text(id, "hands_free")
}

// ---------------------------------------------------------------------------
// One shortcut
// ---------------------------------------------------------------------------

/// Register with an already-known implementation, for callers that have just
/// read settings and shouldn't pay for a second lookup.
pub fn register_shortcut_with(
    implementation: KeyboardImplementation,
    binding: ShortcutBinding,
) -> (call: Effect)
    ensures
        call@ == (effect::EffectSpec::Register { implementation, binding }),
{
    Effect::Register { implementation, binding }
}

/// Unregister counterpart of [`register_shortcut_with`].
pub fn unregister_shortcut_with(
    implementation: KeyboardImplementation,
    binding: ShortcutBinding,
) -> (call: Effect)
    ensures
        call@ == (effect::EffectSpec::Unregister { implementation, binding }),
{
    Effect::Unregister { implementation, binding }
}

/// Register a shortcut using the configured implementation.
pub fn register_shortcut(settings: &AppSettings, binding: ShortcutBinding) -> (call: Effect)
    ensures
        call@ == (effect::EffectSpec::Register {
            implementation: settings.keyboard_implementation,
            binding,
        }),
{
    register_shortcut_with(settings.keyboard_implementation, binding)
}

/// Unregister a shortcut using the configured implementation.
pub fn unregister_shortcut(settings: &AppSettings, binding: ShortcutBinding) -> (call: Effect)
    ensures
        call@ == (effect::EffectSpec::Unregister {
            implementation: settings.keyboard_implementation,
            binding,
        }),
{
    unregister_shortcut_with(settings.keyboard_implementation, binding)
}

/// Register the cancel shortcut (called when recording starts). The recording
/// is tracked independently of the current implementation, so switching
/// implementations mid-recording cannot leave stale fallback state.
pub fn register_cancel_shortcut(settings: &AppSettings) -> (calls: Vec<Effect>)
    ensures
        effect::effects(calls@) == seq![
            effect::EffectSpec::RegisterCancelFallback,
            effect::EffectSpec::RegisterCancel(settings.keyboard_implementation),
        ],
{
    vec![
        Effect::RegisterCancelFallback,
        Effect::RegisterCancel(settings.keyboard_implementation),
    ]
}

/// Unregister the cancel shortcut (called when recording stops).
pub fn unregister_cancel_shortcut(settings: &AppSettings) -> (calls: Vec<Effect>)
    ensures
        effect::effects(calls@) == seq![
            effect::EffectSpec::UnregisterCancelFallback,
            effect::EffectSpec::UnregisterCancel(settings.keyboard_implementation),
        ],
{
    vec![
        Effect::UnregisterCancelFallback,
        Effect::UnregisterCancel(settings.keyboard_implementation),
    ]
}

// ---------------------------------------------------------------------------
// All shortcuts
// ---------------------------------------------------------------------------

/// The binding `id` is handled in bulk: it is not dynamic, and the
/// post-processing shortcut is among them only if `post_process` says so.
pub open spec fn in_bulk(id: Seq<char>, post_process: bool) -> bool {
    !dynamic(id) && (id == TRANSCRIBE_WITH_POST_PROCESS@ ==> post_process)
}

/// Those of the bindings `keys` that are handled in bulk, in order.
pub open spec fn bulk_ids(keys: Seq<Seq<char>>, post_process: bool) -> Seq<Seq<char>>
    decreases keys.len(),
{
    if keys.len() == 0 {
        Seq::empty()
    } else {
        let before = bulk_ids(keys.drop_last(), post_process);
        if in_bulk(keys.last(), post_process) {
            before.push(keys.last())
        } else {
            before
        }
    }
}

/// The calls that unregister the bindings `ids`.
pub open spec fn unregistrations(
    ids: Seq<Seq<char>>,
    bindings: Map<Seq<char>, ShortcutBinding>,
    implementation: KeyboardImplementation,
) -> Seq<effect::EffectSpec> {
    ids.map_values(
        |id: Seq<char>|
            effect::EffectSpec::Unregister { implementation, binding: bindings[id] },
    )
}

/// The calls that register the bindings `ids`.
pub open spec fn registrations(
    ids: Seq<Seq<char>>,
    bindings: Map<Seq<char>, ShortcutBinding>,
    implementation: KeyboardImplementation,
) -> Seq<effect::EffectSpec> {
    ids.map_values(
        |id: Seq<char>| effect::EffectSpec::Register { implementation, binding: bindings[id] },
    )
}

/// Whether the binding `id` is handled in bulk.
pub fn is_in_bulk(id: &str, post_process: bool) -> (res: bool)
    ensures
        res == in_bulk(id@, post_process),
{
    !is_dynamic_binding(id) && (post_process || !same_text(id, TRANSCRIBE_WITH_POST_PROCESS))
}

/// Unregister all shortcuts of an implementation. Dynamically registered
/// shortcuts are skipped.
pub fn unregister_all_shortcuts(
    bindings: &StringMap<ShortcutBinding>,
    implementation: KeyboardImplementation,
) -> (calls: Vec<Effect>)
    ensures
        effect::effects(calls@) == unregistrations(
            bulk_ids(bindings.keys(), true),
            bindings@,
            implementation,
        ),
{
    let mut calls: Vec<Effect> = Vec::new();
    let mut i: usize = 0;
    let n = bindings.len();
    assert(effect::effects(calls@) =~= unregistrations(
        bulk_ids(bindings.keys().take(0), true),
        bindings@,
        implementation,
    ));
    while i < n
        invariant
            n == bindings.keys().len(),
            i <= n,
            effect::effects(calls@) == unregistrations(
                bulk_ids(bindings.keys().take(i as int), true),
                bindings@,
                implementation,
            ),
        decreases n - i,
    {
        let ghost next = bindings.keys().take(i as int + 1);
        let ghost before = effect::effects(calls@);
        assert(next.drop_last() =~= bindings.keys().take(i as int));
        if is_in_bulk(bindings.key_at(i).as_str(), true) {
            calls.push(unregister_shortcut_with(implementation, bindings.value_at(i).clone()));
            assert(effect::effects(calls@) =~= before.push(calls@.last()@));
            assert(effect::effects(calls@) =~= unregistrations(
                bulk_ids(next, true),
                bindings@,
                implementation,
            ));
        }
        i = i + 1;
    }
    assert(bindings.keys().take(i as int) =~= bindings.keys());
    calls
}

/// Unregister every binding while the user is recording a new shortcut in
/// the UI, so no existing shortcut can fire — or swallow the keystrokes —
/// mid-capture. Dynamic bindings are untouched: they are managed by the
/// recording lifecycle.
pub fn suspend_all_shortcuts(settings: &AppSettings) -> (calls: Vec<Effect>)
    ensures
        effect::effects(calls@) == unregistrations(
            bulk_ids(settings.bindings.keys(), true),
            settings.bindings@,
            settings.keyboard_implementation,
        ),
{
    unregister_all_shortcuts(&settings.bindings, settings.keyboard_implementation)
}

/// Re-register every binding from settings after shortcut recording ends,
/// except the post-processing shortcut while post-processing is off.
/// Registering an already-registered shortcut fails cleanly in both
/// implementations, so this is idempotent and safe on every exit path.
pub fn resume_all_shortcuts(settings: &AppSettings) -> (calls: Vec<Effect>)
    ensures
        effect::effects(calls@) == registrations(
            bulk_ids(settings.bindings.keys(), settings.post_processes()),
            settings.bindings@,
            settings.keyboard_implementation,
        ),
{
    let bindings = &settings.bindings;
    let implementation = settings.keyboard_implementation;
    let post_process = settings.post_process_active();
    let mut calls: Vec<Effect> = Vec::new();
    let mut i: usize = 0;
    let n = bindings.len();
    assert(effect::effects(calls@) =~= registrations(
        bulk_ids(bindings.keys().take(0), post_process),
        bindings@,
        implementation,
    ));
    while i < n
        invariant
            n == bindings.keys().len(),
            i <= n,
            effect::effects(calls@) == registrations(
                bulk_ids(bindings.keys().take(i as int), post_process),
                bindings@,
                implementation,
            ),
        decreases n - i,
    {
        let ghost next = bindings.keys().take(i as int + 1);
        let ghost before = effect::effects(calls@);
        assert(next.drop_last() =~= bindings.keys().take(i as int));
        if is_in_bulk(bindings.key_at(i).as_str(), post_process) {
            calls.push(register_shortcut_with(implementation, bindings.value_at(i).clone()));
            assert(effect::effects(calls@) =~= before.push(calls@.last()@));
            assert(effect::effects(calls@) =~= registrations(
                bulk_ids(next, post_process),
                bindings@,
                implementation,
            ));
        }
        i = i + 1;
    }
    assert(bindings.keys().take(i as int) =~= bindings.keys());
    calls
}

/// Temporarily unregister all bindings while the user is recording a
/// shortcut in the UI. This avoids firing actions while keys are recorded.
pub fn suspend_all_bindings(settings: &AppSettings) -> (res: Result<Vec<Effect>, String>)
    ensures
        res matches Ok(calls) && effect::effects(calls@) == unregistrations(
            bulk_ids(settings.bindings.keys(), true),
            settings.bindings@,
            settings.keyboard_implementation,
        ),
{
    Ok(suspend_all_shortcuts(settings))
}

/// Re-register all bindings after the user has finished recording.
pub fn resume_all_bindings(settings: &AppSettings) -> (res: Result<Vec<Effect>, String>)
    ensures
        res matches Ok(calls) && effect::effects(calls@) == registrations(
            bulk_ids(settings.bindings.keys(), settings.post_processes()),
            settings.bindings@,
            settings.keyboard_implementation,
        ),
{
    Ok(resume_all_shortcuts(settings))
}

// ---------------------------------------------------------------------------
// What holds of the bulk calls
// ---------------------------------------------------------------------------

/// What is handled in bulk is exactly what was given, less the dynamic bindings
/// and, while post-processing is off, its shortcut; nothing comes twice that did
/// not before.
pub proof fn bulk_leaves_out_the_dynamic_bindings(
    keys: Seq<Seq<char>>,
    post_process: bool,
    id: Seq<char>,
)
    ensures
        bulk_ids(keys, post_process).contains(id) <==> keys.contains(id) && in_bulk(
            id,
            post_process,
        ),
        keys.no_duplicates() ==> bulk_ids(keys, post_process).no_duplicates(),
    decreases keys.len(),
{
    let all = bulk_ids(keys, post_process);
    if keys.len() > 0 {
        let rest = keys.drop_last();
        let before = bulk_ids(rest, post_process);
        bulk_leaves_out_the_dynamic_bindings(rest, post_process, id);
        bulk_leaves_out_the_dynamic_bindings(rest, post_process, keys.last());
        assert(keys[keys.len() - 1] == keys.last());
        if keys.contains(id) {
            let i = choose|i: int| 0 <= i < keys.len() && keys[i] == id;
            if i < rest.len() {
                assert(rest[i] == id);
            }
        }
        if rest.contains(id) {
            let i = choose|i: int| 0 <= i < rest.len() && rest[i] == id;
            assert(keys[i] == id);
        }
        if before.contains(id) {
            let i = choose|i: int| 0 <= i < before.len() && before[i] == id;
            assert(all[i] == id);
        }
        if in_bulk(keys.last(), post_process) {
            assert(all[before.len() as int] == keys.last());
        }
        if all.contains(id) && !before.contains(id) {
            let i = choose|i: int| 0 <= i < all.len() && all[i] == id;
            if i < before.len() {
                assert(before[i] == id);
            }
        }
        if keys.no_duplicates() {
            assert(rest.no_duplicates()) by {
                assert forall|i: int, j: int|
                    0 <= i < rest.len() && 0 <= j < rest.len() && i != j implies rest[i]
                    != rest[j] by {
                    assert(keys[i] == rest[i] && keys[j] == rest[j]);
                }
            }
            assert(!rest.contains(keys.last())) by {
                if rest.contains(keys.last()) {
                    let i = choose|i: int| 0 <= i < rest.len() && rest[i] == keys.last();
                    assert(keys[i] == keys[keys.len() - 1]);
                }
            }
            assert forall|i: int, j: int|
                0 <= i < all.len() && 0 <= j < all.len() && i != j implies all[i] != all[j] by {
                if all.len() > before.len() {
                    if i == before.len() {
                        assert(before.contains(before[j]));
                    } else if j == before.len() {
                        assert(before.contains(before[i]));
                    }
                }
            }
        }
    }
}

/// With post-processing on, resuming registers exactly what suspending
/// unregistered, in the same order; with it off, the same less its shortcut.
pub proof fn resuming_undoes_suspending(
    keys: Seq<Seq<char>>,
    bindings: Map<Seq<char>, ShortcutBinding>,
    implementation: KeyboardImplementation,
    post_process: bool,
    id: Seq<char>,
)
    ensures
        bulk_ids(keys, post_process).contains(id) <==> bulk_ids(keys, true).contains(id) && (id
            == TRANSCRIBE_WITH_POST_PROCESS@ ==> post_process),
        registrations(bulk_ids(keys, true), bindings, implementation) == unregistrations(
            bulk_ids(keys, true),
            bindings,
            implementation,
        ).map_values(
            |e: effect::EffectSpec|
                match e {
                    effect::EffectSpec::Unregister { implementation, binding } =>
                        effect::EffectSpec::Register { implementation, binding },
                    other => other,
                },
        ),
{
    bulk_leaves_out_the_dynamic_bindings(keys, true, id);
    bulk_leaves_out_the_dynamic_bindings(keys, post_process, id);
}

/// One of the bindings `ids` is `binding`.
pub open spec fn is_among(
    ids: Seq<Seq<char>>,
    bindings: Map<Seq<char>, ShortcutBinding>,
    binding: ShortcutBinding,
) -> bool {
    exists|i: int| 0 <= i < ids.len() && bindings[#[trigger] ids[i]] == binding
}

/// Unregistering bindings makes exactly those no longer live, registering them
/// makes exactly those live.
pub proof fn bulk_calls_reach_the_listed_bindings(
    live: Set<ShortcutBinding>,
    ids: Seq<Seq<char>>,
    bindings: Map<Seq<char>, ShortcutBinding>,
    implementation: KeyboardImplementation,
    binding: ShortcutBinding,
)
    ensures
        effect::live_after(live, unregistrations(ids, bindings, implementation)).contains(binding)
            <==> live.contains(binding) && !is_among(ids, bindings, binding),
        effect::live_after(live, registrations(ids, bindings, implementation)).contains(binding)
            <==> live.contains(binding) || is_among(ids, bindings, binding),
    decreases ids.len(),
{
    let off = unregistrations(ids, bindings, implementation);
    let on = registrations(ids, bindings, implementation);
    if ids.len() > 0 {
        let rest = ids.drop_last();
        bulk_calls_reach_the_listed_bindings(live, rest, bindings, implementation, binding);
        assert(off.drop_last() =~= unregistrations(rest, bindings, implementation));
        assert(on.drop_last() =~= registrations(rest, bindings, implementation));
        assert(ids[ids.len() - 1] == ids.last());
        if is_among(rest, bindings, binding) {
            let i = choose|i: int| 0 <= i < rest.len() && bindings[#[trigger] rest[i]] == binding;
            assert(bindings[ids[i]] == binding);
        }
        if is_among(ids, bindings, binding) {
            let i = choose|i: int| 0 <= i < ids.len() && bindings[#[trigger] ids[i]] == binding;
            if i < rest.len() {
                assert(bindings[rest[i]] == binding);
            }
        }
    }
}

/// Resuming is idempotent: doing it once more changes nothing, whatever is live.
pub proof fn resuming_twice_changes_nothing(
    live: Set<ShortcutBinding>,
    keys: Seq<Seq<char>>,
    bindings: Map<Seq<char>, ShortcutBinding>,
    implementation: KeyboardImplementation,
    post_process: bool,
)
    ensures
        ({
            let resume = registrations(bulk_ids(keys, post_process), bindings, implementation);
            let once = effect::live_after(live, resume);
            effect::live_after(once, resume) == once
        }),
{
    let ids = bulk_ids(keys, post_process);
    let resume = registrations(ids, bindings, implementation);
    let once = effect::live_after(live, resume);
    let twice = effect::live_after(once, resume);
    assert forall|b: ShortcutBinding| twice.contains(b) <==> once.contains(b) by {
        bulk_calls_reach_the_listed_bindings(live, ids, bindings, implementation, b);
        bulk_calls_reach_the_listed_bindings(once, ids, bindings, implementation, b);
    }
    assert(twice =~= once);
}

/// Suspending leaves no binding live but dynamic ones and those that the settings
/// do not hold, and resuming then restores what was live, where that is what the
/// settings ask for.
pub proof fn resuming_restores_what_was_live(
    live: Set<ShortcutBinding>,
    keys: Seq<Seq<char>>,
    bindings: Map<Seq<char>, ShortcutBinding>,
    implementation: KeyboardImplementation,
    post_process: bool,
)
    requires
        forall|b: ShortcutBinding| #[trigger]
            is_among(bulk_ids(keys, true), bindings, b) ==> (live.contains(b) <==> is_among(
                bulk_ids(keys, post_process),
                bindings,
                b,
            )),
    ensures
        ({
            let suspend = unregistrations(bulk_ids(keys, true), bindings, implementation);
            let resume = registrations(bulk_ids(keys, post_process), bindings, implementation);
            let suspended = effect::live_after(live, suspend);
            &&& forall|b: ShortcutBinding| #[trigger]
                suspended.contains(b) <==> live.contains(b) && !is_among(
                    bulk_ids(keys, true),
                    bindings,
                    b,
                )
            &&& effect::live_after(suspended, resume) == live
        }),
{
    let all = bulk_ids(keys, true);
    let ids = bulk_ids(keys, post_process);
    let suspended = effect::live_after(live, unregistrations(all, bindings, implementation));
    let resumed = effect::live_after(suspended, registrations(ids, bindings, implementation));
    assert forall|b: ShortcutBinding|
        #![trigger suspended.contains(b)]
        (suspended.contains(b) <==> live.contains(b) && !is_among(all, bindings, b)) && (
        resumed.contains(b) <==> live.contains(b)) by {
        bulk_calls_reach_the_listed_bindings(live, all, bindings, implementation, b);
        bulk_calls_reach_the_listed_bindings(suspended, ids, bindings, implementation, b);
        if is_among(ids, bindings, b) {
            let i = choose|i: int| 0 <= i < ids.len() && bindings[#[trigger] ids[i]] == b;
            assert(ids.contains(ids[i]));
            bulk_leaves_out_the_dynamic_bindings(keys, post_process, ids[i]);
            bulk_leaves_out_the_dynamic_bindings(keys, true, ids[i]);
            let k = choose|k: int| 0 <= k < all.len() && all[k] == ids[i];
            assert(bindings[all[k]] == b);
        }
    }
    assert forall|b: ShortcutBinding| resumed.contains(b) <==> live.contains(b) by {
        assert(suspended.contains(b) <==> live.contains(b) && !is_among(all, bindings, b));
    }
    assert(resumed =~= live);
}

/// The two bindings that exist only during a recording are those to cancel it and to
/// go hands-free. All others are handled in bulk, but for the post-processing
/// shortcut while post-processing is off.
pub proof fn which_bindings_are_handled_in_bulk(id: Seq<char>)
    ensures
        dynamic(id) <==> id == "cancel"@ || id == "hands_free"@,
        in_bulk(id, true) <==> id != "cancel"@ && id != "hands_free"@,
        in_bulk(id, false) <==> id != "cancel"@ && id != "hands_free"@ && id
            != "transcribe_with_post_process"@,
{
}

/// Bindings are handled in the order in which they are given: a further one comes
/// last, or is left out.
pub proof fn bulk_keeps_the_order(keys: Seq<Seq<char>>, next: Seq<char>, post_process: bool)
    ensures
        bulk_ids(Seq::empty(), post_process).len() == 0,
        in_bulk(next, post_process) ==> bulk_ids(keys.push(next), post_process) == bulk_ids(
            keys,
            post_process,
        ).push(next),
        !in_bulk(next, post_process) ==> bulk_ids(keys.push(next), post_process) == bulk_ids(
            keys,
            post_process,
        ),
{
    assert(keys.push(next).drop_last() =~= keys);
}

/// One call goes out for each binding, in order, to the implementation given and
/// with the binding as it is held under that id.
pub proof fn bulk_calls_take_the_bindings_as_they_are(
    ids: Seq<Seq<char>>,
    bindings: Map<Seq<char>, ShortcutBinding>,
    implementation: KeyboardImplementation,
)
    ensures
        registrations(ids, bindings, implementation).len() == ids.len(),
        unregistrations(ids, bindings, implementation).len() == ids.len(),
        forall|i: int|
            0 <= i < ids.len() ==> #[trigger] registrations(ids, bindings, implementation)[i] == (
            effect::EffectSpec::Register { implementation, binding: bindings[ids[i]] }),
        forall|i: int|
            0 <= i < ids.len() ==> #[trigger] unregistrations(ids, bindings, implementation)[i] == (
            effect::EffectSpec::Unregister { implementation, binding: bindings[ids[i]] }),
{
}

} // verus!
