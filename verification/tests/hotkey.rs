use handy::hotkey::{
    compose_hands_free_hotkey, compose_hotkey_parts, is_modifier_key, last_key, MODIFIER_KEYS,
};

fn parts(list: &[&str]) -> Vec<String> {
    list.iter().map(|p| p.to_string()).collect()
}

/// The stock shortcuts hold a modifier down, so the hands-free key only
/// reaches us with that modifier attached.
#[test]
fn composes_with_the_modifiers_the_transcribe_shortcut_holds() {
    assert_eq!(
        compose_hands_free_hotkey("option+space", "tab").as_deref(),
        Some("option+tab")
    );
    assert_eq!(
        compose_hands_free_hotkey("ctrl+shift+space", "tab").as_deref(),
        Some("ctrl+shift+tab")
    );
}

/// A modifier-free shortcut (a spare key like f13) leaves the hands-free
/// key bare.
#[test]
fn composes_bare_when_the_transcribe_shortcut_has_no_modifiers() {
    assert_eq!(
        compose_hands_free_hotkey("f13", "space").as_deref(),
        Some("space")
    );
}

/// Left/right variants normalise: the OS only reports the base modifier as
/// held, so that is what has to be registered.
#[test]
fn normalizes_left_and_right_modifier_variants() {
    assert_eq!(
        compose_hands_free_hotkey("right option", "tab").as_deref(),
        Some("option+tab")
    );
    assert_eq!(
        compose_hands_free_hotkey("option_left+space", "tab").as_deref(),
        Some("option+tab")
    );
}

/// The hands-free key cannot be the key already holding the recording open
/// — pressing it again is indistinguishable from the hold itself.
#[test]
fn refuses_to_compose_when_the_keys_collide() {
    assert_eq!(compose_hands_free_hotkey("option+space", "space"), None);
    assert_eq!(compose_hands_free_hotkey("f13", "f13"), None);
}

/// A hands-free binding that is only modifiers has no key to press.
#[test]
fn refuses_to_compose_a_modifier_only_hands_free_key() {
    assert_eq!(compose_hands_free_hotkey("option+space", "shift"), None);
}

/// Modifiers recorded on the hands-free binding itself are merged in
/// without duplicating the ones the hold already contributes.
#[test]
fn merges_modifiers_from_both_bindings_without_duplicates() {
    assert_eq!(
        compose_hands_free_hotkey("ctrl+space", "ctrl+shift+tab").as_deref(),
        Some("ctrl+shift+tab")
    );
}

/// Case and white space do not matter, and empty parts are dropped.
#[test]
fn parts_are_trimmed_and_lowered() {
    assert_eq!(
        compose_hands_free_hotkey(" Ctrl + Space ", "\tTAB").as_deref(),
        Some("ctrl+tab")
    );
    assert_eq!(
        compose_hands_free_hotkey("ctrl++space", "+tab+").as_deref(),
        Some("ctrl+tab")
    );
    assert_eq!(compose_hands_free_hotkey("Space", "SPACE"), None);
    assert_eq!(compose_hands_free_hotkey("", ""), None);
    assert_eq!(compose_hands_free_hotkey("", "Ü").as_deref(), Some("ü"));
}

/// The last key of a binding is its main key, and both markings are removed
/// from either end.
#[test]
fn markings_are_removed_from_both_ends() {
    assert_eq!(
        compose_hands_free_hotkey("a+b", "left right ctrl_right_left+c+d").as_deref(),
        Some("ctrl+d")
    );
    assert_eq!(
        compose_hands_free_hotkey("left left shift+a", "k").as_deref(),
        Some("shift+k")
    );
    // A marked key that is no modifier keeps its marking.
    assert_eq!(
        compose_hands_free_hotkey("f13", "left arrow").as_deref(),
        Some("left arrow")
    );
}

#[test]
fn every_modifier_is_recognised() {
    for key in MODIFIER_KEYS {
        assert!(is_modifier_key(key));
    }
    assert!(is_modifier_key("fn"));
    assert!(!is_modifier_key("tab"));
    assert!(!is_modifier_key(""));
    assert_eq!(
        compose_hands_free_hotkey("fn+space", "tab").as_deref(),
        Some("fn+tab")
    );
}

#[test]
fn composes_from_parts() {
    assert_eq!(
        compose_hotkey_parts(
            &parts(&["ctrl", "left shift", "space"]),
            &parts(&["alt", "shift", "tab"])
        )
        .as_deref(),
        Some("ctrl+shift+alt+tab")
    );
    assert_eq!(compose_hotkey_parts(&parts(&["a"]), &parts(&["a"])), None);
    assert_eq!(compose_hotkey_parts(&parts(&["a"]), &parts(&["cmd"])), None);
}

/// What follows the last plus sign of a composed hotkey is the hands-free key.
#[test]
fn a_composed_hotkey_ends_in_its_key() {
    assert_eq!(last_key("ctrl+shift+tab"), "tab");
    assert_eq!(last_key("space"), "space");
    assert_eq!(last_key("ctrl+"), "");
    let hotkey = compose_hands_free_hotkey("ctrl+alt+space", "shift+f9").unwrap();
    assert_eq!(last_key(&hotkey), "f9");
}

/// Composing a composed hotkey with the same hold adds nothing.
#[test]
fn composing_again_gives_the_hotkey_back() {
    for (transcribe, hands_free) in [
        ("option+space", "tab"),
        ("Right Ctrl + Shift_Left + F13", " alt+ctrl+Left Arrow "),
        ("fn", "shift+cmd+k"),
        ("ctrl+ä", "Ö"),
    ] {
        let hotkey = compose_hands_free_hotkey(transcribe, hands_free).unwrap();
        assert_eq!(
            compose_hands_free_hotkey(transcribe, &hotkey),
            Some(hotkey.clone())
        );
    }
}
