//! Hotkey strings: modifiers and a main key, joined by `+`.
use vstd::prelude::*;
use vstd::utf8::is_ascii_chars;

use crate::outside;
use crate::outside::to_lowercase;
use crate::text;
use crate::text::{join, same_text, split, strip_prefixes, strip_suffixes, trim};

verus! {

/// Modifier tokens recognised in a hotkey string.
pub const MODIFIER_KEYS: [&'static str; 11] = [
    "ctrl",
    "control",
    "shift",
    "alt",
    "option",
    "meta",
    "command",
    "cmd",
    "super",
    "win",
    "windows",
];

/// `s` with its ASCII capital letters replaced by small ones.
pub open spec fn ascii_lowercase(s: Seq<char>) -> Seq<char> {
    s.map_values(|c: char| outside::ascii_lowered(c))
}

/// The parts of a hotkey as they are compared: without surrounding white space,
/// in lower case, and without the empty ones.
pub open spec fn normalized(
    raw: Seq<Seq<char>>,
    lower: spec_fn(Seq<char>) -> Seq<char>,
) -> Seq<Seq<char>>
    decreases raw.len(),
{
    if raw.len() == 0 {
        Seq::empty()
    } else {
        let before = normalized(raw.drop_last(), lower);
        let part = lower(text::trimmed(raw.last()));
        if part.len() == 0 {
            before
        } else {
            before.push(part)
        }
    }
}

/// The parts of a hotkey.
pub open spec fn parts(hotkey: Seq<char>) -> Seq<Seq<char>> {
    normalized(text::pieces(hotkey, '+'), |s: Seq<char>| outside::lowercase(s))
}

/// The parts of a hotkey that is written in ASCII.
pub open spec fn ascii_parts(hotkey: Seq<char>) -> Seq<Seq<char>> {
    normalized(text::pieces(hotkey, '+'), |s: Seq<char>| ascii_lowercase(s))
}

/// `part` with its left or right marking removed, which is all that the system
/// reports of a modifier that is held.
pub open spec fn base(part: Seq<char>) -> Seq<char> {
    text::without_suffixes(
        text::without_suffixes(
            text::without_prefixes(text::without_prefixes(part, "left "@), "right "@),
            "_left"@,
        ),
        "_right"@,
    )
}

/// `key` is the function key or one of [`MODIFIER_KEYS`].
pub open spec fn names_modifier(key: Seq<char>) -> bool {
    ||| key == "fn"@
    ||| exists|i: int| 0 <= i < MODIFIER_KEYS@.len() && (#[trigger] MODIFIER_KEYS@[i])@ == key
}

/// `part` is a modifier, in either variant.
pub open spec fn is_modifier(part: Seq<char>) -> bool {
    names_modifier(base(part))
}

/// The modifiers of `held`, then those among `parts` that are not there yet, in
/// the order in which they come.
pub open spec fn with_modifiers(held: Seq<Seq<char>>, parts: Seq<Seq<char>>) -> Seq<Seq<char>>
    decreases parts.len(),
{
    if parts.len() == 0 {
        held
    } else {
        let before = with_modifiers(held, parts.drop_last());
        let key = base(parts.last());
        if names_modifier(key) && !before.contains(key) {
            before.push(key)
        } else {
            before
        }
    }
}

/// The main key: the last of the parts that is no modifier.
pub open spec fn main_key(parts: Seq<Seq<char>>) -> Option<Seq<char>>
    decreases parts.len(),
{
    if parts.len() == 0 {
        None
    } else if is_modifier(parts.last()) {
        main_key(parts.drop_last())
    } else {
        Some(parts.last())
    }
}

/// The keys of the hotkey under which the hands-free key is registered while the
/// transcribe shortcut is held: the modifiers of both, then the key. `None` if
/// there is no key, or if it is the one that holds the recording open.
pub open spec fn composed_keys(
    transcribe: Seq<Seq<char>>,
    hands_free: Seq<Seq<char>>,
) -> Option<Seq<Seq<char>>> {
    match main_key(hands_free) {
        None => None,
        Some(key) => if main_key(transcribe) == Some(key) {
            None
        } else {
            Some(
                with_modifiers(with_modifiers(Seq::empty(), transcribe), hands_free).push(key),
            )
        },
    }
}

/// The hotkey that [`composed_keys`] spells.
pub open spec fn composed(
    transcribe: Seq<Seq<char>>,
    hands_free: Seq<Seq<char>>,
) -> Option<Seq<char>> {
    match composed_keys(transcribe, hands_free) {
        None => None,
        Some(keys) => Some(text::joined(keys, "+"@)),
    }
}

/// The text that is there, if any.
pub open spec fn optional_text(s: Option<String>) -> Option<Seq<char>> {
    match s {
        None => None,
        Some(s) => Some(s@),
    }
}

/// Trimming and splitting bring in no character.
proof fn lemma_trimmed_piece_is_ascii(hotkey: Seq<char>, i: int)
    requires
        is_ascii_chars(hotkey),
        0 <= i < text::pieces(hotkey, '+').len(),
    ensures
        is_ascii_chars(text::trimmed(text::pieces(hotkey, '+')[i])),
{
    let piece = text::pieces(hotkey, '+')[i];
    text::lemma_pieces_hold_the_same_characters(hotkey, '+', i);
    text::lemma_trimmed_holds_the_same_characters(piece);
    let t = text::trimmed(piece);
    assert forall|k: int| 0 <= k < t.len() implies '\0' <= #[trigger] t[k] <= '\u{7f}' by {
        assert(t.contains(t[k]));
        assert(piece.contains(t[k]));
        let m = choose|m: int| 0 <= m < hotkey.len() && hotkey[m] == t[k];
        assert('\0' <= hotkey[m] <= '\u{7f}');
    }
}

/// Splits a hotkey into its parts.
fn hotkey_parts(hotkey: &str) -> (list: Vec<String>)
    ensures
        text::texts(list@) == parts(hotkey@),
        is_ascii_chars(hotkey@) ==> text::texts(list@) == ascii_parts(hotkey@),
{
    let raw = split(hotkey, '+');
    let mut list: Vec<String> = Vec::new();
    let mut i: usize = 0;
    let ghost all = text::texts(raw@);
    let ghost lower = |s: Seq<char>| outside::lowercase(s);
    let ghost ascii_lower = |s: Seq<char>| ascii_lowercase(s);
    assert(text::texts(list@) =~= Seq::<Seq<char>>::empty());
    while i < raw.len()
        invariant
            i <= raw.len(),
            all == text::texts(raw@),
            all == text::pieces(hotkey@, '+'),
            lower == (|s: Seq<char>| outside::lowercase(s)),
            ascii_lower == (|s: Seq<char>| ascii_lowercase(s)),
            text::texts(list@) == normalized(all.take(i as int), lower),
            is_ascii_chars(hotkey@) ==> text::texts(list@) == normalized(
                all.take(i as int),
                ascii_lower,
            ),
        decreases raw.len() - i,
    {
        let ghost next = all.take(i as int + 1);
        let ghost before = text::texts(list@);
        assert(next.drop_last() =~= all.take(i as int));
        proof {
            if is_ascii_chars(hotkey@) {
                lemma_trimmed_piece_is_ascii(hotkey@, i as int);
            }
        }
        let part = to_lowercase(trim(raw[i].as_str()));
        if part.as_str().unicode_len() > 0 {
            list.push(part);
            assert(text::texts(list@) =~= before.push(part@));
        }
        i = i + 1;
    }
    assert(all.take(i as int) =~= all);
    list
}

/// Removes the left or right marking from a part.
fn base_key(part: &str) -> (key: &str)
    ensures
        key@ == base(part@),
{
    let key = strip_prefixes(part, "left ");
    let key = strip_prefixes(key, "right ");
    let key = strip_suffixes(key, "_left");
    strip_suffixes(key, "_right")
}

/// Whether `key` is the function key or one of [`MODIFIER_KEYS`].
pub fn is_modifier_key(key: &str) -> (res: bool)
    ensures
        res == names_modifier(key@),
{
    if same_text(key, "fn") {
        return true;
    }
    let mut i: usize = 0;
    while i < 11
        invariant
            i <= 11,
            forall|j: int| 0 <= j < i ==> (#[trigger] MODIFIER_KEYS@[j])@ != key@,
        decreases 11 - i,
    {
        if same_text(key, MODIFIER_KEYS[i]) {
            assert(MODIFIER_KEYS@[i as int]@ == key@);
            return true;
        }
        i = i + 1;
    }
    false
}

/// Whether `list` holds `key`.
fn holds_text(list: &Vec<String>, key: &str) -> (res: bool)
    ensures
        res == text::texts(list@).contains(key@),
{
    let mut i: usize = 0;
    while i < list.len()
        invariant
            i <= list.len(),
            forall|j: int| 0 <= j < i ==> text::texts(list@)[j] != key@,
        decreases list.len() - i,
    {
        if same_text(list[i].as_str(), key) {
            assert(text::texts(list@)[i as int] == key@);
            return true;
        }
        i = i + 1;
    }
    false
}

/// Adds to `held` the modifiers among `parts` that it does not hold yet.
fn add_modifiers(held: &mut Vec<String>, parts: &Vec<String>)
    ensures
        text::texts(final(held)@) == with_modifiers(
            text::texts(old(held)@),
            text::texts(parts@),
        ),
{
    let mut i: usize = 0;
    let ghost start = text::texts(held@);
    while i < parts.len()
        invariant
            i <= parts.len(),
            text::texts(held@) == with_modifiers(start, text::texts(parts@).take(i as int)),
        decreases parts.len() - i,
    {
        let ghost next = text::texts(parts@).take(i as int + 1);
        let ghost before = text::texts(held@);
        assert(next.drop_last() =~= text::texts(parts@).take(i as int));
        let key = base_key(parts[i].as_str());
        if is_modifier_key(key) && !holds_text(held, key) {
            held.push(key.to_owned());
            assert(text::texts(held@) =~= before.push(key@));
        }
        i = i + 1;
    }
    assert(text::texts(parts@).take(i as int) =~= text::texts(parts@));
}

/// The main key among `parts`.
fn key_of(parts: &Vec<String>) -> (key: Option<String>)
    ensures
        optional_text(key) == main_key(text::texts(parts@)),
{
    let mut i: usize = parts.len();
    assert(text::texts(parts@).take(i as int) =~= text::texts(parts@));
    while i > 0
        invariant
            i <= parts.len(),
            main_key(text::texts(parts@)) == main_key(text::texts(parts@).take(i as int)),
        decreases i,
    {
        let ghost rest = text::texts(parts@).take(i as int);
        assert(rest.drop_last() =~= text::texts(parts@).take(i as int - 1));
        let part = &parts[i - 1];
        if !is_modifier_key(base_key(part.as_str())) {
            return Some(part.clone());
        }
        i = i - 1;
    }
    None
}

/// Builds the hands-free hotkey from the parts of the two bindings.
pub fn compose_hotkey_parts(transcribe: &Vec<String>, hands_free: &Vec<String>) -> (hotkey: Option<
    String,
>)
    ensures
        optional_text(hotkey) == composed(text::texts(transcribe@), text::texts(hands_free@)),
{
    let key = match key_of(hands_free) {
        None => {
            return None;
        },
        Some(key) => key,
    };
    if let Some(held) = key_of(transcribe) {
        if same_text(held.as_str(), key.as_str()) {
            return None;
        }
    }
    let mut keys: Vec<String> = Vec::new();
    assert(text::texts(keys@) =~= Seq::<Seq<char>>::empty());
    add_modifiers(&mut keys, transcribe);
    add_modifiers(&mut keys, hands_free);
    let ghost held = text::texts(keys@);
    let ghost last = key@;
    keys.push(key);
    assert(text::texts(keys@) =~= held.push(last));
    Some(join(&keys, "+"))
}

/// Build the hotkey the hands-free key has to be registered as while
/// `transcribe` is held. The transcribe shortcut's modifiers are still down when
/// the user reaches for the hands-free key, so the system reports them as part
/// of that event and they have to be part of the registration.
///
/// Returns `None` when the two collide: the hands-free key cannot be the same
/// key that is already holding the recording open.
pub fn compose_hands_free_hotkey(transcribe: &str, hands_free: &str) -> (hotkey: Option<String>)
    ensures
        optional_text(hotkey) == composed(parts(transcribe@), parts(hands_free@)),
        is_ascii_chars(transcribe@) ==> parts(transcribe@) == ascii_parts(transcribe@),
        is_ascii_chars(hands_free@) ==> parts(hands_free@) == ascii_parts(hands_free@),
{
    let transcribe = hotkey_parts(transcribe);
    let hands_free = hotkey_parts(hands_free);
    compose_hotkey_parts(&transcribe, &hands_free)
}

/// The main key of a composed hotkey: what follows its last `+`.
pub fn last_key(hotkey: &str) -> (key: String)
    ensures
        key@ == text::pieces(hotkey@, '+').last(),
{
    let list = split(hotkey, '+');
    proof {
        text::lemma_pieces_are_free_of_the_separator(hotkey@, '+');
        assert(text::texts(list@).len() == list@.len());
    }
    let n = list.len();
    assert(text::texts(list@)[n - 1] == list@[n - 1]@);
    list[n - 1].clone()
}

// ---------------------------------------------------------------------------
// What holds of a composed hotkey
// ---------------------------------------------------------------------------

/// No modifier is collected twice.
pub proof fn modifiers_are_collected_once(held: Seq<Seq<char>>, parts: Seq<Seq<char>>)
    requires
        held.no_duplicates(),
    ensures
        with_modifiers(held, parts).no_duplicates(),
    decreases parts.len(),
{
    if parts.len() > 0 {
        modifiers_are_collected_once(held, parts.drop_last());
        let before = with_modifiers(held, parts.drop_last());
        let after = with_modifiers(held, parts);
        assert forall|i: int, j: int|
            0 <= i < after.len() && 0 <= j < after.len() && i != j implies after[i] != after[j] by {
            if after.len() > before.len() {
                let key = base(parts.last());
                if i == before.len() {
                    assert(before.contains(before[j]));
                } else if j == before.len() {
                    assert(before.contains(before[i]));
                }
            }
        }
    }
}

/// What is collected is what was held, in its order, and then exactly the
/// modifiers among the parts.
pub proof fn modifiers_are_kept_and_found(
    held: Seq<Seq<char>>,
    parts: Seq<Seq<char>>,
    key: Seq<char>,
)
    ensures
        held.is_prefix_of(with_modifiers(held, parts)),
        with_modifiers(held, parts).contains(key) <==> held.contains(key) || exists|i: int|
            0 <= i < parts.len() && is_modifier(#[trigger] parts[i]) && base(parts[i]) == key,
    decreases parts.len(),
{
    let after = with_modifiers(held, parts);
    if parts.len() > 0 {
        let rest = parts.drop_last();
        let before = with_modifiers(held, rest);
        let last = base(parts.last());
        modifiers_are_kept_and_found(held, rest, key);
        if after.contains(key) {
            let at = choose|i: int| 0 <= i < after.len() && after[i] == key;
            if at < before.len() {
                assert(before.contains(before[at]));
                if !held.contains(key) {
                    let i = choose|i: int|
                        0 <= i < rest.len() && is_modifier(#[trigger] rest[i]) && base(rest[i])
                            == key;
                    assert(parts[i] == rest[i]);
                }
            } else {
                assert(parts[parts.len() - 1] == parts.last());
            }
        }
        if exists|i: int|
            0 <= i < parts.len() && is_modifier(#[trigger] parts[i]) && base(parts[i]) == key {
            let i = choose|i: int|
                0 <= i < parts.len() && is_modifier(#[trigger] parts[i]) && base(parts[i]) == key;
            if i < rest.len() {
                assert(rest[i] == parts[i]);
            } else {
                if !before.contains(key) {
                    assert(after[before.len() as int] == key);
                }
            }
        }
        if before.contains(key) {
            let at = choose|k: int| 0 <= k < before.len() && before[k] == key;
            assert(after[at] == key);
        }
    }
}

/// The main key, where there is one, is one of the parts and no modifier.
pub proof fn the_main_key_is_no_modifier(parts: Seq<Seq<char>>)
    ensures
        match main_key(parts) {
            Some(key) => parts.contains(key) && !is_modifier(key),
            None => forall|i: int| 0 <= i < parts.len() ==> is_modifier(#[trigger] parts[i]),
        },
    decreases parts.len(),
{
    if parts.len() > 0 {
        let rest = parts.drop_last();
        the_main_key_is_no_modifier(rest);
        assert(parts[parts.len() - 1] == parts.last());
        match main_key(rest) {
            Some(key) => {
                let i = choose|i: int| 0 <= i < rest.len() && rest[i] == key;
                assert(parts[i] == key);
            },
            None => {
                assert forall|i: int|
                    0 <= i < parts.len() && is_modifier(parts.last()) implies is_modifier(
                    #[trigger] parts[i],
                ) by {
                    if i < rest.len() {
                        assert(rest[i] == parts[i]);
                    }
                }
            },
        }
    }
}

/// A hotkey can be composed exactly when the hands-free binding has a key and
/// that key is not the one the transcribe shortcut holds.
pub proof fn composes_unless_the_keys_collide(
    transcribe: Seq<Seq<char>>,
    hands_free: Seq<Seq<char>>,
)
    ensures
        composed(transcribe, hands_free) is Some <==> main_key(hands_free) is Some && main_key(
            transcribe,
        ) != main_key(hands_free),
{
}

/// A composed hotkey holds every modifier of both bindings, each once, and ends
/// in the hands-free key.
pub proof fn a_composed_hotkey_holds_both_sets_of_modifiers(
    transcribe: Seq<Seq<char>>,
    hands_free: Seq<Seq<char>>,
    part: Seq<char>,
)
    requires
        composed_keys(transcribe, hands_free) is Some,
        transcribe.contains(part) || hands_free.contains(part),
        is_modifier(part),
    ensures
        composed_keys(transcribe, hands_free)->0.drop_last().contains(base(part)),
        composed_keys(transcribe, hands_free)->0.drop_last().no_duplicates(),
        composed_keys(transcribe, hands_free)->0.last() == main_key(hands_free)->0,
{
    let held = with_modifiers(Seq::empty(), transcribe);
    let all = with_modifiers(held, hands_free);
    modifiers_are_collected_once(Seq::empty(), transcribe);
    modifiers_are_collected_once(held, hands_free);
    modifiers_are_kept_and_found(Seq::empty(), transcribe, base(part));
    modifiers_are_kept_and_found(held, hands_free, base(part));
    assert(all.push(main_key(hands_free)->0).drop_last() =~= all);
    if transcribe.contains(part) {
        let i = choose|i: int| 0 <= i < transcribe.len() && transcribe[i] == part;
        assert(is_modifier(transcribe[i]));
    } else {
        let i = choose|i: int| 0 <= i < hands_free.len() && hands_free[i] == part;
        assert(is_modifier(hands_free[i]));
    }
}

/// `s` is a word of small letters.
spec fn is_word(s: Seq<char>) -> bool {
    s.len() > 0 && forall|i: int| 0 <= i < s.len() ==> 'a' <= #[trigger] s[i] <= 'z'
}

proof fn lemma_modifier_names_are_words(key: Seq<char>)
    requires
        names_modifier(key),
    ensures
        is_word(key),
{
    reveal_strlit("fn");
    reveal_strlit("ctrl");
    reveal_strlit("control");
    reveal_strlit("shift");
    reveal_strlit("alt");
    reveal_strlit("option");
    reveal_strlit("meta");
    reveal_strlit("command");
    reveal_strlit("cmd");
    reveal_strlit("super");
    reveal_strlit("win");
    reveal_strlit("windows");
    if key != "fn"@ {
        let i = choose|i: int|
            0 <= i < MODIFIER_KEYS@.len() && (#[trigger] MODIFIER_KEYS@[i])@ == key;
        assert(i == 0 || i == 1 || i == 2 || i == 3 || i == 4 || i == 5 || i == 6 || i == 7 || i
            == 8 || i == 9 || i == 10);
    }
}

proof fn lemma_a_word_has_no_marking(key: Seq<char>)
    requires
        is_word(key),
    ensures
        base(key) == key,
{
    reveal_strlit("left ");
    reveal_strlit("right ");
    reveal_strlit("_left");
    reveal_strlit("_right");
    assert("left "@[4] == ' ');
    assert("right "@[5] == ' ');
    if "left "@.is_prefix_of(key) {
        assert(key[4] == "left "@[4]);
    }
    if "right "@.is_prefix_of(key) {
        assert(key[5] == "right "@[5]);
    }
    if "_left"@.is_suffix_of(key) {
        assert(key[key.len() - 5] == "_left"@[0]);
    }
    if "_right"@.is_suffix_of(key) {
        assert(key[key.len() - 6] == "_right"@[0]);
    }
}

proof fn lemma_only_modifiers_are_collected(held: Seq<Seq<char>>, parts: Seq<Seq<char>>)
    requires
        forall|i: int| 0 <= i < held.len() ==> names_modifier(#[trigger] held[i]),
    ensures
        forall|i: int|
            0 <= i < with_modifiers(held, parts).len() ==> names_modifier(
                #[trigger] with_modifiers(held, parts)[i],
            ),
    decreases parts.len(),
{
    if parts.len() > 0 {
        lemma_only_modifiers_are_collected(held, parts.drop_last());
        let before = with_modifiers(held, parts.drop_last());
        let after = with_modifiers(held, parts);
        assert forall|i: int| 0 <= i < after.len() implies names_modifier(#[trigger] after[i]) by {
            if i < before.len() {
                assert(after[i] == before[i]);
            }
        }
    }
}

/// The main key, if there is one, holds no `+`.
pub open spec fn key_is_free_of_plus(parts: Seq<Seq<char>>) -> bool {
    main_key(parts) matches Some(key) ==> !key.contains('+')
}

/// Splitting a composed hotkey at its `+` signs gives its keys back: it is read
/// as it was meant, and what follows the last `+` is the hands-free key.
pub proof fn a_composed_hotkey_reads_back(
    transcribe: Seq<Seq<char>>,
    hands_free: Seq<Seq<char>>,
)
    requires
        composed(transcribe, hands_free) is Some,
        key_is_free_of_plus(hands_free),
    ensures
        text::pieces(composed(transcribe, hands_free)->0, '+') == composed_keys(
            transcribe,
            hands_free,
        )->0,
        text::pieces(composed(transcribe, hands_free)->0, '+').last() == main_key(hands_free)->0,
{
    let held = with_modifiers(Seq::empty(), transcribe);
    let all = with_modifiers(held, hands_free);
    let keys = all.push(main_key(hands_free)->0);
    lemma_only_modifiers_are_collected(Seq::empty(), transcribe);
    lemma_only_modifiers_are_collected(held, hands_free);
    assert forall|i: int| 0 <= i < keys.len() implies !(#[trigger] keys[i]).contains('+') by {
        if i < all.len() {
            assert(keys[i] == all[i]);
            lemma_modifier_names_are_words(all[i]);
        }
    }
    assert("+"@ =~= seq!['+']) by {
        reveal_strlit("+");
    }
    text::lemma_pieces_of_joined(keys, '+');
}

// ---------------------------------------------------------------------------
// Composing again
// ---------------------------------------------------------------------------

/// Collecting from modifiers that begin with those held gives just them.
proof fn lemma_collecting_again(held: Seq<Seq<char>>, all: Seq<Seq<char>>, n: nat)
    requires
        n <= all.len(),
        held.is_prefix_of(all),
        all.no_duplicates(),
        forall|i: int| 0 <= i < all.len() ==> names_modifier(#[trigger] all[i]),
    ensures
        with_modifiers(held, all.take(n as int)) == (if n <= held.len() {
            held
        } else {
            all.take(n as int)
        }),
    decreases n,
{
    if n > 0 {
        let m = (n - 1) as nat;
        lemma_collecting_again(held, all, m);
        assert(all.take(n as int).drop_last() =~= all.take(m as int));
        let key = all[m as int];
        assert(all.take(n as int).last() == key);
        lemma_modifier_names_are_words(key);
        lemma_a_word_has_no_marking(key);
        if m < held.len() {
            assert(held[m as int] == key);
        } else {
            assert(held =~= all.take(held.len() as int));
            let before = all.take(m as int);
            assert(!before.contains(key)) by {
                if before.contains(key) {
                    let k = choose|k: int| 0 <= k < before.len() && before[k] == key;
                    assert(all[k] == all[m as int]);
                }
            }
            assert(before.push(key) =~= all.take(n as int));
        }
    }
}

/// Composing the keys of a composed hotkey with the same hold adds nothing and
/// keeps their order.
pub proof fn composing_again_keeps_the_keys(
    transcribe: Seq<Seq<char>>,
    hands_free: Seq<Seq<char>>,
)
    requires
        composed_keys(transcribe, hands_free) is Some,
    ensures
        composed_keys(transcribe, composed_keys(transcribe, hands_free)->0) == composed_keys(
            transcribe,
            hands_free,
        ),
{
    let held = with_modifiers(Seq::empty(), transcribe);
    let all = with_modifiers(held, hands_free);
    let key = main_key(hands_free)->0;
    let keys = all.push(key);
    modifiers_are_collected_once(Seq::empty(), transcribe);
    modifiers_are_collected_once(held, hands_free);
    modifiers_are_kept_and_found(held, hands_free, key);
    lemma_only_modifiers_are_collected(Seq::empty(), transcribe);
    lemma_only_modifiers_are_collected(held, hands_free);
    the_main_key_is_no_modifier(hands_free);
    lemma_collecting_again(held, all, all.len());
    assert(all.take(all.len() as int) =~= all);
    assert(keys.drop_last() =~= all);
    assert(keys.last() == key);
    if all.len() <= held.len() {
        assert(all =~= held);
    }
}

/// Composing a composed hotkey, read part by part, with the same hold gives it
/// back.
pub proof fn composing_again_gives_the_hotkey_back(
    transcribe: Seq<Seq<char>>,
    hands_free: Seq<Seq<char>>,
)
    requires
        composed(transcribe, hands_free) is Some,
        key_is_free_of_plus(hands_free),
    ensures
        composed(transcribe, text::pieces(composed(transcribe, hands_free)->0, '+')) == composed(
            transcribe,
            hands_free,
        ),
{
    a_composed_hotkey_reads_back(transcribe, hands_free);
    composing_again_keeps_the_keys(transcribe, hands_free);
}

/// Trimming and lower-casing leave every one of the keys as it is.
pub open spec fn are_normal(
    keys: Seq<Seq<char>>,
    lower: spec_fn(Seq<char>) -> Seq<char>,
) -> bool {
    forall|i: int| 0 <= i < keys.len() ==> lower(text::trimmed(#[trigger] keys[i])) == keys[i]
}

proof fn lemma_normal_keys_stay(keys: Seq<Seq<char>>, lower: spec_fn(Seq<char>) -> Seq<char>)
    requires
        are_normal(keys, lower),
        forall|i: int| 0 <= i < keys.len() ==> (#[trigger] keys[i]).len() > 0,
    ensures
        normalized(keys, lower) == keys,
    decreases keys.len(),
{
    if keys.len() > 0 {
        let rest = keys.drop_last();
        assert forall|i: int| 0 <= i < rest.len() implies lower(
            text::trimmed(#[trigger] rest[i]),
        ) == rest[i] && rest[i].len() > 0 by {
            assert(rest[i] == keys[i]);
        }
        lemma_normal_keys_stay(rest, lower);
        assert(keys[keys.len() - 1] == keys.last());
        assert(rest.push(keys.last()) =~= keys);
    }
}

proof fn lemma_parts_are_not_empty(
    raw: Seq<Seq<char>>,
    lower: spec_fn(Seq<char>) -> Seq<char>,
)
    ensures
        forall|i: int|
            0 <= i < normalized(raw, lower).len() ==> (#[trigger] normalized(raw, lower)[i]).len()
                > 0,
    decreases raw.len(),
{
    if raw.len() > 0 {
        lemma_parts_are_not_empty(raw.drop_last(), lower);
        let before = normalized(raw.drop_last(), lower);
        let after = normalized(raw, lower);
        assert forall|i: int| 0 <= i < after.len() implies (#[trigger] after[i]).len() > 0 by {
            if i < before.len() {
                assert(after[i] == before[i]);
            }
        }
    }
}

proof fn lemma_composed_keys_are_not_empty(
    transcribe: Seq<Seq<char>>,
    hands_free: Seq<Seq<char>>,
)
    requires
        composed_keys(transcribe, hands_free) is Some,
        forall|i: int| 0 <= i < hands_free.len() ==> (#[trigger] hands_free[i]).len() > 0,
    ensures
        forall|i: int|
            0 <= i < composed_keys(transcribe, hands_free)->0.len() ==> (
            #[trigger] composed_keys(transcribe, hands_free)->0[i]).len() > 0,
{
    let held = with_modifiers(Seq::empty(), transcribe);
    let all = with_modifiers(held, hands_free);
    let key = main_key(hands_free)->0;
    let keys = composed_keys(transcribe, hands_free)->0;
    lemma_only_modifiers_are_collected(Seq::empty(), transcribe);
    lemma_only_modifiers_are_collected(held, hands_free);
    the_main_key_is_no_modifier(hands_free);
    assert forall|i: int| 0 <= i < keys.len() implies (#[trigger] keys[i]).len() > 0 by {
        if i < all.len() {
            assert(keys[i] == all[i]);
            lemma_modifier_names_are_words(all[i]);
        } else {
            let at = choose|k: int| 0 <= k < hands_free.len() && hands_free[k] == key;
            assert(hands_free[at].len() > 0);
        }
    }
}

/// Composing a composed hotkey once more with the same hold gives it back, for any
/// bindings whose hands-free key holds no `+` and whose composed keys trimming and
/// lower-casing leave as they are.
pub proof fn a_hotkey_composed_again_is_the_same(transcribe: Seq<char>, hands_free: Seq<char>)
    requires
        composed(parts(transcribe), parts(hands_free)) is Some,
        key_is_free_of_plus(parts(hands_free)),
        are_normal(
            composed_keys(parts(transcribe), parts(hands_free))->0,
            |s: Seq<char>| outside::lowercase(s),
        ),
    ensures
        ({
            let hotkey = composed(parts(transcribe), parts(hands_free));
            composed(parts(transcribe), parts(hotkey->0)) == hotkey
        }),
{
    let t = parts(transcribe);
    let h = parts(hands_free);
    let lower = |s: Seq<char>| outside::lowercase(s);
    lemma_parts_are_not_empty(text::pieces(hands_free, '+'), lower);
    lemma_composed_keys_are_not_empty(t, h);
    a_composed_hotkey_reads_back(t, h);
    lemma_normal_keys_stay(composed_keys(t, h)->0, lower);
    composing_again_keeps_the_keys(t, h);
}

// ---------------------------------------------------------------------------
// Hotkeys in ASCII
// ---------------------------------------------------------------------------

/// Trimming, lower-casing and splitting leave `part` as it is.
spec fn is_clean(part: Seq<char>) -> bool {
    &&& part.len() > 0
    &&& !part.contains('+')
    &&& text::trimmed(part) == part
    &&& ascii_lowercase(part) == part
    &&& is_ascii_chars(part)
}

/// Every one of the parts is clean.
spec fn are_clean(parts: Seq<Seq<char>>) -> bool {
    forall|i: int| 0 <= i < parts.len() ==> is_clean(#[trigger] parts[i])
}

proof fn lemma_a_word_is_clean(word: Seq<char>)
    requires
        is_word(word),
    ensures
        is_clean(word),
{
    assert(ascii_lowercase(word) =~= word);
    assert(word[0] == word[0] && word[word.len() - 1] == word.last());
}

proof fn lemma_a_lowered_piece_is_clean(raw: Seq<char>)
    requires
        is_ascii_chars(text::trimmed(raw)),
        !raw.contains('+'),
        ascii_lowercase(text::trimmed(raw)).len() > 0,
    ensures
        is_clean(ascii_lowercase(text::trimmed(raw))),
{
    let bare = text::trimmed(raw);
    let part = ascii_lowercase(bare);
    text::lemma_trimmed(raw);
    text::lemma_trimmed_holds_the_same_characters(raw);
    assert forall|i: int| 0 <= i < part.len() implies part[i] != '+' && '\0' <= #[trigger] part[i]
        <= '\u{7f}' by {
        assert('\0' <= bare[i] <= '\u{7f}');
        assert(bare.contains(bare[i]));
    }
    assert(ascii_lowercase(part) =~= part);
    assert(!text::white_space(part[0]));
    assert(part.last() == outside::ascii_lowered(bare.last()));
    assert(!text::white_space(part.last()));
}

proof fn lemma_ascii_parts_are_clean(hotkey: Seq<char>, n: int)
    requires
        is_ascii_chars(hotkey),
        0 <= n <= text::pieces(hotkey, '+').len(),
    ensures
        are_clean(
            normalized(
                text::pieces(hotkey, '+').take(n),
                |s: Seq<char>| ascii_lowercase(s),
            ),
        ),
    decreases n,
{
    if n > 0 {
        let all = text::pieces(hotkey, '+');
        let lower = |s: Seq<char>| ascii_lowercase(s);
        lemma_ascii_parts_are_clean(hotkey, n - 1);
        assert(all.take(n).drop_last() =~= all.take(n - 1));
        assert(all.take(n).last() == all[n - 1]);
        lemma_trimmed_piece_is_ascii(hotkey, n - 1);
        text::lemma_pieces_are_free_of_the_separator(hotkey, '+');
        let before = normalized(all.take(n - 1), lower);
        let after = normalized(all.take(n), lower);
        let part = ascii_lowercase(text::trimmed(all[n - 1]));
        if part.len() > 0 {
            lemma_a_lowered_piece_is_clean(all[n - 1]);
            assert forall|i: int| 0 <= i < after.len() implies is_clean(#[trigger] after[i]) by {
                if i < before.len() {
                    assert(after[i] == before[i]);
                }
            }
        }
    }
}


proof fn lemma_joined_clean_parts_are_ascii(parts: Seq<Seq<char>>)
    requires
        are_clean(parts),
    ensures
        is_ascii_chars(text::joined(parts, seq!['+'])),
    decreases parts.len(),
{
    if parts.len() > 1 {
        let rest = parts.drop_last();
        assert forall|i: int| 0 <= i < rest.len() implies is_clean(#[trigger] rest[i]) by {
            assert(rest[i] == parts[i]);
        }
        lemma_joined_clean_parts_are_ascii(rest);
        assert(is_clean(parts[parts.len() - 1]));
    } else if parts.len() == 1 {
        assert(is_clean(parts[0]));
    }
}

/// The keys of a hotkey that is composed from clean parts are clean.
proof fn lemma_composed_keys_are_clean(transcribe: Seq<Seq<char>>, hands_free: Seq<Seq<char>>)
    requires
        composed_keys(transcribe, hands_free) is Some,
        are_clean(hands_free),
    ensures
        are_clean(composed_keys(transcribe, hands_free)->0),
{
    let held = with_modifiers(Seq::empty(), transcribe);
    let all = with_modifiers(held, hands_free);
    let key = main_key(hands_free)->0;
    let keys = all.push(key);
    lemma_only_modifiers_are_collected(Seq::empty(), transcribe);
    lemma_only_modifiers_are_collected(held, hands_free);
    the_main_key_is_no_modifier(hands_free);
    assert forall|i: int| 0 <= i < keys.len() implies is_clean(#[trigger] keys[i]) by {
        if i < all.len() {
            assert(keys[i] == all[i]);
            lemma_modifier_names_are_words(all[i]);
            lemma_a_word_is_clean(all[i]);
        } else {
            let at = choose|k: int| 0 <= k < hands_free.len() && hands_free[k] == key;
            assert(is_clean(hands_free[at]));
        }
    }
}

/// The main key of a hotkey in ASCII holds no `+`.
pub proof fn an_ascii_key_is_free_of_plus(hotkey: Seq<char>)
    requires
        is_ascii_chars(hotkey),
    ensures
        key_is_free_of_plus(ascii_parts(hotkey)),
{
    let all = text::pieces(hotkey, '+');
    let list = ascii_parts(hotkey);
    lemma_ascii_parts_are_clean(hotkey, all.len() as int);
    assert(all.take(all.len() as int) =~= all);
    the_main_key_is_no_modifier(list);
    if let Some(key) = main_key(list) {
        let at = choose|k: int| 0 <= k < list.len() && list[k] == key;
        assert(is_clean(list[at]));
    }
}

/// A hotkey composed with a hands-free binding in ASCII reads back, whatever the
/// transcribe shortcut: split at its `+` signs it gives its keys, the last of which
/// is the main key of the hands-free binding, no modifier and without a `+`.
pub proof fn a_composed_ascii_hotkey_reads_back(
    transcribe: Seq<Seq<char>>,
    hands_free: Seq<char>,
)
    requires
        is_ascii_chars(hands_free),
        composed(transcribe, ascii_parts(hands_free)) is Some,
    ensures
        ({
            let hotkey = composed(transcribe, ascii_parts(hands_free))->0;
            let key = text::pieces(hotkey, '+').last();
            &&& Some(text::pieces(hotkey, '+')) == composed_keys(
                transcribe,
                ascii_parts(hands_free),
            )
            &&& main_key(ascii_parts(hands_free)) == Some(key)
            &&& !key.contains('+')
            &&& !is_modifier(key)
        }),
{
    an_ascii_key_is_free_of_plus(hands_free);
    a_composed_hotkey_reads_back(transcribe, ascii_parts(hands_free));
    the_main_key_is_no_modifier(ascii_parts(hands_free));
}

/// Composing a composed hotkey once more with the same hold gives it back, for
/// bindings in ASCII: nothing is added and the order stays.
pub proof fn an_ascii_hotkey_composed_again_is_the_same(
    transcribe: Seq<char>,
    hands_free: Seq<char>,
)
    requires
        is_ascii_chars(transcribe),
        is_ascii_chars(hands_free),
        composed(ascii_parts(transcribe), ascii_parts(hands_free)) is Some,
    ensures
        ({
            let hotkey = composed(ascii_parts(transcribe), ascii_parts(hands_free));
            &&& is_ascii_chars(hotkey->0)
            &&& composed(ascii_parts(transcribe), ascii_parts(hotkey->0)) == hotkey
        }),
{
    let t = ascii_parts(transcribe);
    let h = ascii_parts(hands_free);
    let raw = text::pieces(hands_free, '+');
    lemma_ascii_parts_are_clean(hands_free, raw.len() as int);
    assert(raw.take(raw.len() as int) =~= raw);
    lemma_composed_keys_are_clean(t, h);
    let keys = composed_keys(t, h)->0;
    a_composed_ascii_hotkey_reads_back(t, hands_free);
    assert forall|i: int| 0 <= i < keys.len() implies ascii_lowercase(
        text::trimmed(#[trigger] keys[i]),
    ) == keys[i] && keys[i].len() > 0 by {
        assert(is_clean(keys[i]));
    }
    lemma_normal_keys_stay(keys, |s: Seq<char>| ascii_lowercase(s));
    assert("+"@ =~= seq!['+']) by {
        reveal_strlit("+");
    }
    lemma_joined_clean_parts_are_ascii(keys);
    composing_again_keeps_the_keys(t, h);
}

// ---------------------------------------------------------------------------
// How a hotkey is read
// ---------------------------------------------------------------------------

/// The text that is there is the text of the string.
pub proof fn optional_text_is_the_text(s: Option<String>)
    ensures
        match s {
            Some(t) => optional_text(s) == Some(t@),
            None => optional_text(s) is None,
        },
{
}

/// In ASCII lower case, capital letters become small ones and all else stays.
pub proof fn ascii_lower_case_changes_capitals_only(s: Seq<char>)
    ensures
        ascii_lowercase(s).len() == s.len(),
        forall|i: int|
            0 <= i < s.len() ==> (#[trigger] ascii_lowercase(s)[i]) as u32 == (if 'A' <= s[i]
                && s[i] <= 'Z' {
                s[i] as u32 + 32
            } else {
                s[i] as u32 as int
            }),
{
}

/// The modifiers are these and no others.
pub proof fn the_modifiers_are_these(key: Seq<char>)
    ensures
        names_modifier(key) <==> key == "fn"@ || key == "ctrl"@ || key == "control"@ || key
            == "shift"@ || key == "alt"@ || key == "option"@ || key == "meta"@ || key == "command"@
            || key == "cmd"@ || key == "super"@ || key == "win"@ || key == "windows"@,
        is_modifier(key) <==> names_modifier(base(key)),
{
    assert(MODIFIER_KEYS@[0]@ == "ctrl"@);
    assert(MODIFIER_KEYS@[1]@ == "control"@);
    assert(MODIFIER_KEYS@[2]@ == "shift"@);
    assert(MODIFIER_KEYS@[3]@ == "alt"@);
    assert(MODIFIER_KEYS@[4]@ == "option"@);
    assert(MODIFIER_KEYS@[5]@ == "meta"@);
    assert(MODIFIER_KEYS@[6]@ == "command"@);
    assert(MODIFIER_KEYS@[7]@ == "cmd"@);
    assert(MODIFIER_KEYS@[8]@ == "super"@);
    assert(MODIFIER_KEYS@[9]@ == "win"@);
    assert(MODIFIER_KEYS@[10]@ == "windows"@);
    if names_modifier(key) && key != "fn"@ {
        let i = choose|i: int|
            0 <= i < MODIFIER_KEYS@.len() && (#[trigger] MODIFIER_KEYS@[i])@ == key;
        assert(i == 0 || i == 1 || i == 2 || i == 3 || i == 4 || i == 5 || i == 6 || i == 7 || i
            == 8 || i == 9 || i == 10);
    }
}

/// A part is its base with markings around it: in front, any number of `left ` and
/// then of `right `; at the end, any number of `_right` and then of `_left`. All of
/// them are taken away.
pub proof fn a_part_is_its_base_with_markings(part: Seq<char>)
    ensures
        exists|a: nat, b: nat, c: nat, d: nat|
            {
                &&& part == #[trigger] text::copies("left "@, a) + (#[trigger] text::copies(
                    "right "@,
                    b,
                ) + ((base(part) + #[trigger] text::copies("_right"@, d)) + #[trigger] text::copies(
                    "_left"@,
                    c,
                )))
                &&& !"left "@.is_prefix_of(
                    text::copies("right "@, b) + ((base(part) + text::copies("_right"@, d))
                        + text::copies("_left"@, c)),
                )
                &&& !"right "@.is_prefix_of(
                    (base(part) + text::copies("_right"@, d)) + text::copies("_left"@, c),
                )
                &&& !"_left"@.is_suffix_of(base(part) + text::copies("_right"@, d))
                &&& !"_right"@.is_suffix_of(base(part))
            },
{
    reveal_strlit("left ");
    reveal_strlit("right ");
    reveal_strlit("_left");
    reveal_strlit("_right");
    let p1 = text::without_prefixes(part, "left "@);
    let p2 = text::without_prefixes(p1, "right "@);
    let p3 = text::without_suffixes(p2, "_left"@);
    text::lemma_without_prefixes(part, "left "@);
    text::lemma_without_prefixes(p1, "right "@);
    text::lemma_without_suffixes(p2, "_left"@);
    text::lemma_without_suffixes(p3, "_right"@);
    let a = choose|n: nat| part == #[trigger] text::copies("left "@, n) + p1;
    let b = choose|n: nat| p1 == #[trigger] text::copies("right "@, n) + p2;
    let c = choose|n: nat| p2 == p3 + #[trigger] text::copies("_left"@, n);
    let d = choose|n: nat| p3 == base(part) + #[trigger] text::copies("_right"@, n);
    assert(part == text::copies("left "@, a) + (text::copies("right "@, b) + ((base(part)
        + text::copies("_right"@, d)) + text::copies("_left"@, c))));
}

/// A part without a blank and without an underscore has no marking, and either
/// marking around it is taken away.
pub proof fn a_single_marking_is_taken_away(key: Seq<char>)
    requires
        !key.contains(' '),
        !key.contains('_'),
    ensures
        base(key) == key,
        base("left "@ + key) == key,
        base("right "@ + key) == key,
        base(key + "_left"@) == key,
        base(key + "_right"@) == key,
{
    reveal_strlit("left ");
    reveal_strlit("right ");
    reveal_strlit("_left");
    reveal_strlit("_right");
    lemma_bare(key);
    assert("left "@.is_prefix_of("left "@ + key)) by {
        assert(("left "@ + key).take(5) =~= "left "@);
    }
    assert("right "@.is_prefix_of("right "@ + key)) by {
        assert(("right "@ + key).take(6) =~= "right "@);
    }
    assert(!"left "@.is_prefix_of("right "@ + key)) by {
        assert(("right "@ + key)[0] == 'r');
    }
    let marked_left = "left "@ + key;
    let marked_right = "right "@ + key;
    assert(text::without_prefixes(key, "left "@) == key);
    assert(text::without_prefixes(marked_left, "left "@) == key) by {
        assert(marked_left.skip("left "@.len() as int) =~= key);
    }
    assert(text::without_prefixes(marked_right, "left "@) == marked_right);
    assert(text::without_prefixes(key, "right "@) == key);
    assert(text::without_prefixes(marked_right, "right "@) == key) by {
        assert(marked_right.skip("right "@.len() as int) =~= key);
    }
    assert(base(key) == key);
    let l = key + "_left"@;
    let r = key + "_right"@;
    assert(l.take(key.len() as int) =~= key);
    assert(r.take(key.len() as int) =~= key);
    assert("_left"@.is_suffix_of(l)) by {
        assert(l.skip(key.len() as int) =~= "_left"@);
    }
    assert("_right"@.is_suffix_of(r)) by {
        assert(r.skip(key.len() as int) =~= "_right"@);
    }
    assert(!"_left"@.is_suffix_of(r)) by {
        assert(r[r.len() - 1] == 't');
        assert(r[r.len() - 4] == 'i');
        if "_left"@.is_suffix_of(r) {
            assert("_left"@[1] == r[r.len() - 4]);
        }
    }
    assert forall|k: int| 0 <= k < l.len() implies l[k] != ' ' by {
        if k < key.len() {
            assert(key.contains(key[k]));
        }
    }
    assert forall|k: int| 0 <= k < r.len() implies r[k] != ' ' by {
        if k < key.len() {
            assert(key.contains(key[k]));
        }
    }
    if "left "@.is_prefix_of(l) {
        assert(l[4] == "left "@[4]);
    }
    if "right "@.is_prefix_of(l) {
        assert(l[5] == "right "@[5]);
    }
    if "left "@.is_prefix_of(r) {
        assert(r[4] == "left "@[4]);
    }
    if "right "@.is_prefix_of(r) {
        assert(r[5] == "right "@[5]);
    }
}

/// Text without a blank and without an underscore carries none of the markings.
proof fn lemma_bare(key: Seq<char>)
    requires
        !key.contains(' '),
        !key.contains('_'),
    ensures
        !"left "@.is_prefix_of(key),
        !"right "@.is_prefix_of(key),
        !"_left"@.is_suffix_of(key),
        !"_right"@.is_suffix_of(key),
{
    reveal_strlit("left ");
    reveal_strlit("right ");
    reveal_strlit("_left");
    reveal_strlit("_right");
    if "left "@.is_prefix_of(key) {
        assert(key[4] == "left "@[4]);
    }
    if "right "@.is_prefix_of(key) {
        assert(key[5] == "right "@[5]);
    }
    if "_left"@.is_suffix_of(key) {
        assert(key[key.len() - 5] == "_left"@[0]);
    }
    if "_right"@.is_suffix_of(key) {
        assert(key[key.len() - 6] == "_right"@[0]);
    }
}

/// The parts of a hotkey are read one by one: each is trimmed and lower-cased, and
/// left out if nothing is left of it.
pub proof fn parts_are_read_one_by_one(
    raw: Seq<Seq<char>>,
    next: Seq<char>,
    lower: spec_fn(Seq<char>) -> Seq<char>,
)
    ensures
        normalized(Seq::empty(), lower).len() == 0,
        lower(text::trimmed(next)).len() > 0 ==> normalized(raw.push(next), lower) == normalized(
            raw,
            lower,
        ).push(lower(text::trimmed(next))),
        lower(text::trimmed(next)).len() == 0 ==> normalized(raw.push(next), lower) == normalized(
            raw,
            lower,
        ),
{
    assert(raw.push(next).drop_last() =~= raw);
}

/// A hotkey is split at its `+` signs and read in lower case.
pub proof fn a_hotkey_is_split_at_plus_signs(hotkey: Seq<char>)
    ensures
        parts(hotkey) == normalized(
            text::pieces(hotkey, '+'),
            |s: Seq<char>| outside::lowercase(s),
        ),
        ascii_parts(hotkey) == normalized(
            text::pieces(hotkey, '+'),
            |s: Seq<char>| ascii_lowercase(s),
        ),
{
}

/// Modifiers are collected one by one: a modifier that is not there yet joins at the
/// end, and anything else changes nothing.
pub proof fn modifiers_are_collected_in_order(
    held: Seq<Seq<char>>,
    parts: Seq<Seq<char>>,
    next: Seq<char>,
)
    ensures
        with_modifiers(held, Seq::empty()) == held,
        with_modifiers(held, parts.push(next)) == (if is_modifier(next) && !with_modifiers(
            held,
            parts,
        ).contains(base(next)) {
            with_modifiers(held, parts).push(base(next))
        } else {
            with_modifiers(held, parts)
        }),
{
    assert(parts.push(next).drop_last() =~= parts);
}

/// The main key is the last part that is no modifier.
pub proof fn the_main_key_is_the_last(parts: Seq<Seq<char>>)
    ensures
        match main_key(parts) {
            Some(key) => exists|i: int|
                0 <= i < parts.len() && #[trigger] parts[i] == key && !is_modifier(key) && (forall|
                    j: int,
                |
                    i < j < parts.len() ==> is_modifier(#[trigger] parts[j])),
            None => forall|j: int| 0 <= j < parts.len() ==> is_modifier(#[trigger] parts[j]),
        },
    decreases parts.len(),
{
    if parts.len() > 0 {
        let rest = parts.drop_last();
        let last = parts.len() - 1;
        the_main_key_is_the_last(rest);
        assert(parts[last] == parts.last());
        if is_modifier(parts.last()) {
            match main_key(rest) {
                Some(key) => {
                    let i = choose|i: int|
                        0 <= i < rest.len() && #[trigger] rest[i] == key && !is_modifier(key) && (
                        forall|j: int| i < j < rest.len() ==> is_modifier(#[trigger] rest[j]));
                    assert(parts[i] == key);
                    assert forall|j: int| i < j < parts.len() implies is_modifier(
                        #[trigger] parts[j],
                    ) by {
                        if j < last {
                            assert(rest[j] == parts[j]);
                        }
                    }
                },
                None => {
                    assert forall|j: int| 0 <= j < parts.len() implies is_modifier(
                        #[trigger] parts[j],
                    ) by {
                        if j < last {
                            assert(rest[j] == parts[j]);
                        }
                    }
                },
            }
        } else {
            assert(parts[last] == main_key(parts)->0);
        }
    }
}

/// A composed hotkey is the modifiers of the transcribe shortcut, then those that
/// the hands-free binding adds, then its main key, with `+` in between. There is
/// none exactly if the hands-free binding has no main key or the two are the same.
pub proof fn a_hotkey_is_composed_of_both(transcribe: Seq<Seq<char>>, hands_free: Seq<Seq<char>>)
    ensures
        ({
            let collides = main_key(hands_free) is None || main_key(transcribe) == main_key(
                hands_free,
            );
            let held = with_modifiers(Seq::empty(), transcribe);
            &&& collides <==> composed(transcribe, hands_free) is None
            &&& collides <==> composed_keys(transcribe, hands_free) is None
            &&& !collides ==> composed_keys(transcribe, hands_free)->0 == with_modifiers(
                held,
                hands_free,
            ) + seq![main_key(hands_free)->0]
            &&& !collides ==> composed(transcribe, hands_free)->0 == text::joined(
                with_modifiers(held, hands_free) + seq![main_key(hands_free)->0],
                "+"@,
            )
        }),
{
    let held = with_modifiers(Seq::empty(), transcribe);
    let all = with_modifiers(held, hands_free);
    if main_key(hands_free) is Some {
        let key = main_key(hands_free)->0;
        assert(all.push(key) =~= all + seq![key]);
    }
}

} // verus!
