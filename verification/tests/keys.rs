use note_recorder::keys::{contains_key, convert_key, map_key, KeyId, RawKey};
use note_recorder::tags::{key_label, key_to_string, same_text, starts_with, string_to_key};

fn named_keys() -> Vec<(KeyId, &'static str)> {
    vec![
        (KeyId::Space, "Space"),
        (KeyId::Return, "Return"),
        (KeyId::Tab, "Tab"),
        (KeyId::Escape, "Escape"),
        (KeyId::UpArrow, "UpArrow"),
        (KeyId::DownArrow, "DownArrow"),
        (KeyId::LeftArrow, "LeftArrow"),
        (KeyId::RightArrow, "RightArrow"),
        (KeyId::Shift, "Shift"),
        (KeyId::Control, "Control"),
        (KeyId::Alt, "Alt"),
        (KeyId::Meta, "Meta"),
    ]
}

#[test]
fn map_key_takes_the_rhythm_letters() {
    assert_eq!(map_key(RawKey::KeyA), Some(KeyId::Layout('a')));
    assert_eq!(map_key(RawKey::KeyS), Some(KeyId::Layout('s')));
    assert_eq!(map_key(RawKey::KeyD), Some(KeyId::Layout('d')));
    assert_eq!(map_key(RawKey::KeyF), Some(KeyId::Layout('f')));
    assert_eq!(map_key(RawKey::KeyJ), Some(KeyId::Layout('j')));
    assert_eq!(map_key(RawKey::KeyK), Some(KeyId::Layout('k')));
    assert_eq!(map_key(RawKey::KeyL), Some(KeyId::Layout('l')));
    assert_eq!(map_key(RawKey::KeyB), None);
    assert_eq!(map_key(RawKey::KeyZ), None);
    assert_eq!(map_key(RawKey::Num1), None);
}

#[test]
fn map_key_takes_left_and_right_modifiers_together() {
    assert_eq!(map_key(RawKey::ShiftLeft), Some(KeyId::Shift));
    assert_eq!(map_key(RawKey::ShiftRight), Some(KeyId::Shift));
    assert_eq!(map_key(RawKey::ControlLeft), Some(KeyId::Control));
    assert_eq!(map_key(RawKey::ControlRight), Some(KeyId::Control));
    assert_eq!(map_key(RawKey::Alt), Some(KeyId::Alt));
    assert_eq!(map_key(RawKey::AltGr), Some(KeyId::Alt));
    assert_eq!(map_key(RawKey::MetaLeft), Some(KeyId::Meta));
    assert_eq!(map_key(RawKey::MetaRight), Some(KeyId::Meta));
}

#[test]
fn map_key_takes_the_named_keys_but_not_backspace() {
    assert_eq!(map_key(RawKey::Space), Some(KeyId::Space));
    assert_eq!(map_key(RawKey::Return), Some(KeyId::Return));
    assert_eq!(map_key(RawKey::Tab), Some(KeyId::Tab));
    assert_eq!(map_key(RawKey::Escape), Some(KeyId::Escape));
    assert_eq!(map_key(RawKey::UpArrow), Some(KeyId::UpArrow));
    assert_eq!(map_key(RawKey::DownArrow), Some(KeyId::DownArrow));
    assert_eq!(map_key(RawKey::LeftArrow), Some(KeyId::LeftArrow));
    assert_eq!(map_key(RawKey::RightArrow), Some(KeyId::RightArrow));
    assert_eq!(map_key(RawKey::Backspace), None);
    assert_eq!(map_key(RawKey::F9), None);
    assert_eq!(map_key(RawKey::Unknown(7)), None);
}

#[test]
fn convert_key_takes_every_letter_and_digit() {
    assert_eq!(convert_key(RawKey::KeyA), Some(KeyId::Layout('a')));
    assert_eq!(convert_key(RawKey::KeyM), Some(KeyId::Layout('m')));
    assert_eq!(convert_key(RawKey::KeyZ), Some(KeyId::Layout('z')));
    assert_eq!(convert_key(RawKey::Num0), Some(KeyId::Layout('0')));
    assert_eq!(convert_key(RawKey::Num9), Some(KeyId::Layout('9')));
}

#[test]
fn convert_key_takes_backspace_but_not_meta() {
    assert_eq!(convert_key(RawKey::Backspace), Some(KeyId::Backspace));
    assert_eq!(convert_key(RawKey::MetaLeft), None);
    assert_eq!(convert_key(RawKey::MetaRight), None);
    assert_eq!(convert_key(RawKey::AltGr), Some(KeyId::Alt));
    assert_eq!(convert_key(RawKey::ShiftRight), Some(KeyId::Shift));
    assert_eq!(convert_key(RawKey::F10), None);
    assert_eq!(convert_key(RawKey::Kp1), None);
    assert_eq!(convert_key(RawKey::Unknown(0)), None);
}

#[test]
fn tags_of_named_keys_are_their_names() {
    for (key, name) in named_keys() {
        assert_eq!(key_to_string(key), name);
    }
}

#[test]
fn tag_of_a_layout_key_is_char_and_the_character() {
    assert_eq!(key_to_string(KeyId::Layout('a')), "char:a");
    assert_eq!(key_to_string(KeyId::Layout(':')), "char::");
    assert_eq!(key_to_string(KeyId::Layout('é')), "char:é");
}

#[test]
fn tag_of_backspace_is_not_read_back() {
    assert_eq!(key_to_string(KeyId::Backspace), "other:Backspace");
    assert_eq!(string_to_key("other:Backspace"), None);
}

#[test]
fn recognized_keys_are_read_back_from_their_tags() {
    for (key, _) in named_keys() {
        assert_eq!(string_to_key(&key_to_string(key)), Some(key));
    }
    for c in ['a', 'Z', '0', ' ', ':', 'é', '\u{10FFFF}'] {
        let key = KeyId::Layout(c);
        assert_eq!(string_to_key(&key_to_string(key)), Some(key));
    }
}

#[test]
fn tag_after_char_prefix_counts_its_first_character() {
    assert_eq!(string_to_key("char:abc"), Some(KeyId::Layout('a')));
    assert_eq!(string_to_key("char:"), None);
    assert_eq!(string_to_key("char"), None);
    assert_eq!(string_to_key("chars:a"), None);
}

#[test]
fn unknown_tags_name_no_key() {
    assert_eq!(string_to_key(""), None);
    assert_eq!(string_to_key("space"), None);
    assert_eq!(string_to_key("Space "), None);
    assert_eq!(string_to_key("Backspace"), None);
    assert_eq!(string_to_key("F9"), None);
}

#[test]
fn labels_are_short_names() {
    assert_eq!(key_label(&KeyId::Layout('x')), "x");
    assert_eq!(key_label(&KeyId::Space), "Space");
    assert_eq!(key_label(&KeyId::Return), "Enter");
    assert_eq!(key_label(&KeyId::Backspace), "Backspace");
    assert_eq!(key_label(&KeyId::Tab), "Tab");
    assert_eq!(key_label(&KeyId::Escape), "Esc");
    assert_eq!(key_label(&KeyId::UpArrow), "Up");
    assert_eq!(key_label(&KeyId::DownArrow), "Down");
    assert_eq!(key_label(&KeyId::LeftArrow), "Left");
    assert_eq!(key_label(&KeyId::RightArrow), "Right");
    assert_eq!(key_label(&KeyId::Shift), "Shift");
    assert_eq!(key_label(&KeyId::Control), "Ctrl");
    assert_eq!(key_label(&KeyId::Alt), "Alt");
    assert_eq!(key_label(&KeyId::Meta), "Meta");
}

#[test]
fn same_text_compares_characters() {
    assert!(same_text("", ""));
    assert!(same_text("Shift", "Shift"));
    assert!(!same_text("Shift", "Space"));
    assert!(!same_text("Alt", "Alt "));
    assert!(same_text("é", "é"));
}

#[test]
fn starts_with_compares_the_first_characters() {
    assert!(starts_with("char:a", "char:"));
    assert!(starts_with("char:", "char:"));
    assert!(starts_with("abc", ""));
    assert!(!starts_with("cha", "char:"));
    assert!(!starts_with("chart", "char:"));
}

#[test]
fn contains_key_finds_a_key() {
    let keys = vec![KeyId::Space, KeyId::Layout('a')];
    assert!(contains_key(&keys, KeyId::Layout('a')));
    assert!(!contains_key(&keys, KeyId::Layout('b')));
    assert!(!contains_key(&Vec::new(), KeyId::Space));
}
