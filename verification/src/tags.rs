//! The text forms of a logical key: the tag it is persisted under and the
//! label it is shown with.

use vstd::prelude::*;
use vstd::string::*;
use crate::keys::KeyId;

verus! {

/// `String::push` of the standard library appends one character to the end
/// of the string and leaves the rest of it as it was.
pub assume_specification[ String::push ](s: &mut String, c: char)
    ensures
        final(s)@ == old(s)@.push(c),
;

/// The tag a key is persisted under: `char:` and the character for a key of
/// the layout, the key's name for a named key. Backspace has no tag that is
/// read back.
pub open spec fn key_tag(key: KeyId) -> Seq<char> {
    match key {
        KeyId::Layout(c) => "char:"@.push(c),
        KeyId::Space => "Space"@,
        KeyId::Return => "Return"@,
        KeyId::Tab => "Tab"@,
        KeyId::Escape => "Escape"@,
        KeyId::UpArrow => "UpArrow"@,
        KeyId::DownArrow => "DownArrow"@,
        KeyId::LeftArrow => "LeftArrow"@,
        KeyId::RightArrow => "RightArrow"@,
        KeyId::Shift => "Shift"@,
        KeyId::Control => "Control"@,
        KeyId::Alt => "Alt"@,
        KeyId::Meta => "Meta"@,
        KeyId::Backspace => "other:Backspace"@,
    }
}

/// The key that a tag names, if any. After `char:` the first character
/// counts and the rest is ignored.
pub open spec fn tag_key(tag: Seq<char>) -> Option<KeyId> {
    if tag.len() > 5 && tag.take(5) == "char:"@ {
        Some(KeyId::Layout(tag[5]))
    } else if tag == "Space"@ {
        Some(KeyId::Space)
    } else if tag == "Return"@ {
        Some(KeyId::Return)
    } else if tag == "Tab"@ {
        Some(KeyId::Tab)
    } else if tag == "Escape"@ {
        Some(KeyId::Escape)
    } else if tag == "UpArrow"@ {
        Some(KeyId::UpArrow)
    } else if tag == "DownArrow"@ {
        Some(KeyId::DownArrow)
    } else if tag == "LeftArrow"@ {
        Some(KeyId::LeftArrow)
    } else if tag == "RightArrow"@ {
        Some(KeyId::RightArrow)
    } else if tag == "Shift"@ {
        Some(KeyId::Shift)
    } else if tag == "Control"@ {
        Some(KeyId::Control)
    } else if tag == "Alt"@ {
        Some(KeyId::Alt)
    } else if tag == "Meta"@ {
        Some(KeyId::Meta)
    } else {
        None
    }
}

/// The keys whose tag is read back as the key itself.
pub open spec fn is_recognized(key: KeyId) -> bool {
    key != KeyId::Backspace
}

/// The label a key is shown with.
pub open spec fn label_of(key: KeyId) -> Seq<char> {
    match key {
        KeyId::Layout(c) => seq![c],
        KeyId::Space => "Space"@,
        KeyId::Return => "Enter"@,
        KeyId::Backspace => "Backspace"@,
        KeyId::Tab => "Tab"@,
        KeyId::Escape => "Esc"@,
        KeyId::UpArrow => "Up"@,
        KeyId::DownArrow => "Down"@,
        KeyId::LeftArrow => "Left"@,
        KeyId::RightArrow => "Right"@,
        KeyId::Shift => "Shift"@,
        KeyId::Control => "Ctrl"@,
        KeyId::Alt => "Alt"@,
        KeyId::Meta => "Meta"@,
    }
}

/// Whether two texts hold the same characters.
pub fn same_text(a: &str, b: &str) -> (same: bool)
    ensures
        same == (a@ == b@),
{
    let n = a.unicode_len();
    if n != b.unicode_len() {
        return false;
    }
    let mut i: usize = 0;
    while i < n
        invariant
            i <= n,
            n == a@.len(),
            n == b@.len(),
            forall|j: int| 0 <= j < i ==> a@[j] == b@[j],
        decreases n - i,
    {
        if a.get_char(i) != b.get_char(i) {
            return false;
        }
        i += 1;
    }
    assert(a@ =~= b@);
    true
}

/// Whether `text` begins with the characters of `prefix`.
pub fn starts_with(text: &str, prefix: &str) -> (begins: bool)
    ensures
        begins == (text@.len() >= prefix@.len() && text@.take(prefix@.len() as int) == prefix@),
{
    let n = prefix.unicode_len();
    if text.unicode_len() < n {
        return false;
    }
    let mut i: usize = 0;
    while i < n
        invariant
            i <= n,
            n == prefix@.len(),
            n <= text@.len(),
            forall|j: int| 0 <= j < i ==> text@[j] == prefix@[j],
        decreases n - i,
    {
        if text.get_char(i) != prefix.get_char(i) {
            assert(text@.take(n as int)[i as int] != prefix@[i as int]);
            return false;
        }
        i += 1;
    }
    assert(text@.take(n as int) =~= prefix@);
    true
}

/// The tag that `key` is persisted under.
pub fn key_to_string(key: KeyId) -> (tag: String)
    ensures
        tag@ == key_tag(key),
{
    match key {
        KeyId::Layout(c) => {
            let mut tag = String::from_str("char:");
            tag.push(c);
            tag
        },
        KeyId::Space => String::from_str("Space"),
        KeyId::Return => String::from_str("Return"),
        KeyId::Tab => String::from_str("Tab"),
        KeyId::Escape => String::from_str("Escape"),
        KeyId::UpArrow => String::from_str("UpArrow"),
        KeyId::DownArrow => String::from_str("DownArrow"),
        KeyId::LeftArrow => String::from_str("LeftArrow"),
        KeyId::RightArrow => String::from_str("RightArrow"),
        KeyId::Shift => String::from_str("Shift"),
        KeyId::Control => String::from_str("Control"),
        KeyId::Alt => String::from_str("Alt"),
        KeyId::Meta => String::from_str("Meta"),
        KeyId::Backspace => String::from_str("other:Backspace"),
    }
}

/// The key that `tag` names, or `None` for a tag that names no key.
pub fn string_to_key(tag: &str) -> (key: Option<KeyId>)
    ensures
        key == tag_key(tag@),
{
    proof {
        reveal_strlit("char:");
    }
    if tag.unicode_len() > 5 && starts_with(tag, "char:") {
        return Some(KeyId::Layout(tag.get_char(5)));
    }
    if same_text(tag, "Space") {
        Some(KeyId::Space)
    } else if same_text(tag, "Return") {
        Some(KeyId::Return)
    } else if same_text(tag, "Tab") {
        Some(KeyId::Tab)
    } else if same_text(tag, "Escape") {
        Some(KeyId::Escape)
    } else if same_text(tag, "UpArrow") {
        Some(KeyId::UpArrow)
    } else if same_text(tag, "DownArrow") {
        Some(KeyId::DownArrow)
    } else if same_text(tag, "LeftArrow") {
        Some(KeyId::LeftArrow)
    } else if same_text(tag, "RightArrow") {
        Some(KeyId::RightArrow)
    } else if same_text(tag, "Shift") {
        Some(KeyId::Shift)
    } else if same_text(tag, "Control") {
        Some(KeyId::Control)
    } else if same_text(tag, "Alt") {
        Some(KeyId::Alt)
    } else if same_text(tag, "Meta") {
        Some(KeyId::Meta)
    } else {
        None
    }
}

/// The label that `key` is shown with.
pub fn key_label(key: &KeyId) -> (label: String)
    ensures
        label@ == label_of(*key),
{
    match *key {
        KeyId::Layout(c) => {
            let mut label = String::new();
            label.push(c);
            label
        },
        KeyId::Space => String::from_str("Space"),
        KeyId::Return => String::from_str("Enter"),
        KeyId::Backspace => String::from_str("Backspace"),
        KeyId::Tab => String::from_str("Tab"),
        KeyId::Escape => String::from_str("Esc"),
        KeyId::UpArrow => String::from_str("Up"),
        KeyId::DownArrow => String::from_str("Down"),
        KeyId::LeftArrow => String::from_str("Left"),
        KeyId::RightArrow => String::from_str("Right"),
        KeyId::Shift => String::from_str("Shift"),
        KeyId::Control => String::from_str("Ctrl"),
        KeyId::Alt => String::from_str("Alt"),
        KeyId::Meta => String::from_str("Meta"),
    }
}

/// A recognized key is read back from its own tag.
pub proof fn lemma_tag_round_trip(key: KeyId)
    requires
        is_recognized(key),
    ensures
        tag_key(key_tag(key)) == Some(key),
{
    reveal_strlit("char:");
    reveal_strlit("Space");
    reveal_strlit("Return");
    reveal_strlit("Tab");
    reveal_strlit("Escape");
    reveal_strlit("UpArrow");
    reveal_strlit("DownArrow");
    reveal_strlit("LeftArrow");
    reveal_strlit("RightArrow");
    reveal_strlit("Shift");
    reveal_strlit("Control");
    reveal_strlit("Alt");
    reveal_strlit("Meta");
    assert("char:"@[0] == 'c' && "char:"@[1] == 'h');
    assert("Space"@[0] == 'S' && "Space"@[1] == 'p');
    assert("Return"@[0] == 'R' && "Return"@[1] == 'e');
    assert("Tab"@[0] == 'T' && "Tab"@[1] == 'a');
    assert("Escape"@[0] == 'E' && "Escape"@[1] == 's');
    assert("UpArrow"@[0] == 'U' && "UpArrow"@[1] == 'p');
    assert("DownArrow"@[0] == 'D' && "DownArrow"@[1] == 'o');
    assert("LeftArrow"@[0] == 'L' && "LeftArrow"@[1] == 'e');
    assert("RightArrow"@[0] == 'R' && "RightArrow"@[1] == 'i');
    assert("Shift"@[0] == 'S' && "Shift"@[1] == 'h');
    assert("Control"@[0] == 'C' && "Control"@[1] == 'o');
    assert("Alt"@[0] == 'A' && "Alt"@[1] == 'l');
    assert("Meta"@[0] == 'M' && "Meta"@[1] == 'e');
    match key {
        KeyId::Layout(c) => {
            assert(key_tag(key).take(5) =~= "char:"@);
        },
        _ => {
            let t = key_tag(key);
            if t.len() > 5 {
                assert(t.take(5)[0] == t[0]);
            }
        },
    }
}

} // verus!
