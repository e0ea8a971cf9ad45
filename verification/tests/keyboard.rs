use keyboard_types::Modifiers;
use wi_core::editor::keyboard::char_keys;

#[test]
fn upper_case_char_is_pressed_lower_with_shift() {
    let (chars, mods) = char_keys('A', Modifiers::CONTROL.bits());
    assert_eq!(chars, vec!['a']);
    assert_eq!(mods, (Modifiers::CONTROL | Modifiers::SHIFT).bits());
}

#[test]
fn lower_case_char_releases_shift() {
    let (chars, mods) = char_keys('b', (Modifiers::SHIFT | Modifiers::ALT).bits());
    assert_eq!(chars, vec!['b']);
    assert_eq!(mods, Modifiers::ALT.bits());
}

#[test]
fn non_letter_char_is_itself() {
    let (chars, mods) = char_keys('?', Modifiers::empty().bits());
    assert_eq!(chars, vec!['?']);
    assert_eq!(mods, Modifiers::empty().bits());
}

#[test]
fn upper_case_char_with_longer_lower_form() {
    let (chars, mods) = char_keys('\u{130}', Modifiers::empty().bits());
    assert_eq!(chars, vec!['i', '\u{307}']);
    assert_eq!(mods, Modifiers::SHIFT.bits());
}
