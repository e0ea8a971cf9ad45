use vstd::prelude::*;

verus! {

/// The bit of the shift key among the bits of `keyboard_types::Modifiers`.
pub const SHIFT_BIT: u32 = 0x200;

/// Whether a character is upper-case, as `char::is_uppercase` tells by the
/// Unicode tables.
pub uninterp spec fn char_is_uppercase(c: char) -> bool;

/// The lower-case form of a character, as `char::to_lowercase` gives it
/// by the Unicode tables.
pub uninterp spec fn char_to_lowercase(c: char) -> Seq<char>;

/// `keyboard_types::Modifiers::insert` with `Modifiers::SHIFT`, on the
/// modifiers with the given bits: the result's bits are the given ones with
/// the shift bit set (bitflags' `insert` is a bitwise or).
#[verifier::external_body]
fn insert_shift(bits: u32) -> (r: u32)
    ensures
        r == bits | SHIFT_BIT,
{
    let mut m = keyboard_types::Modifiers::from_bits_retain(bits);
    m.insert(keyboard_types::Modifiers::SHIFT);
    m.bits()
}

/// `keyboard_types::Modifiers::remove` with `Modifiers::SHIFT`, on the
/// modifiers with the given bits: the result's bits are the given ones with
/// the shift bit cleared (bitflags' `remove` is a bitwise and with the
/// complement).
#[verifier::external_body]
fn remove_shift(bits: u32) -> (r: u32)
    ensures
        r == bits & !SHIFT_BIT,
{
    let mut m = keyboard_types::Modifiers::from_bits_retain(bits);
    m.remove(keyboard_types::Modifiers::SHIFT);
    m.bits()
}

/// `char::is_uppercase`; see [`char_is_uppercase`].
#[verifier::external_body]
fn is_uppercase(c: char) -> (r: bool)
    ensures
        r == char_is_uppercase(c),
{
    c.is_uppercase()
}

/// `char::to_lowercase`, its characters collected; see
/// [`char_to_lowercase`].
#[verifier::external_body]
fn to_lowercase(c: char) -> (r: Vec<char>)
    ensures
        r@ == char_to_lowercase(c),
{
    c.to_lowercase().collect()
}

/// What a typed character is pressed as, given the bits of the modifiers
/// held (`keyboard_types::Modifiers::bits`): an upper-case character is
/// each character of its lower-case form, with shift held; any other
/// character is itself, with shift released. The result is the characters
/// to press, in order, and the bits of the modifiers held for each.
pub fn char_keys(chr: char, mods: u32) -> (r: (Vec<char>, u32))
    ensures
        char_is_uppercase(chr) ==> r.0@ == char_to_lowercase(chr) && r.1 == mods | SHIFT_BIT,
        !char_is_uppercase(chr) ==> r.0@ == seq![chr] && r.1 == mods & !SHIFT_BIT,
{
    if is_uppercase(chr) {
        (to_lowercase(chr), insert_shift(mods))
    } else {
        (vec![chr], remove_shift(mods))
    }
}

} // verus!
