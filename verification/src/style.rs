//! Trusted boundary to the `colored` crate. Styled output depends on the
//! environment (colouring can be globally disabled, and truecolor support
//! is probed), so each wrapper states only what holds of every outcome:
//! the input's length is never lost, the added style and reset codes are
//! bounded, and at most one new reset sequence appears.

use colored::Colorize;
use vstd::prelude::*;

verus! {

/// The four-character terminal reset sequence that `colored` appends
/// after a styled fragment.
pub open spec fn reset_seq() -> Seq<char> {
    seq!['\u{1b}', '[', '0', 'm']
}

/// How many positions of `s` start an occurrence of the reset sequence.
pub open spec fn reset_count(s: Seq<char>) -> nat
    decreases s.len(),
{
    if s.len() < 4 {
        0
    } else {
        (if s.subrange(0, 4) =~= reset_seq() {
            1nat
        } else {
            0nat
        }) + reset_count(s.subrange(1, s.len() as int))
    }
}

/// Relies on `String::from` for `char`: a string holding exactly the one
/// character.
#[verifier::external_body]
pub(crate) fn char_to_string(c: char) -> (r: String)
    ensures
        r@ == seq![c],
{
    String::from(c)
}

/// Relies on `colored`'s `Colorize::bold` and the `Display` of
/// `ColoredString`: the result is the input unchanged (colouring
/// disabled), or the input wrapped in the four-character bold code and
/// the four-character reset, with the bold code also re-inserted after
/// each reset sequence already inside the input.
#[verifier::external_body]
pub(crate) fn bold_str(s: &str) -> (r: String)
    ensures
        s@.len() <= r@.len(),
        r@.len() <= s@.len() + 8 + 4 * reset_count(s@),
        reset_count(r@) <= reset_count(s@) + 1,
        forall|ch: char| s@.contains(ch) ==> r@.contains(ch),
{
    s.bold().to_string()
}

/// Relies on `colored`'s `Colorize::italic`, as `bold_str` does on
/// `bold`; the italic code is four characters as well.
#[verifier::external_body]
pub(crate) fn italic_str(s: &str) -> (r: String)
    ensures
        s@.len() <= r@.len(),
        r@.len() <= s@.len() + 8 + 4 * reset_count(s@),
        reset_count(r@) <= reset_count(s@) + 1,
        forall|ch: char| s@.contains(ch) ==> r@.contains(ch),
{
    s.italic().to_string()
}

/// Relies on `colored`'s `Colorize::underline`, as `bold_str` does on
/// `bold`; the underline code is four characters as well.
#[verifier::external_body]
pub(crate) fn underline_str(s: &str) -> (r: String)
    ensures
        s@.len() <= r@.len(),
        r@.len() <= s@.len() + 8 + 4 * reset_count(s@),
        reset_count(r@) <= reset_count(s@) + 1,
        forall|ch: char| s@.contains(ch) ==> r@.contains(ch),
{
    s.underline().to_string()
}

/// Relies on `colored`'s `Colorize::truecolor`, as `bold_str` does on
/// `bold`. The foreground code is at most nineteen characters (fewer
/// when the terminal lacks truecolor support and the nearest plain
/// color is substituted).
#[verifier::external_body]
pub(crate) fn truecolor_str(s: &str, red: u8, green: u8, blue: u8) -> (r: String)
    ensures
        s@.len() <= r@.len(),
        r@.len() <= s@.len() + 23 + 19 * reset_count(s@),
        reset_count(r@) <= reset_count(s@) + 1,
        forall|ch: char| s@.contains(ch) ==> r@.contains(ch),
{
    s.truecolor(red, green, blue).to_string()
}

} // verus!
