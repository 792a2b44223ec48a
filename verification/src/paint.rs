//! Colouring single letters for the terminal.

use crate::feedback::Color;
use crate::text::char_string;
use vstd::prelude::*;

verus! {

/// The escape sequence that selects the graphic rendition with the given
/// code: `ESC [`, the code, `m`.
pub open spec fn sgr(code: Seq<char>) -> Seq<char> {
    seq!['\x1b', '['] + code + seq!['m']
}

/// A letter between the sequence that selects a colour and the sequence that
/// resets the rendition.
pub open spec fn styled(code: Seq<char>, letter: char) -> Seq<char> {
    sgr(code) + seq![letter] + sgr(seq!['0'])
}

/// The code of the colour in which a letter is shown: bright green, yellow,
/// or none for a letter shown as it is.
pub open spec fn color_code(color: Color) -> Option<Seq<char>> {
    match color {
        Color::Green => Some(seq!['9', '2']),
        Color::Yellow => Some(seq!['3', '3']),
        Color::Gray => None,
    }
}

/// Whether `cell` shows `letter` in `color`. A coloured letter is styled
/// where the terminal takes colours and bare where it does not; a Gray
/// letter is always bare.
pub open spec fn shows_letter(cell: Seq<char>, letter: char, color: Color) -> bool {
    ||| cell == seq![letter]
    ||| color_code(color) matches Some(code) && cell == styled(code, letter)
}

/// `letter` in bright green, through `colored::Colorize::bright_green` and
/// the `Display` of the `ColoredString` that it gives. Where the crate finds
/// that colours are on, the result is the letter between `ESC [ 9 2 m` and
/// `ESC [ 0 m`; where it finds them off, the letter alone. Which of the two
/// it is depends on the environment, on the terminal and on the override of
/// `colored::control`, so the contract allows both. It is taken on trust, and
/// for a setting that does not change while the letter is written.
#[verifier::external_body]
fn paint_bright_green(letter: char) -> (cell: String)
    ensures
        cell@ == seq![letter] || cell@ == styled(seq!['9', '2'], letter),
{
    colored::Colorize::bright_green(letter.to_string().as_str()).to_string()
}

/// `letter` in yellow, through `colored::Colorize::yellow` and the `Display`
/// of the `ColoredString` that it gives. Where the crate finds that colours
/// are on, the result is the letter between `ESC [ 3 3 m` and `ESC [ 0 m`;
/// where it finds them off, the letter alone. The contract allows both, and
/// is taken on trust in the same way as that of `paint_bright_green`.
#[verifier::external_body]
fn paint_yellow(letter: char) -> (cell: String)
    ensures
        cell@ == seq![letter] || cell@ == styled(seq!['3', '3'], letter),
{
    colored::Colorize::yellow(letter.to_string().as_str()).to_string()
}

/// The text that shows `letter` in `color`.
pub fn paint(letter: char, color: Color) -> (cell: String)
    ensures
        shows_letter(cell@, letter, color),
        color == Color::Gray ==> cell@ == seq![letter],
{
    match color {
        Color::Green => paint_bright_green(letter),
        Color::Yellow => paint_yellow(letter),
        Color::Gray => char_string(letter),
    }
}

} // verus!
