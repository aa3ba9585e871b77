//! Colour emphasis. The `colored` crate renders a text in a foreground
//! colour; whether it writes colour codes at all is decided by the
//! environment it runs in, so a painted text is one of two things.

use vstd::prelude::*;

use crate::text::replace_all;

verus! {

/// The escape sequence that switches a style on.
pub open spec fn ansi_open(code: Seq<char>) -> Seq<char> {
    seq!['\u{1b}', '['] + code + seq!['m']
}

/// The escape sequence that switches every style off.
pub open spec fn ansi_reset() -> Seq<char> {
    seq!['\u{1b}', '[', '0', 'm']
}

/// A text wrapped in a style: switched on before it, off behind it, and on
/// again after every reset that the text itself holds.
pub open spec fn ansi_paint(text: Seq<char>, code: Seq<char>) -> Seq<char> {
    ansi_open(code) + replace_all(text, ansi_reset(), ansi_reset() + ansi_open(code))
        + ansi_reset()
}

/// `out` is `text` painted in the style `code`: the text itself where
/// colours are off, the wrapped text where they are on.
pub open spec fn is_painting(text: Seq<char>, code: Seq<char>, out: Seq<char>) -> bool {
    out == text || out == ansi_paint(text, code)
}

/// Style code of the matched pieces: red.
pub open spec fn match_code() -> Seq<char> {
    seq!['3', '1']
}

/// Style code of the column number: green.
pub open spec fn col_code() -> Seq<char> {
    seq!['3', '2']
}

/// Style code of the row number: blue.
pub open spec fn row_code() -> Seq<char> {
    seq!['3', '4']
}

/// Style code of a source's label: purple.
pub open spec fn label_code() -> Seq<char> {
    seq!['3', '5']
}

/// Paints a text red.
///
/// Trusted: the `Display` form of `Colorize::red` is the text unchanged
/// where `colored` has colours switched off, and otherwise `ESC[31m`, the
/// text with the style repeated after each reset inside it, and `ESC[0m`.
#[verifier::external_body]
pub(crate) fn paint_red(text: &str) -> (out: String)
    ensures
        is_painting(text@, match_code(), out@),
{
    format!("{}", colored::Colorize::red(text))
}

/// Paints a text green.
///
/// Trusted: as for red, with `Colorize::green` and `ESC[32m`.
#[verifier::external_body]
pub(crate) fn paint_green(text: &str) -> (out: String)
    ensures
        is_painting(text@, col_code(), out@),
{
    format!("{}", colored::Colorize::green(text))
}

/// Paints a text blue.
///
/// Trusted: as for red, with `Colorize::blue` and `ESC[34m`.
#[verifier::external_body]
pub(crate) fn paint_blue(text: &str) -> (out: String)
    ensures
        is_painting(text@, row_code(), out@),
{
    format!("{}", colored::Colorize::blue(text))
}

/// Paints a text purple.
///
/// Trusted: as for red, with `Colorize::purple` and `ESC[35m`.
#[verifier::external_body]
pub(crate) fn paint_purple(text: &str) -> (out: String)
    ensures
        is_painting(text@, label_code(), out@),
{
    format!("{}", colored::Colorize::purple(text))
}

} // verus!
