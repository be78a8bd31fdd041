//! The calls into the terminal-text crates: measuring and painting text.

use vstd::prelude::*;
use crate::part::{Color, Emphasis};
use unicode_width::UnicodeWidthStr;

verus! {

/// Columns that `text` takes on a terminal, as `unicode_width` measures them.
pub uninterp spec fn display_width(text: Seq<char>) -> nat;

/// `text` wrapped in the escape codes of the given style, as `ansi_term` writes it.
pub uninterp spec fn painted(text: Seq<char>, fg: Color, bg: Color, emphasis: Emphasis) -> Seq<char>;

/// A run of pieces, each with its own colours, as `ansi_term` writes them
/// with the fewest escape codes.
pub uninterp spec fn painted_run(pieces: Seq<(Seq<char>, Color, Color)>) -> Seq<char>;

/// Every character is printable ASCII (space up to tilde).
pub open spec fn is_printable_ascii(s: Seq<char>) -> bool {
    forall|i: int| 0 <= i < s.len() ==> ' ' <= #[trigger] s[i] && s[i] <= '~'
}

/// Relies on `UnicodeWidthStr::width` from unicode-width: the width depends
/// on the text alone, and each printable ASCII character takes one column.
#[verifier::external_body]
pub fn text_width(text: &str) -> (r: usize)
    ensures
        r == display_width(text@),
        is_printable_ascii(text@) ==> r == text@.len(),
{
    text.width()
}

/// Relies on `ansi_term::Style::paint` and its `Display`: the style's prefix,
/// then the text, then the style's suffix.
#[verifier::external_body]
pub fn paint(text: &str, fg: Color, bg: Color, emphasis: Emphasis) -> (r: String)
    ensures
        r@ == painted(text@, fg, bg, emphasis),
        exists|pre: Seq<char>, post: Seq<char>| r@ == pre + text@ + post,
{
    let colour = |c: Color| match c {
        Color::Rgb(r, g, b) => ansi_term::Colour::RGB(r, g, b),
        Color::EightBit(n) => ansi_term::Colour::Fixed(n),
    };
    let style = ansi_term::Style {
        foreground: Some(colour(fg)),
        background: Some(colour(bg)),
        is_bold: emphasis == Emphasis::Bold,
        is_italic: emphasis == Emphasis::Italic,
        ..ansi_term::Style::default()
    };
    style.paint(text).to_string()
}

/// Relies on `ansi_term::ANSIStrings` and its `Display`: the pieces in order,
/// each in its foreground and background colour, with the escape codes that
/// switch between them.
#[verifier::external_body]
pub fn paint_run(pieces: &Vec<(String, Color, Color)>) -> (r: String)
    ensures
        r@ == painted_run(pieces@.map_values(|p: (String, Color, Color)| (p.0@, p.1, p.2))),
{
    let colour = |c: Color| match c {
        Color::Rgb(r, g, b) => ansi_term::Colour::RGB(r, g, b),
        Color::EightBit(n) => ansi_term::Colour::Fixed(n),
    };
    let mut strings = Vec::new();
    for (text, fg, bg) in pieces.iter() {
        strings.push(ansi_term::Style::new().fg(colour(*fg)).on(colour(*bg)).paint(text.as_str()));
    }
    ansi_term::ANSIStrings(&strings).to_string()
}

/// Relies on `str::to_ascii_uppercase`: ASCII letters become upper case,
/// every other character stays.
#[verifier::external_body]
pub fn ascii_uppercase(text: &str) -> (r: String)
    ensures
        r@ == ascii_upper(text@),
{
    text.to_ascii_uppercase()
}

/// A character with its ASCII letter, if any, in upper case.
pub open spec fn upper_char(c: char) -> char {
    if 'a' <= c && c <= 'z' {
        ((c as u32) - 32) as char
    } else {
        c
    }
}

/// A text with its ASCII letters in upper case.
pub open spec fn ascii_upper(s: Seq<char>) -> Seq<char> {
    s.map_values(|c: char| upper_char(c))
}

} // verus!
