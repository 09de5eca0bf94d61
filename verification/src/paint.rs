//! Emphasis on a terminal. The escape sequences are `colored`'s; the library
//! states the text that remains once they are taken out.

use vstd::prelude::*;
use colored::Colorize;
use crate::digits::is_digit;

verus! {

/// The ways in which the renderer sets a piece of text off from the rest.
#[derive(Clone, Copy, Debug, PartialEq, Eq, Structural)]
pub enum Emphasis {
    Inverted,
    Red,
    Magenta,
    Cyan,
    Yellow,
    White,
}

/// The character that starts an escape sequence.
pub open spec fn escape() -> char {
    '\x1b'
}

/// Where the digits and semicolons end that start at index `from` of `s`.
pub open spec fn parameters_end(s: Seq<char>, from: nat) -> nat
    decreases s.len() - from,
{
    if from < s.len() && (is_digit(s[from as int]) || s[from as int] == ';') {
        parameters_end(s, from + 1)
    } else {
        from
    }
}

/// The length of the styling sequence that `s` starts with, 0 where it starts
/// with none. A styling sequence is the escape character, `[`, any digits
/// and semicolons, and `m`.
pub open spec fn style_len(s: Seq<char>) -> nat {
    let end = parameters_end(s, 2);
    if s.len() >= 3 && s[0] == escape() && s[1] == '[' && end < s.len() && s[end as int] == 'm' {
        end + 1
    } else {
        0
    }
}

/// `s` without its styling sequences: what a terminal shows of it.
pub open spec fn visible(s: Seq<char>) -> Seq<char>
    decreases s.len(),
{
    let skip = style_len(s);
    if s.len() == 0 {
        s
    } else if 0 < skip <= s.len() {
        visible(s.subrange(skip as int, s.len() as int))
    } else {
        seq![s.first()] + visible(s.drop_first())
    }
}

/// Whether `painted` is `text` with or without emphasis: with none where
/// `colorize` is off, and else the same but for styling sequences.
pub open spec fn paints(painted: Seq<char>, text: Seq<char>, colorize: bool) -> bool {
    &&& visible(painted) == visible(text)
    &&& !colorize ==> painted == text
}

/// Text without an escape character shows as it is.
pub proof fn lemma_visible_plain(s: Seq<char>)
    requires
        forall|i: int| 0 <= i < s.len() ==> s[i] != escape(),
    ensures
        visible(s) == s,
    decreases s.len(),
{
    if s.len() > 0 {
        lemma_visible_plain(s.drop_first());
    }
}

/// `Colorize::reversed`, `red`, `magenta`, `cyan`, `yellow` or `white` on
/// `text`, written out with `to_string`. Whether escape sequences
/// are written depends on the environment and on `colored`'s override; where
/// they are, they are styling sequences around `text` and behind each
/// sequence in it that ends its styling, so the visible text is that of
/// `text` either way.
#[verifier::external_body]
fn colored_text(text: &str, emphasis: Emphasis) -> (r: String)
    ensures
        visible(r@) == visible(text@),
{
    match emphasis {
        Emphasis::Inverted => text.reversed(),
        Emphasis::Red => text.red(),
        Emphasis::Magenta => text.magenta(),
        Emphasis::Cyan => text.cyan(),
        Emphasis::Yellow => text.yellow(),
        Emphasis::White => text.white(),
    }.to_string()
}

/// `text` with `emphasis` where `colorize` is on, and as it is where not.
pub fn paint(text: &str, emphasis: Emphasis, colorize: bool) -> (r: String)
    ensures
        paints(r@, text@, colorize),
{
    if colorize {
        colored_text(text, emphasis)
    } else {
        text.to_owned()
    }
}

} // verus!
