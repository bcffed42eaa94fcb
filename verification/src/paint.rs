//! Terminal colours, written by `owo-colors`.
//!
//! Each wrapper calls the `OwoColorize` method of its own name and states the
//! escape sequences that its `Display` puts round the text.

use owo_colors::OwoColorize;
use vstd::prelude::*;

verus! {

/// `text` between an opening and a closing escape sequence.
pub open spec fn painted(open: Seq<char>, text: Seq<char>, close: Seq<char>) -> Seq<char> {
    open + text + close
}

/// Green foreground.
pub open spec fn green_of(s: Seq<char>) -> Seq<char> {
    painted("\u{1b}[32m"@, s, "\u{1b}[39m"@)
}

/// Yellow foreground.
pub open spec fn yellow_of(s: Seq<char>) -> Seq<char> {
    painted("\u{1b}[33m"@, s, "\u{1b}[39m"@)
}

/// Red foreground.
pub open spec fn red_of(s: Seq<char>) -> Seq<char> {
    painted("\u{1b}[31m"@, s, "\u{1b}[39m"@)
}

/// Bright black (gray) foreground.
pub open spec fn gray_of(s: Seq<char>) -> Seq<char> {
    painted("\u{1b}[90m"@, s, "\u{1b}[39m"@)
}

/// Bright blue foreground.
pub open spec fn blue_of(s: Seq<char>) -> Seq<char> {
    painted("\u{1b}[94m"@, s, "\u{1b}[39m"@)
}

/// Bright green foreground.
pub open spec fn bright_green_of(s: Seq<char>) -> Seq<char> {
    painted("\u{1b}[92m"@, s, "\u{1b}[39m"@)
}

/// Bright red foreground.
pub open spec fn bright_red_of(s: Seq<char>) -> Seq<char> {
    painted("\u{1b}[91m"@, s, "\u{1b}[39m"@)
}

/// Italic.
pub open spec fn italic_of(s: Seq<char>) -> Seq<char> {
    painted("\u{1b}[3m"@, s, "\u{1b}[0m"@)
}

/// Bold.
pub open spec fn bold_of(s: Seq<char>) -> Seq<char> {
    painted("\u{1b}[1m"@, s, "\u{1b}[0m"@)
}

/// `OwoColorize::green`: the text between `ESC[32m` and `ESC[39m`.
#[verifier::external_body]
pub(crate) fn green(s: &str) -> (r: String)
    ensures
        r@ == green_of(s@),
{
    s.green().to_string()
}

/// `OwoColorize::yellow`: the text between `ESC[33m` and `ESC[39m`.
#[verifier::external_body]
pub(crate) fn yellow(s: &str) -> (r: String)
    ensures
        r@ == yellow_of(s@),
{
    s.yellow().to_string()
}

/// `OwoColorize::red`: the text between `ESC[31m` and `ESC[39m`.
#[verifier::external_body]
pub(crate) fn red(s: &str) -> (r: String)
    ensures
        r@ == red_of(s@),
{
    s.red().to_string()
}

/// `OwoColorize::bright_black`: the text between `ESC[90m` and `ESC[39m`.
#[verifier::external_body]
pub(crate) fn gray(s: &str) -> (r: String)
    ensures
        r@ == gray_of(s@),
{
    s.bright_black().to_string()
}

/// `OwoColorize::bright_blue`: the text between `ESC[94m` and `ESC[39m`.
#[verifier::external_body]
pub(crate) fn blue(s: &str) -> (r: String)
    ensures
        r@ == blue_of(s@),
{
    s.bright_blue().to_string()
}

/// `OwoColorize::bright_green`: the text between `ESC[92m` and `ESC[39m`.
#[verifier::external_body]
pub(crate) fn bright_green(s: &str) -> (r: String)
    ensures
        r@ == bright_green_of(s@),
{
    s.bright_green().to_string()
}

/// `OwoColorize::bright_red`: the text between `ESC[91m` and `ESC[39m`.
#[verifier::external_body]
pub(crate) fn bright_red(s: &str) -> (r: String)
    ensures
        r@ == bright_red_of(s@),
{
    s.bright_red().to_string()
}

/// `OwoColorize::italic`: the text between `ESC[3m` and `ESC[0m`.
#[verifier::external_body]
pub(crate) fn italic(s: &str) -> (r: String)
    ensures
        r@ == italic_of(s@),
{
    s.italic().to_string()
}

/// `OwoColorize::bold`: the text between `ESC[1m` and `ESC[0m`.
#[verifier::external_body]
pub(crate) fn bold(s: &str) -> (r: String)
    ensures
        r@ == bold_of(s@),
{
    s.bold().to_string()
}

} // verus!
