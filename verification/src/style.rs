//! The escape sequences that style and colour text on a terminal.
//!
//! The sequences themselves come from `termion`; each function here hands
//! out one of them as a text, and states which one it is.

use vstd::prelude::*;

verus! {

/// The sequence that starts bold text.
pub open spec fn bold_code() -> Seq<char> {
    "\x1b[1m"@
}

/// The sequence that starts italic text.
pub open spec fn italic_code() -> Seq<char> {
    "\x1b[3m"@
}

/// The sequence that starts underlined text.
pub open spec fn underline_code() -> Seq<char> {
    "\x1b[4m"@
}

/// The sequence that ends every style and colour.
pub open spec fn reset_code() -> Seq<char> {
    "\x1b[m"@
}

/// The sequence that starts red text.
pub open spec fn red_code() -> Seq<char> {
    "\x1b[38;5;1m"@
}

/// The sequence that starts green text.
pub open spec fn green_code() -> Seq<char> {
    "\x1b[38;5;2m"@
}

/// The sequence that starts yellow text.
pub open spec fn yellow_code() -> Seq<char> {
    "\x1b[38;5;3m"@
}

/// The sequence that starts blue text.
pub open spec fn blue_code() -> Seq<char> {
    "\x1b[38;5;4m"@
}

/// The sequence that starts magenta text.
pub open spec fn magenta_code() -> Seq<char> {
    "\x1b[38;5;5m"@
}

/// The sequence that brings back the default text colour.
pub open spec fn default_color_code() -> Seq<char> {
    "\x1b[39m"@
}

/// `termion::style::Bold`, as `Display` writes it: the control sequence
/// introducer followed by `1m`. Trusted.
#[verifier::external_body]
pub(crate) fn bold() -> (code: String)
    ensures
        code@ == bold_code(),
{
    format!("{}", termion::style::Bold)
}

/// `termion::style::Italic`, as `Display` writes it: the control sequence
/// introducer followed by `3m`. Trusted.
#[verifier::external_body]
pub(crate) fn italic() -> (code: String)
    ensures
        code@ == italic_code(),
{
    format!("{}", termion::style::Italic)
}

/// `termion::style::Underline`, as `Display` writes it: the control sequence
/// introducer followed by `4m`. Trusted.
#[verifier::external_body]
pub(crate) fn underline() -> (code: String)
    ensures
        code@ == underline_code(),
{
    format!("{}", termion::style::Underline)
}

/// `termion::style::Reset`, as `Display` writes it: the control sequence
/// introducer followed by `m`. Trusted.
#[verifier::external_body]
pub(crate) fn reset() -> (code: String)
    ensures
        code@ == reset_code(),
{
    format!("{}", termion::style::Reset)
}

/// `termion::color::Red` as a foreground colour, as `Display` writes
/// `Fg`: the control sequence introducer followed by `38;5;1m`. Trusted.
#[verifier::external_body]
pub(crate) fn red() -> (code: String)
    ensures
        code@ == red_code(),
{
    format!("{}", termion::color::Fg(termion::color::Red))
}

/// `termion::color::Green` as a foreground colour, as `Display` writes
/// `Fg`: the control sequence introducer followed by `38;5;2m`. Trusted.
#[verifier::external_body]
pub(crate) fn green() -> (code: String)
    ensures
        code@ == green_code(),
{
    format!("{}", termion::color::Fg(termion::color::Green))
}

/// `termion::color::Yellow` as a foreground colour, as `Display` writes
/// `Fg`: the control sequence introducer followed by `38;5;3m`. Trusted.
#[verifier::external_body]
pub(crate) fn yellow() -> (code: String)
    ensures
        code@ == yellow_code(),
{
    format!("{}", termion::color::Fg(termion::color::Yellow))
}

/// `termion::color::Blue` as a foreground colour, as `Display` writes
/// `Fg`: the control sequence introducer followed by `38;5;4m`. Trusted.
#[verifier::external_body]
pub(crate) fn blue() -> (code: String)
    ensures
        code@ == blue_code(),
{
    format!("{}", termion::color::Fg(termion::color::Blue))
}

/// `termion::color::Magenta` as a foreground colour, as `Display` writes
/// `Fg`: the control sequence introducer followed by `38;5;5m`. Trusted.
#[verifier::external_body]
pub(crate) fn magenta() -> (code: String)
    ensures
        code@ == magenta_code(),
{
    format!("{}", termion::color::Fg(termion::color::Magenta))
}

/// `termion::color::Reset` as a foreground colour, as `Display` writes
/// `Fg`: the control sequence introducer followed by `39m`. Trusted.
#[verifier::external_body]
pub(crate) fn default_color() -> (code: String)
    ensures
        code@ == default_color_code(),
{
    format!("{}", termion::color::Fg(termion::color::Reset))
}

} // verus!
