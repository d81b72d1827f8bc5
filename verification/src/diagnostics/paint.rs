//! Terminal colors for reports, drawn by the `colored` crate.
use colored::Colorize;
use vstd::prelude::*;

verus! {

/// The escape sequence that ends a colored run.
pub open spec fn reset_code() -> Seq<char> {
    seq!['\x1B', '[', '0', 'm']
}

/// The escape sequence that starts a bold run in the color `code` (two digits).
pub open spec fn bold_color_code(code: Seq<char>) -> Seq<char> {
    seq!['\x1B', '[', '1', ';'] + code + seq!['m']
}

/// `s` with `style` written after each reset sequence in it, so that a
/// colored run nested in `s` does not end the outer one.
pub open spec fn restyled(s: Seq<char>, style: Seq<char>) -> Seq<char>
    decreases s.len(),
{
    if s.len() == 0 {
        Seq::empty()
    } else if s.len() >= 4 && s.take(4) == reset_code() {
        reset_code() + style + restyled(s.skip(4), style)
    } else {
        seq![s[0]] + restyled(s.skip(1), style)
    }
}

/// What a bold run of `s` in the color `code` prints: `s` itself when the
/// terminal is not colored, else `s` between the color's start and the reset.
pub open spec fn painted(r: Seq<char>, s: Seq<char>, code: Seq<char>) -> bool {
    r == s || r == bold_color_code(code) + restyled(s, bold_color_code(code)) + reset_code()
}

/// A bold run of `s` in the color `code` when `on`, else `s` itself.
pub open spec fn paint(on: bool, s: Seq<char>, code: Seq<char>) -> Seq<char> {
    if on {
        bold_color_code(code) + restyled(s, bold_color_code(code)) + reset_code()
    } else {
        s
    }
}

/// A painted text is `s` colored or not: whether it differs from `s` tells.
pub proof fn lemma_painted(r: Seq<char>, s: Seq<char>, code: Seq<char>)
    requires
        painted(r, s, code),
    ensures
        r == paint(r != s, s, code),
{
}

/// `s` in bold magenta.
///
/// Trusted: calls `colored`'s `magenta`, `bold` and `to_string`. Whether the
/// text is colored depends on the environment (`NO_COLOR`, `CLICOLOR`,
/// `CLICOLOR_FORCE`) and on whether standard output is a terminal, so the
/// contract allows both outcomes; it states the escape codes the crate
/// writes when it colors (bold `1`, magenta `35`).
#[verifier::external_body]
pub fn magenta_bold(s: &str) -> (r: String)
    ensures
        painted(r@, s@, seq!['3', '5']),
{
    s.magenta().bold().to_string()
}

/// `s` in bold yellow.
///
/// Trusted: calls `colored`'s `yellow`, `bold` and `to_string`; as for
/// [`magenta_bold`], the text is colored (yellow `33`) or not.
#[verifier::external_body]
pub fn yellow_bold(s: &str) -> (r: String)
    ensures
        painted(r@, s@, seq!['3', '3']),
{
    s.yellow().bold().to_string()
}

/// `s` in bold green.
///
/// Trusted: calls `colored`'s `green`, `bold` and `to_string`; as for
/// [`magenta_bold`], the text is colored (green `32`) or not.
#[verifier::external_body]
pub fn green_bold(s: &str) -> (r: String)
    ensures
        painted(r@, s@, seq!['3', '2']),
{
    s.green().bold().to_string()
}

} // verus!
