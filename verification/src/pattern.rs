//! Regular expressions. Patterns are kept as text; the `regex` crate compiles
//! and runs them.

use vstd::prelude::*;
use vstd::string::*;

use crate::error::Error;

verus! {

/// Whether the `regex` crate accepts `pattern`.
pub uninterp spec fn regex_compiles(pattern: Seq<char>) -> bool;

/// Whether `pattern` matches somewhere in `text`; `None` where the pattern
/// does not compile.
pub uninterp spec fn regex_match(pattern: Seq<char>, text: Seq<char>) -> Option<bool>;

/// What the named group `group` of `pattern` holds in the leftmost match in
/// `text`; `None` where the pattern does not compile or does not match, or
/// where the group does not exist or took no part in the match.
pub uninterp spec fn regex_capture(pattern: Seq<char>, text: Seq<char>, group: Seq<char>) -> Option<
    Seq<char>,
>;

/// Whether `c` has a meaning of its own in a regular expression.
pub open spec fn is_meta_character(c: char) -> bool {
    c == '\\' || c == '.' || c == '+' || c == '*' || c == '?' || c == '(' || c == ')' || c == '|'
        || c == '[' || c == ']' || c == '{' || c == '}' || c == '^' || c == '$' || c == '#' || c
        == '&' || c == '-' || c == '~'
}

/// `s` with a backslash before each meta character.
pub open spec fn escaped(s: Seq<char>) -> Seq<char>
    decreases s.len(),
{
    if s.len() == 0 {
        s
    } else if is_meta_character(s.last()) {
        escaped(s.drop_last()).push('\\').push(s.last())
    } else {
        escaped(s.drop_last()).push(s.last())
    }
}

/// Compiles `pattern` and throws the compiled form away; an error comes back
/// as its message.
///
/// Trusted: `regex::Regex::new`. Whether it accepts a pattern depends on the
/// pattern alone (the size limits are the crate's defaults). Nothing is
/// claimed of the message.
#[verifier::external_body]
fn try_compile(pattern: &str) -> (r: Result<(), String>)
    ensures
        r is Ok <==> regex_compiles(pattern@),
{
    match regex::Regex::new(pattern) {
        Ok(_) => Ok(()),
        Err(e) => Err(e.to_string()),
    }
}

/// Runs `pattern` on `text`.
///
/// Trusted: `regex::Regex::is_match` on the result of `regex::Regex::new`.
/// The answer depends on the pattern and the text alone, and there is one
/// exactly when the pattern compiles.
#[verifier::external_body]
fn run_match(pattern: &str, text: &str) -> (r: Option<bool>)
    ensures
        r == regex_match(pattern@, text@),
        r is Some <==> regex_compiles(pattern@),
{
    match regex::Regex::new(pattern) {
        Ok(re) => Some(re.is_match(text)),
        Err(_) => None,
    }
}

/// Runs `pattern` on `text` and hands out what the group `group` holds.
///
/// Trusted: `regex::Regex::captures` and `regex::Captures::name` on the result
/// of `regex::Regex::new`. The answer depends on the three texts alone.
#[verifier::external_body]
pub(crate) fn run_capture(pattern: &str, text: &str, group: &str) -> (r: Option<String>)
    ensures
        match r {
            Some(s) => regex_capture(pattern@, text@, group@) == Some(s@),
            None => regex_capture(pattern@, text@, group@) is None,
        },
{
    let re = regex::Regex::new(pattern).ok()?;
    let caps = re.captures(text)?;
    caps.name(group).map(|m| m.as_str().to_string())
}

/// Escapes a text for use as a literal in a pattern.
///
/// Trusted: `regex::escape`, which copies the text and puts a backslash
/// before each of the eighteen meta characters that `is_meta_character` lists.
#[verifier::external_body]
pub(crate) fn run_escape(text: &str) -> (r: String)
    ensures
        r@ == escaped(text@),
{
    regex::escape(text)
}

/// Checks that `pattern` compiles.
pub fn check(pattern: &str) -> (r: Result<(), Error>)
    ensures
        r is Ok <==> regex_compiles(pattern@),
        r is Err ==> r->Err_0 is Other,
{
    match try_compile(pattern) {
        Ok(()) => Ok(()),
        Err(message) => Err(Error::Other(message)),
    }
}

/// Whether `pattern` matches somewhere in `text`. A pattern that does not
/// compile matches nothing.
pub fn is_match(pattern: &str, text: &str) -> (r: bool)
    ensures
        r == (regex_match(pattern@, text@) == Some(true)),
{
    match run_match(pattern, text) {
        Some(b) => b,
        None => false,
    }
}

} // verus!
