//! Looking for a pattern in a text.

use vstd::prelude::*;

verus! {

/// The text that group `key` of `pattern` takes in the leftmost match of
/// `pattern` in `input`: none where the pattern is no regular expression,
/// where nothing matches, or where the group has no part in the match.
pub uninterp spec fn captured(pattern: Seq<char>, input: Seq<char>, key: nat) -> Option<Seq<char>>;

/// `regex::RegexBuilder::build`, `Regex::captures`, `Captures::get` and
/// `Match::as_str`, one after the other: compiles `pattern`, looks for its
/// leftmost match in `input` and copies out what group `key` took. The
/// contract only gives that text its name.
#[verifier::external_body]
pub(crate) fn capture(pattern: &str, input: &str, key: usize) -> (r: Option<String>)
    ensures
        r.is_some() == captured(pattern@, input@, key as nat).is_some(),
        r matches Some(text) ==> captured(pattern@, input@, key as nat) == Some(text@),
{
    let compiled = match regex::RegexBuilder::new(pattern).build() {
        Ok(compiled) => compiled,
        Err(_) => return None,
    };
    let captures = match compiled.captures(input) {
        Some(captures) => captures,
        None => return None,
    };
    match captures.get(key) {
        Some(found) => Some(found.as_str().to_owned()),
        None => None,
    }
}

} // verus!
