//! Testing a text against a pattern.
//!
//! Every pattern is a regular expression, so a plain word matches wherever it
//! occurs in the text. Compiling and searching are done by the `regex` crate;
//! what it answers is named here and the rest of the library reasons over
//! those names.

use vstd::prelude::*;
use crate::error::Error;

verus! {

/// Whether `regex::Regex::new` accepts `pattern`.
pub uninterp spec fn pattern_compiles(pattern: Seq<char>) -> bool;

/// Whether the regular expression compiled from `pattern` has a match
/// anywhere in `text`, as `regex::Regex::is_match` reports it.
pub uninterp spec fn pattern_found(pattern: Seq<char>, text: Seq<char>) -> bool;

/// Compiles `pattern` with `regex::Regex::new` and, if that succeeds, asks
/// `regex::Regex::is_match` whether the expression matches anywhere in `text`.
///
/// Trusted: the result is `Some` exactly when the pattern compiles, and then
/// holds the answer of the search. Both depend on the two strings alone.
#[verifier::external_body]
fn regex_search(pattern: &str, text: &str) -> (outcome: Option<bool>)
    ensures
        outcome.is_some() == pattern_compiles(pattern@),
        outcome matches Some(found) ==> found == pattern_found(pattern@, text@),
{
    match regex::Regex::new(pattern) {
        Ok(re) => Some(re.is_match(text)),
        Err(_) => None,
    }
}

/// What searching `text` for `pattern` gives: whether it was found, or that
/// the pattern is invalid.
pub open spec fn search_outcome(pattern: Seq<char>, text: Seq<char>) -> Result<bool, Error> {
    if pattern_compiles(pattern) {
        Ok(pattern_found(pattern, text))
    } else {
        Err(Error::InvalidPattern)
    }
}

/// Searches `text` for `pattern`.
pub fn search(pattern: &str, text: &str) -> (outcome: Result<bool, Error>)
    ensures
        outcome == search_outcome(pattern@, text@),
{
    match regex_search(pattern, text) {
        Some(found) => Ok(found),
        None => Err(Error::InvalidPattern),
    }
}

/// Whether `pattern` is a valid regular expression.
pub fn is_valid(pattern: &str) -> (valid: bool)
    ensures
        valid == pattern_compiles(pattern@),
{
    search(pattern, "").is_ok()
}

/// What came of holding one pattern of an entry against one text of a
/// window.
#[derive(Debug, Clone, Copy, PartialEq, Eq, Structural)]
pub enum Probe {
    /// The entry has no such pattern.
    Unasked,
    /// The pattern is not a valid regular expression.
    Invalid,
    /// The pattern is valid, and the window has no such text or the pattern
    /// is not found in it.
    Missed,
    /// The pattern is found in the text.
    Found,
}

/// The outcome of holding `pattern` against the text `text`.
pub open spec fn probe_in(pattern: Option<String>, text: Seq<char>) -> Probe {
    match pattern {
        None => Probe::Unasked,
        Some(p) => if !pattern_compiles(p@) {
            Probe::Invalid
        } else if pattern_found(p@, text) {
            Probe::Found
        } else {
            Probe::Missed
        },
    }
}

/// The outcome of holding `pattern` against `text`, which may be absent: no
/// pattern is found in an absent text.
pub open spec fn probe_of(pattern: Option<String>, text: Option<String>) -> Probe {
    match text {
        Some(t) => probe_in(pattern, t@),
        None => match pattern {
            None => Probe::Unasked,
            Some(p) => if pattern_compiles(p@) {
                Probe::Missed
            } else {
                Probe::Invalid
            },
        },
    }
}

/// Holds `pattern` against the text `text`.
pub fn probe_str(pattern: &Option<String>, text: &str) -> (outcome: Probe)
    ensures
        outcome == probe_in(*pattern, text@),
{
    match pattern {
        None => Probe::Unasked,
        Some(p) => {
            match search(p.as_str(), text) {
                Ok(true) => Probe::Found,
                Ok(false) => Probe::Missed,
                Err(_) => Probe::Invalid,
            }
        },
    }
}

/// Holds `pattern` against `text`, which may be absent.
pub fn probe(pattern: &Option<String>, text: &Option<String>) -> (outcome: Probe)
    ensures
        outcome == probe_of(*pattern, *text),
{
    match text {
        Some(t) => probe_str(pattern, t.as_str()),
        None => {
            match pattern {
                None => Probe::Unasked,
                Some(p) => {
                    if is_valid(p.as_str()) {
                        Probe::Missed
                    } else {
                        Probe::Invalid
                    }
                },
            }
        },
    }
}

/// Whether a window is accepted, given the outcomes for the title and for
/// the process: every pattern that the entry has must be found, and it must
/// have at least one.
pub open spec fn accepted(title: Probe, process: Probe) -> bool {
    match (title, process) {
        (Probe::Found, Probe::Found) => true,
        (Probe::Found, Probe::Unasked) => true,
        (Probe::Unasked, Probe::Found) => true,
        _ => false,
    }
}

/// Decides whether a window is accepted, from the two outcomes.
pub fn accepts(title: Probe, process: Probe) -> (yes: bool)
    ensures
        yes == accepted(title, process),
{
    match (title, process) {
        (Probe::Found, Probe::Found) => true,
        (Probe::Found, Probe::Unasked) => true,
        (Probe::Unasked, Probe::Found) => true,
        _ => false,
    }
}

} // verus!
