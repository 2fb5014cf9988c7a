//! Compiled regular-expression patterns.
//!
//! This module is the boundary between the verified highlighting logic and
//! the `regex` crate.  A [`Pattern`] couples a compiled `regex::Regex` with
//! the source text it was compiled from; contracts speak only about the
//! source text (the view of a `Pattern`), through two uninterpreted
//! functions: `re_valid`, which says whether a pattern text compiles, and
//! `re_groups`, which gives the capture-group spans that matching the
//! pattern against a line produces.  Both are functions of their text
//! arguments alone: the `regex` crate is deterministic.

use vstd::prelude::*;
use vstd::string::StringSliceAdditionalSpecFns;

verus! {

/// The `regex` crate's compiled-expression type, opaque to the verifier.
#[verifier::external_type_specification]
#[verifier::external_body]
pub struct ExRegex(regex::Regex);

/// Whether `pattern` is a valid regular expression, i.e. whether
/// `regex::Regex::new` accepts it.
pub uninterp spec fn re_valid(pattern: Seq<char>) -> bool;

/// The capture-group spans produced by matching the regular expression
/// `pattern` against `line`: `None` if the pattern does not match the line
/// at all, otherwise one entry per capture group (group 0, the whole match,
/// first), each `None` when that group did not participate in the match and
/// otherwise the half-open byte range `(start, end)` of the group's text.
pub uninterp spec fn re_groups(pattern: Seq<char>, line: Seq<char>) -> Option<
    Seq<Option<(usize, usize)>>,
>;

/// Whether the regular expression `pattern` matches `line` anywhere.
pub open spec fn re_matches(pattern: Seq<char>, line: Seq<char>) -> bool {
    re_groups(pattern, line) is Some
}

/// A compiled regular expression, together with the text it was compiled
/// from.  The only way to obtain one is [`Pattern::new`], which keeps the
/// two fields in step; every contract about a `Pattern` refers to its text.
pub struct Pattern {
    re: regex::Regex,
    source: String,
}

impl View for Pattern {
    type V = Seq<char>;

    closed spec fn view(&self) -> Seq<char> {
        self.source@
    }
}

/// Relies on `regex::Regex::new`: it returns `Ok` exactly for the pattern
/// texts it accepts (`re_valid`), and the compiled value it returns is kept
/// beside its source text, so that the other trusted items of this module
/// may describe the compiled field through the `source` field.
#[verifier::external_body]
fn regex_compile(pattern: &str) -> (r: Result<Pattern, String>)
    ensures
        r is Ok <==> re_valid(pattern@),
        r is Ok ==> r.unwrap()@ == pattern@,
{
    match regex::Regex::new(pattern) {
        Ok(re) => Ok(Pattern { re, source: pattern.to_owned() }),
        Err(e) => Err(e.to_string()),
    }
}

/// Relies on `regex::Regex::is_match`: it returns true if and only if there
/// is a match for the regex anywhere in the line, i.e. exactly when
/// `regex::Regex::captures` would return `Some`.
#[verifier::external_body]
fn regex_is_match(p: &Pattern, line: &str) -> (r: bool)
    ensures
        r == re_matches(p@, line@),
{
    p.re.is_match(line)
}

/// Relies on `regex::Regex::captures` and `regex::Captures::iter`: on a
/// match they give one entry per capture group, group 0 (the whole match)
/// first and always participating, and each participating group's byte
/// offsets satisfy `start <= end <= line.len()` and are safe to slice the
/// line with.
#[verifier::external_body]
fn regex_captures(p: &Pattern, line: &str) -> (r: Option<Vec<Option<(usize, usize)>>>)
    ensures
        r is Some <==> re_groups(p@, line@) is Some,
        r is Some ==> {
            let gs = re_groups(p@, line@).unwrap();
            &&& r.unwrap()@ == gs
            &&& gs.len() >= 1
            &&& gs[0] is Some
            &&& forall|i: int|
                0 <= i < gs.len() && gs[i] is Some ==> gs[i].unwrap().0 <= gs[i].unwrap().1
                    <= line.spec_bytes().len()
        },
{
    p.re.captures(line).map(
        |caps| caps.iter().map(|m| m.map(|g| (g.start(), g.end()))).collect(),
    )
}

impl Pattern {
    /// Compile `pattern`; fails, with the compiler's message, exactly on
    /// invalid pattern text.
    pub fn new(pattern: &str) -> (r: Result<Pattern, String>)
        ensures
            r is Ok <==> re_valid(pattern@),
            r is Ok ==> r.unwrap()@ == pattern@,
    {
        regex_compile(pattern)
    }

    /// Whether this pattern matches `line` anywhere.
    pub fn is_match(&self, line: &str) -> (r: bool)
        ensures
            r == re_matches(self@, line@),
    {
        regex_is_match(self, line)
    }

    /// The capture-group spans of the first match of this pattern in
    /// `line`, or `None` when the pattern does not match.
    pub fn captures(&self, line: &str) -> (r: Option<Vec<Option<(usize, usize)>>>)
        ensures
            r is Some <==> re_groups(self@, line@) is Some,
            r is Some ==> {
                let gs = re_groups(self@, line@).unwrap();
                &&& r.unwrap()@ == gs
                &&& gs.len() >= 1
                &&& gs[0] is Some
                &&& forall|i: int|
                    0 <= i < gs.len() && gs[i] is Some ==> gs[i].unwrap().0 <= gs[i].unwrap().1
                        <= line.spec_bytes().len()
            },
    {
        regex_captures(self, line)
    }
}

} // verus!
