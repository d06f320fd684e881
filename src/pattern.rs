use vstd::prelude::*;

use regex::Regex;

verus! {

#[verifier::external_type_specification]
#[verifier::external_body]
pub struct ExRegex(Regex);

#[verifier::external_type_specification]
#[verifier::external_body]
pub struct ExRegexError(regex::Error);

/// Whether `pattern` is a regular expression that the regex engine accepts.
pub uninterp spec fn regex_is_valid(pattern: Seq<char>) -> bool;

/// The capture groups of the leftmost-first match of `pattern` in `haystack`,
/// group 0 first; `None` when there is no match.
pub uninterp spec fn regex_captures(pattern: Seq<char>, haystack: Seq<char>) -> Option<
    Seq<Option<Seq<char>>>,
>;

/// A compiled, case-sensitive regular expression, viewed as its source text.
#[derive(Debug)]
pub struct Pattern {
    source: String,
    regex: Regex,
}

impl View for Pattern {
    type V = Seq<char>;

    closed spec fn view(&self) -> Seq<char> {
        self.source@
    }
}

pub open spec fn groups_view(g: Option<Vec<Option<String>>>) -> Option<Seq<Option<Seq<char>>>> {
    match g {
        Some(v) => Some(v@.map_values(|o: Option<String>| opt_string_view(o))),
        None => None,
    }
}

pub open spec fn opt_string_view(o: Option<String>) -> Option<Seq<char>> {
    match o {
        Some(s) => Some(s@),
        None => None,
    }
}

/// Relies on regex::Regex::new: whether a pattern compiles depends on its text alone.
#[verifier::external_body]
fn regex_new(source: &str) -> (r: Result<Pattern, regex::Error>)
    ensures
        r is Ok <==> regex_is_valid(source@),
        r matches Ok(p) ==> p@ == source@,
{
    Regex::new(source).map(|regex| Pattern { source: source.to_owned(), regex })
}

/// Relies on regex::Regex::captures and regex::Captures::iter: the groups of
/// the first match, each with the text it matched, or `None` where the group
/// took no part in the match.
#[verifier::external_body]
fn regex_captures_of(p: &Pattern, haystack: &str) -> (r: Option<Vec<Option<String>>>)
    ensures
        groups_view(r) == regex_captures(p@, haystack@),
{
    p.regex.captures(haystack).map(|c| c.iter().map(|m| m.map(|m| m.as_str().to_owned())).collect())
}

impl Pattern {
    /// Compiles `source` as a case-sensitive regular expression.
    pub fn new(source: &str) -> (r: Option<Pattern>)
        ensures
            r is Some <==> regex_is_valid(source@),
            r matches Some(p) ==> p@ == source@,
    {
        match regex_new(source) {
            Ok(p) => Some(p),
            Err(_) => None,
        }
    }

    /// The capture groups of the first match in `haystack`.
    pub fn captures(&self, haystack: &str) -> (r: Option<Vec<Option<String>>>)
        ensures
            groups_view(r) == regex_captures(self@, haystack@),
    {
        regex_captures_of(self, haystack)
    }

    /// The text this pattern was compiled from.
    pub fn as_str(&self) -> (r: &str)
        ensures
            r@ == self@,
    {
        self.source.as_str()
    }
}

} // verus!
