//! Regular expressions, through the `regex` crate.
use vstd::prelude::*;
use crate::text::{opt_view};

verus! {

/// `regex::Regex`, known to Verus as an opaque type so that `Pattern` can hold one.
#[verifier::external_type_specification]
#[verifier::external_body]
pub struct ExRegex(regex::Regex);

/// Whether `regex::Regex::new` accepts the pattern.
pub uninterp spec fn regex_compiles(pattern: Seq<char>) -> bool;

/// The capture groups of the leftmost-first match of `pattern` in `text`
/// (`Regex::captures`); group 0 is the whole match, a group that took no part
/// in the match is `None`.
pub uninterp spec fn regex_match_groups(pattern: Seq<char>, text: Seq<char>) -> Option<
    Seq<Option<Seq<char>>>,
>;

/// The successive non-overlapping matches of `pattern` in `text`
/// (`Regex::captures_iter`): each match's byte offset in `text` and its groups.
pub uninterp spec fn regex_match_list(pattern: Seq<char>, text: Seq<char>) -> Seq<
    (int, Seq<Option<Seq<char>>>),
>;

/// `text` with every match of `pattern` replaced by `replacement` (`Regex::replace_all`).
pub uninterp spec fn regex_replacement(pattern: Seq<char>, text: Seq<char>, replacement: Seq<char>) -> Seq<char>;

/// The view of a list of capture groups.
pub open spec fn groups_view(g: Seq<Option<String>>) -> Seq<Option<Seq<char>>> {
    g.map_values(|o: Option<String>| opt_view(o))
}

/// Group `k` of a match, `None` when the group did not take part or does not exist.
pub open spec fn group_at(g: Seq<Option<Seq<char>>>, k: int) -> Option<Seq<char>> {
    if 0 <= k < g.len() {
        g[k]
    } else {
        None
    }
}

/// One match of a regular expression.
pub struct Captures {
    /// Byte offset of the match in the searched text.
    pub start: usize,
    /// The capture groups, group 0 first.
    pub groups: Vec<Option<String>>,
}

/// The view of a list of matches.
pub open spec fn matches_view(m: Seq<Captures>) -> Seq<(int, Seq<Option<Seq<char>>>)> {
    m.map_values(|c: Captures| (c.start as int, groups_view(c.groups@)))
}

/// A compiled regular expression together with its source pattern.
pub struct Pattern {
    source: String,
    re: regex::Regex,
}

impl View for Pattern {
    type V = Seq<char>;

    closed spec fn view(&self) -> Seq<char> {
        self.source@
    }
}

impl Pattern {
    /// Trusted: `regex::Regex::new`. Compiles `source`; `None` exactly when the
    /// crate rejects the pattern (named `regex_compiles`). The pattern kept is `source`.
    #[verifier::external_body]
    pub(crate) fn new(source: &str) -> (r: Option<Pattern>)
        ensures
            r is Some <==> regex_compiles(source@),
            r matches Some(p) ==> p@ == source@,
    {
        regex::Regex::new(source).ok().map(|re| Pattern { source: source.to_string(), re })
    }

    /// Trusted: `regex::Regex::captures`. The groups of the first match, named
    /// `regex_match_groups` of the pattern and the text; how matching works is not stated.
    #[verifier::external_body]
    pub(crate) fn captures(&self, text: &str) -> (r: Option<Vec<Option<String>>>)
        ensures
            match r {
                Some(g) => regex_match_groups(self@, text@) == Some(groups_view(g@)),
                None => regex_match_groups(self@, text@) is None,
            },
    {
        self.re.captures(text).map(
            |c| c.iter().map(|m| m.map(|m| m.as_str().to_string())).collect(),
        )
    }

    /// Trusted: `regex::Regex::captures_iter`. All matches with their byte offsets
    /// and groups, named `regex_match_list` of the pattern and the text.
    #[verifier::external_body]
    pub(crate) fn captures_all(&self, text: &str) -> (r: Vec<Captures>)
        ensures
            matches_view(r@) == regex_match_list(self@, text@),
    {
        self.re.captures_iter(text).map(
            |c| Captures {
                start: c.get(0).map_or(0, |m| m.start()),
                groups: c.iter().map(|m| m.map(|m| m.as_str().to_string())).collect(),
            },
        ).collect()
    }

    /// Trusted: `regex::Regex::replace_all`. The text with every match replaced,
    /// named `regex_replacement` of the pattern, the text and the replacement.
    #[verifier::external_body]
    pub(crate) fn replace_all(&self, text: &str, replacement: &str) -> (r: String)
        ensures
            r@ == regex_replacement(self@, text@, replacement@),
    {
        self.re.replace_all(text, replacement).into_owned()
    }
}

/// Group `k` of a list of groups, as a string.
pub fn group(g: &Vec<Option<String>>, k: usize) -> (r: Option<String>)
    ensures
        opt_view(r) == group_at(groups_view(g@), k as int),
{
    if k < g.len() {
        match &g[k] {
            Some(s) => Some(crate::text::copy_str(s.as_str())),
            None => None,
        }
    } else {
        None
    }
}

}
