//! Regular-expression matching, done by the `regex` crate.

use vstd::prelude::*;

verus! {

/// The capture groups of the leftmost match that `regex::Regex::captures` finds in `text`
/// for `pattern`, group 0 first, a group that took no part being `None`; `None` where
/// `regex::Regex::new` rejects the pattern or nothing matches.
pub uninterp spec fn regex_captures(pattern: Seq<char>, text: Seq<char>) -> Option<
    Seq<Option<Seq<char>>>,
>;

/// The capture groups of every match that `regex::Regex::captures_iter` yields in `text`
/// for `pattern`, in order; empty where `regex::Regex::new` rejects the pattern.
pub uninterp spec fn regex_captures_all(pattern: Seq<char>, text: Seq<char>) -> Seq<
    Seq<Option<Seq<char>>>,
>;

/// The views of the groups of one match.
pub open spec fn group_views(groups: Seq<Option<String>>) -> Seq<Option<Seq<char>>> {
    groups.map_values(|g: Option<String>| crate::domain::opt_view(g))
}

/// The views of the groups of several matches.
pub open spec fn match_views(matches: Seq<Vec<Option<String>>>) -> Seq<Seq<Option<Seq<char>>>> {
    matches.map_values(|m: Vec<Option<String>>| group_views(m@))
}

/// Group `index` of a match, where the match has it and it took part.
pub open spec fn group_at(groups: Seq<Option<Seq<char>>>, index: int) -> Option<Seq<char>> {
    if 0 <= index < groups.len() {
        groups[index]
    } else {
        None
    }
}

/// Compiles `pattern` with `regex::Regex::new` and runs `Regex::captures` on `text`. The
/// contract says only that the groups are those [`regex_captures`] names.
#[verifier::external_body]
pub(crate) fn captures(pattern: &str, text: &str) -> (groups: Option<Vec<Option<String>>>)
    ensures
        groups is Some == regex_captures(pattern@, text@) is Some,
        groups matches Some(g) ==> regex_captures(pattern@, text@) == Some(group_views(g@)),
{
    let re = regex::Regex::new(pattern).ok()?;
    let caps = re.captures(text)?;
    Some(caps.iter().map(|m| m.map(|m| m.as_str().to_string())).collect())
}

/// Compiles `pattern` with `regex::Regex::new` and runs `Regex::captures_iter` on `text`.
/// The contract says only that the matches are those [`regex_captures_all`] names.
#[verifier::external_body]
pub(crate) fn captures_all(pattern: &str, text: &str) -> (matches: Vec<Vec<Option<String>>>)
    ensures
        match_views(matches@) == regex_captures_all(pattern@, text@),
{
    match regex::Regex::new(pattern) {
        Ok(re) => re.captures_iter(text).map(
            |caps| caps.iter().map(|m| m.map(|m| m.as_str().to_string())).collect(),
        ).collect(),
        Err(_) => Vec::new(),
    }
}

/// Picks group `index` out of a match.
pub fn group(groups: &Vec<Option<String>>, index: usize) -> (text: Option<String>)
    ensures
        crate::domain::opt_view(text) == group_at(group_views(groups@), index as int),
{
    if index < groups.len() {
        crate::domain::clone_opt(&groups[index])
    } else {
        None
    }
}

} // verus!
