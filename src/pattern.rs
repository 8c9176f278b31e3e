//! Pattern matching through the `regex` crate.

use vstd::prelude::*;

verus! {

/// What `Regex::captures` reports for `pat` on `hay`: the text of each
/// capture group, by index, of the leftmost-first match.
pub uninterp spec fn first_match_groups(pat: Seq<char>, hay: Seq<char>) -> Option<Seq<Option<Seq<char>>>>;

/// What `Regex::captures_iter` reports for `pat` on `hay`: for each
/// successive non-overlapping match, the text of each group named in `names`.
pub uninterp spec fn all_named_groups(pat: Seq<char>, names: Seq<Seq<char>>, hay: Seq<char>) -> Option<Seq<Seq<Option<Seq<char>>>>>;

/// Relies on `regex::Regex::new` and `Regex::captures`: the groups, by index,
/// of the leftmost-first match of `pat` in `hay`; `None` where `pat` does not
/// compile or does not match.
#[verifier::external_body]
pub(crate) fn captures_of(pat: &str, hay: &str) -> (r: Option<Vec<Option<String>>>)
    ensures
        r.deep_view() == first_match_groups(pat@, hay@),
{
    let re = regex::Regex::new(pat).ok()?;
    let caps = re.captures(hay)?;
    Some(caps.iter().map(|m| m.map(|m| m.as_str().to_string())).collect())
}

/// Relies on `regex::Regex::new` and `Regex::captures_iter`: for each
/// successive non-overlapping match of `pat` in `hay`, the groups that `names`
/// names, in that order; `None` where `pat` does not compile.
#[verifier::external_body]
pub(crate) fn named_captures_all(pat: &str, names: &Vec<String>, hay: &str) -> (r: Option<
    Vec<Vec<Option<String>>>,
>)
    ensures
        r.deep_view() == all_named_groups(pat@, names.deep_view(), hay@),
{
    let re = regex::Regex::new(pat).ok()?;
    let all = re.captures_iter(hay).map(
        |c| names.iter().map(|n| c.name(n).map(|m| m.as_str().to_string())).collect(),
    );
    Some(all.collect())
}

} // verus!
