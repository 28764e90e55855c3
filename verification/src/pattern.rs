//! The regular-expression matches the parsers ask of the `regex` crate.
use vstd::prelude::*;

verus! {

/// What `regex` finds: the text of the capture group named `group` in the
/// leftmost-first match of `pattern` against `text`; `None` when the pattern
/// does not compile, nothing matches, or the group takes no part in the match.
pub uninterp spec fn regex_group(pattern: Seq<char>, text: Seq<char>, group: Seq<char>) -> Option<
    Seq<char>,
>;

/// Whether `pattern` matches anywhere in `text` (false when it does not compile).
pub uninterp spec fn regex_matches(pattern: Seq<char>, text: Seq<char>) -> bool;

/// `regex::Regex::new`, then `Regex::captures` and `Captures::name`. The
/// contract claims only that the result is a function of the three arguments,
/// named `regex_group`; what the regex engine matches is not restated here.
#[verifier::external_body]
pub(crate) fn capture_group(pattern: &str, text: &str, group: &str) -> (r: Option<String>)
    ensures
        r.deep_view() == regex_group(pattern@, text@, group@),
{
    let re = regex::Regex::new(pattern).ok()?;
    let caps = re.captures(text)?;
    caps.name(group).map(|m| m.as_str().to_string())
}

/// `regex::Regex::new`, then `Regex::is_match`. The contract claims only that
/// the answer is a function of the two arguments, named `regex_matches`.
#[verifier::external_body]
pub(crate) fn is_match(pattern: &str, text: &str) -> (b: bool)
    ensures
        b == regex_matches(pattern@, text@),
{
    match regex::Regex::new(pattern) {
        Ok(re) => re.is_match(text),
        Err(_) => false,
    }
}


/// What `regex` finds for every successive non-overlapping match of
/// `pattern` in `text`: the texts of the groups named `first` and `second`
/// (`None` for a group that takes no part); empty when the pattern does not
/// compile.
pub uninterp spec fn regex_group_pairs(pattern: Seq<char>, text: Seq<char>, first: Seq<char>, second: Seq<char>) -> Seq<
    (Option<Seq<char>>, Option<Seq<char>>),
>;

/// `regex::Regex::new`, then `Regex::captures_iter`, taking two named groups
/// of each match. The contract claims only that the result is a function of
/// the four arguments, named `regex_group_pairs`.
#[verifier::external_body]
pub(crate) fn capture_pairs(pattern: &str, text: &str, first: &str, second: &str) -> (r: Vec<
    (Option<String>, Option<String>),
>)
    ensures
        r.deep_view() == regex_group_pairs(pattern@, text@, first@, second@),
{
    let re = match regex::Regex::new(pattern) {
        Ok(re) => re,
        Err(_) => return Vec::new(),
    };
    re.captures_iter(text).map(|c| (c.name(first).map(|m| m.as_str().to_string()), c.name(second).map(
        |m| m.as_str().to_string(),
    ))).collect()
}

} // verus!
