//! Choosing the files of a directory layer by name patterns.

use vstd::prelude::*;

verus! {

/// Whether the regular expression `pattern` matches somewhere in `text`;
/// `None` when the pattern is not a valid expression.
pub uninterp spec fn regex_outcome(pattern: Seq<char>, text: Seq<char>) -> Option<bool>;

/// Relies on `regex_lite::Regex::new` to compile the pattern and
/// `Regex::is_match` to search the text.
#[verifier::external_body]
fn regex_matches(pattern: &str, text: &str) -> (r: Option<bool>)
    ensures
        r == regex_outcome(pattern@, text@),
{
    match regex_lite::Regex::new(pattern) {
        Ok(re) => Some(re.is_match(text)),
        Err(_) => None,
    }
}

/// A pattern of a layer's filters is not a valid regular expression.
#[derive(Debug)]
pub struct FilterError;

pub open spec fn patterns_valid(ps: Seq<String>, text: Seq<char>) -> bool {
    forall|i: int| 0 <= i < ps.len() ==> (#[trigger] regex_outcome(ps[i]@, text)) is Some
}

pub open spec fn some_pattern_matches(ps: Seq<String>, text: Seq<char>) -> bool {
    exists|i: int| 0 <= i < ps.len() && #[trigger] regex_outcome(ps[i]@, text) == Some(true)
}

/// A file is kept when the whitelist is empty or one of its patterns
/// matches the name, and the blacklist is empty or none of its patterns does.
pub open spec fn passes_filters(whitelist: Seq<String>, blacklist: Seq<String>, name: Seq<char>) -> bool {
    (whitelist.len() == 0 || some_pattern_matches(whitelist, name))
        && (blacklist.len() == 0 || !some_pattern_matches(blacklist, name))
}

fn any_matches(patterns: &Vec<String>, name: &str) -> (r: Result<bool, FilterError>)
    ensures
        patterns_valid(patterns@, name@) ==> r == Ok::<bool, FilterError>(some_pattern_matches(patterns@, name@)),
        !patterns_valid(patterns@, name@) ==> r is Err,
{
    let mut found = false;
    let mut i: usize = 0;
    while i < patterns.len()
        invariant
            i <= patterns@.len(),
            forall|j: int| 0 <= j < i ==> (#[trigger] regex_outcome(patterns@[j]@, name@)) is Some,
            found == exists|j: int| 0 <= j < i && #[trigger] regex_outcome(patterns@[j]@, name@) == Some(true),
        decreases patterns@.len() - i,
    {
        match regex_matches(patterns[i].as_str(), name) {
            Some(m) => {
                if m {
                    found = true;
                }
            },
            None => {
                return Err(FilterError);
            },
        }
        i = i + 1;
    }
    Ok(found)
}

/// Whether a file named `file_name` belongs in a directory layer with these
/// filters. Fails when a pattern is invalid.
pub fn file_passes_filters(file_name: &str, whitelist: &Vec<String>, blacklist: &Vec<String>) -> (r: Result<bool, FilterError>)
    ensures
        patterns_valid(whitelist@, file_name@) && patterns_valid(blacklist@, file_name@) ==> r == Ok::<bool, FilterError>(
            passes_filters(whitelist@, blacklist@, file_name@)),
        !(patterns_valid(whitelist@, file_name@) && patterns_valid(blacklist@, file_name@)) ==> r is Err,
{
    let white = any_matches(whitelist, file_name);
    let black = any_matches(blacklist, file_name);
    match (white, black) {
        (Ok(w), Ok(b)) => Ok((whitelist.len() == 0 || w) && (blacklist.len() == 0 || !b)),
        _ => Err(FilterError),
    }
}

} // verus!
