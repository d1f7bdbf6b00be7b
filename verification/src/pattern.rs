//! Regular expressions, as the `regex` crate matches them.

use vstd::prelude::*;

verus! {

/// Whether the regular expression `pattern` matches somewhere in `text`;
/// `None` where `pattern` does not compile.
pub uninterp spec fn regex_match(pattern: Seq<char>, text: Seq<char>) -> Option<bool>;

/// Whether one of the regular expressions `patterns` matches somewhere in
/// `text`; `None` where the set does not compile.
pub uninterp spec fn regex_set_match(patterns: Seq<Seq<char>>, text: Seq<char>) -> Option<bool>;

/// `regex::Regex::new`, then `Regex::is_match`: compiles `pattern` and says
/// whether it matches somewhere in `text`. The result depends on the two
/// strings alone.
#[verifier::external_body]
pub(crate) fn regex_is_match(pattern: &str, text: &str) -> (r: Option<bool>)
    ensures
        r == regex_match(pattern@, text@),
{
    match regex::Regex::new(pattern) {
        Ok(re) => Some(re.is_match(text)),
        Err(_) => None,
    }
}

/// `regex::RegexSet::new`, then `RegexSet::is_match`: compiles `patterns` as
/// one set and says whether one of them matches somewhere in `text`. The
/// result depends on the strings alone, and a set of no patterns compiles and
/// matches nothing.
#[verifier::external_body]
pub(crate) fn regex_set_is_match(patterns: &Vec<String>, text: &str) -> (r: Option<bool>)
    ensures
        r == regex_set_match(crate::text::views(patterns@), text@),
        patterns@.len() == 0 ==> r == Some(false),
{
    match regex::RegexSet::new(patterns) {
        Ok(set) => Some(set.is_match(text)),
        Err(_) => None,
    }
}

} // verus!
