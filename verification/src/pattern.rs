//! Regular expressions, compiled and matched by the `regex` crate.
//!
//! What a pattern matches in a text is not stated here: it is named, and the
//! contracts of the callers speak of it by that name.

use vstd::prelude::*;

verus! {

/// `regex::Regex`, a compiled regular expression; nothing is known of what
/// is inside one.
#[verifier::external_type_specification]
#[verifier::external_body]
pub struct ExRegex(regex::Regex);

/// What the first match of `pattern` in `text` captured in each of the named
/// `groups`, in their order: `None` for a group that took no part in the
/// match. `None` as a whole where the text has no match, or where `pattern`
/// is no regular expression.
pub uninterp spec fn regex_captures(
    pattern: Seq<char>,
    groups: Seq<Seq<char>>,
    text: Seq<char>,
) -> Option<Seq<Option<Seq<char>>>>;

/// What each of the successive non-overlapping matches of `pattern` in `text`
/// captured in the named `group`, in the order of the matches: `None` for a
/// match in which the group took no part. `None` as a whole where `pattern`
/// is no regular expression.
pub uninterp spec fn regex_captures_iter(
    pattern: Seq<char>,
    group: Seq<char>,
    text: Seq<char>,
) -> Option<Seq<Option<Seq<char>>>>;

/// A regular expression, compiled once and matched many times. Its view is
/// the pattern that it was compiled from.
///
/// The only way to make one is [`Pattern::compile`], so the compiled form
/// always belongs to the pattern beside it.
pub struct Pattern {
    source: String,
    compiled: regex::Regex,
}

impl View for Pattern {
    type V = Seq<char>;

    closed spec fn view(&self) -> Seq<char> {
        self.source@
    }
}

/// Whether `compiled` is what compiling `pattern` gives: the compiled form of
/// `pattern`, or nothing where `pattern` is no regular expression, which then
/// matches nothing.
pub open spec fn is_compiled(compiled: Option<Pattern>, pattern: Seq<char>) -> bool {
    match compiled {
        Some(made) => made@ == pattern,
        None => {
            &&& forall|groups: Seq<Seq<char>>, text: Seq<char>|
                #[trigger] regex_captures(pattern, groups, text) is None
            &&& forall|group: Seq<char>, text: Seq<char>|
                #[trigger] regex_captures_iter(pattern, group, text) is None
        },
    }
}

impl Pattern {
    /// `regex::Regex::new`.
    ///
    /// Trusted: the result is the compiled form of `pattern`, and there is
    /// none only where `pattern` is no regular expression.
    #[verifier::external_body]
    pub(crate) fn compile(pattern: &str) -> (r: Option<Pattern>)
        ensures
            is_compiled(r, pattern@),
    {
        match regex::Regex::new(pattern) {
            Ok(compiled) => Some(Pattern { source: pattern.to_string(), compiled }),
            Err(_) => None,
        }
    }

    /// `Regex::captures` on `text`; each name of `groups` is looked up in the
    /// match with `Captures::name`.
    ///
    /// Trusted: the result is the one named [`regex_captures`], and it has
    /// one entry for each name of `groups`.
    #[verifier::external_body]
    pub(crate) fn captures(&self, groups: &Vec<&str>, text: &str) -> (r: Option<
        Vec<Option<String>>,
    >)
        ensures
            r.deep_view() == regex_captures(self@, groups.deep_view(), text@),
            r matches Some(found) ==> found@.len() == groups@.len(),
    {
        let caps = self.compiled.captures(text)?;
        Some(groups.iter().map(|g| caps.name(g).map(|m| m.as_str().to_string())).collect())
    }

    /// `Regex::captures_iter` on `text`; `group` is looked up in each match
    /// with `Captures::name`.
    ///
    /// Trusted: the result is the one named [`regex_captures_iter`].
    #[verifier::external_body]
    pub(crate) fn captures_iter(&self, group: &str, text: &str) -> (r: Vec<Option<String>>)
        ensures
            Some(r.deep_view()) == regex_captures_iter(self@, group@, text@),
    {
        self.compiled.captures_iter(text).map(
            |caps| caps.name(group).map(|m| m.as_str().to_string()),
        ).collect()
    }
}

} // verus!
