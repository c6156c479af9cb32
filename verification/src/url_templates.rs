//! URL templates that know the new version only.

use vstd::prelude::*;
use crate::formatting::{fill_in, filled_in};
use crate::template::{expansion, is_simple};

verus! {

/// The one variable of such a template.
pub open spec fn version_vars(version: Seq<char>) -> Seq<(Seq<char>, Seq<char>)> {
    seq![("version"@, version)]
}

/// The URL that `template` gives for `version`, or `None` where the template
/// cannot be filled in.
pub open spec fn formatted_version_url(template: Seq<char>, version: Seq<char>) -> Option<
    Seq<char>,
> {
    filled_in(template, version_vars(version))
}

/// The URL that `template` gives for `version`, or `None` where the template
/// cannot be filled in: where it names a variable other than `version`,
/// where a placeholder holds a layout, or where it is no template
/// at all.
pub fn try_format_url(template: &str, version: &str) -> (r: Option<String>)
    ensures
        r.deep_view() == formatted_version_url(template@, version@),
        is_simple(template@) ==> r.deep_view() == expansion(template@, version_vars(version@)),
{
    let vars: Vec<(&str, &str)> = vec![("version", version)];
    assert(vars.deep_view() =~= version_vars(version@));
    match fill_in(template, &vars) {
        Some(_) => Some(format_url(template, version)),
        None => None,
    }
}

/// The URL that `template` gives for `version`, which stands in it as
/// `{version}`. The template must be one that can be filled in;
/// [`try_format_url`] tells.
pub fn format_url(template: &str, version: &str) -> (r: String)
    requires
        formatted_version_url(template@, version@) is Some,
    ensures
        Some(r@) == formatted_version_url(template@, version@),
        is_simple(template@) ==> Some(r@) == expansion(template@, version_vars(version@)),
{
    let vars: Vec<(&str, &str)> = vec![("version", version)];
    assert(vars.deep_view() =~= version_vars(version@));
    match fill_in(template, &vars) {
        Some(url) => url,
        None => String::new(),
    }
}

} // verus!
