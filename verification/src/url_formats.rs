//! The release notes of a single upgrade, for the projects whose URL needs
//! the new version only.

use vstd::prelude::*;
use crate::template::{
    brace_free, is_name, lemma_expansion_of_placeholder, lemma_expansion_without_braces, value_of,
};
use crate::text::same_text;
use crate::upgrade::{Upgrade, UpgradeView};
use crate::url_templates::{formatted_version_url, try_format_url, version_vars};

verus! {

/// The package whose release notes are known here.
pub const GIT: &'static str = "git";

/// The URL template of the release notes of git.
pub const GIT_RELEASE_NOTES: &'static str =
    "https://raw.githubusercontent.com/git/git/master/Documentation/RelNotes/{version}.txt";

/// The release notes of git for `version`.
pub open spec fn git_release_notes(version: Seq<char>) -> Seq<char> {
    "https://raw.githubusercontent.com/git/git/master/Documentation/RelNotes/"@ + version
        + ".txt"@
}

/// `url` where there is one, the empty text otherwise.
pub open spec fn text_or_empty(url: Option<Seq<char>>) -> Seq<char> {
    match url {
        Some(text) => text,
        None => Seq::<char>::empty(),
    }
}

/// The URL of the release notes of `upgrade`: for an upgrade of git what its
/// template gives for the new version, and the empty text otherwise.
pub open spec fn release_notes_url_of(upgrade: UpgradeView) -> Seq<char> {
    if upgrade.package_name == GIT@ {
        text_or_empty(formatted_version_url(GIT_RELEASE_NOTES@, upgrade.new_version))
    } else {
        Seq::<char>::empty()
    }
}

/// `url` where there is one, the empty string otherwise.
pub fn url_or_empty(url: Option<String>) -> (r: String)
    ensures
        r@ == text_or_empty(url.deep_view()),
{
    match url {
        Some(text) => text,
        None => String::new(),
    }
}

/// The URL of the release notes that belong to `upgrade`: for an upgrade of
/// git the page of the new version, and the empty string for every other
/// package.
pub fn get_release_notes_url(upgrade: &Upgrade) -> (r: String)
    ensures
        r@ == release_notes_url_of(upgrade@),
        r@ == (if upgrade.package_name@ == GIT@ {
            git_release_notes(upgrade.new_version@)
        } else {
            Seq::<char>::empty()
        }),
{
    if same_text(upgrade.package_name.as_str(), GIT) {
        proof {
            reveal_strlit(
                "https://raw.githubusercontent.com/git/git/master/Documentation/RelNotes/{version}.txt",
            );
            reveal_strlit(
                "https://raw.githubusercontent.com/git/git/master/Documentation/RelNotes/",
            );
            reveal_strlit(".txt");
            reveal_strlit("version");
            let head =
                "https://raw.githubusercontent.com/git/git/master/Documentation/RelNotes/"@;
            let vars = version_vars(upgrade.new_version@);
            assert(brace_free(head));
            assert(brace_free(".txt"@));
            assert(is_name("version"@));
            assert(vars.drop_last() =~= Seq::<(Seq<char>, Seq<char>)>::empty());
            assert(value_of(vars, "version"@) == Some(upgrade.new_version@));
            lemma_expansion_without_braces(".txt"@, vars);
            lemma_expansion_of_placeholder(head, "version"@, ".txt"@, vars);
            assert(head + crate::template::placeholder("version"@) + ".txt"@
                =~= GIT_RELEASE_NOTES@);
        }
        url_or_empty(try_format_url(GIT_RELEASE_NOTES, upgrade.new_version.as_str()))
    } else {
        String::new()
    }
}

} // verus!
