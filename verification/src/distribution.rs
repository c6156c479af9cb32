//! The distributions whose package manager the library understands.

use vstd::prelude::*;
use crate::text::{contains, has_infix};

verus! {

/// A supported distribution.
#[derive(Clone, Copy, Debug, PartialEq, Eq, Structural)]
pub enum Distribution {
    /// Arch Linux, with pacman.
    Arch,
}

/// `text` in lower case, as `str::to_lowercase` gives it.
pub uninterp spec fn lowercase_of(text: Seq<char>) -> Seq<char>;

/// The word by which a system description names Arch Linux.
pub open spec fn arch_marker() -> Seq<char> {
    "arch"@
}

/// The distribution that a system description in lower case names.
pub open spec fn distribution_named(lowercase: Seq<char>) -> Option<Distribution> {
    if has_infix(lowercase, arch_marker()) {
        Some(Distribution::Arch)
    } else {
        None
    }
}

/// `str::to_lowercase` of the standard library.
///
/// Trusted: the result is the one named [`lowercase_of`].
#[verifier::external_body]
fn lowercase(text: &str) -> (r: String)
    ensures
        r@ == lowercase_of(text@),
{
    text.to_lowercase()
}

impl Distribution {
    /// The distribution that `lowercase`, a system description already in
    /// lower case, names: Arch where it holds the word `arch`, none otherwise.
    pub fn from_lowercase(lowercase: &str) -> (r: Option<Distribution>)
        ensures
            r == distribution_named(lowercase@),
    {
        if contains(lowercase, "arch") {
            Some(Distribution::Arch)
        } else {
            None
        }
    }
}

/// The distribution of the running system, told from `description`, the
/// output of `uname -a`: the description is put in lower case and searched for
/// the word `arch`. `None` means that the distribution is not supported.
pub fn current(description: &str) -> (r: Option<Distribution>)
    ensures
        r == distribution_named(lowercase_of(description@)),
{
    let lowered = lowercase(description);
    Distribution::from_lowercase(lowered.as_str())
}

} // verus!
