//! From an upgraded package to the pages that tell what is new in it.
//!
//! A package with a URL template gets one URL for each of its upgrades; a
//! package with a single page gets that page; every other package gets its
//! home page.

use vstd::prelude::*;
use crate::formatting::{formatted_url, try_format_url, url_vars};
use crate::grouping::{upgrades_view, PackageUpgrades};
use crate::project_urls::{kind_in, TemplateRegistry, UrlKind, UrlKindView};
use crate::template::{expansion, is_simple};
use crate::upgrade::{Upgrade, UpgradeView};

verus! {

/// The pages that tell what is new in one package.
#[derive(Debug, PartialEq, Eq)]
pub enum Resolution {
    /// The release notes of each upgrade, oldest first.
    ReleaseNotes(Vec<String>),
    /// The one page that covers every version.
    MonoPage(String),
    /// The home page of the package.
    HomePage(String),
}

/// A [`Resolution`] as contracts speak of it.
pub enum ResolutionView {
    ReleaseNotes(Seq<Seq<char>>),
    MonoPage(Seq<char>),
    HomePage(Seq<char>),
}

impl View for Resolution {
    type V = ResolutionView;

    open spec fn view(&self) -> ResolutionView {
        match self {
            Resolution::ReleaseNotes(urls) => ResolutionView::ReleaseNotes(urls.deep_view()),
            Resolution::MonoPage(url) => ResolutionView::MonoPage(url@),
            Resolution::HomePage(url) => ResolutionView::HomePage(url@),
        }
    }
}

/// Why a package has no resolution.
#[derive(Clone, Copy, Debug, PartialEq, Eq, Structural)]
pub enum ResolveError {
    /// The template of the package cannot be filled in for one of its
    /// upgrades.
    BadTemplate,
}

/// What `template` gives for each of the upgrades, in their order.
pub open spec fn formatted_urls(template: Seq<char>, upgrades: Seq<UpgradeView>) -> Seq<
    Option<Seq<char>>,
> {
    Seq::new(
        upgrades.len(),
        |i: int| formatted_url(template, upgrades[i].old_version, upgrades[i].new_version),
    )
}

/// What a template that holds braces only around the names of placeholders
/// becomes for each of the upgrades, in their order.
pub open spec fn expanded_urls(template: Seq<char>, upgrades: Seq<UpgradeView>) -> Seq<
    Option<Seq<char>>,
> {
    Seq::new(
        upgrades.len(),
        |i: int| expansion(template, url_vars(upgrades[i].old_version, upgrades[i].new_version)),
    )
}

/// The URLs of `formatted` where none is missing, `None` otherwise.
pub open spec fn all_urls(formatted: Seq<Option<Seq<char>>>) -> Option<Seq<Seq<char>>> {
    if forall|i: int| 0 <= i < formatted.len() ==> (#[trigger] formatted[i]) is Some {
        Some(Seq::new(formatted.len(), |i: int| formatted[i]->0))
    } else {
        None
    }
}

/// The resolution of a package of which the registry knows `kind`, or `None`
/// where its template cannot be filled in for one of the upgrades.
pub open spec fn resolution_of(
    kind: UrlKindView,
    home_page_url: Seq<char>,
    upgrades: Seq<UpgradeView>,
) -> Option<ResolutionView> {
    match kind {
        UrlKindView::VersionedTemplate(template) => match all_urls(
            formatted_urls(template, upgrades),
        ) {
            Some(urls) => Some(ResolutionView::ReleaseNotes(urls)),
            None => None,
        },
        UrlKindView::MonoPage(url) => Some(ResolutionView::MonoPage(url)),
        UrlKindView::NotFound => Some(ResolutionView::HomePage(home_page_url)),
    }
}

/// The lines that a resolution shows under the name of the package.
pub open spec fn display_strings(resolution: ResolutionView) -> Seq<Seq<char>> {
    match resolution {
        ResolutionView::ReleaseNotes(urls) => urls,
        ResolutionView::MonoPage(url) => seq![url],
        ResolutionView::HomePage(url) => seq![url],
    }
}

/// The view of the outcome of resolving a package.
pub open spec fn resolved_view(r: Result<Resolution, ResolveError>) -> Option<ResolutionView> {
    match r {
        Ok(resolution) => Some(resolution@),
        Err(_) => None,
    }
}

/// A package resolves in exactly one of three ways, which what the registry
/// knows of it decides: with a template to one URL for each upgrade, with a
/// single page to that page alone, and else to its home page alone. Only a
/// template can fail to resolve.
pub proof fn lemma_resolution_total_and_exclusive(
    kind: UrlKindView,
    home_page_url: Seq<char>,
    upgrades: Seq<UpgradeView>,
)
    ensures
        kind is VersionedTemplate || resolution_of(kind, home_page_url, upgrades) is Some,
        resolution_of(kind, home_page_url, upgrades) matches Some(resolution) ==> {
            &&& kind is VersionedTemplate <==> resolution is ReleaseNotes
            &&& kind is MonoPage <==> resolution is MonoPage
            &&& kind is NotFound <==> resolution is HomePage
            &&& resolution is ReleaseNotes ==> display_strings(resolution).len() == upgrades.len()
            &&& kind matches UrlKindView::MonoPage(url) ==> display_strings(resolution)
                == seq![url]
            &&& kind is NotFound ==> display_strings(resolution) == seq![home_page_url]
            &&& upgrades.len() > 0 ==> display_strings(resolution).len() > 0
        },
{
}

impl Resolution {
    /// The lines to show under the name of the package.
    pub fn urls(&self) -> (r: Vec<String>)
        ensures
            r.deep_view() == display_strings(self@),
    {
        match self {
            Resolution::ReleaseNotes(urls) => {
                let mut out: Vec<String> = Vec::new();
                let mut i: usize = 0;
                while i < urls.len()
                    invariant
                        i <= urls@.len(),
                        out@.len() == i,
                        forall|j: int| 0 <= j < i ==> (#[trigger] out@[j])@ == urls@[j]@,
                    decreases urls@.len() - i,
                {
                    out.push(urls[i].clone());
                    i += 1;
                }
                out
            },
            Resolution::MonoPage(url) => {
                let mut out: Vec<String> = Vec::new();
                out.push(url.clone());
                out
            },
            Resolution::HomePage(url) => {
                let mut out: Vec<String> = Vec::new();
                out.push(url.clone());
                out
            },
        }
    }
}

/// What `template` gives for each of `upgrades`: the URL, or `None` where
/// the template cannot be filled in.
pub fn format_urls(template: &str, upgrades: &Vec<Upgrade>) -> (r: Vec<Option<String>>)
    ensures
        r.deep_view() == formatted_urls(template@, upgrades_view(upgrades@)),
        is_simple(template@) ==> r.deep_view() == expanded_urls(
            template@,
            upgrades_view(upgrades@),
        ),
{
    let ghost events = upgrades_view(upgrades@);
    let mut out: Vec<Option<String>> = Vec::new();
    let mut i: usize = 0;
    while i < upgrades.len()
        invariant
            events == upgrades_view(upgrades@),
            i <= upgrades@.len(),
            out@.len() == i,
            forall|j: int|
                0 <= j < i ==> (#[trigger] out@[j]).deep_view() == formatted_urls(
                    template@,
                    events,
                )[j],
            is_simple(template@) ==> forall|j: int|
                0 <= j < i ==> (#[trigger] out@[j]).deep_view() == expanded_urls(
                    template@,
                    events,
                )[j],
        decreases upgrades@.len() - i,
    {
        let url = try_format_url(
            template,
            upgrades[i].old_version.as_str(),
            upgrades[i].new_version.as_str(),
        );
        out.push(url);
        i += 1;
    }
    out
}

/// The URLs of `formatted`, or `None` where one of them is missing.
pub fn collect_urls(formatted: &Vec<Option<String>>) -> (r: Option<Vec<String>>)
    ensures
        r.deep_view() == all_urls(formatted.deep_view()),
{
    let ghost all = formatted.deep_view();
    let mut out: Vec<String> = Vec::new();
    let mut i: usize = 0;
    while i < formatted.len()
        invariant
            all == formatted.deep_view(),
            i <= formatted@.len(),
            out@.len() == i,
            forall|j: int| 0 <= j < i ==> (#[trigger] all[j]) is Some && out@[j]@ == all[j]->0,
        decreases formatted@.len() - i,
    {
        assert(all[i as int] == formatted@[i as int].deep_view());
        match &formatted[i] {
            Some(url) => {
                out.push(url.clone());
            },
            None => {
                return None;
            },
        }
        i += 1;
    }
    Some(out)
}

/// The resolution that a registry entry of `kind` gives a package with the
/// given home page, where `formatted` holds what the template of a versioned
/// entry gave for each upgrade.
pub fn resolution_from(kind: UrlKind, home_page_url: &str, formatted: &Vec<Option<String>>) -> (r:
    Result<Resolution, ResolveError>)
    ensures
        resolved_view(r) == (match kind@ {
            UrlKindView::VersionedTemplate(_) => match all_urls(formatted.deep_view()) {
                Some(urls) => Some(ResolutionView::ReleaseNotes(urls)),
                None => None,
            },
            UrlKindView::MonoPage(url) => Some(ResolutionView::MonoPage(url)),
            UrlKindView::NotFound => Some(ResolutionView::HomePage(home_page_url@)),
        }),
{
    match kind {
        UrlKind::VersionedTemplate(_) => match collect_urls(formatted) {
            Some(urls) => Ok(Resolution::ReleaseNotes(urls)),
            None => Err(ResolveError::BadTemplate),
        },
        UrlKind::MonoPage(url) => Ok(Resolution::MonoPage(url)),
        UrlKind::NotFound => {
            let mut url = String::new();
            vstd::string::StringExecFns::append(&mut url, home_page_url);
            Ok(Resolution::HomePage(url))
        },
    }
}

/// Resolves one upgraded package against `registry`: see [`resolution_of`].
/// A template that holds braces only around the names of placeholders gives
/// for each upgrade the template with the new version in place of `{version}`
/// and the old one in place of `{old_version}`.
pub fn resolve(registry: &TemplateRegistry, group: &PackageUpgrades) -> (r: Result<
    Resolution,
    ResolveError,
>)
    ensures
        resolved_view(r) == resolution_of(
            kind_in(registry@, group.package.name@),
            group.package.home_page_url@,
            upgrades_view(group.upgrades@),
        ),
        kind_in(registry@, group.package.name@) matches UrlKindView::VersionedTemplate(template)
            ==> (is_simple(template) ==> resolved_view(r) == (match all_urls(
            expanded_urls(template, upgrades_view(group.upgrades@)),
        ) {
            Some(urls) => Some(ResolutionView::ReleaseNotes(urls)),
            None => None,
        })),
{
    let kind = registry.resolve_kind(group.package.name.as_str());
    let formatted = match &kind {
        UrlKind::VersionedTemplate(template) => format_urls(template.as_str(), &group.upgrades),
        _ => Vec::new(),
    };
    resolution_from(kind, group.package.home_page_url.as_str(), &formatted)
}

} // verus!
