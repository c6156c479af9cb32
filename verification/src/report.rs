//! The briefing as a whole: every upgraded package resolved, and the text
//! that shows them in three sections.

use vstd::prelude::*;
use vstd::string::*;
use crate::formatting::{
    package_output, package_output_text, section_header, section_header_text,
};
use crate::grouping::{upgrades_view, PackageUpgrades};
use crate::project_urls::{kind_in, TemplateRegistry, UrlKindView};
use crate::resolver::{
    display_strings, resolution_of, resolve, Resolution, ResolutionView, ResolveError,
};
use crate::text::byte_len;

verus! {

/// An upgraded package and the pages that tell what is new in it.
#[derive(Debug, PartialEq, Eq)]
pub struct Entry {
    pub package_name: String,
    pub resolution: Resolution,
}

/// An [`Entry`] as contracts speak of it.
pub struct EntryView {
    pub package_name: Seq<char>,
    pub resolution: ResolutionView,
}

impl View for Entry {
    type V = EntryView;

    open spec fn view(&self) -> EntryView {
        EntryView { package_name: self.package_name@, resolution: self.resolution@ }
    }
}

/// The section of a briefing in which a package stands.
#[derive(Clone, Copy, Debug, PartialEq, Eq, Structural)]
pub enum Section {
    HomePages,
    ReleaseNotes,
    MonoPages,
}

/// The section in which a package with the given resolution stands.
pub open spec fn section_of(resolution: ResolutionView) -> Section {
    match resolution {
        ResolutionView::HomePage(_) => Section::HomePages,
        ResolutionView::ReleaseNotes(_) => Section::ReleaseNotes,
        ResolutionView::MonoPage(_) => Section::MonoPages,
    }
}

/// The resolution of `group` against the table of a registry.
pub open spec fn group_resolution(
    registry: Map<Seq<char>, UrlKindView>,
    group: PackageUpgrades,
) -> Option<ResolutionView> {
    resolution_of(
        kind_in(registry, group.package.name@),
        group.package.home_page_url@,
        upgrades_view(group.upgrades@),
    )
}

/// Whether `entries` holds, group for group, the package and the resolution
/// of each of `groups`.
pub open spec fn entries_resolve(
    entries: Seq<Entry>,
    registry: Map<Seq<char>, UrlKindView>,
    groups: Seq<PackageUpgrades>,
) -> bool {
    &&& entries.len() == groups.len()
    &&& forall|i: int|
        #![trigger entries[i]]
        #![trigger groups[i]]
        0 <= i < groups.len() ==> entries[i].package_name@ == groups[i].package.name@
            && group_resolution(registry, groups[i]) == Some(entries[i].resolution@)
}

/// The longest package name of `groups` in bytes; 0 where there is no group.
pub open spec fn widest_name(groups: Seq<PackageUpgrades>) -> nat
    decreases groups.len(),
{
    if groups.len() == 0 {
        0
    } else {
        let before = widest_name(groups.drop_last());
        let last = byte_len(groups.last().package.name@);
        if last > before {
            last
        } else {
            before
        }
    }
}

/// No name is wider than the widest.
pub proof fn lemma_widest_name(groups: Seq<PackageUpgrades>, i: int)
    requires
        0 <= i < groups.len(),
    ensures
        byte_len(groups[i].package.name@) <= widest_name(groups),
    decreases groups.len(),
{
    if i < groups.len() - 1 {
        lemma_widest_name(groups.drop_last(), i);
    }
}

/// What a briefing shows of one entry.
pub open spec fn entry_text(margin_width: nat, entry: EntryView) -> Seq<char> {
    package_output_text(margin_width, entry.package_name, display_strings(entry.resolution))
}

/// What a briefing shows of the entries of one section, in their order.
pub open spec fn section_body(margin_width: nat, entries: Seq<Entry>, section: Section) -> Seq<
    char,
>
    decreases entries.len(),
{
    if entries.len() == 0 {
        Seq::<char>::empty()
    } else {
        section_body(margin_width, entries.drop_last(), section) + (if section_of(
            entries.last().resolution@,
        ) == section {
            entry_text(margin_width, entries.last()@)
        } else {
            Seq::<char>::empty()
        })
    }
}

/// A section under its title: an empty line, the title as a header on a line
/// of its own, then the body. Nothing at all where the body is empty.
pub open spec fn titled_section(margin_width: nat, title: Seq<char>, body: Seq<char>) -> Seq<
    char,
> {
    if body.len() == 0 {
        Seq::<char>::empty()
    } else {
        seq!['\n'] + section_header_text(margin_width, title) + seq!['\n'] + body
    }
}

/// The text of a briefing: the packages with nothing but a home page under
/// the title `Homepages`, those with release notes under `Release Notes`,
/// and last, under no title, those with a single page.
pub open spec fn briefing_text(margin_width: nat, entries: Seq<Entry>) -> Seq<char> {
    titled_section(
        margin_width,
        "Homepages"@,
        section_body(margin_width, entries, Section::HomePages),
    ) + titled_section(
        margin_width,
        "Release Notes"@,
        section_body(margin_width, entries, Section::ReleaseNotes),
    ) + section_body(margin_width, entries, Section::MonoPages)
}

/// Resolves every group against `registry`, in the order of the groups. The
/// error of the first group that does not resolve, if there is one.
pub fn resolve_all(registry: &TemplateRegistry, groups: &Vec<PackageUpgrades>) -> (r: Result<
    Vec<Entry>,
    ResolveError,
>)
    ensures
        r matches Ok(entries) ==> entries_resolve(entries@, registry@, groups@),
        r is Err <==> exists|i: int|
            0 <= i < groups@.len() && group_resolution(registry@, #[trigger] groups@[i]) is None,
{
    let mut entries: Vec<Entry> = Vec::new();
    let mut i: usize = 0;
    while i < groups.len()
        invariant
            i <= groups@.len(),
            entries_resolve(entries@, registry@, groups@.take(i as int)),
        decreases groups@.len() - i,
    {
        match resolve(registry, &groups[i]) {
            Ok(resolution) => {
                entries.push(Entry { package_name: groups[i].package.name.clone(), resolution });
            },
            Err(error) => {
                return Err(error);
            },
        }
        i += 1;
    }
    proof {
        assert forall|k: int| 0 <= k < groups@.len() implies group_resolution(
            registry@,
            #[trigger] groups@[k],
        ) is Some by {
            assert(entries@[k].package_name@ == groups@[k].package.name@);
        }
    }
    Ok(entries)
}

/// The width of the margin in which a briefing shows the package names: one
/// more than the longest name takes in bytes.
pub fn margin_width(groups: &Vec<PackageUpgrades>) -> (r: usize)
    requires
        widest_name(groups@) < usize::MAX,
    ensures
        r == widest_name(groups@) + 1,
{
    let mut widest: usize = 0;
    let mut i: usize = 0;
    while i < groups.len()
        invariant
            widest_name(groups@) < usize::MAX,
            i <= groups@.len(),
            widest == widest_name(groups@.take(i as int)),
        decreases groups@.len() - i,
    {
        proof {
            assert(groups@.take(i + 1).drop_last() =~= groups@.take(i as int));
            lemma_widest_name(groups@, i as int);
        }
        let width = groups[i].package.name.as_str().len();
        if width > widest {
            widest = width;
        }
        i += 1;
    }
    assert(groups@.take(i as int) =~= groups@);
    widest + 1
}

/// The text of the briefing of `entries`, with the package names in a margin
/// of `margin_width` bytes: see [`briefing_text`].
pub fn render(margin_width: usize, entries: &Vec<Entry>) -> (r: String)
    requires
        forall|i: int|
            0 <= i < entries@.len() ==> byte_len((#[trigger] entries@[i]).package_name@)
                <= margin_width,
    ensures
        r@ == briefing_text(margin_width as nat, entries@),
{
    let ghost margin = margin_width as nat;
    let mut home_pages = String::new();
    let mut release_notes = String::new();
    let mut mono_pages = String::new();
    let mut i: usize = 0;
    while i < entries.len()
        invariant
            margin == margin_width as nat,
            i <= entries@.len(),
            forall|k: int|
                0 <= k < entries@.len() ==> byte_len((#[trigger] entries@[k]).package_name@)
                    <= margin_width,
            home_pages@ == section_body(margin, entries@.take(i as int), Section::HomePages),
            release_notes@ == section_body(
                margin,
                entries@.take(i as int),
                Section::ReleaseNotes,
            ),
            mono_pages@ == section_body(margin, entries@.take(i as int), Section::MonoPages),
        decreases entries@.len() - i,
    {
        let entry = &entries[i];
        proof {
            assert(entries@.take(i + 1).drop_last() =~= entries@.take(i as int));
        }
        let urls = entry.resolution.urls();
        let text = package_output(margin_width, entry.package_name.as_str(), &urls);
        match &entry.resolution {
            Resolution::HomePage(_) => {
                home_pages.append(text.as_str());
            },
            Resolution::ReleaseNotes(_) => {
                release_notes.append(text.as_str());
            },
            Resolution::MonoPage(_) => {
                mono_pages.append(text.as_str());
            },
        }
        i += 1;
    }
    assert(entries@.take(i as int) =~= entries@);
    let mut out = String::new();
    proof {
        reveal_strlit("\n");
    }
    if !home_pages.as_str().is_empty() {
        out.append("\n");
        out.append(section_header(margin_width, "Homepages").as_str());
        out.append("\n");
        out.append(home_pages.as_str());
    }
    if !release_notes.as_str().is_empty() {
        out.append("\n");
        out.append(section_header(margin_width, "Release Notes").as_str());
        out.append("\n");
        out.append(release_notes.as_str());
    }
    out.append(mono_pages.as_str());
    out
}

} // verus!
