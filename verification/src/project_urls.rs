//! Where projects publish their release notes.
//!
//! A project either has a page for each version, whose URL a template gives,
//! or one page that it keeps up to date. A registry holds at most one of the
//! two for a package name.

use vstd::prelude::*;
use vstd::string::*;
use crate::name_map::NameMap;

verus! {

/// What a registry knows of a package.
#[derive(Debug, PartialEq, Eq)]
pub enum UrlKind {
    /// A URL template with the placeholders `{version}` and `{old_version}`.
    VersionedTemplate(String),
    /// The URL of a page that covers every version.
    MonoPage(String),
    /// Nothing: the home page of the package has to do.
    NotFound,
}

/// A [`UrlKind`] as contracts speak of it.
pub enum UrlKindView {
    VersionedTemplate(Seq<char>),
    MonoPage(Seq<char>),
    NotFound,
}

impl View for UrlKind {
    type V = UrlKindView;

    open spec fn view(&self) -> UrlKindView {
        match self {
            UrlKind::VersionedTemplate(template) => UrlKindView::VersionedTemplate(template@),
            UrlKind::MonoPage(url) => UrlKindView::MonoPage(url@),
            UrlKind::NotFound => UrlKindView::NotFound,
        }
    }
}

impl Clone for UrlKind {
    fn clone(&self) -> (r: Self)
        ensures
            r == *self,
    {
        match self {
            UrlKind::VersionedTemplate(template) => UrlKind::VersionedTemplate(template.clone()),
            UrlKind::MonoPage(url) => UrlKind::MonoPage(url.clone()),
            UrlKind::NotFound => UrlKind::NotFound,
        }
    }
}

/// What a table of entries maps `name` to, if anything: the kind of the last
/// entry of that name.
pub open spec fn kind_in(entries: Map<Seq<char>, UrlKindView>, name: Seq<char>) -> UrlKindView {
    if entries.contains_key(name) {
        entries[name]
    } else {
        UrlKindView::NotFound
    }
}

/// `table` with each of `pages` entered in turn, as a template where
/// `versioned` says so and as a single page otherwise.
pub open spec fn with_pages(
    table: Map<Seq<char>, UrlKindView>,
    pages: Seq<(Seq<char>, Seq<char>)>,
    versioned: bool,
) -> Map<Seq<char>, UrlKindView>
    decreases pages.len(),
{
    if pages.len() == 0 {
        table
    } else {
        with_pages(table, pages.drop_last(), versioned).insert(
            pages.last().0,
            if versioned {
                UrlKindView::VersionedTemplate(pages.last().1)
            } else {
                UrlKindView::MonoPage(pages.last().1)
            },
        )
    }
}

/// The table that the two lists make. A template counts before a single
/// page of the same name.
pub open spec fn table_of(
    templates: Seq<(Seq<char>, Seq<char>)>,
    mono_pages: Seq<(Seq<char>, Seq<char>)>,
) -> Map<Seq<char>, UrlKindView> {
    with_pages(with_pages(Map::empty(), mono_pages, false), templates, true)
}

/// The release-notes pages by package name. Its view maps each name that it
/// knows to a template or to a single page.
pub struct TemplateRegistry {
    kinds: NameMap<UrlKind>,
}

impl View for TemplateRegistry {
    type V = Map<Seq<char>, UrlKindView>;

    closed spec fn view(&self) -> Map<Seq<char>, UrlKindView> {
        Map::new(
            |name: Seq<char>| self.kinds@.contains_key(name),
            |name: Seq<char>| self.kinds@[name]@,
        )
    }
}

impl TemplateRegistry {
    /// Every entry is a template or a single page.
    #[verifier::type_invariant]
    spec fn holds_pages(self) -> bool {
        forall|name: Seq<char>| #[trigger]
            self.kinds@.contains_key(name) ==> self.kinds@[name] != UrlKind::NotFound
    }

    /// A registry that knows no package.
    pub fn new() -> (r: Self)
        ensures
            r@ == Map::<Seq<char>, UrlKindView>::empty(),
    {
        let r = TemplateRegistry { kinds: NameMap::new() };
        r
    }

    /// Enters `kind` for `name`, in place of what the name had.
    fn enter(&mut self, name: &str, kind: UrlKind)
        requires
            kind != UrlKind::NotFound,
        ensures
            final(self)@ == old(self)@.insert(name@, kind@),
    {
        proof {
            use_type_invariant(&*self);
        }
        let mut kinds = NameMap::new();
        std::mem::swap(&mut self.kinds, &mut kinds);
        kinds.insert(String::from_str(name), kind);
        self.kinds = kinds;
    }

    /// Gives the package `name` a URL template, in place of what it had.
    pub fn add_template(&mut self, name: &str, template: &str)
        ensures
            final(self)@ == old(self)@.insert(name@, UrlKindView::VersionedTemplate(template@)),
    {
        self.enter(name, UrlKind::VersionedTemplate(String::from_str(template)));
    }

    /// Gives the package `name` a single page, in place of what it had.
    pub fn add_mono_page(&mut self, name: &str, url: &str)
        ensures
            final(self)@ == old(self)@.insert(name@, UrlKindView::MonoPage(url@)),
    {
        self.enter(name, UrlKind::MonoPage(String::from_str(url)));
    }

    /// Enters each of `pages` in turn.
    fn add_pages(&mut self, pages: &Vec<(&str, &str)>, versioned: bool)
        ensures
            final(self)@ == with_pages(old(self)@, pages.deep_view(), versioned),
    {
        let ghost all = pages.deep_view();
        let mut i: usize = 0;
        while i < pages.len()
            invariant
                all == pages.deep_view(),
                i <= pages@.len(),
                self@ == with_pages(old(self)@, all.take(i as int), versioned),
            decreases pages@.len() - i,
        {
            proof {
                let next = all.take(i + 1);
                assert(next.drop_last() =~= all.take(i as int));
            }
            if versioned {
                self.add_template(pages[i].0, pages[i].1);
            } else {
                self.add_mono_page(pages[i].0, pages[i].1);
            }
            i += 1;
        }
        assert(all.take(i as int) =~= all);
    }

    /// The registry of the given templates and single pages, each a package
    /// name and a URL. Of two entries of a list with one name the later
    /// counts, and a template counts before a single page.
    pub fn from_tables(templates: &Vec<(&str, &str)>, mono_pages: &Vec<(&str, &str)>) -> (r: Self)
        ensures
            r@ == table_of(templates.deep_view(), mono_pages.deep_view()),
    {
        let mut registry = TemplateRegistry::new();
        registry.add_pages(mono_pages, false);
        registry.add_pages(templates, true);
        registry
    }

    /// The registry of the projects that the library knows.
    pub fn builtin() -> (r: Self)
        ensures
            r@ == table_of(known_templates(), known_mono_pages()),
    {
        TemplateRegistry::from_tables(&templates(), &mono_pages())
    }

    /// What the registry knows of the package `name`. Names are matched
    /// exactly.
    pub fn resolve_kind(&self, name: &str) -> (r: UrlKind)
        ensures
            r@ == kind_in(self@, name@),
            (r@ is NotFound) <==> !self@.contains_key(name@),
    {
        proof {
            use_type_invariant(self);
        }
        match self.kinds.get(name) {
            Some(kind) => kind.clone(),
            None => UrlKind::NotFound,
        }
    }
}

/// The projects with a page for each version: package name and URL template.
pub open spec fn known_templates() -> Seq<(Seq<char>, Seq<char>)> {
    seq![
        ("alacritty"@, "https://github.com/jwilm/alacritty/releases/tag/v{version}"@),
        ("besu"@, "https://github.com/hyperledger/besu/releases/tag/{version}"@),
        (
            "chromium"@,
            "https://chromium.googlesource.com/chromium/src/+log/{old_version}..{version}?pretty=fuller&n=10000"@,
        ),
        ("Clight"@, "https://github.com/FedeDP/Clight/releases/tag/v{version}"@),
        ("feh"@, "https://feh.finalrewind.org/archive/{version}/"@),
        ("firefox"@, "https://www.mozilla.org/en-US/firefox/{version}/releasenotes/"@),
        ("flatpak"@, "https://github.com/flatpak/flatpak/releases/tag/{version}"@),
        (
            "ghc"@,
            "https://downloads.haskell.org/~ghc/{version}/docs/html/users_guide/{version}-notes.html"@,
        ),
        (
            "git"@,
            "https://raw.githubusercontent.com/git/git/master/Documentation/RelNotes/{version}.txt"@,
        ),
        ("github-cli"@, "https://github.com/cli/cli/releases/tag/v{version}"@),
        ("gimp"@, "https://www.gimp.org/release-notes/gimp-{version}.html"@),
        ("go"@, "https://golang.org/doc/devel/release.html#go{version}"@),
        ("googler"@, "https://github.com/jarun/googler/releases/tag/{version}"@),
        ("i3-gaps"@, "https://github.com/Airblader/i3/blob/gaps-next/RELEASE-NOTES-{version}"@),
        ("linux"@, "https://cdn.kernel.org/pub/linux/kernel/v5.x/ChangeLog-{version}"@),
        ("neovim"@, "https://github.com/neovim/neovim/releases/tag/v{version}"@),
        ("racket"@, "https://download.racket-lang.org/v{version}.html"@),
        ("ripgrep"@, "https://github.com/BurntSushi/ripgrep/releases/tag/{version}"@),
        ("topgrade"@, "https://github.com/r-darwish/topgrade/releases/tag/v{version}"@),
        ("tmux"@, "https://raw.githubusercontent.com/tmux/tmux/{version}/CHANGES"@),
        ("vim"@, "https://github.com/vim/vim/releases/tag/v{version}"@),
        ("yay"@, "https://github.com/Jguer/yay/releases/tag/v{version}"@),
        ("youtube-dl"@, "https://github.com/rg3/youtube-dl/releases/tag/{version}"@),
    ]
}

/// The projects with a single page: package name and URL.
pub open spec fn known_mono_pages() -> Seq<(Seq<char>, Seq<char>)> {
    seq![
        ("arduino"@, "https://www.arduino.cc/en/Main/ReleaseNotes"@),
        ("google-chrome"@, "https://chromereleases.googleblog.com"@),
        ("intellij-idea-community-edition"@, "https://www.jetbrains.com/idea/whatsnew/"@),
        (
            "networkmanager"@,
            "https://gitlab.freedesktop.org/NetworkManager/NetworkManager/blob/master/NEWS"@,
        ),
        ("virtualbox"@, "https://www.virtualbox.org/wiki/Changelog"@),
        ("vlc"@, "https://www.videolan.org/developers/vlc-branch/NEWS"@),
        ("yourkit"@, "https://www.yourkit.com/changes/"@),
        ("zoom"@, "https://support.zoom.us/hc/en-us/sections/201214205-Release-Notes"@),
    ]
}

/// URL templates of projects that have a page for each version.
pub fn templates() -> (r: Vec<(&'static str, &'static str)>)
    ensures
        r.deep_view() == known_templates(),
{
    let r: Vec<(&'static str, &'static str)> = vec![
        ("alacritty", "https://github.com/jwilm/alacritty/releases/tag/v{version}"),
        ("besu", "https://github.com/hyperledger/besu/releases/tag/{version}"),
        (
            "chromium",
            "https://chromium.googlesource.com/chromium/src/+log/{old_version}..{version}?pretty=fuller&n=10000",
        ),
        ("Clight", "https://github.com/FedeDP/Clight/releases/tag/v{version}"),
        ("feh", "https://feh.finalrewind.org/archive/{version}/"),
        ("firefox", "https://www.mozilla.org/en-US/firefox/{version}/releasenotes/"),
        ("flatpak", "https://github.com/flatpak/flatpak/releases/tag/{version}"),
        (
            "ghc",
            "https://downloads.haskell.org/~ghc/{version}/docs/html/users_guide/{version}-notes.html",
        ),
        (
            "git",
            "https://raw.githubusercontent.com/git/git/master/Documentation/RelNotes/{version}.txt",
        ),
        ("github-cli", "https://github.com/cli/cli/releases/tag/v{version}"),
        ("gimp", "https://www.gimp.org/release-notes/gimp-{version}.html"),
        ("go", "https://golang.org/doc/devel/release.html#go{version}"),
        ("googler", "https://github.com/jarun/googler/releases/tag/{version}"),
        ("i3-gaps", "https://github.com/Airblader/i3/blob/gaps-next/RELEASE-NOTES-{version}"),
        ("linux", "https://cdn.kernel.org/pub/linux/kernel/v5.x/ChangeLog-{version}"),
        ("neovim", "https://github.com/neovim/neovim/releases/tag/v{version}"),
        ("racket", "https://download.racket-lang.org/v{version}.html"),
        ("ripgrep", "https://github.com/BurntSushi/ripgrep/releases/tag/{version}"),
        ("topgrade", "https://github.com/r-darwish/topgrade/releases/tag/v{version}"),
        ("tmux", "https://raw.githubusercontent.com/tmux/tmux/{version}/CHANGES"),
        ("vim", "https://github.com/vim/vim/releases/tag/v{version}"),
        ("yay", "https://github.com/Jguer/yay/releases/tag/v{version}"),
        ("youtube-dl", "https://github.com/rg3/youtube-dl/releases/tag/{version}"),
    ];
    r
}

/// URLs of projects that keep their release notes on a single page.
pub fn mono_pages() -> (r: Vec<(&'static str, &'static str)>)
    ensures
        r.deep_view() == known_mono_pages(),
{
    let r: Vec<(&'static str, &'static str)> = vec![
        ("arduino", "https://www.arduino.cc/en/Main/ReleaseNotes"),
        ("google-chrome", "https://chromereleases.googleblog.com"),
        ("intellij-idea-community-edition", "https://www.jetbrains.com/idea/whatsnew/"),
        (
            "networkmanager",
            "https://gitlab.freedesktop.org/NetworkManager/NetworkManager/blob/master/NEWS",
        ),
        ("virtualbox", "https://www.virtualbox.org/wiki/Changelog"),
        ("vlc", "https://www.videolan.org/developers/vlc-branch/NEWS"),
        ("yourkit", "https://www.yourkit.com/changes/"),
        ("zoom", "https://support.zoom.us/hc/en-us/sections/201214205-Release-Notes"),
    ];
    r
}

} // verus!
