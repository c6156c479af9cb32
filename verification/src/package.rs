//! The packages that are installed, as the package manager lists them.

use vstd::prelude::*;
use crate::distribution::Distribution;
use crate::name_map::NameMap;
use crate::pattern::{regex_captures_iter, Pattern};

verus! {

/// An installed package.
#[derive(Debug, PartialEq, Eq, PartialOrd, Ord)]
pub struct Package {
    pub name: String,
    pub home_page_url: String,
}

impl Clone for Package {
    fn clone(&self) -> (r: Self)
        ensures
            r == *self,
    {
        Package { name: self.name.clone(), home_page_url: self.home_page_url.clone() }
    }
}

/// The installed packages by name. Its view maps each name to the home page
/// of the package.
pub struct InstalledPackages {
    by_name: NameMap<Package>,
}

impl View for InstalledPackages {
    type V = Map<Seq<char>, Seq<char>>;

    closed spec fn view(&self) -> Map<Seq<char>, Seq<char>> {
        Map::new(
            |name: Seq<char>| self.by_name@.contains_key(name),
            |name: Seq<char>| self.by_name@[name].home_page_url@,
        )
    }
}

impl InstalledPackages {
    /// Each package is filed under its own name.
    #[verifier::type_invariant]
    spec fn filed_by_name(self) -> bool {
        forall|name: Seq<char>| #[trigger]
            self.by_name@.contains_key(name) ==> self.by_name@[name].name@ == name
    }

    /// No packages.
    pub fn new() -> (r: Self)
        ensures
            r@ == Map::<Seq<char>, Seq<char>>::empty(),
    {
        let r = InstalledPackages { by_name: NameMap::new() };
        r
    }

    /// Adds `package`, in place of an earlier package of the same name.
    pub fn insert(&mut self, package: Package)
        ensures
            final(self)@ == old(self)@.insert(package.name@, package.home_page_url@),
    {
        proof {
            use_type_invariant(&*self);
        }
        let name = package.name.clone();
        let mut by_name = NameMap::new();
        std::mem::swap(&mut self.by_name, &mut by_name);
        by_name.insert(name, package);
        self.by_name = by_name;
    }

    /// The installed package of that name, if there is one.
    pub fn get(&self, name: &str) -> (r: Option<&Package>)
        ensures
            r is Some <==> self@.contains_key(name@),
            r matches Some(package) ==> package.name@ == name@ && package.home_page_url@
                == self@[name@],
    {
        proof {
            use_type_invariant(self);
        }
        self.by_name.get(name)
    }

    /// Whether a package of that name is installed.
    pub fn contains_key(&self, name: &str) -> (r: bool)
        ensures
            r == self@.contains_key(name@),
    {
        self.by_name.contains_key(name)
    }
}

/// The pattern of a `Name` or `URL` line in the listing that
/// `pacman --query --explicit --info` prints; the group `value` is what
/// follows the colon.
pub const PACKAGE_FIELD_PATTERN: &'static str = "(^|\\n)(Name|URL) +: (?P<value>.*)\\n";

/// The group of [`PACKAGE_FIELD_PATTERN`] that holds a field's value.
pub const PACKAGE_FIELD_GROUP: &'static str = "value";

/// Whether `fields` is a run of (name, home page) pairs: an even number of
/// values, none of them missing.
pub open spec fn fields_are_paired(fields: Seq<Option<Seq<char>>>) -> bool {
    &&& fields.len() % 2 == 0
    &&& forall|i: int| 0 <= i < fields.len() ==> fields[i] is Some
}

/// The packages that a run of (name, home page) pairs lists; a later pair
/// replaces an earlier one of the same name.
pub open spec fn listed_packages(fields: Seq<Option<Seq<char>>>) -> Map<Seq<char>, Seq<char>>
    decreases fields.len(),
{
    if fields.len() < 2 {
        Map::empty()
    } else {
        listed_packages(fields.take(fields.len() - 2)).insert(
            fields[fields.len() - 2]->0,
            fields[fields.len() - 1]->0,
        )
    }
}

/// The packages that the field values of a listing give, or `None` where the
/// values are not paired.
pub open spec fn packages_of_fields(fields: Seq<Option<Seq<char>>>) -> Option<
    Map<Seq<char>, Seq<char>>,
> {
    if fields_are_paired(fields) {
        Some(listed_packages(fields))
    } else {
        None
    }
}

/// The packages that a listing of the package manager names, or `None` where
/// its `Name` and `URL` lines are not paired.
pub open spec fn packages_of_listing(listing: Seq<char>) -> Option<Map<Seq<char>, Seq<char>>> {
    match regex_captures_iter(PACKAGE_FIELD_PATTERN@, PACKAGE_FIELD_GROUP@, listing) {
        Some(fields) => packages_of_fields(fields),
        None => None,
    }
}

/// The view of what [`packages_from_fields`] and
/// [`get_installed_packages_by_name`] return.
pub open spec fn installed_view(r: Option<InstalledPackages>) -> Option<Map<Seq<char>, Seq<char>>> {
    match r {
        Some(packages) => Some(packages@),
        None => None,
    }
}

/// Pairs up the field values of a listing, which name a package and its home
/// page in turn, into the installed packages. `None` where a value is missing
/// or the last name has no home page.
pub fn packages_from_fields(fields: &Vec<Option<String>>) -> (r: Option<InstalledPackages>)
    ensures
        installed_view(r) == packages_of_fields(fields.deep_view()),
{
    let ghost all = fields.deep_view();
    let n: usize = fields.len();
    let mut packages = InstalledPackages::new();
    let mut i: usize = 0;
    while n - i >= 2
        invariant
            n == fields@.len(),
            all == fields.deep_view(),
            i <= n,
            i % 2 == 0,
            forall|j: int| 0 <= j < i ==> all[j] is Some,
            packages@ == listed_packages(all.take(i as int)),
        decreases n - i,
    {
        let package = match (&fields[i], &fields[i + 1]) {
            (Some(name), Some(url)) => Package { name: name.clone(), home_page_url: url.clone() },
            _ => {
                assert(all[i as int] == fields@[i as int].deep_view());
                assert(all[i + 1] == fields@[i + 1].deep_view());
                return None;
            },
        };
        proof {
            let next = all.take(i + 2);
            assert(next.take(next.len() - 2) =~= all.take(i as int));
        }
        packages.insert(package);
        i += 2;
    }
    if i < n {
        return None;
    }
    assert(all.take(i as int) =~= all);
    Some(packages)
}

/// The installed packages that `listing` names, where `listing` is what the
/// package manager of `distribution` prints when asked for the explicitly
/// installed packages with their details. `None` where the `Name` and `URL`
/// lines of the listing are not paired.
pub fn get_installed_packages_by_name(distribution: Distribution, listing: &str) -> (r: Option<
    InstalledPackages,
>)
    ensures
        installed_view(r) == packages_of_listing(listing@),
{
    match distribution {
        Distribution::Arch => arch(listing),
    }
}

/// The installed packages in a listing of pacman.
pub fn arch(listing: &str) -> (r: Option<InstalledPackages>)
    ensures
        installed_view(r) == packages_of_listing(listing@),
{
    match Pattern::compile(PACKAGE_FIELD_PATTERN) {
        Some(pattern) => packages_from_fields(&pattern.captures_iter(PACKAGE_FIELD_GROUP, listing)),
        None => None,
    }
}

} // verus!
