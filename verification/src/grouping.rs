//! Upgrades grouped by package, the packages in the order of their names.

use vstd::prelude::*;
use crate::package::{InstalledPackages, Package};
use crate::text::{
    compare, lemma_precedes_asymmetric, lemma_precedes_transitive, precedes, Position,
};
use crate::upgrade::{Upgrade, UpgradeView};

verus! {

/// The upgrades of one installed package, oldest first.
#[derive(Debug)]
pub struct PackageUpgrades {
    pub package: Package,
    pub upgrades: Vec<Upgrade>,
}

/// The views of a run of upgrades.
pub open spec fn upgrades_view(upgrades: Seq<Upgrade>) -> Seq<UpgradeView> {
    upgrades.map_values(|u: Upgrade| u@)
}

/// Those of `events` that upgrade the package `name`, in their order.
pub open spec fn events_of(events: Seq<UpgradeView>, name: Seq<char>) -> Seq<UpgradeView> {
    events.filter(|e: UpgradeView| e.package_name == name)
}

/// Whether the groups stand in the strict order of their package names; no
/// two groups then have the same package name.
pub open spec fn sorted_by_name(groups: Seq<PackageUpgrades>) -> bool {
    forall|i: int, j: int|
        #![trigger groups[i], groups[j]]
        0 <= i < j < groups.len() ==> precedes(groups[i].package.name@, groups[j].package.name@)
}

/// Whether one of the groups is that of the package `name`.
pub open spec fn has_group(groups: Seq<PackageUpgrades>, name: Seq<char>) -> bool {
    exists|i: int| 0 <= i < groups.len() && (#[trigger] groups[i]).package.name@ == name
}

/// The upgrades in the group of the package `name`; none where the package
/// has no group.
pub open spec fn group_of(groups: Seq<PackageUpgrades>, name: Seq<char>) -> Seq<UpgradeView> {
    if has_group(groups, name) {
        let i = choose|i: int| 0 <= i < groups.len() && (#[trigger] groups[i]).package.name@ == name;
        upgrades_view(groups[i].upgrades@)
    } else {
        Seq::empty()
    }
}

/// Whether the groups are sorted by name, none is empty, and each carries the
/// installed package of its name.
pub open spec fn well_grouped(groups: Seq<PackageUpgrades>, installed: Map<Seq<char>, Seq<char>>) -> bool {
    &&& sorted_by_name(groups)
    &&& forall|i: int|
        0 <= i < groups.len() ==> {
            let group = #[trigger] groups[i];
            &&& group.upgrades@.len() > 0
            &&& installed.contains_key(group.package.name@)
            &&& group.package.home_page_url@ == installed[group.package.name@]
        }
}

/// In sorted groups, the group of a name is the one found under that name.
pub proof fn lemma_group_at(groups: Seq<PackageUpgrades>, i: int)
    requires
        sorted_by_name(groups),
        0 <= i < groups.len(),
    ensures
        has_group(groups, groups[i].package.name@),
        group_of(groups, groups[i].package.name@) == upgrades_view(groups[i].upgrades@),
{
    let name = groups[i].package.name@;
    let j = choose|j: int| 0 <= j < groups.len() && (#[trigger] groups[j]).package.name@ == name;
    if j < i {
        assert(precedes(groups[j].package.name@, groups[i].package.name@));
        lemma_precedes_asymmetric(name, name);
    } else if i < j {
        assert(precedes(groups[i].package.name@, groups[j].package.name@));
        lemma_precedes_asymmetric(name, name);
    }
}

/// The position at which the package `name` has, or would get, its group:
/// the names of the groups before it precede `name`, and `name` precedes the
/// names of the groups after it. The flag tells whether the group at the
/// position is that of `name`; if not, `name` precedes its name too.
fn position_of(groups: &Vec<PackageUpgrades>, name: &str) -> (r: (usize, bool))
    requires
        sorted_by_name(groups@),
    ensures
        r.0 <= groups@.len(),
        forall|j: int| 0 <= j < r.0 ==> precedes((#[trigger] groups@[j]).package.name@, name@),
        forall|j: int|
            r.0 <= j < groups@.len() && !(r.1 && j == r.0) ==> precedes(
                name@,
                (#[trigger] groups@[j]).package.name@,
            ),
        r.1 ==> r.0 < groups@.len() && groups@[r.0 as int].package.name@ == name@,
        r.1 <==> has_group(groups@, name@),
{
    let mut i: usize = 0;
    let mut found = false;
    let mut done = false;
    while !done && i < groups.len()
        invariant
            sorted_by_name(groups@),
            i <= groups@.len(),
            forall|j: int| 0 <= j < i ==> precedes((#[trigger] groups@[j]).package.name@, name@),
            found ==> done,
            done ==> i < groups@.len(),
            done && found ==> groups@[i as int].package.name@ == name@,
            done && !found ==> precedes(name@, groups@[i as int].package.name@),
        decreases groups@.len() - i + (if done {
                0int
            } else {
                1int
            }),
    {
        match compare(groups[i].package.name.as_str(), name) {
            Position::Before => {
                i += 1;
            },
            Position::Same => {
                found = true;
                done = true;
            },
            Position::After => {
                done = true;
            },
        }
    }
    proof {
        assert forall|j: int| i <= j < groups@.len() && !(found && j == i) implies precedes(
            name@,
            (#[trigger] groups@[j]).package.name@,
        ) by {
            if i < j {
                assert(precedes(groups@[i as int].package.name@, groups@[j].package.name@));
                if !found {
                    lemma_precedes_transitive(
                        name@,
                        groups@[i as int].package.name@,
                        groups@[j].package.name@,
                    );
                }
            }
        }
        if has_group(groups@, name@) && !found {
            let k = choose|k: int|
                0 <= k < groups@.len() && (#[trigger] groups@[k]).package.name@ == name@;
            if k < i {
                lemma_precedes_asymmetric(groups@[k].package.name@, name@);
            } else {
                lemma_precedes_asymmetric(name@, groups@[k].package.name@);
            }
        }
    }
    (i, found)
}

/// Files `upgrade` under its package: at the end of the package's group, or
/// in a new group of its own at the place that the package's name has among
/// the others.
pub fn file_upgrade(
    groups: &mut Vec<PackageUpgrades>,
    installed: &InstalledPackages,
    upgrade: Upgrade,
)
    requires
        well_grouped(old(groups)@, installed@),
        installed@.contains_key(upgrade.package_name@),
    ensures
        well_grouped(final(groups)@, installed@),
        group_of(final(groups)@, upgrade.package_name@) == group_of(
            old(groups)@,
            upgrade.package_name@,
        ).push(upgrade@),
        forall|name: Seq<char>|
            name != upgrade.package_name@ ==> #[trigger] group_of(final(groups)@, name)
                == group_of(old(groups)@, name),
{
    let ghost before = groups@;
    let ghost name = upgrade.package_name@;
    let ghost event = upgrade@;
    let (at, found) = position_of(groups, upgrade.package_name.as_str());
    if found {
        let mut group = groups.remove(at);
        group.upgrades.push(upgrade);
        groups.insert(at, group);
        proof {
            let after = groups@;
            assert(after.len() == before.len());
            assert forall|i: int| 0 <= i < after.len() implies (#[trigger] after[i]).package
                == before[i].package by {}
            assert(sorted_by_name(after)) by {
                assert forall|i: int, j: int|
                    #![trigger after[i], after[j]]
                    0 <= i < j < after.len() implies precedes(
                    after[i].package.name@,
                    after[j].package.name@,
                ) by {
                    assert(precedes(before[i].package.name@, before[j].package.name@));
                }
            }
            assert(well_grouped(after, installed@)) by {
                assert forall|i: int| 0 <= i < after.len() implies {
                    let group = #[trigger] after[i];
                    &&& group.upgrades@.len() > 0
                    &&& installed@.contains_key(group.package.name@)
                    &&& group.package.home_page_url@ == installed@[group.package.name@]
                } by {
                    let earlier = before[i];
                    assert(earlier.upgrades@.len() > 0);
                }
            }
            lemma_group_at(before, at as int);
            lemma_group_at(after, at as int);
            assert(upgrades_view(after[at as int].upgrades@) =~= upgrades_view(
                before[at as int].upgrades@,
            ).push(event));
            assert forall|other: Seq<char>| other != name implies #[trigger] group_of(after, other)
                == group_of(before, other) by {
                if has_group(before, other) {
                    let k = choose|k: int|
                        0 <= k < before.len() && (#[trigger] before[k]).package.name@ == other;
                    assert(after[k] == before[k]);
                    lemma_group_at(before, k);
                    lemma_group_at(after, k);
                } else if has_group(after, other) {
                    let k = choose|k: int|
                        0 <= k < after.len() && (#[trigger] after[k]).package.name@ == other;
                    assert(before[k].package.name@ == other);
                }
            }
        }
    } else {
        let package = match installed.get(upgrade.package_name.as_str()) {
            Some(package) => package.clone(),
            None => Package { name: upgrade.package_name.clone(), home_page_url: String::new() },
        };
        let mut upgrades: Vec<Upgrade> = Vec::new();
        upgrades.push(upgrade);
        groups.insert(at, PackageUpgrades { package, upgrades });
        proof {
            let after = groups@;
            let here = at as int;
            assert(after.len() == before.len() + 1);
            assert(after[here].package.name@ == name);
            assert forall|i: int| 0 <= i < here implies #[trigger] after[i] == before[i] by {}
            assert forall|i: int| here < i < after.len() implies #[trigger] after[i] == before[i
                - 1] by {}
            assert(sorted_by_name(after)) by {
                assert forall|i: int, j: int|
                    #![trigger after[i], after[j]]
                    0 <= i < j < after.len() implies precedes(
                    after[i].package.name@,
                    after[j].package.name@,
                ) by {
                    if j < here {
                        assert(precedes(before[i].package.name@, before[j].package.name@));
                    } else if j == here {
                        assert(precedes(before[i].package.name@, name));
                    } else if i < here {
                        assert(precedes(before[i].package.name@, name));
                        assert(precedes(name, before[j - 1].package.name@));
                        lemma_precedes_transitive(
                            before[i].package.name@,
                            name,
                            before[j - 1].package.name@,
                        );
                    } else if i == here {
                        assert(precedes(name, before[j - 1].package.name@));
                    } else {
                        assert(precedes(before[i - 1].package.name@, before[j - 1].package.name@));
                    }
                }
            }
            assert(well_grouped(after, installed@)) by {
                assert forall|i: int| 0 <= i < after.len() implies {
                    let group = #[trigger] after[i];
                    &&& group.upgrades@.len() > 0
                    &&& installed@.contains_key(group.package.name@)
                    &&& group.package.home_page_url@ == installed@[group.package.name@]
                } by {
                    if i < here {
                        let earlier = before[i];
                        assert(earlier.upgrades@.len() > 0);
                    } else if i > here {
                        let earlier = before[i - 1];
                        assert(earlier.upgrades@.len() > 0);
                    }
                }
            }
            lemma_group_at(after, here);
            assert(upgrades_view(after[here].upgrades@) =~= Seq::<UpgradeView>::empty().push(
                event,
            ));
            assert forall|other: Seq<char>| other != name implies #[trigger] group_of(after, other)
                == group_of(before, other) by {
                if has_group(before, other) {
                    let k = choose|k: int|
                        0 <= k < before.len() && (#[trigger] before[k]).package.name@ == other;
                    let moved = if k < here {
                        k
                    } else {
                        k + 1
                    };
                    assert(after[moved] == before[k]);
                    lemma_group_at(before, k);
                    lemma_group_at(after, moved);
                } else if has_group(after, other) {
                    let k = choose|k: int|
                        0 <= k < after.len() && (#[trigger] after[k]).package.name@ == other;
                    if k < here {
                        assert(before[k].package.name@ == other);
                    } else {
                        assert(before[k - 1].package.name@ == other);
                    }
                }
            }
        }
    }
}

} // verus!
