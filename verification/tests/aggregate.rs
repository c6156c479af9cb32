use briefing::date::Date;
use briefing::distribution::Distribution;
use briefing::grouping::{file_upgrade, PackageUpgrades};
use briefing::package::{InstalledPackages, Package};
use briefing::upgrade::{arch, get_upgrades_by_name, get_upgrades_since, Upgrade};

fn day(year: i32, month: u32, day: u32) -> Date {
    Date::from_ymd_opt(year, month, day).unwrap()
}

fn installed(names: &[&str]) -> InstalledPackages {
    let mut packages = InstalledPackages::new();
    for name in names {
        packages.insert(Package {
            name: name.to_string(),
            home_page_url: format!("https://{}.example", name),
        });
    }
    packages
}

fn lines(text: &[&str]) -> Vec<String> {
    text.iter().map(|line| line.to_string()).collect()
}

fn upgrade(line: &str) -> Upgrade {
    Upgrade::from_str(line).unwrap()
}

fn names(groups: &Vec<PackageUpgrades>) -> Vec<String> {
    groups.iter().map(|group| group.package.name.clone()).collect()
}

fn versions(group: &PackageUpgrades) -> Vec<(String, String)> {
    group.upgrades.iter().map(|u| (u.old_version.clone(), u.new_version.clone())).collect()
}

fn pair(old: &str, new: &str) -> (String, String) {
    (old.to_string(), new.to_string())
}

#[test]
fn upgrades_before_the_checkpoint_are_left_out() {
    let log = lines(&[
        "[2018-12-31 10:00] [ALPM] upgraded git (2.19.0-1 -> 2.20.0-1)",
        "[2019-01-02 10:00] [ALPM] upgraded git (2.20.0-1 -> 2.20.1-1)",
    ]);
    let groups =
        get_upgrades_by_name(Distribution::Arch, day(2019, 1, 1), &installed(&["git"]), &log);
    assert_eq!(groups.len(), 1);
    assert_eq!(groups[0].package.name, "git");
    assert_eq!(groups[0].package.home_page_url, "https://git.example");
    assert_eq!(
        groups[0].upgrades,
        vec![upgrade("[2019-01-02 10:00] [ALPM] upgraded git (2.20.0-1 -> 2.20.1-1)")]
    );
}

#[test]
fn an_upgrade_on_the_checkpoint_is_reported() {
    let log = lines(&["[2019-01-01 00:00] [ALPM] upgraded git (2.20.0-1 -> 2.20.1-1)"]);
    let groups =
        get_upgrades_by_name(Distribution::Arch, day(2019, 1, 1), &installed(&["git"]), &log);
    assert_eq!(names(&groups), vec!["git"]);
}

#[test]
fn nothing_is_reported_when_all_is_old() {
    let log = lines(&[
        "[2018-12-30 10:00] [ALPM] upgraded git (2.19.0-1 -> 2.20.0-1)",
        "[2018-12-31 10:00] [ALPM] upgraded vim (8.0-1 -> 8.1-1)",
    ]);
    let groups = get_upgrades_by_name(
        Distribution::Arch,
        day(2019, 1, 1),
        &installed(&["git", "vim"]),
        &log,
    );
    assert!(groups.is_empty());
    let groups =
        get_upgrades_by_name(Distribution::Arch, day(2019, 1, 1), &installed(&["git"]), &Vec::new());
    assert!(groups.is_empty());
}

#[test]
fn after_the_first_recent_upgrade_days_are_not_looked_at() {
    let log = lines(&[
        "[2018-12-31 10:00] [ALPM] upgraded git (2.19.0-1 -> 2.20.0-1)",
        "[2019-01-02 10:00] [ALPM] upgraded vim (8.0-1 -> 8.1-1)",
        "[2018-06-01 10:00] [ALPM] upgraded git (2.17.0-1 -> 2.18.0-1)",
    ]);
    let groups = get_upgrades_by_name(
        Distribution::Arch,
        day(2019, 1, 1),
        &installed(&["git", "vim"]),
        &log,
    );
    assert_eq!(names(&groups), vec!["git", "vim"]);
    assert_eq!(versions(&groups[0]), vec![pair("2.17.0", "2.18.0")]);
    assert_eq!(versions(&groups[1]), vec![pair("8.0", "8.1")]);
}

#[test]
fn the_first_recent_upgrade_counts_even_if_not_installed() {
    let log = lines(&[
        "[2019-01-02 10:00] [ALPM] upgraded gone (1.0-1 -> 1.1-1)",
        "[2018-06-01 10:00] [ALPM] upgraded git (2.17.0-1 -> 2.18.0-1)",
    ]);
    let groups =
        get_upgrades_by_name(Distribution::Arch, day(2019, 1, 1), &installed(&["git"]), &log);
    assert_eq!(names(&groups), vec!["git"]);
}

#[test]
fn packages_that_are_not_installed_are_left_out() {
    let log = lines(&[
        "[2019-01-02 10:00] [ALPM] upgraded git (2.20.0-1 -> 2.20.1-1)",
        "[2019-01-02 10:00] [ALPM] upgraded gone (1.0-1 -> 1.1-1)",
        "[2019-01-03 10:00] [ALPM] upgraded Git (1.0-1 -> 1.1-1)",
    ]);
    let groups =
        get_upgrades_by_name(Distribution::Arch, day(2019, 1, 1), &installed(&["git"]), &log);
    assert_eq!(names(&groups), vec!["git"]);
    assert_eq!(versions(&groups[0]), vec![pair("2.20.0", "2.20.1")]);
    let groups = get_upgrades_by_name(Distribution::Arch, day(2019, 1, 1), &installed(&[]), &log);
    assert!(groups.is_empty());
}

#[test]
fn upgrades_to_the_same_version_are_left_out() {
    let log = lines(&[
        "[2019-01-02 10:00] [ALPM] upgraded git (2.20.1-1 -> 2.20.1-2)",
        "[2019-01-03 10:00] [ALPM] upgraded vim (8.0-1 -> 8.1-1)",
        "[2019-01-04 10:00] [ALPM] upgraded vim (8.1-1 -> 8.1-2)",
    ]);
    let groups = get_upgrades_by_name(
        Distribution::Arch,
        day(2019, 1, 1),
        &installed(&["git", "vim"]),
        &log,
    );
    assert_eq!(names(&groups), vec!["vim"]);
    assert_eq!(versions(&groups[0]), vec![pair("8.0", "8.1")]);
}

#[test]
fn a_rebuild_on_a_recent_day_does_not_end_the_skipping() {
    let log = lines(&[
        "[2019-01-02 10:00] [ALPM] upgraded git (2.20.1-1 -> 2.20.1-2)",
        "[2018-01-03 10:00] [ALPM] upgraded vim (8.0-1 -> 8.1-1)",
    ]);
    let groups = get_upgrades_by_name(
        Distribution::Arch,
        day(2019, 1, 1),
        &installed(&["git", "vim"]),
        &log,
    );
    assert!(groups.is_empty());
}

#[test]
fn groups_are_sorted_by_name_and_upgrades_by_line() {
    let log = lines(&[
        "[2019-01-02 10:00] [ALPM] upgraded vim (8.0-1 -> 8.1-1)",
        "[2019-01-02 10:00] [ALPM] transaction completed",
        "[2019-01-03 10:00] [ALPM] upgraded linux (4.20.0.arch1-1 -> 4.20.1.arch1-1)",
        "[2019-01-04 10:00] [ALPM] upgraded git (2.20.0-1 -> 2.20.1-1)",
        "[2019-01-05 10:00] [ALPM] upgraded vim (8.1-1 -> 8.2-1)",
        "[2019-01-06 10:00] [ALPM] upgraded linux-lts (4.19.1-1 -> 4.19.2-1)",
        "[2019-01-07 10:00] [ALPM] installed feh (3.1-1)",
        "[2019-01-08 10:00] [ALPM] upgraded linux (4.20.1.arch1-1 -> 4.20.2.arch1-1)",
        "[2019-01-09 10:00] [ALPM] upgraded Zsh (5.6-1 -> 5.7-1)",
        "[2019-01-10 10:00] [ALPM] upgraded vim (8.2-1 -> 8.3-1)",
    ]);
    let groups = get_upgrades_by_name(
        Distribution::Arch,
        day(2019, 1, 1),
        &installed(&["vim", "git", "linux-lts", "linux", "Zsh", "feh"]),
        &log,
    );
    assert_eq!(names(&groups), vec!["Zsh", "git", "linux", "linux-lts", "vim"]);
    assert_eq!(versions(&groups[0]), vec![pair("5.6", "5.7")]);
    assert_eq!(versions(&groups[1]), vec![pair("2.20.0", "2.20.1")]);
    assert_eq!(versions(&groups[2]), vec![pair("4.20.0", "4.20.1"), pair("4.20.1", "4.20.2")]);
    assert_eq!(versions(&groups[3]), vec![pair("4.19.1", "4.19.2")]);
    assert_eq!(
        versions(&groups[4]),
        vec![pair("8.0", "8.1"), pair("8.1", "8.2"), pair("8.2", "8.3")]
    );
    for group in groups.iter() {
        assert_eq!(group.package.home_page_url, format!("https://{}.example", group.package.name));
        for upgrade in group.upgrades.iter() {
            assert_eq!(upgrade.package_name, group.package.name);
            assert_ne!(upgrade.old_version, upgrade.new_version);
        }
    }
}

#[test]
fn upgrades_since_reads_listing_and_log() {
    let listing =
        "Name            : git\nVersion         : 2.20.1-1\nURL             : https://git-scm.com/\n";
    let log = lines(&[
        "[2018-12-31 10:00] [ALPM] upgraded git (2.19.0-1 -> 2.20.0-1)",
        "[2019-01-02 10:00] [ALPM] upgraded git (2.20.0-1 -> 2.20.1-1)",
        "[2019-01-02 10:00] [ALPM] upgraded vim (8.0-1 -> 8.1-1)",
    ]);
    let groups = get_upgrades_since(day(2019, 1, 1), Distribution::Arch, listing, &log).unwrap();
    assert_eq!(groups.len(), 1);
    assert_eq!(
        groups[0].package,
        Package { name: "git".to_string(), home_page_url: "https://git-scm.com/".to_string() }
    );
    assert_eq!(versions(&groups[0]), vec![pair("2.20.0", "2.20.1")]);
}

#[test]
fn upgrades_since_refuses_a_listing_that_is_not_paired() {
    let log = lines(&["[2019-01-02 10:00] [ALPM] upgraded git (2.20.0-1 -> 2.20.1-1)"]);
    assert!(get_upgrades_since(day(2019, 1, 1), Distribution::Arch, "Name : git\n", &log).is_none());
}

#[test]
fn file_upgrade_keeps_groups_sorted() {
    let packages = installed(&["b", "a", "c"]);
    let mut groups: Vec<PackageUpgrades> = Vec::new();
    file_upgrade(&mut groups, &packages, upgrade("[2019-01-02 10:00] [ALPM] upgraded b (1.0-1 -> 2.0-1)"));
    file_upgrade(&mut groups, &packages, upgrade("[2019-01-02 10:00] [ALPM] upgraded c (1.0-1 -> 2.0-1)"));
    file_upgrade(&mut groups, &packages, upgrade("[2019-01-02 10:00] [ALPM] upgraded a (1.0-1 -> 2.0-1)"));
    file_upgrade(&mut groups, &packages, upgrade("[2019-01-03 10:00] [ALPM] upgraded b (2.0-1 -> 3.0-1)"));
    assert_eq!(names(&groups), vec!["a", "b", "c"]);
    assert_eq!(versions(&groups[1]), vec![pair("1.0", "2.0"), pair("2.0", "3.0")]);
    assert_eq!(versions(&groups[0]), vec![pair("1.0", "2.0")]);
    assert_eq!(versions(&groups[2]), vec![pair("1.0", "2.0")]);
}

#[test]
fn arch_reads_the_log_of_pacman() {
    let log = lines(&[
        "[2018-12-31 10:00] [ALPM] upgraded git (2.19.0-1 -> 2.20.0-1)",
        "[2019-01-02 10:00] [ALPM] upgraded git (2.20.0-1 -> 2.20.1-1)",
    ]);
    let groups = arch(day(2019, 1, 1), &installed(&["git"]), &log);
    assert_eq!(names(&groups), vec!["git"]);
    assert_eq!(versions(&groups[0]), vec![pair("2.20.0", "2.20.1")]);
}
