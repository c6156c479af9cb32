use briefing::date::Date;
use briefing::distribution::Distribution;
use briefing::grouping::PackageUpgrades;
use briefing::package::Package;
use briefing::project_urls::TemplateRegistry;
use briefing::report::{margin_width, render, resolve_all, Entry};
use briefing::resolver::{Resolution, ResolveError};
use briefing::upgrade::{get_upgrades_since, Upgrade};

const BOLD: &str = "\u{1b}[1m";
const RESET: &str = "\u{1b}[0m";

fn upgrade(name: &str, old: &str, new: &str) -> Upgrade {
    Upgrade::from_str(&format!(
        "[2020-06-24 13:14] [ALPM] upgraded {} ({}-1 -> {}-1)",
        name, old, new
    ))
    .unwrap()
}

fn group(name: &str, home: &str, versions: &[(&str, &str)]) -> PackageUpgrades {
    PackageUpgrades {
        package: Package { name: name.to_string(), home_page_url: home.to_string() },
        upgrades: versions.iter().map(|(old, new)| upgrade(name, old, new)).collect(),
    }
}

fn entry(name: &str, resolution: Resolution) -> Entry {
    Entry { package_name: name.to_string(), resolution }
}

#[test]
fn margin_is_one_wider_than_the_longest_name() {
    assert_eq!(margin_width(&Vec::new()), 1);
    let groups = vec![
        group("git", "https://git-scm.com/", &[("2.26.0", "2.26.1")]),
        group("virtualbox", "https://virtualbox.org", &[("6.1.8", "6.1.10")]),
        group("vim", "https://www.vim.org", &[("8.2", "9.0")]),
    ];
    assert_eq!(margin_width(&groups), 11);
}

#[test]
fn resolve_all_resolves_each_group_in_order() {
    let registry = TemplateRegistry::builtin();
    let groups = vec![
        group("my-local-tool", "https://tool.example", &[("1.0", "1.1")]),
        group("vim", "https://www.vim.org", &[("8.2", "9.0")]),
        group("virtualbox", "https://virtualbox.org", &[("6.1.8", "6.1.10")]),
    ];
    assert_eq!(
        resolve_all(&registry, &groups),
        Ok(vec![
            entry("my-local-tool", Resolution::HomePage("https://tool.example".to_string())),
            entry(
                "vim",
                Resolution::ReleaseNotes(vec![
                    "https://github.com/vim/vim/releases/tag/v9.0".to_string()
                ])
            ),
            entry(
                "virtualbox",
                Resolution::MonoPage("https://www.virtualbox.org/wiki/Changelog".to_string())
            ),
        ])
    );
    assert_eq!(resolve_all(&registry, &Vec::new()), Ok(Vec::new()));
}

#[test]
fn resolve_all_stops_at_a_bad_template() {
    let mut registry = TemplateRegistry::new();
    registry.add_template("tool", "https://tool.example/{release}");
    let groups = vec![
        group("a", "https://a.example", &[("1.0", "1.1")]),
        group("tool", "https://tool.example", &[("1.0", "1.1")]),
    ];
    assert_eq!(resolve_all(&registry, &groups), Err(ResolveError::BadTemplate));
}

#[test]
fn an_empty_briefing_is_empty() {
    assert_eq!(render(1, &Vec::new()), "");
}

#[test]
fn a_briefing_has_three_sections() {
    let entries = vec![
        entry("feh", Resolution::ReleaseNotes(vec!["https://feh/3.4/".to_string()])),
        entry("tool", Resolution::HomePage("https://tool.example".to_string())),
        entry(
            "vim",
            Resolution::ReleaseNotes(vec!["https://vim/v8".to_string(), "https://vim/v9".to_string()]),
        ),
        entry("vlc", Resolution::MonoPage("https://vlc/NEWS".to_string())),
        entry("zsh", Resolution::HomePage("https://zsh.example".to_string())),
    ];
    let expected = format!(
        "\n{b}      Homepages{r}\n{b} tool{r} https://tool.example\n{b}  zsh{r} https://zsh.example\n\
         \n{b}      Release Notes{r}\n{b}  feh{r} https://feh/3.4/\n{b}  vim{r} https://vim/v8\n      https://vim/v9\n\
         {b}  vlc{r} https://vlc/NEWS\n",
        b = BOLD,
        r = RESET
    );
    assert_eq!(render(5, &entries), expected);
}

#[test]
fn a_section_without_packages_has_no_header() {
    let entries = vec![entry("vlc", Resolution::MonoPage("https://vlc/NEWS".to_string()))];
    assert_eq!(render(4, &entries), format!("{} vlc{} https://vlc/NEWS\n", BOLD, RESET));
    let entries = vec![entry("zsh", Resolution::HomePage("https://zsh.example".to_string()))];
    assert_eq!(
        render(4, &entries),
        format!("\n{b}     Homepages{r}\n{b} zsh{r} https://zsh.example\n", b = BOLD, r = RESET)
    );
    let entries = vec![entry("vim", Resolution::ReleaseNotes(vec!["https://vim/v9".to_string()]))];
    assert_eq!(
        render(4, &entries),
        format!("\n{b}     Release Notes{r}\n{b} vim{r} https://vim/v9\n", b = BOLD, r = RESET)
    );
}

#[test]
fn from_listing_and_log_to_briefing() {
    let listing = "Name            : git
Version         : 2.27.0-1
URL             : https://git-scm.com/

Name            : my-local-tool
Version         : 1.1-1
URL             : https://tool.example/

Name            : virtualbox
Version         : 6.1.12-1
URL             : https://www.virtualbox.org

Name            : idle
Version         : 1.0-1
URL             : https://idle.example

";
    let log: Vec<String> = [
        "[2018-12-31 10:00] [ALPM] upgraded git (2.19.0-1 -> 2.20.0-1)",
        "[2019-01-02 10:00] [PACMAN] Running 'pacman -Syu'",
        "[2019-01-02 10:00] [ALPM] upgraded virtualbox (6.1.8-1 -> 6.1.10-1)",
        "[2019-01-02 10:00] [ALPM] upgraded git (2.20.0-1 -> 2.20.1-1)",
        "[2019-01-03T10:00:00-0400] [ALPM] upgraded my-local-tool (1.0-1 -> 1.1-1)",
        "[2019-01-04T10:00:00-0400] [ALPM] upgraded virtualbox (6.1.10-1 -> 6.1.12-1)",
        "[2019-01-04T10:00:00-0400] [ALPM] upgraded removed-since (1.0-1 -> 1.1-1)",
        "[2019-01-05T10:00:00-0400] [ALPM] upgraded git (2.20.1-1 -> 2.20.1-2)",
    ]
    .iter()
    .map(|line| line.to_string())
    .collect();
    let since = Date::from_ymd_opt(2019, 1, 1).unwrap();
    let groups = get_upgrades_since(since, Distribution::Arch, listing, &log).unwrap();
    let width = margin_width(&groups);
    assert_eq!(width, 14);
    let entries = resolve_all(&TemplateRegistry::builtin(), &groups).unwrap();
    let expected = format!(
        "\n{b}               Homepages{r}\n{b} my-local-tool{r} https://tool.example/\n\
         \n{b}               Release Notes{r}\n{b}           git{r} https://raw.githubusercontent.com/git/git/master/Documentation/RelNotes/2.20.1.txt\n\
         {b}    virtualbox{r} https://www.virtualbox.org/wiki/Changelog\n",
        b = BOLD,
        r = RESET
    );
    assert_eq!(render(width, &entries), expected);
}
