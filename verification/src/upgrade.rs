//! Upgrades recorded in the transaction log of the package manager.

use vstd::prelude::*;
use vstd::std_specs::cmp::PartialEqSpecImpl;
use crate::date::{date_of_text, ymd_precedes, Date};
use crate::distribution::Distribution;
use crate::grouping::{
    events_of, file_upgrade, group_of, has_group, well_grouped, PackageUpgrades,
};
use crate::package::{
    get_installed_packages_by_name, packages_of_listing, InstalledPackages,
};
use crate::pattern::{is_compiled, regex_captures, Pattern};

verus! {

/// One upgrade of one package: a day, and the version before and after.
#[derive(Debug)]
pub struct Upgrade {
    pub date: Date,
    pub package_name: String,
    pub old_version: String,
    pub new_version: String,
}

/// An [`Upgrade`] as contracts speak of it.
pub struct UpgradeView {
    /// Year, month and day.
    pub date: (int, int, int),
    pub package_name: Seq<char>,
    pub old_version: Seq<char>,
    pub new_version: Seq<char>,
}

impl View for Upgrade {
    type V = UpgradeView;

    open spec fn view(&self) -> UpgradeView {
        UpgradeView {
            date: self.date@,
            package_name: self.package_name@,
            old_version: self.old_version@,
            new_version: self.new_version@,
        }
    }
}

impl PartialEq for Upgrade {
    fn eq(&self, other: &Upgrade) -> (r: bool) {
        self.date == other.date && self.package_name == other.package_name && self.old_version
            == other.old_version && self.new_version == other.new_version
    }
}

impl PartialEqSpecImpl for Upgrade {
    open spec fn obeys_eq_spec() -> bool {
        true
    }

    open spec fn eq_spec(&self, other: &Upgrade) -> bool {
        self.date == other.date && self.package_name@ == other.package_name@
            && self.old_version@ == other.old_version@ && self.new_version@
            == other.new_version@
    }
}

impl std::str::FromStr for Upgrade {
    type Err = ParseUpgradeError;

    /// Reads one line of the log: see [`Upgrade::from_str`].
    fn from_str(line: &str) -> (r: Result<Upgrade, ParseUpgradeError>)
        ensures
            outcome_view(r) == parsed_line(line@),
            r matches Ok(upgrade) ==> upgrade.wf(),
    {
        Upgrade::from_str(line)
    }
}

/// Why a line of the log gives no upgrade.
#[derive(Clone, Copy, Debug, PartialEq, Eq, Structural)]
pub enum ParseUpgradeError {
    /// The line is no record of an upgrade to another version on a day of the
    /// calendar.
    Error,
}

impl ParseUpgradeError {
    /// What the error has to say beyond its name: nothing.
    pub fn message(&self) -> (r: String)
        ensures
            r@ == Seq::<char>::empty(),
    {
        String::new()
    }
}

/// The pattern of an upgrade record in pacman's log. Its groups `date`,
/// `name`, `old` and `new` hold the day, the package and the two versions;
/// an epoch before a version and what follows its last digit stay outside.
pub const UPGRADE_PATTERN: &'static str =
    "^\\[(?P<date>\\d{4}-\\d{2}-\\d{2})( |T)\\d{2}:\\d{2}(:\\d\\d[-+]\\d\\d\\d\\d)?\\] \\[ALPM\\] upgraded (?P<name>[^ ]*) \\((\\d:)?(?P<old>[.\\d]+\\d).* -> (\\d:)?(?P<new>[.\\d]+\\d).*\\)$";

/// The format of the day in a record of the log.
pub const DATE_FORMAT: &'static str = "%F";

/// The groups of [`UPGRADE_PATTERN`] that an upgrade is read from.
pub open spec fn upgrade_groups() -> Seq<Seq<char>> {
    seq!["date"@, "name"@, "old"@, "new"@]
}

/// The upgrade that a day and three texts make: none without a day, and none
/// where the two versions are the same.
pub open spec fn upgrade_of_parts(
    date: Option<(int, int, int)>,
    package_name: Seq<char>,
    old_version: Seq<char>,
    new_version: Seq<char>,
) -> Option<UpgradeView> {
    match date {
        Some(day) => if old_version != new_version {
            Some(UpgradeView { date: day, package_name, old_version, new_version })
        } else {
            None
        },
        None => None,
    }
}

/// Whether `fields` holds a text for each of the four groups.
pub open spec fn fields_are_complete(fields: Seq<Option<Seq<char>>>) -> bool {
    fields.len() == 4 && fields[0] is Some && fields[1] is Some && fields[2] is Some
        && fields[3] is Some
}

/// The upgrade that the captured fields of a line give.
pub open spec fn upgrade_of_fields(fields: Seq<Option<Seq<char>>>) -> Option<UpgradeView> {
    if fields_are_complete(fields) {
        upgrade_of_parts(
            date_of_text(fields[0]->0, DATE_FORMAT@),
            fields[1]->0,
            fields[2]->0,
            fields[3]->0,
        )
    } else {
        None
    }
}

/// What [`UPGRADE_PATTERN`] captures in `line`.
pub open spec fn line_fields(line: Seq<char>) -> Option<Seq<Option<Seq<char>>>> {
    regex_captures(UPGRADE_PATTERN@, upgrade_groups(), line)
}

/// The upgrade that `line` records, if it records one.
pub open spec fn parsed_line(line: Seq<char>) -> Option<UpgradeView> {
    match line_fields(line) {
        Some(fields) => upgrade_of_fields(fields),
        None => None,
    }
}

/// The view of the outcome of reading an upgrade.
pub open spec fn outcome_view(r: Result<Upgrade, ParseUpgradeError>) -> Option<UpgradeView> {
    match r {
        Ok(upgrade) => Some(upgrade@),
        Err(_) => None,
    }
}

impl Upgrade {
    /// Whether the upgrade changes the version.
    pub open spec fn wf(&self) -> bool {
        self.old_version@ != self.new_version@
    }

    /// The upgrade of `package_name` on `date` from `old_version` to
    /// `new_version`; an error without a date, or where the two versions are
    /// the same.
    pub fn new(
        date: Option<Date>,
        package_name: String,
        old_version: String,
        new_version: String,
    ) -> (r: Result<Upgrade, ParseUpgradeError>)
        ensures
            outcome_view(r) == upgrade_of_parts(
                crate::date::date_view(date),
                package_name@,
                old_version@,
                new_version@,
            ),
            r matches Ok(upgrade) ==> upgrade.wf(),
    {
        match date {
            Some(day) => {
                if old_version == new_version {
                    Err(ParseUpgradeError::Error)
                } else {
                    Ok(Upgrade { date: day, package_name, old_version, new_version })
                }
            },
            None => Err(ParseUpgradeError::Error),
        }
    }

    /// The upgrade that the fields captured from a line give: the day is read
    /// from the first, the package and the versions are the others as they
    /// stand.
    pub fn from_fields(fields: &Vec<Option<String>>) -> (r: Result<Upgrade, ParseUpgradeError>)
        ensures
            outcome_view(r) == upgrade_of_fields(fields.deep_view()),
            r matches Ok(upgrade) ==> upgrade.wf(),
    {
        if fields.len() != 4 {
            return Err(ParseUpgradeError::Error);
        }
        match (&fields[0], &fields[1], &fields[2], &fields[3]) {
            (Some(day), Some(name), Some(old), Some(new)) => Upgrade::new(
                Date::parse_from_str(day.as_str(), DATE_FORMAT),
                name.clone(),
                old.clone(),
                new.clone(),
            ),
            _ => Err(ParseUpgradeError::Error),
        }
    }

    /// Reads one line of the log with [`UPGRADE_PATTERN`] in its compiled
    /// form.
    fn from_line(pattern: &Option<Pattern>, line: &str) -> (r: Result<Upgrade, ParseUpgradeError>)
        requires
            is_compiled(*pattern, UPGRADE_PATTERN@),
        ensures
            outcome_view(r) == parsed_line(line@),
            r matches Ok(upgrade) ==> upgrade.wf(),
    {
        let groups: Vec<&str> = vec!["date", "name", "old", "new"];
        assert(groups.deep_view() =~= upgrade_groups());
        match pattern {
            Some(compiled) => match compiled.captures(&groups, line) {
                Some(fields) => Upgrade::from_fields(&fields),
                None => Err(ParseUpgradeError::Error),
            },
            None => Err(ParseUpgradeError::Error),
        }
    }

    /// Reads one line of the log. `Ok` for a record of an upgrade to another
    /// version on a day of the calendar, an error for every other line.
    pub fn from_str(line: &str) -> (r: Result<Upgrade, ParseUpgradeError>)
        ensures
            outcome_view(r) == parsed_line(line@),
            r matches Ok(upgrade) ==> upgrade.wf(),
    {
        Upgrade::from_line(&Pattern::compile(UPGRADE_PATTERN), line)
    }
}

/// The upgrades that the lines of a log record, in the order of the lines.
pub open spec fn parsed_events(lines: Seq<Seq<char>>) -> Seq<UpgradeView> {
    lines.filter_map(|line: Seq<char>| parsed_line(line))
}

/// How many events at the head of `events` lie before the day `since`: the
/// position of the first event on or after that day, or the number of events
/// where there is none.
pub open spec fn stale_prefix_len(events: Seq<UpgradeView>, since: (int, int, int)) -> nat
    decreases events.len(),
{
    if events.len() > 0 && ymd_precedes(events[0].date, since) {
        1 + stale_prefix_len(events.drop_first(), since)
    } else {
        0
    }
}

/// The events from the first one on or after the day `since` to the end,
/// whatever the days of the later ones.
pub open spec fn events_since(events: Seq<UpgradeView>, since: (int, int, int)) -> Seq<
    UpgradeView,
> {
    events.skip(stale_prefix_len(events, since) as int)
}

/// Those of `events` whose package is one of `installed`.
pub open spec fn of_installed(events: Seq<UpgradeView>, installed: Set<Seq<char>>) -> Seq<
    UpgradeView,
> {
    events.filter(|e: UpgradeView| installed.contains(e.package_name))
}

/// The upgrades to report from a log: those that its lines record, from the
/// first one on or after the day `since`, of packages that are installed.
pub open spec fn reported_events(
    lines: Seq<Seq<char>>,
    since: (int, int, int),
    installed: Set<Seq<char>>,
) -> Seq<UpgradeView> {
    of_installed(events_since(parsed_events(lines), since), installed)
}

/// Whether `groups` is `events` grouped by package: sorted by package name,
/// each group holding the installed package and, in their order, all the
/// events of that package, and no group without events.
pub open spec fn is_grouping_of(
    groups: Seq<PackageUpgrades>,
    events: Seq<UpgradeView>,
    installed: Map<Seq<char>, Seq<char>>,
) -> bool {
    &&& well_grouped(groups, installed)
    &&& forall|name: Seq<char>| #[trigger] group_of(groups, name) == events_of(events, name)
}

/// The stale prefix ends before the first event that is not before `since`,
/// and every event in it is before `since`.
pub proof fn lemma_stale_prefix(events: Seq<UpgradeView>, since: (int, int, int))
    ensures
        stale_prefix_len(events, since) <= events.len(),
        forall|i: int|
            0 <= i < stale_prefix_len(events, since) ==> ymd_precedes(
                (#[trigger] events[i]).date,
                since,
            ),
        stale_prefix_len(events, since) < events.len() ==> !ymd_precedes(
            events[stale_prefix_len(events, since) as int].date,
            since,
        ),
    decreases events.len(),
{
    if events.len() > 0 && ymd_precedes(events[0].date, since) {
        let rest = events.drop_first();
        lemma_stale_prefix(rest, since);
        let n = stale_prefix_len(rest, since) as int;
        assert forall|i: int| 0 <= i < n + 1 implies ymd_precedes(
            (#[trigger] events[i]).date,
            since,
        ) by {
            if i > 0 {
                assert(events[i] == rest[i - 1]);
            }
        }
        if n + 1 < events.len() {
            assert(events[n + 1] == rest[n]);
        }
    }
}

/// A position that has both marks of the end of the stale prefix is that
/// end.
pub proof fn lemma_stale_prefix_unique(events: Seq<UpgradeView>, since: (int, int, int), k: int)
    requires
        0 <= k <= events.len(),
        forall|i: int| 0 <= i < k ==> ymd_precedes((#[trigger] events[i]).date, since),
        k < events.len() ==> !ymd_precedes(events[k].date, since),
    ensures
        stale_prefix_len(events, since) == k,
{
    lemma_stale_prefix(events, since);
    let n = stale_prefix_len(events, since) as int;
    if n < k {
        assert(ymd_precedes(events[n].date, since));
    } else if k < n {
        assert(ymd_precedes(events[k].date, since));
    }
}

/// What one more event at the end does to the events since a day: while all
/// events are stale, a stale one changes nothing and another one starts the
/// run; after that every event joins the run.
pub proof fn lemma_events_since_push(
    events: Seq<UpgradeView>,
    event: UpgradeView,
    since: (int, int, int),
)
    ensures
        stale_prefix_len(events, since) == events.len() && ymd_precedes(event.date, since)
            ==> stale_prefix_len(events.push(event), since) == events.len() + 1
            && events_since(events.push(event), since) == Seq::<UpgradeView>::empty(),
        stale_prefix_len(events, since) == events.len() && !ymd_precedes(event.date, since)
            ==> stale_prefix_len(events.push(event), since) == events.len() && events_since(
            events.push(event),
            since,
        ) == seq![event],
        stale_prefix_len(events, since) < events.len() ==> stale_prefix_len(
            events.push(event),
            since,
        ) == stale_prefix_len(events, since) && events_since(events.push(event), since)
            == events_since(events, since).push(event),
        stale_prefix_len(events, since) <= events.len(),
{
    lemma_stale_prefix(events, since);
    let n = stale_prefix_len(events, since) as int;
    let longer = events.push(event);
    if n == events.len() && ymd_precedes(event.date, since) {
        assert forall|i: int| 0 <= i < n + 1 implies ymd_precedes(
            (#[trigger] longer[i]).date,
            since,
        ) by {
            if i < n {
                assert(longer[i] == events[i]);
            }
        }
        lemma_stale_prefix_unique(longer, since, n + 1);
        assert(longer.skip(n + 1) =~= Seq::<UpgradeView>::empty());
    } else {
        assert forall|i: int| 0 <= i < n implies ymd_precedes(
            (#[trigger] longer[i]).date,
            since,
        ) by {
            assert(longer[i] == events[i]);
        }
        if n < events.len() {
            assert(longer[n] == events[n]);
        }
        lemma_stale_prefix_unique(longer, since, n);
        if n == events.len() {
            assert(longer.skip(n) =~= seq![event]);
        } else {
            assert(longer.skip(n) =~= events.skip(n).push(event));
        }
    }
}

/// Whether no event lies before an earlier one.
pub open spec fn chronological(events: Seq<UpgradeView>) -> bool {
    forall|i: int, j: int|
        #![trigger events[i], events[j]]
        0 <= i < j < events.len() ==> !ymd_precedes(events[j].date, events[i].date)
}

/// A line that matches the pattern of an upgrade record gives an upgrade
/// whenever its two versions differ and its day is a day of the calendar:
/// the upgrade of the package and between the versions that the line names,
/// which differ.
pub proof fn lemma_record_gives_upgrade(line: Seq<char>)
    requires
        line_fields(line) matches Some(fields) && fields_are_complete(fields) && fields[2]
            != fields[3] && date_of_text(fields[0]->0, DATE_FORMAT@) is Some,
    ensures
        parsed_line(line) matches Some(event) && event.old_version != event.new_version
            && event.package_name == line_fields(line)->0[1]->0 && event.old_version
            == line_fields(line)->0[2]->0 && event.new_version == line_fields(line)->0[3]->0,
{
}

/// A line whose two versions are the same gives no upgrade, and no upgrade
/// that a line gives has the same version twice.
pub proof fn lemma_same_version_gives_nothing(line: Seq<char>)
    ensures
        line_fields(line) matches Some(fields) && fields_are_complete(fields) && fields[2]
            == fields[3] ==> parsed_line(line) is None,
        parsed_line(line) matches Some(event) ==> event.old_version != event.new_version,
{
}

/// Every upgrade to report is one that a line of the log records.
pub proof fn lemma_reported_events_are_recorded(
    lines: Seq<Seq<char>>,
    since: (int, int, int),
    installed: Set<Seq<char>>,
    k: int,
)
    requires
        0 <= k < reported_events(lines, since, installed).len(),
    ensures
        installed.contains(reported_events(lines, since, installed)[k].package_name),
        exists|i: int|
            0 <= i < lines.len() && parsed_line(#[trigger] lines[i]) == Some(
                reported_events(lines, since, installed)[k],
            ),
        exists|j: int|
            stale_prefix_len(parsed_events(lines), since) <= j < parsed_events(lines).len()
                && #[trigger] parsed_events(lines)[j] == reported_events(lines, since, installed)[k],
{
    let parse = |line: Seq<char>| parsed_line(line);
    let is_installed = |e: UpgradeView| installed.contains(e.package_name);
    let events = parsed_events(lines);
    let n = stale_prefix_len(events, since) as int;
    let recent = events.skip(n);
    let reported = reported_events(lines, since, installed);
    let event = reported[k];
    lemma_stale_prefix(events, since);
    recent.lemma_filter_pred(is_installed, k);
    assert(recent.filter(is_installed).contains(event));
    recent.lemma_filter_contains_rev(is_installed, event);
    let j = choose|j: int| 0 <= j < recent.len() && recent[j] == event;
    assert(events[n + j] == event);
    assert(events.contains(event));
    lines.lemma_filter_map_contains(parse, event);
    let line = choose|line: Seq<char>| #[trigger] lines.contains(line) && parse(line) == Some(event);
    let i = choose|i: int| 0 <= i < lines.len() && lines[i] == line;
    assert(parsed_line(lines[i]) == Some(event));
}

/// No upgrade to report has the same version twice: a record whose two
/// versions are the same never reaches the report.
pub proof fn lemma_reported_events_change_version(
    lines: Seq<Seq<char>>,
    since: (int, int, int),
    installed: Set<Seq<char>>,
)
    ensures
        forall|k: int|
            0 <= k < reported_events(lines, since, installed).len() ==> (
            #[trigger] reported_events(lines, since, installed)[k]).old_version != reported_events(
                lines,
                since,
                installed,
            )[k].new_version,
{
    assert forall|k: int| 0 <= k < reported_events(lines, since, installed).len() implies (
    #[trigger] reported_events(lines, since, installed)[k]).old_version != reported_events(
        lines,
        since,
        installed,
    )[k].new_version by {
        lemma_reported_events_are_recorded(lines, since, installed, k);
        let i = choose|i: int|
            0 <= i < lines.len() && parsed_line(#[trigger] lines[i]) == Some(
                reported_events(lines, since, installed)[k],
            );
        lemma_same_version_gives_nothing(lines[i]);
    }
}

/// A package that is not installed has no upgrade in the report and no group
/// in its grouping, whatever the log holds.
pub proof fn lemma_not_installed_not_reported(
    lines: Seq<Seq<char>>,
    since: (int, int, int),
    installed: Map<Seq<char>, Seq<char>>,
    groups: Seq<PackageUpgrades>,
    name: Seq<char>,
)
    requires
        !installed.contains_key(name),
        is_grouping_of(groups, reported_events(lines, since, installed.dom()), installed),
    ensures
        events_of(reported_events(lines, since, installed.dom()), name) == Seq::<
            UpgradeView,
        >::empty(),
        !has_group(groups, name),
{
    let reported = reported_events(lines, since, installed.dom());
    let named = |e: UpgradeView| e.package_name == name;
    assert(reported.all(|e: UpgradeView| !named(e))) by {
        assert forall|k: int| 0 <= k < reported.len() implies !named(#[trigger] reported[k]) by {
            lemma_reported_events_are_recorded(lines, since, installed.dom(), k);
        }
    }
    reported.lemma_all_neg_filter_empty(named);
    assert(events_of(reported, name) =~= Seq::<UpgradeView>::empty());
    if has_group(groups, name) {
        let i = choose|i: int| 0 <= i < groups.len() && (#[trigger] groups[i]).package.name@ == name;
        assert(installed.contains_key(groups[i].package.name@));
    }
}

/// In a log whose records stand in the order of their days, no upgrade to
/// report lies before the day `since`.
pub proof fn lemma_reported_events_not_before(
    lines: Seq<Seq<char>>,
    since: (int, int, int),
    installed: Set<Seq<char>>,
)
    requires
        chronological(parsed_events(lines)),
    ensures
        forall|k: int|
            0 <= k < reported_events(lines, since, installed).len() ==> !ymd_precedes(
                (#[trigger] reported_events(lines, since, installed)[k]).date,
                since,
            ),
{
    let events = parsed_events(lines);
    let n = stale_prefix_len(events, since) as int;
    lemma_stale_prefix(events, since);
    assert forall|k: int| 0 <= k < reported_events(lines, since, installed).len() implies !ymd_precedes(
        (#[trigger] reported_events(lines, since, installed)[k]).date,
        since,
    ) by {
        lemma_reported_events_are_recorded(lines, since, installed, k);
        let j = choose|j: int|
            n <= j < events.len() && #[trigger] events[j] == reported_events(
                lines,
                since,
                installed,
            )[k];
        if n < j {
            assert(!ymd_precedes(events[j].date, events[n].date));
        }
    }
}

/// The report starts at the first recorded upgrade on or after the day
/// `since`, reading the log from its oldest line: every upgrade before that
/// one lies before `since` and is left out, and every upgrade from that one on
/// is reported if its package is installed, whatever its day.
pub proof fn lemma_report_starts_at_first_recent(
    lines: Seq<Seq<char>>,
    since: (int, int, int),
    installed: Set<Seq<char>>,
)
    ensures
        stale_prefix_len(parsed_events(lines), since) <= parsed_events(lines).len(),
        forall|i: int|
            0 <= i < stale_prefix_len(parsed_events(lines), since) ==> ymd_precedes(
                (#[trigger] parsed_events(lines)[i]).date,
                since,
            ),
        stale_prefix_len(parsed_events(lines), since) < parsed_events(lines).len()
            ==> !ymd_precedes(
            parsed_events(lines)[stale_prefix_len(parsed_events(lines), since) as int].date,
            since,
        ),
        reported_events(lines, since, installed) == of_installed(
            parsed_events(lines).skip(stale_prefix_len(parsed_events(lines), since) as int),
            installed,
        ),
        forall|j: int|
            stale_prefix_len(parsed_events(lines), since) <= j < parsed_events(lines).len()
                && installed.contains((#[trigger] parsed_events(lines)[j]).package_name)
                ==> reported_events(lines, since, installed).contains(parsed_events(lines)[j]),
{
    let events = parsed_events(lines);
    let n = stale_prefix_len(events, since) as int;
    let is_installed = |e: UpgradeView| installed.contains(e.package_name);
    lemma_stale_prefix(events, since);
    assert forall|j: int|
        n <= j < events.len() && installed.contains(
            (#[trigger] events[j]).package_name,
        ) implies reported_events(lines, since, installed).contains(events[j]) by {
        let recent = events.skip(n);
        assert(recent[j - n] == events[j]);
        recent.lemma_filter_contains(is_installed, j - n);
    }
}

/// The upgrades to report from pacman's log.
pub fn arch(since_time: Date, installed_packages_by_name: &InstalledPackages, log_lines: &Vec<String>) -> (r:
    Vec<PackageUpgrades>)
    ensures
        is_grouping_of(
            r@,
            reported_events(log_lines.deep_view(), since_time@, installed_packages_by_name@.dom()),
            installed_packages_by_name@,
        ),
{
    let ghost lines = log_lines.deep_view();
    let ghost since = since_time@;
    let ghost names = installed_packages_by_name@.dom();
    let ghost is_installed = |e: UpgradeView| names.contains(e.package_name);
    let pattern = Pattern::compile(UPGRADE_PATTERN);
    let mut groups: Vec<PackageUpgrades> = Vec::new();
    let mut started = false;
    let ghost mut events: Seq<UpgradeView> = Seq::empty();
    let ghost mut kept: Seq<UpgradeView> = Seq::empty();
    proof {
        assert(events.filter(is_installed) =~= Seq::<UpgradeView>::empty()) by {
            reveal(Seq::filter);
        }
        assert forall|name: Seq<char>| #[trigger]
            group_of(groups@, name) == events_of(kept, name) by {
            reveal(Seq::filter);
        }
    }
    let mut i: usize = 0;
    while i < log_lines.len()
        invariant
            is_compiled(pattern, UPGRADE_PATTERN@),
            lines == log_lines.deep_view(),
            since == since_time@,
            names == installed_packages_by_name@.dom(),
            is_installed == |e: UpgradeView| names.contains(e.package_name),
            i <= log_lines@.len(),
            events == parsed_events(lines.take(i as int)),
            started <==> stale_prefix_len(events, since) < events.len(),
            kept == events_since(events, since).filter(is_installed),
            is_grouping_of(groups@, kept, installed_packages_by_name@),
        decreases log_lines@.len() - i,
    {
        let outcome = Upgrade::from_line(&pattern, log_lines[i].as_str());
        proof {
            lines.lemma_filter_map_take_succ(|line: Seq<char>| parsed_line(line), i as int);
        }
        match outcome {
            Ok(upgrade) => {
                let ghost event = upgrade@;
                proof {
                    lemma_events_since_push(events, event, since);
                    events_since(events, since).lemma_filter_push(event, is_installed);
                    Seq::<UpgradeView>::empty().lemma_filter_push(event, is_installed);
                    assert(Seq::<UpgradeView>::empty().filter(is_installed) =~= Seq::<
                        UpgradeView,
                    >::empty()) by {
                        reveal(Seq::filter);
                    }
                }
                if started || !upgrade.date.is_before(&since_time) {
                    started = true;
                    if installed_packages_by_name.contains_key(upgrade.package_name.as_str()) {
                        proof {
                            assert forall|name: Seq<char>|
                                events_of(kept.push(event), name) == if name
                                    == event.package_name {
                                    events_of(kept, name).push(event)
                                } else {
                                    events_of(kept, name)
                                } by {
                                kept.lemma_filter_push(
                                    event,
                                    |e: UpgradeView| e.package_name == name,
                                );
                            }
                        }
                        file_upgrade(&mut groups, installed_packages_by_name, upgrade);
                        proof {
                            kept = kept.push(event);
                        }
                    }
                }
                proof {
                    events = events.push(event);
                }
            },
            Err(_) => {},
        }
        i += 1;
    }
    proof {
        assert(lines.take(i as int) =~= lines);
    }
    groups
}

/// The upgrades to report from the log of `distribution`, whose lines are
/// `log_lines`, oldest first: those that the lines record, from the first one
/// on or after `since_time`, of packages in `installed_packages_by_name`,
/// grouped by package. The groups stand in the order of the package names,
/// and the upgrades of a group in the order of the log.
pub fn get_upgrades_by_name(
    distribution: Distribution,
    since_time: Date,
    installed_packages_by_name: &InstalledPackages,
    log_lines: &Vec<String>,
) -> (r: Vec<PackageUpgrades>)
    ensures
        is_grouping_of(
            r@,
            reported_events(log_lines.deep_view(), since_time@, installed_packages_by_name@.dom()),
            installed_packages_by_name@,
        ),
{
    match distribution {
        Distribution::Arch => arch(since_time, installed_packages_by_name, log_lines),
    }
}

/// The upgrades to report since `since_time`: the installed packages are
/// read from `listing`, what the package manager of `distribution` prints of
/// them, and the upgrades from `log_lines`, the lines of its log. `None` where
/// the listing cannot be read.
pub fn get_upgrades_since(
    since_time: Date,
    distribution: Distribution,
    listing: &str,
    log_lines: &Vec<String>,
) -> (r: Option<Vec<PackageUpgrades>>)
    ensures
        r is Some <==> packages_of_listing(listing@) is Some,
        r matches Some(groups) ==> is_grouping_of(
            groups@,
            reported_events(
                log_lines.deep_view(),
                since_time@,
                packages_of_listing(listing@)->0.dom(),
            ),
            packages_of_listing(listing@)->0,
        ),
{
    match get_installed_packages_by_name(distribution, listing) {
        Some(installed) => Some(get_upgrades_by_name(distribution, since_time, &installed, log_lines)),
        None => None,
    }
}

} // verus!
