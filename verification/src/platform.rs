//! Inference of the caller's distribution from the user-agent of its
//! package manager.

use crate::detect::text_view;
use crate::error::Error;
use crate::pattern::{capture_view, first_capture, regex_capture};
use crate::text::{chars_eq, decimal_value, from_chars, has_prefix, parse_u64, push_str, replace_char, replace_each, starts_with, strip_prefix_all, strip_repeated_prefix, strip_repeated_suffix, strip_suffix_all, to_chars, Order};
use crate::utils::{Dist, DistModel, Family};
use crate::version::{in_order, lemma_plain_in_order, lenient_parse, plain, semver_matches, version_order, version_text, Version, VersionModel};
use vstd::prelude::*;

verus! {

/// The pattern that finds the version of `apt` in its user-agent.
pub open spec fn apt_pattern() -> Seq<char> {
    r"Debian APT.+\((.+)\)"@
}

/// The pattern that finds the release of Fedora in the user-agent of `dnf`.
pub open spec fn fedora_pattern() -> Seq<char> {
    r"libdnf \(Fedora Linux (\d+);"@
}

/// The pattern that the user-agent of `zypper` on Tumbleweed matches.
pub open spec fn tumbleweed_pattern() -> Seq<char> {
    r"ZYpp.+openSUSE-Tumbleweed"@
}

/// The pattern that finds, in a pre-release tag, a number that a suffix
/// follows.
pub open spec fn suffixed_number_pattern() -> Seq<char> {
    r"(\d+)\D"@
}

/// What the capture group of a search holds, where the pattern matched and
/// the group took part.
pub open spec fn captured(found: Option<Option<Seq<char>>>) -> Option<Seq<char>> {
    match found {
        Some(Some(v)) => Some(v),
        _ => None,
    }
}

/// The version of `apt` that a user-agent names.
pub open spec fn apt_version_of(agent: Seq<char>) -> Option<Seq<char>> {
    captured(regex_capture(apt_pattern(), agent))
}

/// The release of Fedora that a user-agent names.
pub open spec fn fedora_version_of(agent: Seq<char>) -> Option<Seq<char>> {
    captured(regex_capture(fedora_pattern(), agent))
}

/// Whether a user-agent is that of `zypper` on Tumbleweed.
pub open spec fn is_tumbleweed_agent(agent: Seq<char>) -> bool {
    regex_capture(tumbleweed_pattern(), agent) is Some
}

fn take_captured(found: Option<Option<String>>) -> (r: Option<String>)
    ensures
        text_view(r) == captured(capture_view(found)),
{
    match found {
        Some(Some(v)) => Some(v),
        _ => None,
    }
}

/// The version of `apt` in the user-agent of an `apt` client.
pub fn get_apt_version(agent: &str) -> (r: String)
    requires
        apt_version_of(agent@) is Some,
    ensures
        Some(r@) == apt_version_of(agent@),
{
    match take_captured(first_capture(r"Debian APT.+\((.+)\)", agent)) {
        Some(v) => v,
        None => String::new(),
    }
}

/// The version of `apt` that the user-agent names; `None` where it is not
/// the user-agent of an `apt` client.
pub fn apt_version(agent: &str) -> (r: Option<String>)
    ensures
        text_view(r) == apt_version_of(agent@),
{
    let found = take_captured(first_capture(r"Debian APT.+\((.+)\)", agent));
    if found.is_some() {
        Some(get_apt_version(agent))
    } else {
        None
    }
}

/// The release of Fedora that the user-agent of `dnf` names; `None` where
/// it names none.
pub fn get_fedora_version(agent: &str) -> (r: Option<String>)
    ensures
        text_view(r) == fedora_version_of(agent@),
{
    take_captured(first_capture(r"libdnf \(Fedora Linux (\d+);", agent))
}

/// Whether the user-agent is that of `zypper` on openSUSE Tumbleweed.
pub fn detect_opensuse_tumbleweed(agent: &str) -> (r: bool)
    ensures
        r == is_tumbleweed_agent(agent@),
{
    first_capture(r"ZYpp.+openSUSE-Tumbleweed", agent).is_some()
}

/// The distribution that the user-agent of an RPM client denotes: Fedora
/// in the release it names; else Tumbleweed where it is `zypper`'s there;
/// else none.
pub open spec fn rpm_os_of(agent: Seq<char>) -> Option<DistModel> {
    match fedora_version_of(agent) {
        Some(v) => Some(DistModel { family: Family::Fedora, version: lenient_parse(v) }),
        None => if is_tumbleweed_agent(agent) {
            Some(DistModel { family: Family::Tumbleweed, version: None })
        } else {
            None
        },
    }
}

/// Infers the distribution from the user-agent of an RPM client.
pub fn detect_rpm_os(agent: &str) -> (r: Option<Dist>)
    ensures
        crate::detect::dist_view(r) == rpm_os_of(agent@),
{
    match get_fedora_version(agent) {
        Some(ver) => Some(Dist::fedora(ver.as_str())),
        None => {
            if detect_opensuse_tumbleweed(agent) {
                Some(Dist::Tumbleweed)
            } else {
                None
            }
        },
    }
}

/// The version without the noise that distributions add to it: the build
/// metadata is dropped, and where `number`, found in the pre-release tag in
/// front of a suffix, is a number that fits 64 bits, it becomes the patch
/// number and the tag is dropped.
pub open spec fn freshened(v: VersionModel, number: Option<Seq<char>>) -> VersionModel {
    match number {
        Some(digits) => match decimal_value(digits) {
            Some(n) => if n <= u64::MAX {
                VersionModel { patch: n, pre: Seq::empty(), build: Seq::empty(), ..v }
            } else {
                VersionModel { build: Seq::empty(), ..v }
            },
            None => VersionModel { build: Seq::empty(), ..v },
        },
        None => VersionModel { build: Seq::empty(), ..v },
    }
}

/// The version as `apt` versions are compared: `1.0.1ubuntu2.24`, which
/// reads as `1.0.0` with the tag `1ubuntu2.24`, becomes `1.0.1`.
pub open spec fn fresh(v: VersionModel) -> VersionModel {
    freshened(v, captured(regex_capture(suffixed_number_pattern(), v.pre)))
}

/// Drops the build metadata of `ver`, and moves `number` into its patch
/// number; see [`freshened`].
pub fn freshen(ver: Version, number: &Option<String>) -> (r: Version)
    ensures
        r@ == freshened(ver@, text_view(*number)),
{
    let mut ver = ver;
    ver.build = String::new();
    match number {
        Some(digits) => {
            match parse_u64(&to_chars(digits.as_str())) {
                Some(patch) => {
                    ver.patch = patch;
                    ver.pre = String::new();
                },
                None => {},
            }
        },
        None => {},
    }
    ver
}

/// Removes the noise that distributions add to the version of `apt`.
pub fn fresh_version(ver: Version) -> (r: Version)
    ensures
        r@ == fresh(ver@),
{
    let number = take_captured(first_capture(r"(\d+)\D", ver.pre.as_str()));
    freshen(ver, &number)
}

/// The version of `apt` that a user-agent names, as it is compared.
pub open spec fn apt_agent_version(agent: Seq<char>) -> Option<VersionModel> {
    match apt_version_of(agent) {
        Some(text) => match lenient_parse(text) {
            Some(v) => Some(fresh(v)),
            None => None,
        },
        None => None,
    }
}

/// Reads the version of `apt` off a user-agent; `None` where the agent is
/// not `apt`'s or its version cannot be read.
pub fn parse_apt_agent(agent: &str) -> (r: Option<Version>)
    ensures
        crate::utils::version_view(r) == apt_agent_version(agent@),
{
    match apt_version(agent) {
        Some(text) => match Version::parse(text.as_str()) {
            Some(v) => Some(fresh_version(v)),
            None => None,
        },
        None => None,
    }
}

/// A release of Debian or Ubuntu, with the oldest and the newest version of
/// `apt` seen in it.
#[derive(Debug)]
pub struct AptRelease {
    pub dist: Dist,
    pub repo: String,
    pub oldest: Version,
    pub newest: Version,
}

/// The mathematical content of an [`AptRelease`].
pub struct AptReleaseModel {
    pub dist: DistModel,
    pub repo: Seq<char>,
    pub oldest: VersionModel,
    pub newest: VersionModel,
}

impl View for AptRelease {
    type V = AptReleaseModel;

    open spec fn view(&self) -> AptReleaseModel {
        AptReleaseModel {
            dist: self.dist@,
            repo: self.repo@,
            oldest: self.oldest@,
            newest: self.newest@,
        }
    }
}

/// The views of a list of releases.
pub open spec fn releases_view(rows: Seq<AptRelease>) -> Seq<AptReleaseModel> {
    Seq::new(rows.len(), |i: int| rows[i]@)
}

/// The views of the entries of a catalog: repository name and version.
pub open spec fn catalog_view(entries: Seq<(String, String)>) -> Seq<(Seq<char>, Seq<char>)> {
    Seq::new(entries.len(), |i: int| (entries[i].0@, entries[i].1@))
}

/// An entry of the catalog counts: it belongs to Ubuntu or Debian and its
/// version can be read.
pub open spec fn usable(entry: (Seq<char>, Seq<char>)) -> bool {
    (starts_with(entry.0, "ubuntu"@) || starts_with(entry.0, "debian"@)) && lenient_parse(entry.1)
        is Some
}

/// The release that an entry belongs to: its repository, where the
/// repository of proposed updates counts as the release itself.
pub open spec fn repo_key(entry: (Seq<char>, Seq<char>)) -> Seq<char> {
    strip_suffix_all(entry.0, "_proposed"@)
}

/// The version of `apt` that an entry shows, as it is compared.
pub open spec fn observed(entry: (Seq<char>, Seq<char>)) -> VersionModel {
    fresh(lenient_parse(entry.1)->0)
}

/// The distribution that a repository of the catalog stands for:
/// `ubuntu_24_04` for Ubuntu 24.04, `debian_12` for Debian 12.
pub open spec fn dist_of_repo(key: Seq<char>) -> DistModel {
    if starts_with(key, "ubuntu"@) {
        DistModel {
            family: Family::Ubuntu,
            version: lenient_parse(replace_char(strip_prefix_all(key, "ubuntu_"@), '_', '.')),
        }
    } else {
        DistModel { family: Family::Debian, version: lenient_parse(strip_prefix_all(key, "debian_"@)) }
    }
}

/// The place of the first row from `from` on that stands for the release
/// `key`; -1 where there is none.
pub open spec fn row_from(rows: Seq<AptReleaseModel>, key: Seq<char>, from: int) -> int
    decreases rows.len() - from,
{
    if from < 0 || from >= rows.len() {
        -1
    } else if rows[from].repo == key {
        from
    } else {
        row_from(rows, key, from + 1)
    }
}

/// The row of a release in which one version was seen.
pub open spec fn first_seen(key: Seq<char>, seen: VersionModel) -> AptReleaseModel {
    AptReleaseModel { dist: dist_of_repo(key), repo: key, oldest: seen, newest: seen }
}

/// The row after one more version was seen in its release: the version
/// becomes the oldest where it comes before the oldest so far, and the
/// newest where the newest so far comes before it, as versions compare.
pub open spec fn widened(row: AptReleaseModel, seen: VersionModel) -> AptReleaseModel {
    AptReleaseModel {
        oldest: if version_order(seen, row.oldest) == Some(Order::Less) {
            seen
        } else {
            row.oldest
        },
        newest: if version_order(row.newest, seen) == Some(Order::Less) {
            seen
        } else {
            row.newest
        },
        ..row
    }
}

/// The table after one more entry of the catalog: an entry that does not
/// count changes nothing, the first entry of a release adds its row behind
/// the others, a later one widens the row of its release.
pub open spec fn with_entry(rows: Seq<AptReleaseModel>, entry: (Seq<char>, Seq<char>)) -> Seq<
    AptReleaseModel,
> {
    let at = row_from(rows, repo_key(entry), 0);
    if !usable(entry) {
        rows
    } else if at < 0 {
        rows.push(first_seen(repo_key(entry), observed(entry)))
    } else {
        rows.update(at, widened(rows[at], observed(entry)))
    }
}

/// The table of the first `n` entries of a catalog.
pub open spec fn table_of(entries: Seq<(Seq<char>, Seq<char>)>, n: nat) -> Seq<AptReleaseModel>
    decreases n,
{
    if n == 0 {
        Seq::empty()
    } else {
        with_entry(table_of(entries, (n - 1) as nat), entries[n - 1])
    }
}

/// The table of a catalog: one row for each release that has an entry that
/// counts, in the order in which the releases first appear, each with the
/// oldest and the newest version seen in its release.
pub open spec fn catalog_table(entries: Seq<(Seq<char>, Seq<char>)>) -> Seq<AptReleaseModel> {
    table_of(entries, entries.len())
}

/// No two rows stand for the same release.
pub open spec fn rows_distinct(rows: Seq<AptReleaseModel>) -> bool {
    forall|r: int, s: int|
        0 <= r < s < rows.len() ==> (#[trigger] rows[r]).repo != (#[trigger] rows[s]).repo
}

/// The entry at `i` counts and belongs to the release `key`.
pub open spec fn in_release(entries: Seq<(Seq<char>, Seq<char>)>, i: int, key: Seq<char>) -> bool {
    0 <= i < entries.len() && usable(entries[i]) && repo_key(entries[i]) == key
}

/// The version `v` was seen in the release `key` among the first `n`
/// entries.
pub open spec fn seen_in(entries: Seq<(Seq<char>, Seq<char>)>, n: nat, key: Seq<char>, v: VersionModel) -> bool {
    exists|i: int| i < n && #[trigger] in_release(entries, i, key) && observed(entries[i]) == v
}

/// What [`row_from`] finds is the first row of the release from `from` on.
pub proof fn lemma_row_from(rows: Seq<AptReleaseModel>, key: Seq<char>, from: int)
    requires
        0 <= from <= rows.len(),
    ensures
        ({
            let at = row_from(rows, key, from);
            &&& at == -1 || (from <= at < rows.len() && rows[at].repo == key)
            &&& forall|k: int|
                from <= k < (if at < 0 {
                    rows.len() as int
                } else {
                    at
                }) ==> (#[trigger] rows[k]).repo != key
        }),
    decreases rows.len() - from,
{
    if from < rows.len() && rows[from].repo != key {
        lemma_row_from(rows, key, from + 1);
    }
}

/// One more entry leaves the releases of the rows as they are, and adds at
/// most one row behind them.
proof fn lemma_with_entry(rows: Seq<AptReleaseModel>, entry: (Seq<char>, Seq<char>))
    ensures
        ({
            let next = with_entry(rows, entry);
            &&& rows.len() <= next.len() <= rows.len() + 1
            &&& forall|k: int| 0 <= k < rows.len() ==> (#[trigger] next[k]).repo == rows[k].repo
            &&& next.len() > rows.len() ==> usable(entry) && next.last().repo == repo_key(entry)
                && forall|k: int| 0 <= k < rows.len() ==> (#[trigger] rows[k]).repo != repo_key(entry)
            &&& usable(entry) ==> row_from(next, repo_key(entry), 0) >= 0
        }),
{
    let key = repo_key(entry);
    let next = with_entry(rows, entry);
    lemma_row_from(rows, key, 0);
    lemma_row_from(next, key, 0);
    if usable(entry) {
        let at = row_from(rows, key, 0);
        if at < 0 {
            assert(next[rows.len() as int].repo == key);
        } else {
            assert(next[at].repo == key);
        }
    }
}

/// No two rows of the table stand for the same release.
pub proof fn lemma_table_distinct(entries: Seq<(Seq<char>, Seq<char>)>, n: nat)
    requires
        n <= entries.len(),
    ensures
        rows_distinct(table_of(entries, n)),
    decreases n,
{
    if n > 0 {
        let rows = table_of(entries, (n - 1) as nat);
        let next = table_of(entries, n);
        lemma_table_distinct(entries, (n - 1) as nat);
        lemma_with_entry(rows, entries[n - 1]);
        assert forall|r: int, s: int| 0 <= r < s < next.len() implies (#[trigger] next[r]).repo != (
        #[trigger] next[s]).repo by {
            if s < rows.len() {
                assert(rows[r].repo != rows[s].repo);
            } else {
                assert(rows[r].repo != repo_key(entries[n - 1]));
            }
        }
    }
}

/// Every entry that counts has the row of its release in the table.
pub proof fn lemma_table_covers(entries: Seq<(Seq<char>, Seq<char>)>, n: nat, i: int)
    requires
        0 <= i < n <= entries.len(),
        usable(entries[i]),
    ensures
        row_from(table_of(entries, n), repo_key(entries[i]), 0) >= 0,
    decreases n,
{
    let key = repo_key(entries[i]);
    let rows = table_of(entries, (n - 1) as nat);
    let next = table_of(entries, n);
    lemma_with_entry(rows, entries[n - 1]);
    if i < n - 1 {
        lemma_table_covers(entries, (n - 1) as nat, i);
        lemma_row_from(rows, key, 0);
        lemma_row_from(next, key, 0);
        let at = row_from(rows, key, 0);
        assert(next[at].repo == key);
    }
}

/// Every row of the table stands for the distribution of its release, and
/// its two bounds are versions that were seen in that release.
pub proof fn lemma_table_rows(entries: Seq<(Seq<char>, Seq<char>)>, n: nat, r: int)
    requires
        n <= entries.len(),
        0 <= r < table_of(entries, n).len(),
    ensures
        ({
            let row = table_of(entries, n)[r];
            &&& row.dist == dist_of_repo(row.repo)
            &&& seen_in(entries, n, row.repo, row.oldest)
            &&& seen_in(entries, n, row.repo, row.newest)
        }),
    decreases n,
{
    if n > 0 {
        let rows = table_of(entries, (n - 1) as nat);
        let entry = entries[n - 1];
        let key = repo_key(entry);
        let row = table_of(entries, n)[r];
        lemma_with_entry(rows, entry);
        lemma_row_from(rows, key, 0);
        if r < rows.len() {
            lemma_table_rows(entries, (n - 1) as nat, r);
            let old_row = rows[r];
            let a = choose|i: int|
                i < n - 1 && #[trigger] in_release(entries, i, old_row.repo) && observed(entries[i])
                    == old_row.oldest;
            let b = choose|i: int|
                i < n - 1 && #[trigger] in_release(entries, i, old_row.repo) && observed(entries[i])
                    == old_row.newest;
            assert(in_release(entries, a, row.repo) && in_release(entries, b, row.repo));
            if usable(entry) && row_from(rows, key, 0) == r {
                assert(in_release(entries, n - 1, row.repo));
            }
        } else {
            assert(in_release(entries, n - 1, row.repo));
        }
    }
}

/// The versions seen in the first `n` entries compare as a total order has
/// them.
pub open spec fn seen_in_order(entries: Seq<(Seq<char>, Seq<char>)>, n: nat) -> bool {
    forall|i: int, j: int, k: int|
        0 <= i < n && 0 <= j < n && 0 <= k < n && usable(#[trigger] entries[i]) && usable(
            #[trigger] entries[j],
        ) && usable(#[trigger] entries[k]) ==> in_order(
            observed(entries[i]),
            observed(entries[j]),
            observed(entries[k]),
        )
}

/// `a` comes before `b` or compares equal to it.
pub open spec fn at_most(a: VersionModel, b: VersionModel) -> bool {
    version_order(a, b) == Some(Order::Less) || version_order(a, b) == Some(Order::Equal)
}

/// Where the versions seen compare as a total order has them, every
/// version seen in a release lies between the two bounds of its row.
pub proof fn lemma_row_bounds(entries: Seq<(Seq<char>, Seq<char>)>, n: nat, r: int, i: int)
    requires
        n <= entries.len(),
        seen_in_order(entries, n),
        0 <= r < table_of(entries, n).len(),
        0 <= i < n,
        in_release(entries, i, table_of(entries, n)[r].repo),
    ensures
        at_most(table_of(entries, n)[r].oldest, observed(entries[i])),
        at_most(observed(entries[i]), table_of(entries, n)[r].newest),
    decreases n,
{
    let rows = table_of(entries, (n - 1) as nat);
    let entry = entries[n - 1];
    let key = repo_key(entry);
    let seen = observed(entry);
    let row = table_of(entries, n)[r];
    let mine = observed(entries[i]);
    lemma_with_entry(rows, entry);
    lemma_row_from(rows, key, 0);
    lemma_table_distinct(entries, (n - 1) as nat);
    assert(in_order(mine, mine, mine));
    if r < rows.len() {
        let old_row = rows[r];
        lemma_table_rows(entries, (n - 1) as nat, r);
        let a = choose|a: int|
            a < n - 1 && #[trigger] in_release(entries, a, old_row.repo) && observed(entries[a])
                == old_row.oldest;
        let b = choose|b: int|
            b < n - 1 && #[trigger] in_release(entries, b, old_row.repo) && observed(entries[b])
                == old_row.newest;
        assert(usable(entries[a]) && usable(entries[b]));
        let widens = usable(entry) && row_from(rows, key, 0) == r;
        if !widens {
            lemma_row_bounds(entries, (n - 1) as nat, r, i);
        } else {
            let lo = old_row.oldest;
            let hi = old_row.newest;
            assert(in_order(seen, seen, seen));
            if i < n - 1 {
                lemma_row_bounds(entries, (n - 1) as nat, r, i);
                assert(in_order(seen, lo, mine) && in_order(lo, mine, mine));
                assert(in_order(mine, hi, seen) && in_order(hi, mine, mine));
            } else {
                assert(in_order(seen, lo, seen) && in_order(lo, seen, seen));
                assert(in_order(seen, hi, seen) && in_order(hi, seen, seen));
                if version_order(seen, lo) != Some(Order::Less) {
                    assert(version_order(seen, lo) == Some(Order::Equal) || version_order(seen, lo)
                        == Some(Order::Greater));
                }
                if version_order(hi, seen) != Some(Order::Less) {
                    assert(version_order(hi, seen) == Some(Order::Equal) || version_order(hi, seen)
                        == Some(Order::Greater));
                }
            }
        }
    } else if i < n - 1 {
        // The first entry of a release is the one that adds its row.
        lemma_table_covers(entries, (n - 1) as nat, i);
    }
}

/// The versions seen in the first `n` entries have no tags.
pub open spec fn plain_seen(entries: Seq<(Seq<char>, Seq<char>)>, n: nat) -> bool {
    forall|i: int| 0 <= i < n && usable(#[trigger] entries[i]) ==> plain(observed(entries[i]))
}

/// Where the versions seen have no tags, every version seen in a release
/// lies between the two bounds of its row.
pub proof fn lemma_plain_row_bounds(entries: Seq<(Seq<char>, Seq<char>)>, n: nat, r: int, i: int)
    requires
        n <= entries.len(),
        plain_seen(entries, n),
        0 <= r < table_of(entries, n).len(),
        0 <= i < n,
        in_release(entries, i, table_of(entries, n)[r].repo),
    ensures
        at_most(table_of(entries, n)[r].oldest, observed(entries[i])),
        at_most(observed(entries[i]), table_of(entries, n)[r].newest),
{
    assert forall|i: int, j: int, k: int|
        0 <= i < n && 0 <= j < n && 0 <= k < n && usable(#[trigger] entries[i]) && usable(
            #[trigger] entries[j],
        ) && usable(#[trigger] entries[k]) implies in_order(
        observed(entries[i]),
        observed(entries[j]),
        observed(entries[k]),
    ) by {
        lemma_plain_in_order(observed(entries[i]), observed(entries[j]), observed(entries[k]));
    }
    lemma_row_bounds(entries, n, r, i);
}

/// The distribution that an agent denotes is of the family asked for,
/// whatever the table holds.
pub proof fn lemma_detected_family(rows: Seq<AptReleaseModel>, family: Family, agent: Seq<char>)
    ensures
        apt_dist_of(rows, family, agent).family == family,
{
    if apt_agent_version(agent) is Some {
        lemma_release_for(rows, family, apt_agent_version(agent)->0);
    }
}

/// What [`release_for`] finds is the distribution of the first row that
/// takes the version; it finds none exactly where no row takes it.
pub proof fn lemma_release_for(rows: Seq<AptReleaseModel>, family: Family, v: VersionModel)
    ensures
        match release_for(rows, family, v) {
            Some(d) => exists|k: int|
                0 <= k < rows.len() && row_takes(#[trigger] rows[k], family, v) && d == rows[k].dist
                    && forall|j: int| 0 <= j < k ==> !row_takes(#[trigger] rows[j], family, v),
            None => forall|k: int| 0 <= k < rows.len() ==> !row_takes(#[trigger] rows[k], family, v),
        },
    decreases rows.len(),
{
    if rows.len() > 0 && !row_takes(rows[0], family, v) {
        let rest = rows.drop_first();
        lemma_release_for(rest, family, v);
        match release_for(rest, family, v) {
            Some(d) => {
                let k = choose|k: int|
                    0 <= k < rest.len() && row_takes(#[trigger] rest[k], family, v) && d
                        == rest[k].dist && forall|j: int|
                        0 <= j < k ==> !row_takes(#[trigger] rest[j], family, v);
                assert(rows[k + 1] == rest[k]);
                assert forall|j: int| 0 <= j < k + 1 implies !row_takes(
                    #[trigger] rows[j],
                    family,
                    v,
                ) by {
                    if j > 0 {
                        assert(rows[j] == rest[j - 1]);
                    }
                }
            },
            None => {
                assert forall|k: int| 0 <= k < rows.len() implies !row_takes(
                    #[trigger] rows[k],
                    family,
                    v,
                ) by {
                    if k > 0 {
                        assert(rows[k] == rest[k - 1]);
                    }
                }
            },
        }
    } else if rows.len() > 0 {
        assert(row_takes(rows[0], family, v));
    }
}

/// Where the version of `apt` that an agent names meets the requirement
/// of one row of the family and of no row before it, the agent denotes the
/// distribution of that row. The build metadata of the version plays no
/// part: it is dropped before the rows are asked.
pub proof fn lemma_detected_by_row(rows: Seq<AptReleaseModel>, family: Family, agent: Seq<char>, k: int)
    requires
        apt_agent_version(agent) is Some,
        0 <= k < rows.len(),
        row_takes(rows[k], family, apt_agent_version(agent)->0),
        forall|j: int|
            0 <= j < k ==> !row_takes(#[trigger] rows[j], family, apt_agent_version(agent)->0),
    ensures
        apt_dist_of(rows, family, agent) == rows[k].dist,
        apt_agent_version(agent)->0.build.len() == 0,
{
    lemma_release_for(rows, family, apt_agent_version(agent)->0);
}

/// In the table of a catalog, where the version of `apt` that an agent
/// names meets the requirement of one release of the family and of no
/// other, the agent denotes the distribution that the repository of that
/// release stands for.
pub proof fn lemma_detected_release(
    entries: Seq<(Seq<char>, Seq<char>)>,
    family: Family,
    agent: Seq<char>,
    k: int,
)
    requires
        apt_agent_version(agent) is Some,
        0 <= k < catalog_table(entries).len(),
        forall|j: int|
            0 <= j < catalog_table(entries).len() ==> (row_takes(
                #[trigger] catalog_table(entries)[j],
                family,
                apt_agent_version(agent)->0,
            ) <==> j == k),
    ensures
        apt_dist_of(catalog_table(entries), family, agent) == dist_of_repo(
            catalog_table(entries)[k].repo,
        ),
        dist_of_repo(catalog_table(entries)[k].repo).family == family,
{
    let rows = catalog_table(entries);
    assert(row_takes(rows[k], family, apt_agent_version(agent)->0));
    lemma_detected_by_row(rows, family, agent, k);
    lemma_table_rows(entries, entries.len(), k);
}

/// Where the agent is not `apt`'s, or the version that it names meets the
/// requirement of no row of the family, the agent denotes the family with
/// no version.
pub proof fn lemma_detected_by_no_row(rows: Seq<AptReleaseModel>, family: Family, agent: Seq<char>)
    requires
        apt_agent_version(agent) is Some ==> forall|k: int|
            0 <= k < rows.len() ==> !row_takes(
                #[trigger] rows[k],
                family,
                apt_agent_version(agent)->0,
            ),
    ensures
        apt_dist_of(rows, family, agent) == (DistModel { family, version: None }),
{
    if apt_agent_version(agent) is Some {
        lemma_release_for(rows, family, apt_agent_version(agent)->0);
    }
}

/// What a row asks of a version of `apt`, as a requirement that `semver`
/// reads: to be the one version seen in the release, or to lie between the
/// oldest and the newest.
pub open spec fn requirement_of(row: AptReleaseModel) -> Seq<char> {
    if row.oldest == row.newest {
        "="@ + version_text(row.oldest)
    } else {
        ">="@ + version_text(row.oldest) + ", <="@ + version_text(row.newest)
    }
}

/// The row is of family `family`, and `v` meets its requirement.
pub open spec fn row_takes(row: AptReleaseModel, family: Family, v: VersionModel) -> bool {
    row.dist.family == family && semver_matches(requirement_of(row), v) == Some(true)
}

/// The distribution of the first row of `rows` that is of family `family`
/// and whose requirement `v` meets.
pub open spec fn release_for(rows: Seq<AptReleaseModel>, family: Family, v: VersionModel) -> Option<
    DistModel,
>
    decreases rows.len(),
{
    if rows.len() == 0 {
        None
    } else if row_takes(rows[0], family, v) {
        Some(rows[0].dist)
    } else {
        release_for(rows.drop_first(), family, v)
    }
}

/// The distribution of family `family` that a user-agent of `apt` denotes:
/// the first release of the table whose requirement the agent's version of
/// `apt` meets. The version stays unknown where the agent is not `apt`'s,
/// or its version meets the requirement of no release.
pub open spec fn apt_dist_of(rows: Seq<AptReleaseModel>, family: Family, agent: Seq<char>) -> DistModel {
    match apt_agent_version(agent) {
        Some(v) => match release_for(rows, family, v) {
            Some(d) => d,
            None => DistModel { family, version: None },
        },
        None => DistModel { family, version: None },
    }
}

/// Tells Debian from Ubuntu, and their releases, by the version of `apt`
/// in the user-agent.
///
/// The releases lie in a list, in the order in which the catalog first
/// names them. Where the requirements of two releases overlap, the one
/// named first takes the version, on every run; a hash map would take the
/// one that its walk meets first.
#[derive(Debug)]
pub struct AptPlatformDetection {
    releases: Vec<AptRelease>,
}

impl View for AptPlatformDetection {
    type V = Seq<AptReleaseModel>;

    closed spec fn view(&self) -> Seq<AptReleaseModel> {
        releases_view(self.releases@)
    }
}

fn find_release(rows: &Vec<AptRelease>, key: &Vec<char>) -> (r: Option<usize>)
    ensures
        match r {
            Some(at) => at < rows@.len() && row_from(releases_view(rows@), key@, 0) == at,
            None => row_from(releases_view(rows@), key@, 0) == -1,
        },
{
    let ghost all = releases_view(rows@);
    let mut k: usize = 0;
    while k < rows.len()
        invariant
            k <= rows.len(),
            all == releases_view(rows@),
            row_from(all, key@, 0) == row_from(all, key@, k as int),
        decreases rows.len() - k,
    {
        if chars_eq(&to_chars(rows[k].repo.as_str()), key) {
            return Some(k);
        }
        k = k + 1;
    }
    None
}

/// The requirement of a row; see [`requirement_of`].
fn requirement(row: &AptRelease) -> (r: String)
    ensures
        r@ == requirement_of(row@),
{
    let mut out: Vec<char> = Vec::new();
    if row.oldest == row.newest {
        push_str(&mut out, "=");
        row.oldest.push_text(&mut out);
        assert(out@ =~= requirement_of(row@));
    } else {
        push_str(&mut out, ">=");
        row.oldest.push_text(&mut out);
        push_str(&mut out, ", <=");
        row.newest.push_text(&mut out);
        assert(out@ =~= requirement_of(row@));
    }
    from_chars(&out)
}

/// Widens a row by a version seen in its release; see [`widened`].
fn widen(row: &AptRelease, seen: Version) -> (r: AptRelease)
    ensures
        r@ == widened(row@, seen@),
{
    let oldest = if seen.compare(&row.oldest) == Some(Order::Less) {
        seen.clone()
    } else {
        row.oldest.clone()
    };
    let newest = if row.newest.compare(&seen) == Some(Order::Less) {
        seen
    } else {
        row.newest.clone()
    };
    AptRelease { dist: row.dist.clone(), repo: row.repo.clone(), oldest, newest }
}

fn dist_for_repo(key: &Vec<char>) -> (r: Dist)
    ensures
        r@ == dist_of_repo(key@),
{
    if has_prefix(key, &to_chars("ubuntu")) {
        let rest = strip_repeated_prefix(key, &to_chars("ubuntu_"));
        let dotted = from_chars(&replace_each(&rest, '_', '.'));
        Dist::ubuntu(dotted.as_str())
    } else {
        let rest = from_chars(&strip_repeated_prefix(key, &to_chars("debian_")));
        Dist::debian(rest.as_str())
    }
}

/// The elements of the top-level array of a JSON text, each with the
/// texts under `repo` and under `version`, `None` for each that an element
/// lacks or that is no text. `None` where the text is no JSON array.
pub uninterp spec fn catalog_of(json: Seq<char>) -> Option<
    Seq<(Option<Seq<char>>, Option<Seq<char>>)>,
>;

/// The views of the elements of a catalog as they are read.
pub open spec fn elements_view(elements: Seq<(Option<String>, Option<String>)>) -> Seq<
    (Option<Seq<char>>, Option<Seq<char>>),
> {
    Seq::new(elements.len(), |i: int| (text_view(elements[i].0), text_view(elements[i].1)))
}

/// The text, or the empty text where there is none.
pub open spec fn text_or_empty(text: Option<Seq<char>>) -> Seq<char> {
    match text {
        Some(t) => t,
        None => Seq::empty(),
    }
}

/// The entries that the elements of a catalog give: a missing repository
/// or version counts as the empty text, which belongs to no release and
/// denotes no version.
pub open spec fn entries_of(elements: Seq<(Option<Seq<char>>, Option<Seq<char>>)>) -> Seq<
    (Seq<char>, Seq<char>),
> {
    Seq::new(elements.len(), |i: int| (text_or_empty(elements[i].0), text_or_empty(elements[i].1)))
}

/// Reads the elements of a catalog of `apt` packages from JSON.
///
/// Wraps `serde_json::from_str`, `Value::as_array`, indexing a `Value` by
/// key, which gives null for a missing key, and `Value::as_str`. The
/// contract names the result.
#[verifier::external_body]
fn decode_catalog(json: &str) -> (r: Option<Vec<(Option<String>, Option<String>)>>)
    ensures
        match r {
            Some(elements) => catalog_of(json@) == Some(elements_view(elements@)),
            None => catalog_of(json@) is None,
        },
{
    let value: serde_json::Value = serde_json::from_str(json).ok()?;
    let items = value.as_array()?;
    let repo = |i: &serde_json::Value| i["repo"].as_str().map(str::to_owned);
    let version = |i: &serde_json::Value| i["version"].as_str().map(str::to_owned);
    Some(items.iter().map(|i| (repo(i), version(i))).collect())
}

fn text_of(text: &Option<String>) -> (r: String)
    ensures
        r@ == text_or_empty(text_view(*text)),
{
    match text {
        Some(t) => t.clone(),
        None => String::new(),
    }
}

/// Makes entries of the elements of a catalog; see [`entries_of`].
pub fn catalog_entries(elements: &Vec<(Option<String>, Option<String>)>) -> (r: Vec<(String, String)>)
    ensures
        catalog_view(r@) == entries_of(elements_view(elements@)),
{
    let mut entries: Vec<(String, String)> = Vec::new();
    let mut i: usize = 0;
    while i < elements.len()
        invariant
            i <= elements.len(),
            entries@.len() == i,
            forall|k: int|
                0 <= k < i ==> (#[trigger] entries@[k]).0@ == text_or_empty(
                    text_view(elements@[k].0),
                ) && entries@[k].1@ == text_or_empty(text_view(elements@[k].1)),
        decreases elements.len() - i,
    {
        entries.push((text_of(&elements[i].0), text_of(&elements[i].1)));
        i = i + 1;
    }
    assert(catalog_view(entries@) =~= entries_of(elements_view(elements@)));
    entries
}

impl AptPlatformDetection {
    /// The releases of the table, in order.
    pub fn releases(&self) -> (r: &Vec<AptRelease>)
        ensures
            releases_view(r@) == self@,
    {
        &self.releases
    }

    /// Builds the table of releases from a catalog of `apt` packages in
    /// JSON, as the package index of Repology serves it. Fails with
    /// [`Error::ParseFailed`] exactly when the text is no JSON array.
    pub fn initialize(json: &str) -> (r: Result<AptPlatformDetection, Error>)
        ensures
            match r {
                Ok(table) => catalog_of(json@) is Some && table@ == catalog_table(
                    entries_of(catalog_of(json@)->0),
                ),
                Err(e) => catalog_of(json@) is None && e == Error::ParseFailed,
            },
    {
        match decode_catalog(json) {
            Some(elements) => Ok(AptPlatformDetection::from_catalog(&catalog_entries(&elements))),
            None => Err(Error::ParseFailed),
        }
    }

    /// Builds the table of releases from the entries of a catalog of `apt`
    /// packages, each a repository name and a version; see
    /// [`catalog_table`].
    pub fn from_catalog(entries: &Vec<(String, String)>) -> (r: AptPlatformDetection)
        ensures
            r@ == catalog_table(catalog_view(entries@)),
    {
        let ghost all = catalog_view(entries@);
        let mut rows: Vec<AptRelease> = Vec::new();
        let mut n: usize = 0;
        assert(releases_view(rows@) =~= table_of(all, 0));
        while n < entries.len()
            invariant
                n <= entries.len(),
                all == catalog_view(entries@),
                releases_view(rows@) == table_of(all, n as nat),
            decreases entries.len() - n,
        {
            let ghost before = releases_view(rows@);
            let repo = to_chars(entries[n].0.as_str());
            let known = has_prefix(&repo, &to_chars("ubuntu")) || has_prefix(
                &repo,
                &to_chars("debian"),
            );
            let version = if known {
                Version::parse(entries[n].1.as_str())
            } else {
                None
            };
            match version {
                Some(v) => {
                    assert(usable(all[n as int]));
                    let seen = fresh_version(v);
                    let key = strip_repeated_suffix(&repo, &to_chars("_proposed"));
                    match find_release(&rows, &key) {
                        Some(at) => {
                            let wide = widen(&rows[at], seen);
                            rows.set(at, wide);
                            assert(releases_view(rows@) =~= before.update(at as int, wide@));
                        },
                        None => {
                            let row = AptRelease {
                                dist: dist_for_repo(&key),
                                repo: from_chars(&key),
                                oldest: seen.clone(),
                                newest: seen,
                            };
                            rows.push(row);
                            assert(releases_view(rows@) =~= before.push(row@));
                        },
                    }
                },
                None => {
                    assert(!usable(all[n as int]));
                },
            }
            assert(releases_view(rows@) == with_entry(before, all[n as int]));
            n = n + 1;
        }
        AptPlatformDetection { releases: rows }
    }

    fn detect(&self, family: Family, agent: &str) -> (r: Dist)
        requires
            family == Family::Ubuntu || family == Family::Debian,
        ensures
            r@ == apt_dist_of(self@, family, agent@),
    {
        let Some(apt) = parse_apt_agent(agent) else {
            return if family == Family::Debian {
                Dist::Debian(None)
            } else {
                Dist::Ubuntu(None)
            };
        };
        let ghost rows = releases_view(self.releases@);
        let mut k: usize = 0;
        assert(rows.skip(0) == rows);
        while k < self.releases.len()
            invariant
                k <= self.releases.len(),
                rows == releases_view(self.releases@),
                family == Family::Ubuntu || family == Family::Debian,
                apt_agent_version(agent@) == Some(apt@),
                release_for(rows, family, apt@) == release_for(rows.skip(k as int), family, apt@),
            decreases self.releases.len() - k,
        {
            let row = &self.releases[k];
            let ghost rest = rows.skip(k as int);
            assert(rest[0] == row@);
            assert(rest.drop_first() == rows.skip(k + 1));
            if row.dist.family() == family && apt.meets(requirement(row).as_str()) == Some(true) {
                assert(release_for(rest, family, apt@) == Some(row@.dist));
                return row.dist.clone();
            }
            k = k + 1;
        }
        if family == Family::Debian {
            Dist::Debian(None)
        } else {
            Dist::Ubuntu(None)
        }
    }

    /// The release of Ubuntu that the user-agent of `apt` denotes; Ubuntu
    /// of unknown version where none can be told.
    pub fn detect_ubuntu_for_apt(&self, agent: &str) -> (r: Dist)
        ensures
            r@ == apt_dist_of(self@, Family::Ubuntu, agent@),
    {
        self.detect(Family::Ubuntu, agent)
    }

    /// The release of Debian that the user-agent of `apt` denotes; Debian
    /// of unknown version where none can be told.
    pub fn detect_debian_for_apt(&self, agent: &str) -> (r: Dist)
        ensures
            r@ == apt_dist_of(self@, Family::Debian, agent@),
    {
        self.detect(Family::Debian, agent)
    }
}

} // verus!
