//! Classification of a package by its file name: display name, distribution
//! and architecture.

use crate::pattern::{first_capture, regex_capture};
use crate::text::{ascii_lower, from_chars, str_eq, strip_prefix_all, strip_repeated_prefix, to_ascii_lower, to_chars};
use crate::utils::{arch_of_name, Arch, Dist, DistModel, Family};
use crate::version::{lenient_parse, Version};
use vstd::prelude::*;

verus! {

/// What a file name tells about a package.
#[derive(Debug)]
pub struct PackageInfo {
    pub name: Option<String>,
    pub distro: Option<Dist>,
    pub architecture: Option<Arch>,
}

/// The mathematical content of a [`PackageInfo`].
pub struct PackageInfoModel {
    pub name: Option<Seq<char>>,
    pub distro: Option<DistModel>,
    pub architecture: Option<Arch>,
}

/// The view of an optional text.
pub open spec fn text_view(s: Option<String>) -> Option<Seq<char>> {
    match s {
        Some(s) => Some(s@),
        None => None,
    }
}

/// The view of an optional distribution.
pub open spec fn dist_view(d: Option<Dist>) -> Option<DistModel> {
    match d {
        Some(d) => Some(d@),
        None => None,
    }
}

impl View for PackageInfo {
    type V = PackageInfoModel;

    open spec fn view(&self) -> PackageInfoModel {
        PackageInfoModel {
            name: text_view(self.name),
            distro: dist_view(self.distro),
            architecture: self.architecture,
        }
    }
}

impl PartialEq for PackageInfo {
    fn eq(&self, other: &Self) -> (r: bool) {
        let names = match (&self.name, &other.name) {
            (Some(a), Some(b)) => str_eq(a.as_str(), b.as_str()),
            (None, None) => true,
            _ => false,
        };
        let distros = match (&self.distro, &other.distro) {
            (Some(a), Some(b)) => a == b,
            (None, None) => true,
            _ => false,
        };
        let archs = match (self.architecture, other.architecture) {
            (Some(a), Some(b)) => a == b,
            (None, None) => true,
            _ => false,
        };
        names && distros && archs
    }
}

impl vstd::std_specs::cmp::PartialEqSpecImpl for PackageInfo {
    open spec fn obeys_eq_spec() -> bool {
        true
    }

    open spec fn eq_spec(&self, other: &Self) -> bool {
        self@ == other@
    }
}

/// The pattern that finds the display name: the shortest leading run of
/// name characters that a separator and a version token follow.
pub open spec fn name_pattern() -> Seq<char> {
    r"(?i)^([a-z0-9_.-]+?)(?:[-_](?:v?\d.*))"@
}

/// The pattern that finds the architecture, in any case.
pub open spec fn arch_pattern() -> Seq<char> {
    r"(?i)(x86_64|amd64|aarch64|arm64|armhf|armv6l|armv7|armv7l|ppc64le|riscv64|s390x)"@
}

/// The patterns that find the distribution, in the order in which they are
/// tried, each with the family it stands for. Where a pattern has a capture
/// group, the group holds the version or, for Ubuntu, possibly a codename.
pub open spec fn distro_patterns() -> Seq<(Seq<char>, Family)> {
    seq![
        (r"fc(\d+)"@, Family::Fedora),
        (r"fedora-?(\d+)?"@, Family::Fedora),
        (r"lp(\d+\.\d+)"@, Family::Leap),
        (r"opensuse-leap-?(\d+\.\d+)"@, Family::Leap),
        (r"opensuse-leap"@, Family::Leap),
        (r"debian-?(\d+)"@, Family::Debian),
        (r"debian"@, Family::Debian),
        (r"ubuntu-?(\d+\.\d+)"@, Family::Ubuntu),
        (r"ubuntu-?([a-z]+)"@, Family::Ubuntu),
        (r"ubuntu"@, Family::Ubuntu),
        (r"(tw|tumbleweed)"@, Family::Tumbleweed),
        (r"(?i)suse"@, Family::Tumbleweed),
    ]
}

fn distro_pattern(i: usize) -> (r: (&'static str, Family))
    requires
        i < 12,
    ensures
        distro_patterns().len() == 12,
        (r.0@, r.1) == distro_patterns()[i as int],
{
    if i == 0 {
        (r"fc(\d+)", Family::Fedora)
    } else if i == 1 {
        (r"fedora-?(\d+)?", Family::Fedora)
    } else if i == 2 {
        (r"lp(\d+\.\d+)", Family::Leap)
    } else if i == 3 {
        (r"opensuse-leap-?(\d+\.\d+)", Family::Leap)
    } else if i == 4 {
        (r"opensuse-leap", Family::Leap)
    } else if i == 5 {
        (r"debian-?(\d+)", Family::Debian)
    } else if i == 6 {
        (r"debian", Family::Debian)
    } else if i == 7 {
        (r"ubuntu-?(\d+\.\d+)", Family::Ubuntu)
    } else if i == 8 {
        (r"ubuntu-?([a-z]+)", Family::Ubuntu)
    } else if i == 9 {
        (r"ubuntu", Family::Ubuntu)
    } else if i == 10 {
        (r"(tw|tumbleweed)", Family::Tumbleweed)
    } else {
        (r"(?i)suse", Family::Tumbleweed)
    }
}

/// The version that an Ubuntu codename stands for.
pub open spec fn codename_version(codename: Seq<char>) -> Option<Seq<char>> {
    if codename == "precise"@ {
        Some("12.04"@)
    } else if codename == "trusty"@ {
        Some("14.04"@)
    } else if codename == "xenial"@ {
        Some("16.04"@)
    } else if codename == "bionic"@ {
        Some("18.04"@)
    } else if codename == "focal"@ {
        Some("20.04"@)
    } else if codename == "jammy"@ {
        Some("22.04"@)
    } else if codename == "lunar"@ {
        Some("23.04"@)
    } else if codename == "mantic"@ {
        Some("23.10"@)
    } else if codename == "noble"@ {
        Some("24.04"@)
    } else {
        None
    }
}

/// The version of the Ubuntu release with the given codename; `None` for a
/// text that is no known codename.
pub fn ubuntu_codename(codename: &str) -> (r: Option<&'static str>)
    ensures
        match r {
            Some(v) => codename_version(codename@) == Some(v@),
            None => codename_version(codename@) is None,
        },
{
    if str_eq(codename, "precise") {
        Some("12.04")
    } else if str_eq(codename, "trusty") {
        Some("14.04")
    } else if str_eq(codename, "xenial") {
        Some("16.04")
    } else if str_eq(codename, "bionic") {
        Some("18.04")
    } else if str_eq(codename, "focal") {
        Some("20.04")
    } else if str_eq(codename, "jammy") {
        Some("22.04")
    } else if str_eq(codename, "lunar") {
        Some("23.04")
    } else if str_eq(codename, "mantic") {
        Some("23.10")
    } else if str_eq(codename, "noble") {
        Some("24.04")
    } else {
        None
    }
}

/// The text that is read as the version of a distribution of family
/// `family`: for Ubuntu a codename gives way to its version.
pub open spec fn version_text(family: Family, captured: Seq<char>) -> Seq<char> {
    if family == Family::Ubuntu && codename_version(captured) is Some {
        codename_version(captured)->0
    } else {
        captured
    }
}

/// The distribution that a matching pattern of family `family` stands for,
/// given what its capture group holds.
pub open spec fn distro_of_capture(family: Family, captured: Option<Seq<char>>) -> DistModel {
    DistModel {
        family,
        version: if family == Family::Tumbleweed {
            None
        } else {
            match captured {
                Some(c) => lenient_parse(version_text(family, c)),
                None => None,
            }
        },
    }
}

/// Builds the distribution that a matching pattern of family `family`
/// stands for, given what its capture group holds.
pub fn distro_from_capture(family: Family, captured: Option<&str>) -> (r: Dist)
    ensures
        r@ == distro_of_capture(family, match captured {
            Some(c) => Some(c@),
            None => None,
        }),
{
    let text: Option<&str> = match captured {
        Some(c) => {
            if family == Family::Ubuntu {
                match ubuntu_codename(c) {
                    Some(v) => Some(v),
                    None => Some(c),
                }
            } else {
                Some(c)
            }
        },
        None => None,
    };
    let version: Option<Version> = match text {
        Some(t) => Version::parse(t),
        None => None,
    };
    match family {
        Family::Ubuntu => Dist::Ubuntu(version),
        Family::Debian => Dist::Debian(version),
        Family::Fedora => Dist::Fedora(version),
        Family::Leap => Dist::Leap(version),
        Family::Tumbleweed => Dist::Tumbleweed,
    }
}

/// The distribution that the first matching pattern of `table` stands for;
/// `None` where none of them matches `text`.
pub open spec fn distro_scan(text: Seq<char>, table: Seq<(Seq<char>, Family)>) -> Option<
    DistModel,
>
    decreases table.len(),
{
    if table.len() == 0 {
        None
    } else if regex_capture(table[0].0, text) is Some {
        Some(distro_of_capture(table[0].1, regex_capture(table[0].0, text)->0))
    } else {
        distro_scan(text, table.drop_first())
    }
}

/// The architecture that a search with [`arch_pattern`] denotes.
pub open spec fn arch_of_capture(found: Option<Option<Seq<char>>>) -> Option<Arch> {
    match found {
        Some(Some(m)) => arch_of_name(ascii_lower(m)),
        _ => None,
    }
}

/// Reads the architecture from what a search with the architecture pattern
/// found.
pub fn arch_from_capture(found: &Option<Option<String>>) -> (r: Option<Arch>)
    ensures
        r == arch_of_capture(crate::pattern::capture_view(*found)),
{
    match found {
        Some(Some(m)) => {
            let chars = to_chars(m.as_str());
            let lower = from_chars(&to_ascii_lower(&chars));
            Arch::parse(lower.as_str())
        },
        _ => None,
    }
}

/// The display name that a search with [`name_pattern`] denotes.
pub open spec fn name_of_capture(found: Option<Option<Seq<char>>>) -> Option<Seq<char>> {
    match found {
        Some(Some(n)) => Some(n),
        _ => None,
    }
}

/// What is left of a file name once the display name is taken off its
/// front, so that the name is not mistaken for a distribution or an
/// architecture.
pub open spec fn after_name(filename: Seq<char>, name: Option<Seq<char>>) -> Seq<char> {
    strip_prefix_all(
        filename,
        match name {
            Some(n) => n,
            None => Seq::empty(),
        },
    )
}

/// What a file name tells about a package: the display name that
/// [`name_pattern`] finds; the architecture that [`arch_pattern`] finds in
/// the rest of the name; the distribution of the first of
/// [`distro_patterns`] that matches the rest of the name.
pub open spec fn classify(filename: Seq<char>) -> PackageInfoModel {
    let name = name_of_capture(regex_capture(name_pattern(), filename));
    let rest = after_name(filename, name);
    PackageInfoModel {
        name,
        distro: distro_scan(rest, distro_patterns()),
        architecture: arch_of_capture(regex_capture(arch_pattern(), rest)),
    }
}

fn scan_distro(rest: &str) -> (r: Option<Dist>)
    ensures
        dist_view(r) == distro_scan(rest@, distro_patterns()),
{
    let mut i: usize = 0;
    assert(distro_patterns().skip(0) == distro_patterns());
    while i < 12
        invariant
            i <= 12,
            distro_patterns().len() == 12,
            distro_scan(rest@, distro_patterns()) == distro_scan(
                rest@,
                distro_patterns().skip(i as int),
            ),
        decreases 12 - i,
    {
        let (pattern, family) = distro_pattern(i);
        let found = first_capture(pattern, rest);
        let ghost table = distro_patterns().skip(i as int);
        assert(table[0] == distro_patterns()[i as int]);
        assert(table.drop_first() == distro_patterns().skip(i + 1));
        match found {
            Some(captured) => {
                let dist = match &captured {
                    Some(c) => distro_from_capture(family, Some(c.as_str())),
                    None => distro_from_capture(family, None),
                };
                return Some(dist);
            },
            None => {},
        }
        i = i + 1;
    }
    None
}

impl PackageInfo {
    /// Reads display name, distribution and architecture off a file name.
    pub fn parse_package(filename: &str) -> (r: PackageInfo)
        ensures
            r@ == classify(filename@),
    {
        let name: Option<String> = match first_capture(
            r"(?i)^([a-z0-9_.-]+?)(?:[-_](?:v?\d.*))",
            filename,
        ) {
            Some(Some(n)) => Some(n),
            _ => None,
        };
        let chars = to_chars(filename);
        let prefix: Vec<char> = match &name {
            Some(n) => to_chars(n.as_str()),
            None => Vec::new(),
        };
        let rest = from_chars(&strip_repeated_prefix(&chars, &prefix));
        let found = first_capture(
            r"(?i)(x86_64|amd64|aarch64|arm64|armhf|armv6l|armv7|armv7l|ppc64le|riscv64|s390x)",
            rest.as_str(),
        );
        let architecture = arch_from_capture(&found);
        let distro = scan_distro(rest.as_str());
        PackageInfo { name, distro, architecture }
    }
}

} // verus!
