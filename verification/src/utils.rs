//! Tags shared by every part of the gateway: package type, architecture,
//! distribution, release channel and interface version.

use crate::text::{str_eq, Order};
use crate::version::{lenient_parse, version_order, Version, VersionModel};
use vstd::prelude::*;

verus! {

/// A distribution family, without regard to its version.
#[derive(Debug, Clone, Copy, PartialEq, Eq, Structural)]
pub enum Family {
    Ubuntu,
    Debian,
    Fedora,
    Leap,
    Tumbleweed,
}

/// A distribution and, where known, its version.
#[derive(Debug)]
pub enum Dist {
    Ubuntu(Option<Version>),
    Debian(Option<Version>),
    Fedora(Option<Version>),
    Leap(Option<Version>),
    Tumbleweed,
}

/// The mathematical content of a [`Dist`].
pub struct DistModel {
    pub family: Family,
    pub version: Option<VersionModel>,
}

/// The view of an optional version.
pub open spec fn version_view(v: Option<Version>) -> Option<VersionModel> {
    match v {
        Some(v) => Some(v@),
        None => None,
    }
}

impl View for Dist {
    type V = DistModel;

    open spec fn view(&self) -> DistModel {
        match self {
            Dist::Ubuntu(v) => DistModel { family: Family::Ubuntu, version: version_view(*v) },
            Dist::Debian(v) => DistModel { family: Family::Debian, version: version_view(*v) },
            Dist::Fedora(v) => DistModel { family: Family::Fedora, version: version_view(*v) },
            Dist::Leap(v) => DistModel { family: Family::Leap, version: version_view(*v) },
            Dist::Tumbleweed => DistModel { family: Family::Tumbleweed, version: None },
        }
    }
}

/// The place of a family in the order of distributions.
pub open spec fn family_rank(f: Family) -> nat {
    match f {
        Family::Ubuntu => 0,
        Family::Debian => 1,
        Family::Fedora => 2,
        Family::Leap => 3,
        Family::Tumbleweed => 4,
    }
}

/// How two optional versions compare: an unknown version comes before
/// every known one, and two known ones compare as [`version_order`] says.
pub open spec fn opt_version_order(a: Option<VersionModel>, b: Option<VersionModel>) -> Option<Order> {
    match (a, b) {
        (None, None) => Some(Order::Equal),
        (None, Some(_)) => Some(Order::Less),
        (Some(_), None) => Some(Order::Greater),
        (Some(x), Some(y)) => version_order(x, y),
    }
}

/// How two distributions compare: by family, then by version. `None` where
/// the versions of one family cannot be compared.
pub open spec fn dist_order(a: DistModel, b: DistModel) -> Option<Order> {
    if a.family != b.family {
        if family_rank(a.family) < family_rank(b.family) {
            Some(Order::Less)
        } else {
            Some(Order::Greater)
        }
    } else {
        opt_version_order(a.version, b.version)
    }
}

/// `a` comes before `b`.
pub open spec fn dist_lt(a: DistModel, b: DistModel) -> bool {
    dist_order(a, b) == Some(Order::Less)
}

/// `a` comes before `b` or compares equal to it.
pub open spec fn dist_le(a: DistModel, b: DistModel) -> bool {
    dist_order(a, b) == Some(Order::Less) || dist_order(a, b) == Some(Order::Equal)
}

fn clone_version(v: &Option<Version>) -> (r: Option<Version>)
    ensures
        version_view(r) == version_view(*v),
{
    match v {
        Some(v) => Some(v.clone()),
        None => None,
    }
}

fn compare_versions(a: &Option<Version>, b: &Option<Version>) -> (r: Option<Order>)
    ensures
        r == opt_version_order(version_view(*a), version_view(*b)),
{
    match (a, b) {
        (None, None) => Some(Order::Equal),
        (None, Some(_)) => Some(Order::Less),
        (Some(_), None) => Some(Order::Greater),
        (Some(x), Some(y)) => x.compare(y),
    }
}

fn same_version(a: &Option<Version>, b: &Option<Version>) -> (r: bool)
    ensures
        r == (version_view(*a) == version_view(*b)),
{
    match (a, b) {
        (None, None) => true,
        (Some(x), Some(y)) => x == y,
        _ => false,
    }
}

fn parse_version(version: Option<&str>) -> (r: Option<Version>)
    ensures
        version_view(r) == match version {
            Some(v) => lenient_parse(v@),
            None => None,
        },
{
    match version {
        Some(v) => Version::parse(v),
        None => None,
    }
}

impl Dist {
    /// The family of this distribution.
    pub fn family(&self) -> (r: Family)
        ensures
            r == self@.family,
    {
        match self {
            Dist::Ubuntu(_) => Family::Ubuntu,
            Dist::Debian(_) => Family::Debian,
            Dist::Fedora(_) => Family::Fedora,
            Dist::Leap(_) => Family::Leap,
            Dist::Tumbleweed => Family::Tumbleweed,
        }
    }

    /// Whether `dist` is of the same family, whatever the two versions are:
    /// a looser test than equality.
    pub fn matches_distribution(&self, dist: &Dist) -> (r: bool)
        ensures
            r == (self@.family == dist@.family),
    {
        self.family() == dist.family()
    }

    /// Replaces the version by what `version` denotes; an absent or
    /// unreadable text leaves the version unknown. Tumbleweed has no
    /// version and stays as it is.
    pub fn set_version(&mut self, version: Option<&str>)
        ensures
            final(self)@.family == old(self)@.family,
            final(self)@.version == if old(self)@.family == Family::Tumbleweed {
                None
            } else {
                match version {
                    Some(v) => lenient_parse(v@),
                    None => None,
                }
            },
    {
        let parsed = parse_version(version);
        match self.family() {
            Family::Ubuntu => {
                *self = Dist::Ubuntu(parsed);
            },
            Family::Debian => {
                *self = Dist::Debian(parsed);
            },
            Family::Fedora => {
                *self = Dist::Fedora(parsed);
            },
            Family::Leap => {
                *self = Dist::Leap(parsed);
            },
            Family::Tumbleweed => {},
        }
    }

    /// Ubuntu in the version that `version` denotes.
    pub fn ubuntu(version: &str) -> (r: Dist)
        ensures
            r@ == (DistModel { family: Family::Ubuntu, version: lenient_parse(version@) }),
    {
        Dist::Ubuntu(Version::parse(version))
    }

    /// Debian in the version that `version` denotes.
    pub fn debian(version: &str) -> (r: Dist)
        ensures
            r@ == (DistModel { family: Family::Debian, version: lenient_parse(version@) }),
    {
        Dist::Debian(Version::parse(version))
    }

    /// Fedora in the version that `version` denotes.
    pub fn fedora(version: &str) -> (r: Dist)
        ensures
            r@ == (DistModel { family: Family::Fedora, version: lenient_parse(version@) }),
    {
        Dist::Fedora(Version::parse(version))
    }

    /// openSUSE Leap in the version that `version` denotes.
    pub fn leap(version: &str) -> (r: Dist)
        ensures
            r@ == (DistModel { family: Family::Leap, version: lenient_parse(version@) }),
    {
        Dist::Leap(Version::parse(version))
    }

    /// Compares two distributions as [`dist_order`] says.
    pub fn compare(&self, other: &Dist) -> (r: Option<Order>)
        ensures
            r == dist_order(self@, other@),
    {
        match (self, other) {
            (Dist::Ubuntu(a), Dist::Ubuntu(b)) => compare_versions(a, b),
            (Dist::Debian(a), Dist::Debian(b)) => compare_versions(a, b),
            (Dist::Fedora(a), Dist::Fedora(b)) => compare_versions(a, b),
            (Dist::Leap(a), Dist::Leap(b)) => compare_versions(a, b),
            (Dist::Tumbleweed, Dist::Tumbleweed) => Some(Order::Equal),
            _ => {
                if rank_of(self.family()) < rank_of(other.family()) {
                    Some(Order::Less)
                } else {
                    Some(Order::Greater)
                }
            },
        }
    }
}

fn rank_of(f: Family) -> (r: u8)
    ensures
        r == family_rank(f),
{
    match f {
        Family::Ubuntu => 0,
        Family::Debian => 1,
        Family::Fedora => 2,
        Family::Leap => 3,
        Family::Tumbleweed => 4,
    }
}

impl Clone for Dist {
    fn clone(&self) -> (r: Self)
        ensures
            r@ == self@,
    {
        match self {
            Dist::Ubuntu(v) => Dist::Ubuntu(clone_version(v)),
            Dist::Debian(v) => Dist::Debian(clone_version(v)),
            Dist::Fedora(v) => Dist::Fedora(clone_version(v)),
            Dist::Leap(v) => Dist::Leap(clone_version(v)),
            Dist::Tumbleweed => Dist::Tumbleweed,
        }
    }
}

impl PartialEq for Dist {
    fn eq(&self, other: &Self) -> (r: bool) {
        match (self, other) {
            (Dist::Ubuntu(a), Dist::Ubuntu(b)) => same_version(a, b),
            (Dist::Debian(a), Dist::Debian(b)) => same_version(a, b),
            (Dist::Fedora(a), Dist::Fedora(b)) => same_version(a, b),
            (Dist::Leap(a), Dist::Leap(b)) => same_version(a, b),
            (Dist::Tumbleweed, Dist::Tumbleweed) => true,
            _ => false,
        }
    }
}

impl Eq for Dist {

}

impl vstd::std_specs::cmp::PartialEqSpecImpl for Dist {
    open spec fn obeys_eq_spec() -> bool {
        true
    }

    open spec fn eq_spec(&self, other: &Self) -> bool {
        self@ == other@
    }
}

impl PartialOrd for Dist {
    fn partial_cmp(&self, other: &Self) -> (r: Option<std::cmp::Ordering>) {
        match self.compare(other) {
            Some(Order::Less) => Some(std::cmp::Ordering::Less),
            Some(Order::Equal) => Some(std::cmp::Ordering::Equal),
            Some(Order::Greater) => Some(std::cmp::Ordering::Greater),
            None => None,
        }
    }
}

impl vstd::std_specs::cmp::PartialOrdSpecImpl for Dist {
    open spec fn obeys_partial_cmp_spec() -> bool {
        true
    }

    open spec fn partial_cmp_spec(&self, other: &Self) -> Option<std::cmp::Ordering> {
        match dist_order(self@, other@) {
            Some(Order::Less) => Some(std::cmp::Ordering::Less),
            Some(Order::Equal) => Some(std::cmp::Ordering::Equal),
            Some(Order::Greater) => Some(std::cmp::Ordering::Greater),
            None => None,
        }
    }
}

/// A processor architecture that packages are built for.
#[derive(Debug, Clone, Copy, PartialEq, Eq, Structural, Hash)]
pub enum Arch {
    Amd64,
    Arm64,
    /// Hard-float ARM, which `armv6l` builds run on.
    Armhf,
    Armv7,
    Aarch64,
    PPC64le,
    RiscV64,
    S390x,
}

impl Default for Arch {
    fn default() -> (r: Self)
        ensures
            r == Arch::Amd64,
    {
        Arch::Amd64
    }
}

/// The architecture that a name denotes, in Debian's or the kernel's
/// spelling.
pub open spec fn arch_of_name(s: Seq<char>) -> Option<Arch> {
    if s == "amd64"@ || s == "x86_64"@ {
        Some(Arch::Amd64)
    } else if s == "aarch64"@ {
        Some(Arch::Aarch64)
    } else if s == "arm64"@ {
        Some(Arch::Arm64)
    } else if s == "armhf"@ || s == "armv6l"@ {
        Some(Arch::Armhf)
    } else if s == "armv7"@ || s == "armv7l"@ {
        Some(Arch::Armv7)
    } else if s == "ppc64le"@ || s == "ppc64el"@ {
        Some(Arch::PPC64le)
    } else if s == "riscv64"@ {
        Some(Arch::RiscV64)
    } else if s == "s390x"@ {
        Some(Arch::S390x)
    } else {
        None
    }
}

/// The name of an architecture on the wire, in Debian's spelling.
pub open spec fn arch_name(a: Arch) -> Seq<char> {
    match a {
        Arch::Amd64 => "amd64"@,
        Arch::Arm64 | Arch::Aarch64 => "arm64"@,
        Arch::Armhf | Arch::Armv7 => "armhf"@,
        Arch::PPC64le => "ppc64el"@,
        Arch::RiscV64 => "riscv64"@,
        Arch::S390x => "s390x"@,
    }
}

impl Arch {
    /// Reads an architecture name; `None` for a name that is not known.
    pub fn parse(s: &str) -> (r: Option<Arch>)
        ensures
            r == arch_of_name(s@),
    {
        if str_eq(s, "amd64") || str_eq(s, "x86_64") {
            Some(Arch::Amd64)
        } else if str_eq(s, "aarch64") {
            Some(Arch::Aarch64)
        } else if str_eq(s, "arm64") {
            Some(Arch::Arm64)
        } else if str_eq(s, "armhf") || str_eq(s, "armv6l") {
            Some(Arch::Armhf)
        } else if str_eq(s, "armv7") || str_eq(s, "armv7l") {
            Some(Arch::Armv7)
        } else if str_eq(s, "ppc64le") || str_eq(s, "ppc64el") {
            Some(Arch::PPC64le)
        } else if str_eq(s, "riscv64") {
            Some(Arch::RiscV64)
        } else if str_eq(s, "s390x") {
            Some(Arch::S390x)
        } else {
            None
        }
    }

    /// The architecture's name on the wire.
    pub fn name(&self) -> (r: &'static str)
        ensures
            r@ == arch_name(*self),
    {
        match self {
            Arch::Amd64 => "amd64",
            Arch::Arm64 => "arm64",
            Arch::Armhf => "armhf",
            Arch::Armv7 => "armhf",
            Arch::Aarch64 => "arm64",
            Arch::PPC64le => "ppc64el",
            Arch::RiscV64 => "riscv64",
            Arch::S390x => "s390x",
        }
    }
}

impl std::str::FromStr for Arch {
    type Err = ();

    fn from_str(s: &str) -> (r: Result<Self, ()>)
        ensures
            r == match arch_of_name(s@) {
                Some(a) => Ok::<Arch, ()>(a),
                None => Err::<Arch, ()>(()),
            },
    {
        match Arch::parse(s) {
            Some(a) => Ok(a),
            None => Err(()),
        }
    }
}

/// The container format of a package.
#[derive(Debug, Clone, Copy, PartialEq, Eq, Structural)]
pub enum Type {
    Deb,
    Rpm,
}

/// Whether packages of type `t` can be installed on distributions of family
/// `f`.
pub open spec fn type_compatible(t: Type, f: Family) -> bool {
    match t {
        Type::Deb => f == Family::Ubuntu || f == Family::Debian,
        Type::Rpm => f == Family::Fedora || f == Family::Leap || f == Family::Tumbleweed,
    }
}

impl Type {
    /// Whether packages of this type can be installed on `dist`.
    pub fn matches_distribution(&self, dist: &Dist) -> (r: bool)
        ensures
            r == type_compatible(*self, dist@.family),
    {
        match self {
            Type::Deb => matches!(dist, Dist::Debian(_) | Dist::Ubuntu(_)),
            Type::Rpm => matches!(dist, Dist::Fedora(_) | Dist::Leap(_) | Dist::Tumbleweed),
        }
    }
}

/// The release channel of an upstream project: its latest release, or its
/// newest release that is no draft, which may be a pre-release.
#[derive(Debug, Clone, Copy, PartialEq, Eq, Structural)]
pub enum ReleaseChannel {
    Stable,
    Unstable,
}

/// The channel's name as it appears in URLs and in rendered indices.
pub open spec fn channel_name(c: ReleaseChannel) -> Seq<char> {
    match c {
        ReleaseChannel::Stable => "stable"@,
        ReleaseChannel::Unstable => "unstable"@,
    }
}

impl ReleaseChannel {
    /// The channel's name.
    pub fn name(&self) -> (r: &'static str)
        ensures
            r@ == channel_name(*self),
    {
        match self {
            ReleaseChannel::Stable => "stable",
            ReleaseChannel::Unstable => "unstable",
        }
    }

    /// Reads a channel name; `None` for any other text.
    pub fn parse(s: &str) -> (r: Option<ReleaseChannel>)
        ensures
            r == if s@ == "stable"@ {
                Some(ReleaseChannel::Stable)
            } else if s@ == "unstable"@ {
                Some(ReleaseChannel::Unstable)
            } else {
                None
            },
    {
        if str_eq(s, "stable") {
            Some(ReleaseChannel::Stable)
        } else if str_eq(s, "unstable") {
            Some(ReleaseChannel::Unstable)
        } else {
            None
        }
    }
}

/// The version of the gateway's URL scheme.
#[derive(Debug, Clone, Copy, PartialEq, Eq, Structural)]
pub enum AppVersion {
    V1,
    V2,
}

/// The interface version's name as it appears in URLs.
pub open spec fn app_version_name(v: AppVersion) -> Seq<char> {
    match v {
        AppVersion::V1 => "v1"@,
        AppVersion::V2 => "v2"@,
    }
}

impl AppVersion {
    /// The interface version's name.
    pub fn name(&self) -> (r: &'static str)
        ensures
            r@ == app_version_name(*self),
    {
        match self {
            AppVersion::V1 => "v1",
            AppVersion::V2 => "v2",
        }
    }

    /// Reads an interface version; `None` for any other text.
    pub fn parse(s: &str) -> (r: Option<AppVersion>)
        ensures
            r == if s@ == "v1"@ {
                Some(AppVersion::V1)
            } else if s@ == "v2"@ {
                Some(AppVersion::V2)
            } else {
                None
            },
    {
        if str_eq(s, "v1") {
            Some(AppVersion::V1)
        } else if str_eq(s, "v2") {
            Some(AppVersion::V2)
        } else {
            None
        }
    }
}

} // verus!
