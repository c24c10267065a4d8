//! Semver-style version numbers, as carried by distribution tags and by the
//! user-agent of `apt`.

use crate::text::{push_decimal, push_str, spec_decimal, Order};
use vstd::prelude::*;

verus! {

/// A version number: three numeric components, a pre-release tag and build
/// metadata. An absent tag is the empty string.
#[derive(Debug)]
pub struct Version {
    pub major: u64,
    pub minor: u64,
    pub patch: u64,
    pub pre: String,
    pub build: String,
}

/// The mathematical content of a [`Version`].
pub struct VersionModel {
    pub major: nat,
    pub minor: nat,
    pub patch: nat,
    pub pre: Seq<char>,
    pub build: Seq<char>,
}

impl View for Version {
    type V = VersionModel;

    open spec fn view(&self) -> VersionModel {
        VersionModel {
            major: self.major as nat,
            minor: self.minor as nat,
            patch: self.patch as nat,
            pre: self.pre@,
            build: self.build@,
        }
    }
}

impl Clone for Version {
    fn clone(&self) -> (r: Self)
        ensures
            r@ == self@,
    {
        Version {
            major: self.major,
            minor: self.minor,
            patch: self.patch,
            pre: self.pre.clone(),
            build: self.build.clone(),
        }
    }
}

impl PartialEq for Version {
    fn eq(&self, other: &Self) -> (r: bool) {
        self.major == other.major && self.minor == other.minor && self.patch == other.patch
            && self.pre == other.pre && self.build == other.build
    }
}

impl Eq for Version {

}

impl vstd::std_specs::cmp::PartialEqSpecImpl for Version {
    open spec fn obeys_eq_spec() -> bool {
        true
    }

    open spec fn eq_spec(&self, other: &Self) -> bool {
        self@ == other@
    }
}

/// What lenient parsing makes of a text: the version it denotes, or `None`
/// where the text denotes no version.
pub uninterp spec fn lenient_parse(text: Seq<char>) -> Option<VersionModel>;

/// Parses a version leniently: minor and patch may be missing, a leading `v`
/// and surrounding noise are tolerated.
///
/// Wraps `lenient_semver::parse`. The contract names its result: the same
/// text always gives the same version, and nothing more is claimed.
#[verifier::external_body]
pub(crate) fn parse_lenient(text: &str) -> (r: Option<Version>)
    ensures
        r is Some == lenient_parse(text@) is Some,
        r is Some ==> r->0@ == lenient_parse(text@)->0,
{
    match lenient_semver::parse(text) {
        Ok(v) => Some(
            Version {
                major: v.major,
                minor: v.minor,
                patch: v.patch,
                pre: v.pre.as_str().to_owned(),
                build: v.build.as_str().to_owned(),
            },
        ),
        Err(_) => None,
    }
}

/// How `semver` orders two versions: by their numbers, then by their tags,
/// read as lists of identifiers. `None` where it does not accept the tags of
/// one of the two as tags.
pub uninterp spec fn semver_order(a: VersionModel, b: VersionModel) -> Option<Order>;

/// The version has neither a pre-release tag nor build metadata.
pub open spec fn plain(v: VersionModel) -> bool {
    v.pre.len() == 0 && v.build.len() == 0
}

/// How the numbers of two versions compare: by the major number, then by
/// the minor number, then by the patch number.
pub open spec fn numbers_order(a: VersionModel, b: VersionModel) -> Order {
    if a.major != b.major {
        if a.major < b.major {
            Order::Less
        } else {
            Order::Greater
        }
    } else if a.minor != b.minor {
        if a.minor < b.minor {
            Order::Less
        } else {
            Order::Greater
        }
    } else if a.patch != b.patch {
        if a.patch < b.patch {
            Order::Less
        } else {
            Order::Greater
        }
    } else {
        Order::Equal
    }
}

/// How two versions compare: two versions without tags by their numbers,
/// all others as [`semver_order`] says.
pub open spec fn version_order(a: VersionModel, b: VersionModel) -> Option<Order> {
    if plain(a) && plain(b) {
        Some(numbers_order(a, b))
    } else {
        semver_order(a, b)
    }
}

/// The three versions compare as a total order has them: any two compare,
/// as equal exactly where they are the same, one way exactly where the
/// other way round, and what comes before one that comes before a third
/// comes before the third.
pub open spec fn in_order(x: VersionModel, y: VersionModel, z: VersionModel) -> bool {
    &&& version_order(x, y) is Some
    &&& (version_order(x, y) == Some(Order::Equal)) == (x == y)
    &&& (version_order(x, y) == Some(Order::Less)) == (version_order(y, x) == Some(Order::Greater))
    &&& version_order(x, y) == Some(Order::Less) && version_order(y, z) == Some(Order::Less)
        ==> version_order(x, z) == Some(Order::Less)
}

/// Versions without tags compare as a total order has them.
pub proof fn lemma_plain_in_order(x: VersionModel, y: VersionModel, z: VersionModel)
    requires
        plain(x),
        plain(y),
        plain(z),
    ensures
        in_order(x, y, z),
{
    if numbers_order(x, y) == Order::Equal {
        assert(x.pre =~= y.pre && x.build =~= y.build);
    }
}

/// Whether `semver` finds that a version meets a requirement such as
/// `>=1.2.0, <=1.4.2`. `None` where it does not accept the requirement, or the
/// tags of the version.
pub uninterp spec fn semver_matches(requirement: Seq<char>, version: VersionModel) -> Option<bool>;

/// Compares two versions as `semver` orders them.
///
/// Wraps `Prerelease::new` and `BuildMetadata::new`, which read the tags, and
/// the `cmp` of `semver::Version`. The contract names the result: the same
/// two versions always compare alike. Of two versions without tags it says
/// more: an empty tag is read as no tag, two of them compare as equal, and
/// the order of the struct is derived field by field, the three numbers
/// first, so that such versions compare by their numbers.
#[verifier::external_body]
fn precedence(a: &Version, b: &Version) -> (r: Option<Order>)
    ensures
        r == semver_order(a@, b@),
        plain(a@) && plain(b@) ==> r == Some(numbers_order(a@, b@)),
{
    let pre = semver::Prerelease::new(&a.pre).ok()?;
    let build = semver::BuildMetadata::new(&a.build).ok()?;
    let x = semver::Version { major: a.major, minor: a.minor, patch: a.patch, pre, build };
    let pre = semver::Prerelease::new(&b.pre).ok()?;
    let build = semver::BuildMetadata::new(&b.build).ok()?;
    let y = semver::Version { major: b.major, minor: b.minor, patch: b.patch, pre, build };
    Some(
        match x.cmp(&y) {
            std::cmp::Ordering::Less => Order::Less,
            std::cmp::Ordering::Equal => Order::Equal,
            std::cmp::Ordering::Greater => Order::Greater,
        },
    )
}

/// Tells whether a version meets a requirement.
///
/// Wraps `VersionReq::parse` and `VersionReq::matches` of `semver`, with
/// `Prerelease::new` and `BuildMetadata::new` for the tags of the version.
/// The contract names the result: the same requirement and version always
/// give the same answer, and nothing more is claimed.
#[verifier::external_body]
fn requirement_met(requirement: &str, version: &Version) -> (r: Option<bool>)
    ensures
        r == semver_matches(requirement@, version@),
{
    let wanted = semver::VersionReq::parse(requirement).ok()?;
    let pre = semver::Prerelease::new(&version.pre).ok()?;
    let build = semver::BuildMetadata::new(&version.build).ok()?;
    let v = semver::Version { major: version.major, minor: version.minor, patch: version.patch, pre, build };
    Some(wanted.matches(&v))
}

/// A version as text: the three numbers with dots between them, then the
/// pre-release tag behind a hyphen and the build metadata behind a plus
/// sign, each only where it is not empty.
pub open spec fn version_text(v: VersionModel) -> Seq<char> {
    spec_decimal(v.major) + seq!['.'] + spec_decimal(v.minor) + seq!['.'] + spec_decimal(v.patch)
        + (if v.pre.len() > 0 {
        seq!['-'] + v.pre
    } else {
        Seq::empty()
    }) + (if v.build.len() > 0 {
        seq!['+'] + v.build
    } else {
        Seq::empty()
    })
}

impl Version {
    /// Parses a version leniently; `None` where the text denotes none.
    pub fn parse(text: &str) -> (r: Option<Version>)
        ensures
            r is Some == lenient_parse(text@) is Some,
            r is Some ==> r->0@ == lenient_parse(text@)->0,
    {
        parse_lenient(text)
    }

    /// Compares two versions as `semver` orders them; `None` where it does
    /// not accept the tags of one of them. Two versions without tags
    /// compare by their numbers.
    pub fn compare(&self, other: &Version) -> (r: Option<Order>)
        ensures
            r == version_order(self@, other@),
    {
        precedence(self, other)
    }

    /// Whether the version meets a requirement, as `semver` reads both;
    /// `None` where it does not accept one of them.
    pub fn meets(&self, requirement: &str) -> (r: Option<bool>)
        ensures
            r == semver_matches(requirement@, self@),
    {
        requirement_met(requirement, self)
    }

    /// Appends the version as text.
    pub fn push_text(&self, out: &mut Vec<char>)
        ensures
            final(out)@ == old(out)@ + version_text(self@),
    {
        push_decimal(out, self.major);
        out.push('.');
        push_decimal(out, self.minor);
        out.push('.');
        push_decimal(out, self.patch);
        if self.pre.as_str().unicode_len() > 0 {
            out.push('-');
            push_str(out, self.pre.as_str());
        }
        if self.build.as_str().unicode_len() > 0 {
            out.push('+');
            push_str(out, self.build.as_str());
        }
        assert(final(out)@ =~= old(out)@ + version_text(self@));
    }
}

} // verus!
