use packhub::text::Order;
use packhub::utils::{Arch, Dist, Type};
use packhub::version::Version;

#[test]
fn test_type_matches_distribution() {
    assert!(Type::Deb.matches_distribution(&Dist::Debian(None)));
    assert!(Type::Deb.matches_distribution(&Dist::Ubuntu(None)));
    assert!(!Type::Deb.matches_distribution(&Dist::Fedora(None)));
    assert!(Type::Rpm.matches_distribution(&Dist::Fedora(None)));
    assert!(Type::Rpm.matches_distribution(&Dist::Tumbleweed));
}

#[test]
fn test_dist_matches() {
    assert!(Dist::Ubuntu(None).matches_distribution(&Dist::ubuntu("24.04")));
    assert!(!Dist::Debian(None).matches_distribution(&Dist::ubuntu("24.04")));
}

#[test]
fn test_dist_version_comparison() {
    let ver1 = Dist::ubuntu("24.04");
    let ver2 = Dist::ubuntu("24.10");
    let ver0 = Dist::Ubuntu(None);

    assert!(ver1 < ver2);
    assert!(ver2 > ver1);
    assert!(ver1 > ver0);
    assert!(ver0 < ver1);

    let ver3 = Dist::fedora("38");
    let ver4 = Dist::fedora("41");
    let ver0 = Dist::Fedora(None);

    assert!(ver3 < ver4);
    assert!(ver4 > ver3);
    assert!(ver3 > ver0);
    assert!(ver0 < ver3);
}

#[test]
fn type_rpm_matches_leap_but_no_debian() {
    assert!(Type::Rpm.matches_distribution(&Dist::leap("15.2")));
    assert!(!Type::Rpm.matches_distribution(&Dist::Debian(None)));
    assert!(!Type::Rpm.matches_distribution(&Dist::Ubuntu(None)));
    assert!(!Type::Deb.matches_distribution(&Dist::Tumbleweed));
    assert!(!Type::Deb.matches_distribution(&Dist::Leap(None)));
}

#[test]
fn dist_equality_is_strict_on_version() {
    assert_eq!(Dist::ubuntu("22.04"), Dist::ubuntu("22.04"));
    assert_ne!(Dist::ubuntu("22.04"), Dist::ubuntu("24.04"));
    assert_ne!(Dist::ubuntu("22.04"), Dist::Ubuntu(None));
    assert_ne!(Dist::ubuntu("22.04"), Dist::debian("22.04"));
    assert_eq!(Dist::Tumbleweed, Dist::Tumbleweed);
}

#[test]
fn dist_order_goes_by_family_first() {
    assert!(Dist::ubuntu("24.04") < Dist::debian("9"));
    assert!(Dist::debian("12") < Dist::fedora("1"));
    assert!(Dist::fedora("41") < Dist::leap("15.2"));
    assert!(Dist::leap("15.6") < Dist::Tumbleweed);
}

#[test]
fn dist_set_version_replaces_the_version() {
    let mut d = Dist::Fedora(None);
    d.set_version(Some("38"));
    assert_eq!(d, Dist::fedora("38"));
    d.set_version(None);
    assert_eq!(d, Dist::Fedora(None));
    d.set_version(Some("not a version"));
    assert_eq!(d, Dist::Fedora(None));
    let mut t = Dist::Tumbleweed;
    t.set_version(Some("1.0"));
    assert_eq!(t, Dist::Tumbleweed);
}

#[test]
fn arch_names_are_read_and_written() {
    assert_eq!(Arch::parse("amd64"), Some(Arch::Amd64));
    assert_eq!(Arch::parse("x86_64"), Some(Arch::Amd64));
    assert_eq!(Arch::parse("aarch64"), Some(Arch::Aarch64));
    assert_eq!(Arch::parse("arm64"), Some(Arch::Arm64));
    assert_eq!(Arch::parse("armhf"), Some(Arch::Armhf));
    assert_eq!(Arch::parse("armv6l"), Some(Arch::Armhf));
    assert_eq!(Arch::parse("armv7"), Some(Arch::Armv7));
    assert_eq!(Arch::parse("armv7l"), Some(Arch::Armv7));
    assert_eq!(Arch::parse("ppc64le"), Some(Arch::PPC64le));
    assert_eq!(Arch::parse("ppc64el"), Some(Arch::PPC64le));
    assert_eq!(Arch::parse("riscv64"), Some(Arch::RiscV64));
    assert_eq!(Arch::parse("s390x"), Some(Arch::S390x));
    assert_eq!(Arch::parse("sparc"), None);
    assert_eq!("x86_64".parse::<Arch>(), Ok(Arch::Amd64));
    assert_eq!("mips".parse::<Arch>(), Err(()));

    assert_eq!(Arch::Amd64.name(), "amd64");
    assert_eq!(Arch::Arm64.name(), "arm64");
    assert_eq!(Arch::Aarch64.name(), "arm64");
    assert_eq!(Arch::Armhf.name(), "armhf");
    assert_eq!(Arch::Armv7.name(), "armhf");
    assert_eq!(Arch::PPC64le.name(), "ppc64el");
    assert_eq!(Arch::RiscV64.name(), "riscv64");
    assert_eq!(Arch::S390x.name(), "s390x");
    assert_eq!(Arch::default(), Arch::Amd64);
}

#[test]
fn reading_an_architecture_goes_by_its_name() {
    for name in ["amd64", "x86_64", "aarch64", "arm64", "armhf", "armv6l", "armv7", "armv7l",
                 "ppc64le", "ppc64el", "riscv64", "s390x", "", "AMD64", "i386"] {
        assert_eq!(name.parse::<Arch>().ok(), Arch::parse(name));
    }
}

fn tagged(major: u64, minor: u64, patch: u64, pre: &str, build: &str) -> Version {
    Version { major, minor, patch, pre: pre.to_owned(), build: build.to_owned() }
}

#[test]
fn versions_compare_by_numbers_then_by_tags() {
    let plain = tagged(1, 2, 3, "", "");
    assert_eq!(plain.compare(&plain), Some(Order::Equal));
    assert_eq!(tagged(1, 2, 3, "", "").compare(&tagged(1, 10, 0, "", "")), Some(Order::Less));
    assert_eq!(tagged(2, 0, 0, "", "").compare(&tagged(1, 99, 99, "", "")), Some(Order::Greater));
    // A version with a pre-release tag comes before the same numbers
    // without one.
    assert_eq!(tagged(1, 2, 3, "rc1", "").compare(&plain), Some(Order::Less));
    assert_eq!(plain.compare(&tagged(1, 2, 3, "rc1", "")), Some(Order::Greater));
    // Identifiers made of digits compare as numbers, not as text.
    assert_eq!(
        tagged(1, 0, 0, "alpha.9", "").compare(&tagged(1, 0, 0, "alpha.10", "")),
        Some(Order::Less)
    );
    assert_eq!(
        tagged(1, 0, 0, "alpha.10", "").compare(&tagged(1, 0, 0, "alpha.9", "")),
        Some(Order::Greater)
    );
    // Numbers come before words, and a longer list after its beginning.
    assert_eq!(tagged(1, 0, 0, "1", "").compare(&tagged(1, 0, 0, "alpha", "")), Some(Order::Less));
    assert_eq!(
        tagged(1, 0, 0, "alpha", "").compare(&tagged(1, 0, 0, "alpha.1", "")),
        Some(Order::Less)
    );
    // Build metadata counts last.
    assert_eq!(tagged(1, 0, 0, "", "9").compare(&tagged(1, 0, 0, "", "10")), Some(Order::Less));
    assert_eq!(tagged(1, 0, 0, "", "").compare(&tagged(1, 0, 0, "", "1")), Some(Order::Less));
}

#[test]
fn versions_with_tags_that_are_none_do_not_compare() {
    let plain = tagged(1, 2, 3, "", "");
    assert_eq!(tagged(1, 2, 3, "a b", "").compare(&plain), None);
    assert_eq!(plain.compare(&tagged(1, 2, 3, "", "x_y")), None);
    assert_eq!(tagged(1, 2, 3, "01", "").compare(&plain), None);
    assert_eq!(tagged(1, 2, 3, "a..b", "").compare(&tagged(9, 0, 0, "", "")), None);
    let odd = Dist::Ubuntu(Some(tagged(1, 2, 3, "a b", "")));
    assert_eq!(odd.compare(&Dist::Ubuntu(Some(plain))), None);
    assert_eq!(odd.partial_cmp(&Dist::ubuntu("1.2.3")), None);
    // Across families the versions are not looked at.
    assert_eq!(odd.compare(&Dist::debian("12")), Some(Order::Less));
    assert_eq!(odd.compare(&Dist::Ubuntu(None)), Some(Order::Greater));
}

#[test]
fn distributions_compare_by_family_then_by_version() {
    assert_eq!(Dist::ubuntu("22.04").compare(&Dist::ubuntu("24.04")), Some(Order::Less));
    assert_eq!(Dist::ubuntu("24.04").compare(&Dist::ubuntu("24.04")), Some(Order::Equal));
    assert_eq!(Dist::ubuntu("24.10").compare(&Dist::ubuntu("24.04")), Some(Order::Greater));
    assert_eq!(Dist::Ubuntu(None).compare(&Dist::Ubuntu(None)), Some(Order::Equal));
    assert_eq!(Dist::Tumbleweed.compare(&Dist::Tumbleweed), Some(Order::Equal));
    assert_eq!(Dist::Tumbleweed.compare(&Dist::ubuntu("99")), Some(Order::Greater));
    assert!(Dist::ubuntu("24.04") == Dist::ubuntu("24.04"));
    assert!(Dist::ubuntu("24.04") != Dist::ubuntu("24.4.1"));
    assert!(Dist::ubuntu("24.04") != Dist::debian("24.04"));
}

#[test]
fn requirements_are_read_as_semver_reads_them() {
    let v = tagged(1, 2, 3, "", "");
    assert_eq!(v.meets(">=1.0.0, <=2.0.0"), Some(true));
    assert_eq!(v.meets(">=1.2.3, <=1.2.3"), Some(true));
    assert_eq!(v.meets("=1.2.3"), Some(true));
    assert_eq!(v.meets("=1.2.4"), Some(false));
    assert_eq!(v.meets(">=1.2.4, <=2.0.0"), Some(false));
    assert_eq!(v.meets(">=1.0.0, <=1.2.2"), Some(false));
    // A version with a pre-release tag meets a requirement only where
    // the requirement names a pre-release of the same numbers.
    assert_eq!(tagged(1, 2, 3, "rc1", "").meets(">=1.0.0, <=2.0.0"), Some(false));
    assert_eq!(tagged(1, 2, 3, "rc1", "").meets(">=1.2.3-alpha, <=2.0.0"), Some(true));
    assert_eq!(tagged(1, 2, 3, "rc1", "").meets("=1.2.3-rc1"), Some(true));
    // What is no requirement, or no version, gives no answer.
    assert_eq!(v.meets("between one and two"), None);
    assert_eq!(v.meets(">=1.0.0 <=2.0.0"), None);
    assert_eq!(tagged(1, 2, 3, "a b", "").meets("=1.2.3"), None);
}

#[test]
fn versions_are_written_with_their_tags() {
    let text = |v: Version| {
        let mut out = Vec::new();
        v.push_text(&mut out);
        out.into_iter().collect::<String>()
    };
    assert_eq!(text(tagged(1, 2, 3, "", "")), "1.2.3");
    assert_eq!(text(tagged(0, 0, 0, "", "")), "0.0.0");
    assert_eq!(text(tagged(24, 4, 0, "rc.1", "")), "24.4.0-rc.1");
    assert_eq!(text(tagged(1, 0, 10, "", "b5")), "1.0.10+b5");
    assert_eq!(text(tagged(u64::MAX, 0, 1, "a", "b")), "18446744073709551615.0.1-a+b");
}
