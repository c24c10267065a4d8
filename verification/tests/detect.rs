use packhub::detect::PackageInfo;
use packhub::utils::{Arch, Dist};

#[test]
fn test_name_extraction() {
    let cases = vec![
        ("notes-2.3.1-1.x86_64.rpm", "notes"),
        ("OpenBangla-Keyboard_2.0.0.deb", "OpenBangla-Keyboard"),
        ("caprine_2.60.3_amd64.deb", "caprine"),
        ("rustdesk-1.3.8-aarch64.deb", "rustdesk"),
        ("myapp-v1.2.3.deb", "myapp"),
        ("special_pkg-v2.3_arm64.deb", "special_pkg"),
    ];

    for (filename, expected) in cases {
        let info = PackageInfo::parse_package(filename);
        assert_eq!(
            info.name,
            Some(expected.to_string()),
            "Failed for: {}",
            filename
        );
    }
}

#[test]
fn test_fedora_38() {
    let info = PackageInfo::parse_package("notes-2.3.1-1.x86_64-qt6-fedora-38.rpm");
    assert_eq!(info.name, Some("notes".into()));
    assert_eq!(info.distro, Some(Dist::fedora("38")));
    assert_eq!(info.architecture, Some(Arch::Amd64));
}

#[test]
fn test_fedora38_short() {
    let info = PackageInfo::parse_package("OpenBangla-Keyboard_2.0.0-fedora38.rpm");
    assert_eq!(info.name, Some("OpenBangla-Keyboard".into()));
    assert_eq!(info.distro, Some(Dist::fedora("38")));
    assert_eq!(info.architecture, None);
}

#[test]
fn test_opensuse_leap() {
    let info = PackageInfo::parse_package("flameshot-12.1.0-1-lp15.2.x86_64.rpm");
    assert_eq!(info.name, Some("flameshot".into()));
    assert_eq!(info.distro, Some(Dist::leap("15.2")));
    assert_eq!(info.architecture, Some(Arch::Amd64));
}

#[test]
fn test_ubuntu_jammy() {
    let info = PackageInfo::parse_package("notes_2.3.1_amd64-qt6-ubuntu-jammy.deb");
    assert_eq!(info.name, Some("notes".into()));
    assert_eq!(info.distro, Some(Dist::ubuntu("22.04")));
    assert_eq!(info.architecture, Some(Arch::Amd64));
}

#[test]
fn test_debian10() {
    let info = PackageInfo::parse_package("flameshot-12.1.0-1.debian-10.amd64.deb");
    assert_eq!(info.name, Some("flameshot".into()));
    assert_eq!(info.distro, Some(Dist::debian("10")));
    assert_eq!(info.architecture, Some(Arch::Amd64));
}

#[test]
fn test_suse() {
    let info = PackageInfo::parse_package("rustdesk-1.3.8-0.aarch64-suse.rpm");
    assert_eq!(info.name, Some("rustdesk".into()));
    assert_eq!(info.distro, Some(Dist::Tumbleweed));
    assert_eq!(info.architecture, Some(Arch::Aarch64));
}

#[test]
fn test_opensuse_tumbleweed_full_pattern() {
    let filename = "another-package-2.3.4-1.tumbleweed.noarch.rpm";
    let result = PackageInfo::parse_package(filename);
    assert_eq!(result.name, Some("another-package".into()));
    assert_eq!(result.distro, Some(Dist::Tumbleweed));
}

#[test]
fn test_distro_without_version() {
    let info = PackageInfo::parse_package("ibus-openbangla_3.0.0-fedora.rpm");
    assert_eq!(info.name, Some("ibus-openbangla".into()));
    assert_eq!(info.distro, Some(Dist::Fedora(None)));
    assert_eq!(info.architecture, None);

    let info = PackageInfo::parse_package("ibus-openbangla_3.0.0-ubuntu.deb");
    assert_eq!(info.distro, Some(Dist::Ubuntu(None)));

    let info = PackageInfo::parse_package("ibus-openbangla_3.0.0-debian.deb");
    assert_eq!(info.distro, Some(Dist::Debian(None)));
}

#[test]
fn test_caprine() {
    let info = PackageInfo::parse_package("caprine_2.60.3_amd64.deb");
    assert_eq!(info.name, Some("caprine".into()));
    assert_eq!(info.distro, None); // No distro pattern matched
    assert_eq!(info.architecture, Some(Arch::Amd64));
}

#[test]
fn every_listed_architecture_is_found() {
    let cases = vec![
        ("fastfetch-linux-aarch64.deb", Arch::Aarch64),
        ("fastfetch-linux-amd64.deb", Arch::Amd64),
        ("fastfetch-linux-armv6l.deb", Arch::Armhf),
        ("fastfetch-linux-armv7l.deb", Arch::Armv7),
        ("fastfetch-linux-ppc64le.deb", Arch::PPC64le),
        ("fastfetch-linux-riscv64.deb", Arch::RiscV64),
        ("fastfetch-linux-s390x.deb", Arch::S390x),
        ("tool_1.0_ARM64.deb", Arch::Arm64),
        ("tool_1.0_armhf.deb", Arch::Armhf),
        ("tool-1.0.X86_64.rpm", Arch::Amd64),
    ];
    for (filename, expected) in cases {
        let info = PackageInfo::parse_package(filename);
        assert_eq!(info.architecture, Some(expected), "Failed for: {}", filename);
    }
}

#[test]
fn distribution_patterns_in_order() {
    let cases = vec![
        ("flameshot-12.1.0-1.fc36.x86_64.rpm", Some(Dist::fedora("36"))),
        ("app_1.0-fedora-40.rpm", Some(Dist::fedora("40"))),
        ("app_1.0-opensuse-leap-15.6.rpm", Some(Dist::leap("15.6"))),
        ("app_1.0-opensuse-leap.rpm", Some(Dist::Leap(None))),
        ("app_1.0-debian12.deb", Some(Dist::debian("12"))),
        ("app_1.0-ubuntu-24.04.deb", Some(Dist::ubuntu("24.04"))),
        ("app_1.0-ubuntu-precise.deb", Some(Dist::ubuntu("12.04"))),
        ("app_1.0-ubuntu-trusty.deb", Some(Dist::ubuntu("14.04"))),
        ("app_1.0-ubuntu-xenial.deb", Some(Dist::ubuntu("16.04"))),
        ("app_1.0-ubuntu-bionic.deb", Some(Dist::ubuntu("18.04"))),
        ("app_1.0-ubuntu-focal.deb", Some(Dist::ubuntu("20.04"))),
        ("app_1.0-ubuntu-lunar.deb", Some(Dist::ubuntu("23.04"))),
        ("app_1.0-ubuntu-mantic.deb", Some(Dist::ubuntu("23.10"))),
        ("app_1.0-ubuntu-noble.deb", Some(Dist::ubuntu("24.04"))),
        ("app_1.0-ubuntu-warty.deb", Some(Dist::Ubuntu(None))),
        ("app_1.0-tw.rpm", Some(Dist::Tumbleweed)),
        ("app_1.0-openSUSE.rpm", Some(Dist::Tumbleweed)),
        ("app_1.0.rpm", None),
    ];
    for (filename, expected) in cases {
        let info = PackageInfo::parse_package(filename);
        assert_eq!(info.distro, expected, "Failed for: {}", filename);
    }
}

#[test]
fn name_is_absent_without_a_version_token() {
    let info = PackageInfo::parse_package("fastfetch-linux-amd64.deb");
    assert_eq!(info.name, None);
    assert_eq!(info.architecture, Some(Arch::Amd64));
}
