use packhub::platform::{
    apt_version, catalog_entries, detect_opensuse_tumbleweed, detect_rpm_os, fresh_version,
    get_apt_version, get_fedora_version, parse_apt_agent, AptPlatformDetection,
};
use packhub::utils::Dist;
use packhub::version::Version;

#[test]
fn test_apt_version() {
    assert_eq!(get_apt_version("Debian APT-HTTP/1.3 (2.5.3)"), "2.5.3");
}

#[test]
fn test_fedora_version() {
    assert_eq!(
        get_fedora_version("libdnf (Fedora Linux 38; container; Linux.x86_64)").as_deref(),
        Some("38")
    );
    assert_eq!(
        get_fedora_version("libdnf (Fedora Linux 39; container; Linux.x86_64)").as_deref(),
        Some("39")
    );
}

#[test]
fn test_detect_opensuse() {
    assert!(detect_opensuse_tumbleweed(
        "ZYpp 17.31.15 (curl 8.5.0) openSUSE-Tumbleweed-x86_64"
    ));
}

#[test]
fn agents_of_other_clients_are_told_apart() {
    assert_eq!(apt_version("curl/8.5.0"), None);
    assert_eq!(apt_version("Debian APT-HTTP/1.3 (2.7.14build2)").as_deref(), Some("2.7.14build2"));
    assert_eq!(get_fedora_version("Debian APT-HTTP/1.3 (2.5.3)"), None);
    assert!(!detect_opensuse_tumbleweed("libdnf (Fedora Linux 39; container; Linux.x86_64)"));
    assert!(!detect_opensuse_tumbleweed("ZYpp 17.31.15 (curl 8.5.0) openSUSE-Leap-15.5-x86_64"));
}

#[test]
fn rpm_agents_give_fedora_or_tumbleweed() {
    assert_eq!(
        detect_rpm_os("libdnf (Fedora Linux 39; container; Linux.x86_64)"),
        Some(Dist::fedora("39"))
    );
    assert_eq!(
        detect_rpm_os("ZYpp 17.31.15 (curl 8.5.0) openSUSE-Tumbleweed-x86_64"),
        Some(Dist::Tumbleweed)
    );
    assert_eq!(detect_rpm_os("Debian APT-HTTP/1.3 (2.5.3)"), None);
    assert_eq!(detect_rpm_os(""), None);
}

fn version(major: u64, minor: u64, patch: u64, pre: &str, build: &str) -> Version {
    Version { major, minor, patch, pre: pre.to_owned(), build: build.to_owned() }
}

#[test]
fn noise_in_apt_versions_is_removed() {
    // A number in front of a suffix becomes the patch number.
    assert_eq!(
        fresh_version(version(1, 0, 0, "1ubuntu2.24", "")),
        version(1, 0, 1, "", "")
    );
    // Build metadata is dropped.
    assert_eq!(fresh_version(version(1, 8, 2, "", "3")), version(1, 8, 2, "", ""));
    // A tag without a suffixed number stays.
    assert_eq!(fresh_version(version(2, 7, 14, "build", "x")), version(2, 7, 14, "build", ""));
    // A number that does not fit 64 bits leaves patch and tag as they are.
    assert_eq!(
        fresh_version(version(1, 2, 3, "99999999999999999999999x", "b")),
        version(1, 2, 3, "99999999999999999999999x", "")
    );
    assert_eq!(parse_apt_agent("Debian APT-HTTP/1.3 (2.4.10)"), Some(version(2, 4, 10, "", "")));
    assert_eq!(parse_apt_agent("Debian APT-HTTP/1.3 (1.8.2.3)"), Some(version(1, 8, 2, "", "")));
    assert_eq!(parse_apt_agent("Wget/1.21"), None);
}

fn catalog() -> &'static str {
    r#"[
        {"repo": "ubuntu_20_04", "version": "2.0.2"},
        {"repo": "ubuntu_20_04", "version": "2.0.11"},
        {"repo": "ubuntu_22_04", "version": "2.4.5"},
        {"repo": "ubuntu_22_04", "version": "2.4.14"},
        {"repo": "ubuntu_24_04", "version": "2.7.14build2"},
        {"repo": "ubuntu_24_04", "version": "2.8.3"},
        {"repo": "ubuntu_24_04_proposed", "version": "2.8.4"},
        {"repo": "debian_10", "version": "1.8.2.3"},
        {"repo": "debian_11", "version": "2.2.4"},
        {"repo": "debian_12", "version": "2.6.1"},
        {"repo": "debian_unstable", "version": "not a version"},
        {"repo": "fedora_39", "version": "2.7.1"},
        {"repo": "arch"},
        {"name": "apt"}
    ]"#
}

#[test]
fn apt_table_matches_releases() {
    let platform = AptPlatformDetection::initialize(catalog()).unwrap();

    // Ubuntu
    assert_eq!(
        platform.detect_ubuntu_for_apt("Debian APT-HTTP/1.3 (2.0.2)"),
        Dist::ubuntu("20.04")
    );
    assert_eq!(
        platform.detect_ubuntu_for_apt("Debian APT-HTTP/1.3 (2.0.9)"),
        Dist::ubuntu("20.04")
    );
    assert_eq!(
        platform.detect_ubuntu_for_apt("Debian APT-HTTP/1.3 (2.4.5)"),
        Dist::ubuntu("22.04")
    );
    assert_eq!(
        platform.detect_ubuntu_for_apt("Debian APT-HTTP/1.3 (2.4.8)"),
        Dist::ubuntu("22.04")
    );
    assert_eq!(
        platform.detect_ubuntu_for_apt("Debian APT-HTTP/1.3 (2.4.10)"),
        Dist::ubuntu("22.04")
    );
    assert_eq!(
        platform.detect_ubuntu_for_apt("Debian APT-HTTP/1.3 (2.7.14build2)"),
        Dist::ubuntu("24.04")
    );
    assert_eq!(
        platform.detect_ubuntu_for_apt("Debian APT-HTTP/1.3 (2.8.4)"),
        Dist::ubuntu("24.04")
    );

    // Debian
    assert_eq!(
        platform.detect_debian_for_apt("Debian APT-HTTP/1.3 (1.8.2.3)"),
        Dist::debian("10")
    );
    assert_eq!(
        platform.detect_debian_for_apt("Debian APT-HTTP/1.3 (2.2.4)"),
        Dist::debian("11")
    );
    assert_eq!(
        platform.detect_debian_for_apt("Debian APT-HTTP/1.3 (2.6.1)"),
        Dist::debian("12")
    );
}

#[test]
fn unknown_agents_give_an_unknown_version() {
    let platform = AptPlatformDetection::initialize(catalog()).unwrap();
    assert_eq!(platform.detect_ubuntu_for_apt("curl/8.5.0"), Dist::Ubuntu(None));
    assert_eq!(platform.detect_debian_for_apt("curl/8.5.0"), Dist::Debian(None));
    assert_eq!(
        platform.detect_ubuntu_for_apt("Debian APT-HTTP/1.3 (9.9.9)"),
        Dist::Ubuntu(None)
    );
    // The version of Debian 12 is no version of any Ubuntu release here.
    assert_eq!(
        platform.detect_ubuntu_for_apt("Debian APT-HTTP/1.3 (2.6.1)"),
        Dist::Ubuntu(None)
    );
}

#[test]
fn catalog_rows_follow_first_appearance() {
    let platform = AptPlatformDetection::initialize(catalog()).unwrap();
    let repos: Vec<&str> = platform.releases().iter().map(|r| r.repo.as_str()).collect();
    assert_eq!(
        repos,
        vec!["ubuntu_20_04", "ubuntu_22_04", "ubuntu_24_04", "debian_10", "debian_11", "debian_12"]
    );
    let row = &platform.releases()[2];
    assert_eq!(row.dist, Dist::ubuntu("24.04"));
    assert_eq!(row.oldest, version(2, 7, 14, "", ""));
    assert_eq!(row.newest, version(2, 8, 4, "", ""));
}

#[test]
fn a_catalog_that_is_no_array_is_refused() {
    assert!(AptPlatformDetection::initialize("{}").is_err());
    assert!(AptPlatformDetection::initialize("not json").is_err());
    assert!(AptPlatformDetection::initialize("[]").unwrap().releases().is_empty());
}

#[test]
fn missing_texts_of_the_catalog_count_as_empty() {
    let elements = vec![
        (Some("ubuntu_24_04".to_owned()), Some("2.7.14".to_owned())),
        (Some("arch".to_owned()), None),
        (None, Some("1.0".to_owned())),
        (None, None),
    ];
    assert_eq!(
        catalog_entries(&elements),
        vec![
            ("ubuntu_24_04".to_owned(), "2.7.14".to_owned()),
            ("arch".to_owned(), String::new()),
            (String::new(), "1.0".to_owned()),
            (String::new(), String::new()),
        ]
    );
    assert!(catalog_entries(&Vec::new()).is_empty());
    // A version that is no text is none.
    let table = AptPlatformDetection::initialize(
        r#"[{"repo": "ubuntu_24_04", "version": 3}, {"repo": 7, "version": "2.0"}]"#,
    )
    .unwrap();
    assert!(table.releases().is_empty());
}

#[test]
fn releases_are_matched_as_requirements() {
    let entries = vec![
        ("ubuntu_22_04".to_owned(), "2.4.5".to_owned()),
        ("ubuntu_22_04_proposed".to_owned(), "2.4.14".to_owned()),
        ("ubuntu_22_04".to_owned(), "2.4.9".to_owned()),
        ("debian_12".to_owned(), "2.6.1".to_owned()),
        ("ubuntu_24_04".to_owned(), "2.7.14build2".to_owned()),
        ("fedora_40".to_owned(), "2.7.0".to_owned()),
        ("ubuntu_18_04".to_owned(), "nothing".to_owned()),
    ];
    let table = AptPlatformDetection::from_catalog(&entries);
    let rows = table.releases();
    assert_eq!(rows.len(), 3);
    assert_eq!(rows[0].repo, "ubuntu_22_04");
    // The numbers compare as numbers: 2.4.14 is newer than 2.4.9.
    assert_eq!(rows[0].oldest, version(2, 4, 5, "", ""));
    assert_eq!(rows[0].newest, version(2, 4, 14, "", ""));
    assert_eq!(rows[1].repo, "debian_12");
    assert_eq!(rows[1].oldest, rows[1].newest);
    assert_eq!(rows[2].oldest, version(2, 7, 14, "", ""));

    let agent = |v: &str| format!("Debian APT-HTTP/1.3 ({})", v);
    assert_eq!(table.detect_ubuntu_for_apt(&agent("2.4.5")), Dist::ubuntu("22.04"));
    assert_eq!(table.detect_ubuntu_for_apt(&agent("2.4.10")), Dist::ubuntu("22.04"));
    assert_eq!(table.detect_ubuntu_for_apt(&agent("2.4.14")), Dist::ubuntu("22.04"));
    assert_eq!(table.detect_ubuntu_for_apt(&agent("2.4.15")), Dist::Ubuntu(None));
    assert_eq!(table.detect_ubuntu_for_apt(&agent("2.4.4")), Dist::Ubuntu(None));
    // A release with one version takes that version only.
    assert_eq!(table.detect_debian_for_apt(&agent("2.6.1")), Dist::debian("12"));
    assert_eq!(table.detect_debian_for_apt(&agent("2.6.2")), Dist::Debian(None));
    assert_eq!(table.detect_debian_for_apt(&agent("2.4.10")), Dist::Debian(None));
    assert_eq!(table.detect_ubuntu_for_apt(&agent("2.7.14build2")), Dist::ubuntu("24.04"));
    // A version with another tag is no version of the release.
    assert_eq!(table.detect_ubuntu_for_apt(&agent("2.7.14-rc")), Dist::Ubuntu(None));
    // Between the bounds, a version with a tag meets no requirement
    // that names none.
    assert_eq!(table.detect_ubuntu_for_apt(&agent("2.4.10-rc")), Dist::Ubuntu(None));
}
