use packhub::package::Package;
use packhub::selector::{select_indices, select_packages};
use packhub::utils::Dist;

fn openbangla_keyboard_packages() -> Vec<Package> {
    [
        package("OpenBangla-Keyboard_2.0.0-debian10-buster.deb"),
        package("OpenBangla-Keyboard_2.0.0-debian11.deb"),
        package("OpenBangla-Keyboard_2.0.0-debian9-stretch.deb"),
        package("OpenBangla-Keyboard_2.0.0-fedora29.rpm"),
        package("OpenBangla-Keyboard_2.0.0-fedora30.rpm"),
        package("OpenBangla-Keyboard_2.0.0-fedora31.rpm"),
        package("OpenBangla-Keyboard_2.0.0-fedora32.rpm"),
        package("OpenBangla-Keyboard_2.0.0-fedora33.rpm"),
        package("OpenBangla-Keyboard_2.0.0-fedora34.rpm"),
        package("OpenBangla-Keyboard_2.0.0-fedora35.rpm"),
        package("OpenBangla-Keyboard_2.0.0-fedora36.rpm"),
        package("OpenBangla-Keyboard_2.0.0-fedora37.rpm"),
        package("OpenBangla-Keyboard_2.0.0-fedora38.rpm"),
        package("OpenBangla-Keyboard_2.0.0-ubuntu18.04.deb"),
        package("OpenBangla-Keyboard_2.0.0-ubuntu19.10.deb"),
        package("OpenBangla-Keyboard_2.0.0-ubuntu20.04.deb"),
        package("OpenBangla-Keyboard_2.0.0-ubuntu21.04.deb"),
        package("OpenBangla-Keyboard_2.0.0-ubuntu22.04.deb"),
    ]
    .into()
}

fn multiple_packages() -> Vec<Package> {
    [
        package("fcitx-openbangla_3.0.0.deb"),
        package("ibus-openbangla_3.0.0.deb"),
        package("fcitx-openbangla_3.0.0-fedora.rpm"),
        package("ibus-openbangla_3.0.0-fedora.rpm"),
        package("ibus-openbangla_3.0.0-opensuse-tumbleweed.rpm"),
        package("fcitx-openbangla_3.0.0-opensuse-tumbleweed.rpm"),
    ]
    .into()
}

fn sort<'a>(mut v: Vec<&'a Package>) -> Vec<&'a Package> {
    v.sort_by(|a, b| a.file_name().cmp(b.file_name()));
    v
}

/// A shorthand for `Package::detect_package()`
fn package(p: &str) -> Package {
    Package::detect_package(p, String::new(), p.to_owned(), 0).unwrap()
}

#[test]
fn test_package_selection_ubuntu() {
    let packages: Vec<Package> = openbangla_keyboard_packages();

    assert_eq!(
        select_packages(&packages, Dist::ubuntu("18.04")),
        vec![&package("OpenBangla-Keyboard_2.0.0-ubuntu18.04.deb")]
    );
    assert_eq!(
        select_packages(&packages, Dist::ubuntu("20.04")),
        vec![&package("OpenBangla-Keyboard_2.0.0-ubuntu20.04.deb")]
    );
    assert_eq!(
        select_packages(&packages, Dist::ubuntu("22.04")),
        vec![&package("OpenBangla-Keyboard_2.0.0-ubuntu22.04.deb")]
    );
}

#[test]
fn test_package_selection_fedora() {
    let packages: Vec<Package> = openbangla_keyboard_packages();

    assert_eq!(
        select_packages(&packages, Dist::fedora("38")),
        vec![&package("OpenBangla-Keyboard_2.0.0-fedora38.rpm")]
    );
}

#[test]
fn test_package_selection_debian() {
    let packages: Vec<Package> = openbangla_keyboard_packages();

    assert_eq!(
        select_packages(&packages, Dist::debian("11")),
        vec![&package("OpenBangla-Keyboard_2.0.0-debian11.deb")]
    );
}

#[test]
fn test_multiple_package_selection() {
    let packages = multiple_packages();

    assert_eq!(
        sort(select_packages(&packages, Dist::ubuntu("22.04"))),
        vec![
            &package("fcitx-openbangla_3.0.0.deb"),
            &package("ibus-openbangla_3.0.0.deb")
        ]
    );

    assert_eq!(
        sort(select_packages(&packages, Dist::fedora("39"))),
        vec![
            &package("fcitx-openbangla_3.0.0-fedora.rpm"),
            &package("ibus-openbangla_3.0.0-fedora.rpm")
        ]
    );

    assert_eq!(
        sort(select_packages(&packages, Dist::Tumbleweed)),
        vec![
            &package("fcitx-openbangla_3.0.0-opensuse-tumbleweed.rpm"),
            &package("ibus-openbangla_3.0.0-opensuse-tumbleweed.rpm")
        ]
    );
}

#[test]
fn test_package_selection_closest() {
    let packages: Vec<Package> = openbangla_keyboard_packages();

    assert_eq!(
        select_packages(&packages, Dist::fedora("41")),
        vec![&package("OpenBangla-Keyboard_2.0.0-fedora38.rpm")]
    );
    assert_eq!(
        select_packages(&packages, Dist::ubuntu("24.04")),
        vec![&package("OpenBangla-Keyboard_2.0.0-ubuntu22.04.deb")]
    );

    let packages = [
        package("flameshot-12.1.0-1-lp15.2.x86_64.rpm"),
        package("flameshot-12.1.0-1.debian-10.amd64.deb"),
        package("flameshot-12.1.0-1.debian-10.arm64.deb"),
        package("flameshot-12.1.0-1.debian-10.armhf.deb"),
        package("flameshot-12.1.0-1.debian-11.amd64.deb"),
        package("flameshot-12.1.0-1.debian-11.arm64.deb"),
        package("flameshot-12.1.0-1.debian-11.armhf.deb"),
        package("flameshot-12.1.0-1.fc35.x86_64.rpm"),
        package("flameshot-12.1.0-1.fc36.x86_64.rpm"),
        package("flameshot-12.1.0-1.ubuntu-20.04.amd64.deb"),
        package("flameshot-12.1.0-1.ubuntu-22.04.amd64.deb"),
    ];

    assert_eq!(
        select_packages(&packages, Dist::fedora("39")),
        vec![&package("flameshot-12.1.0-1.fc36.x86_64.rpm")]
    );

    assert_eq!(
        select_packages(&packages, Dist::ubuntu("21.04")),
        vec![&package("flameshot-12.1.0-1.ubuntu-20.04.amd64.deb")]
    );

    assert_eq!(
        select_packages(&packages, Dist::ubuntu("24.04")),
        vec![&package("flameshot-12.1.0-1.ubuntu-22.04.amd64.deb")]
    );

    assert_eq!(
        sort(select_packages(&packages, Dist::debian("12"))),
        vec![
            &package("flameshot-12.1.0-1.debian-11.amd64.deb"),
            &package("flameshot-12.1.0-1.debian-11.arm64.deb"),
            &package("flameshot-12.1.0-1.debian-11.armhf.deb")
        ]
    );
}

#[test]
fn test_package_selection_without_dist() {
    let packages = [package("caprine_2.60.3_amd64.deb")];

    assert_eq!(
        select_packages(&packages, Dist::ubuntu("24.04")),
        vec![&package("caprine_2.60.3_amd64.deb")]
    );
}

#[test]
fn picks_come_out_ordered_by_file_name() {
    let packages = [
        package("zeta_1.0-ubuntu22.04.deb"),
        package("alpha_1.0-ubuntu22.04.deb"),
        package("mid_1.0-ubuntu20.04.deb"),
        package("mid_1.0-ubuntu24.04.deb"),
    ];
    assert_eq!(select_indices(&packages, &Dist::ubuntu("22.04")), vec![1, 2, 0]);
    assert_eq!(
        select_packages(&packages, Dist::ubuntu("22.04")),
        vec![&packages[1], &packages[2], &packages[0]]
    );
}

#[test]
fn newer_builds_only_give_no_pick() {
    let packages = [
        package("tool_1.0-ubuntu22.04.deb"),
        package("tool_1.0-ubuntu24.04.deb"),
    ];
    assert_eq!(select_indices(&packages, &Dist::ubuntu("20.04")), Vec::<usize>::new());
}

#[test]
fn one_pick_for_each_name_and_architecture() {
    let packages = [
        package("tool_1.0-debian11_amd64.deb"),
        package("tool_1.0-debian12_amd64.deb"),
        package("tool_1.0-debian12_arm64.deb"),
        package("tool_1.1-debian12_amd64.deb"),
        package("other_1.0-debian10_amd64.deb"),
        package("tool_1.0-fedora38.rpm"),
    ];
    // Of the two amd64 builds for Debian 12, the first one in the list wins.
    assert_eq!(select_indices(&packages, &Dist::debian("12")), vec![4, 1, 2]);
}

#[test]
fn without_a_family_match_all_compatible_packages_stay_in_order() {
    let packages = [
        package("b_1.0_amd64.deb"),
        package("tool_1.0-fedora38.rpm"),
        package("a_1.0-debian12.deb"),
        package("a_1.1_amd64.deb"),
    ];
    assert_eq!(select_indices(&packages, &Dist::ubuntu("24.04")), vec![0, 2, 3]);
    assert_eq!(select_indices(&packages, &Dist::leap("15.6")), vec![1]);
}

#[test]
fn packages_without_a_display_name_give_no_pick() {
    let packages = [
        package("fastfetch-linux-amd64-ubuntu.deb"),
        package("tool_1.0-ubuntu22.04.deb"),
    ];
    assert_eq!(select_indices(&packages, &Dist::ubuntu("22.04")), vec![1]);
}

#[test]
fn the_pick_is_the_newest_build_that_is_not_newer() {
    let packages: Vec<Package> = [
        "tool_1.0_ubuntu9.10_amd64.deb",
        "tool_1.0_ubuntu10.04_amd64.deb",
        "tool_1.0_ubuntu22.04_amd64.deb",
        "tool_1.0_ubuntu24.04_amd64.deb",
    ]
    .iter()
    .map(|name| package(name))
    .collect();
    let names = |dist: Dist| -> Vec<String> {
        select_packages(&packages, dist).iter().map(|p| p.file_name().to_owned()).collect()
    };
    // 10.04 is newer than 9.10, though it comes first as text.
    assert_eq!(names(Dist::ubuntu("20.04")), vec!["tool_1.0_ubuntu10.04_amd64.deb"]);
    assert_eq!(names(Dist::ubuntu("9.10")), vec!["tool_1.0_ubuntu9.10_amd64.deb"]);
    assert_eq!(names(Dist::ubuntu("23.10")), vec!["tool_1.0_ubuntu22.04_amd64.deb"]);
    assert_eq!(names(Dist::ubuntu("24.04")), vec!["tool_1.0_ubuntu24.04_amd64.deb"]);
    assert!(names(Dist::ubuntu("8.04")).is_empty());
}
