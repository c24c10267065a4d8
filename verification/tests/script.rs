use packhub::error::Error;
use packhub::script::{
    generate_apt_script, generate_rpm_script, script_handler, AptScript, RPMScript,
};
use packhub::utils::{AppVersion, ReleaseChannel};

const HOST: &str = "https://packhub.dev";

fn rpm_script(ver: AppVersion, channel: ReleaseChannel) -> RPMScript {
    RPMScript {
        host: HOST.to_owned(),
        owner: "OpenBangla".to_owned(),
        repo: "OpenBangla-Keyboard".to_owned(),
        mgr: "yum.repos.d".to_owned(),
        ver,
        channel,
    }
}

#[test]
fn apt_test_script_generation_apt() {
    let apt_script = generate_apt_script(
        HOST,
        "ubuntu",
        "OpenBangla",
        "OpenBangla-Keyboard",
        &ReleaseChannel::Stable,
    );
    assert_eq!(
        apt_script,
        "#!/bin/sh\nset -e\n\n\
         curl -fsSL https://packhub.dev/v1/keys/packhub.asc | gpg --dearmor -o /usr/share/keyrings/packhub.gpg\n\
         echo \"deb [signed-by=/usr/share/keyrings/packhub.gpg] https://packhub.dev/v2/apt/ubuntu/github/OpenBangla/OpenBangla-Keyboard stable main\" > /etc/apt/sources.list.d/OpenBangla-Keyboard-stable.list\n\
         apt-get update\n"
    );

    let apt_script_unstable = generate_apt_script(
        HOST,
        "ubuntu",
        "OpenBangla",
        "OpenBangla-Keyboard",
        &ReleaseChannel::Unstable,
    );
    assert!(apt_script_unstable.contains(
        "https://packhub.dev/v2/apt/ubuntu/github/OpenBangla/OpenBangla-Keyboard unstable main"
    ));
    assert!(apt_script_unstable.contains("/etc/apt/sources.list.d/OpenBangla-Keyboard-unstable.list"));
}

#[test]
fn script_test_script_generation_apt() {
    let script = AptScript {
        host: HOST.to_owned(),
        distro: "debian".to_owned(),
        owner: "OpenBangla".to_owned(),
        repo: "OpenBangla-Keyboard".to_owned(),
        channel: ReleaseChannel::Stable,
    };
    assert_eq!(
        script.render(),
        generate_apt_script(HOST, "debian", "OpenBangla", "OpenBangla-Keyboard", &ReleaseChannel::Stable)
    );
    assert!(script.render().contains("/v2/apt/debian/github/OpenBangla/OpenBangla-Keyboard stable main"));
}

#[test]
fn test_script_generation_rpm() {
    let script = generate_rpm_script(
        HOST,
        "OpenBangla",
        "OpenBangla-Keyboard",
        "yum.repos.d",
        &AppVersion::V2,
        &ReleaseChannel::Stable,
    );
    assert_eq!(
        script,
        "#!/bin/sh\nset -e\n\n\
         rpm --import https://packhub.dev/v1/keys/packhub.asc\n\
         cat > /etc/yum.repos.d/OpenBangla-Keyboard.repo <<EOF\n\
         [OpenBangla-Keyboard]\n\
         name=OpenBangla-Keyboard\n\
         baseurl=https://packhub.dev/v2/rpm/github/OpenBangla/OpenBangla-Keyboard/stable\n\
         enabled=1\n\
         gpgcheck=0\n\
         repo_gpgcheck=1\n\
         gpgkey=https://packhub.dev/v1/keys/packhub.asc\n\
         EOF\n"
    );
}

#[test]
fn test_script_generation_rpm_v1() {
    let yum = generate_rpm_script(
        HOST,
        "OpenBangla",
        "OpenBangla-Keyboard",
        "yum.repos.d",
        &AppVersion::V1,
        &ReleaseChannel::Stable,
    );
    assert!(yum.contains("cat > /etc/yum.repos.d/OpenBangla-Keyboard.repo <<EOF\n"));
    assert!(yum.contains("baseurl=https://packhub.dev/v1/rpm/github/OpenBangla/OpenBangla-Keyboard\n"));

    let zypp = generate_rpm_script(
        HOST,
        "OpenBangla",
        "OpenBangla-Keyboard",
        "zypp/repos.d",
        &AppVersion::V1,
        &ReleaseChannel::Stable,
    );
    assert!(zypp.contains("cat > /etc/zypp/repos.d/OpenBangla-Keyboard.repo <<EOF\n"));
    assert!(zypp.contains("baseurl=https://packhub.dev/v1/rpm/github/OpenBangla/OpenBangla-Keyboard\n"));
}

#[test]
fn test_script_generation_rpm_v2() {
    let yum = generate_rpm_script(
        HOST,
        "OpenBangla",
        "OpenBangla-Keyboard",
        "yum.repos.d",
        &AppVersion::V2,
        &ReleaseChannel::Stable,
    );
    assert!(yum.contains("cat > /etc/yum.repos.d/OpenBangla-Keyboard.repo <<EOF\n"));
    assert!(yum.contains(
        "baseurl=https://packhub.dev/v2/rpm/github/OpenBangla/OpenBangla-Keyboard/stable\n"
    ));

    let zypp = generate_rpm_script(
        HOST,
        "OpenBangla",
        "OpenBangla-Keyboard",
        "zypp/repos.d",
        &AppVersion::V2,
        &ReleaseChannel::Stable,
    );
    assert!(zypp.contains("cat > /etc/zypp/repos.d/OpenBangla-Keyboard.repo <<EOF\n"));

    let yum_unstable = generate_rpm_script(
        HOST,
        "OpenBangla",
        "OpenBangla-Keyboard",
        "yum.repos.d",
        &AppVersion::V2,
        &ReleaseChannel::Unstable,
    );
    assert!(yum_unstable.contains("cat > /etc/yum.repos.d/OpenBangla-Keyboard-unstable.repo <<EOF\n"));
    assert!(yum_unstable.contains("[OpenBangla-Keyboard-unstable]\n"));
    assert!(yum_unstable.contains("name=OpenBangla-Keyboard (unstable)\n"));
    assert!(yum_unstable.contains(
        "baseurl=https://packhub.dev/v2/rpm/github/OpenBangla/OpenBangla-Keyboard/unstable\n"
    ));

    let zypp_unstable = generate_rpm_script(
        HOST,
        "OpenBangla",
        "OpenBangla-Keyboard",
        "zypp/repos.d",
        &AppVersion::V2,
        &ReleaseChannel::Unstable,
    );
    assert!(zypp_unstable.contains("cat > /etc/zypp/repos.d/OpenBangla-Keyboard-unstable.repo <<EOF\n"));
}

#[test]
fn repository_names_and_addresses() {
    let stable = rpm_script(AppVersion::V2, ReleaseChannel::Stable);
    assert_eq!(stable.base_url(), "https://packhub.dev/v2/rpm/github/OpenBangla/OpenBangla-Keyboard/stable");
    assert_eq!(stable.repo_name(), "OpenBangla-Keyboard");
    assert_eq!(stable.name(), "OpenBangla-Keyboard");

    let unstable = rpm_script(AppVersion::V2, ReleaseChannel::Unstable);
    assert_eq!(
        unstable.base_url(),
        "https://packhub.dev/v2/rpm/github/OpenBangla/OpenBangla-Keyboard/unstable"
    );
    assert_eq!(unstable.repo_name(), "OpenBangla-Keyboard-unstable");
    assert_eq!(unstable.name(), "OpenBangla-Keyboard (unstable)");

    // The first URL scheme knows no channels.
    let old = rpm_script(AppVersion::V1, ReleaseChannel::Unstable);
    assert_eq!(old.base_url(), "https://packhub.dev/v1/rpm/github/OpenBangla/OpenBangla-Keyboard");
}

#[test]
fn scripts_are_chosen_by_package_manager() {
    let apt = script_handler(HOST, "ubuntu", "o", "r", None, None).unwrap();
    assert_eq!(apt, generate_apt_script(HOST, "ubuntu", "o", "r", &ReleaseChannel::Stable));
    let apt = script_handler(HOST, "debian", "o", "r", Some(true), None).unwrap();
    assert_eq!(apt, generate_apt_script(HOST, "debian", "o", "r", &ReleaseChannel::Unstable));
    let apt = script_handler(HOST, "debian", "o", "r", Some(false), Some(AppVersion::V1)).unwrap();
    assert_eq!(apt, generate_apt_script(HOST, "debian", "o", "r", &ReleaseChannel::Stable));

    let yum = script_handler(HOST, "yum", "o", "r", None, None).unwrap();
    assert_eq!(
        yum,
        generate_rpm_script(HOST, "o", "r", "yum.repos.d", &AppVersion::V2, &ReleaseChannel::Stable)
    );
    let zypp = script_handler(HOST, "zypp", "o", "r", Some(true), Some(AppVersion::V2)).unwrap();
    assert_eq!(
        zypp,
        generate_rpm_script(HOST, "o", "r", "zypp/repos.d", &AppVersion::V2, &ReleaseChannel::Unstable)
    );
    let old = script_handler(HOST, "yum", "o", "r", None, Some(AppVersion::V1)).unwrap();
    assert_eq!(
        old,
        generate_rpm_script(HOST, "o", "r", "yum.repos.d", &AppVersion::V1, &ReleaseChannel::Stable)
    );

    assert_eq!(script_handler(HOST, "rpm", "o", "r", None, None), Err(Error::RouteInput));
    assert_eq!(script_handler(HOST, "arch", "o", "r", None, None), Err(Error::RouteInput));
    assert_eq!(script_handler(HOST, "", "o", "r", None, None), Err(Error::RouteInput));
}

#[test]
fn channel_and_scheme_names_are_read() {
    assert_eq!(ReleaseChannel::parse("stable"), Some(ReleaseChannel::Stable));
    assert_eq!(ReleaseChannel::parse("unstable"), Some(ReleaseChannel::Unstable));
    assert_eq!(ReleaseChannel::parse("Stable"), None);
    assert_eq!(ReleaseChannel::Stable.name(), "stable");
    assert_eq!(ReleaseChannel::Unstable.name(), "unstable");
    assert_eq!(AppVersion::parse("v1"), Some(AppVersion::V1));
    assert_eq!(AppVersion::parse("v2"), Some(AppVersion::V2));
    assert_eq!(AppVersion::parse("v3"), None);
    assert_eq!(AppVersion::V1.name(), "v1");
    assert_eq!(AppVersion::V2.name(), "v2");
}
