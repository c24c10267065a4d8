use packhub::apt::deb::DebianPackage;
use packhub::db::PackageMetadata;
use packhub::error::Error;
use packhub::package::{Data, Package};
use packhub::platform::AptPlatformDetection;
use packhub::repository::{first_published, package_from_asset, sort_by_file_name, Repository};
use packhub::utils::{Dist, ReleaseChannel, Type};
use std::io::Write;

fn tar_of(files: &[(&str, &[u8])]) -> Vec<u8> {
    let mut builder = tar::Builder::new(Vec::new());
    for (path, content) in files {
        let mut header = tar::Header::new_gnu();
        header.as_old_mut().name[..path.len()].copy_from_slice(path.as_bytes());
        header.set_size(content.len() as u64);
        header.set_mode(0o644);
        header.set_cksum();
        builder.append(&header, *content).unwrap();
    }
    builder.into_inner().unwrap()
}

fn deb_for(name: &str) -> Vec<u8> {
    let control = format!("Package: {}\nVersion: 1.0\nArchitecture: amd64\n", name);
    let mut encoder = libflate::gzip::Encoder::new(Vec::new()).unwrap();
    encoder.write_all(&tar_of(&[("./control", control.as_bytes())])).unwrap();
    let control_tar = encoder.finish().into_result().unwrap();
    let mut builder = ar::Builder::new(Vec::new());
    for (member, content) in [("debian-binary", &b"2.0\n"[..]), ("control.tar.gz", &control_tar[..])] {
        let header = ar::Header::new(member.as_bytes().to_vec(), content.len() as u64);
        builder.append(&header, content).unwrap();
    }
    builder.into_inner().unwrap()
}

fn package(p: &str) -> Package {
    Package::detect_package(p, "1.0".to_owned(), p.to_owned(), 0).unwrap()
}

fn platform() -> AptPlatformDetection {
    AptPlatformDetection::initialize(
        r#"[
            {"repo": "ubuntu_22_04", "version": "2.4.5"},
            {"repo": "ubuntu_22_04", "version": "2.4.14"},
            {"repo": "ubuntu_24_04", "version": "2.7.14"},
            {"repo": "debian_12", "version": "2.6.1"}
        ]"#,
    )
    .unwrap()
}

fn repository() -> Repository {
    Repository::new(
        vec![
            package("tool_1.0-ubuntu24.04_amd64.deb"),
            package("tool_1.0-ubuntu22.04_amd64.deb"),
            package("tool_1.0-debian12_amd64.deb"),
            package("tool-1.0-1.fc39.x86_64.rpm"),
            package("tool-1.0-1.fc41.x86_64.rpm"),
            package("tool-1.0-1.tumbleweed.x86_64.rpm"),
            package("alpha_1.0-ubuntu22.04_amd64.deb"),
        ],
        platform(),
    )
}

fn names(packages: &[Package]) -> Vec<&str> {
    packages.iter().map(|p| p.file_name()).collect()
}

#[test]
fn the_unstable_channel_takes_the_newest_release_that_is_no_draft() {
    assert_eq!(first_published(&vec![]), None);
    assert_eq!(first_published(&vec![false]), Some(0));
    assert_eq!(first_published(&vec![true]), None);
    assert_eq!(first_published(&vec![true, true, false, false, true]), Some(2));
    assert_eq!(first_published(&vec![false, true]), Some(0));
    assert_eq!(first_published(&vec![true, true, true]), None);
}

#[test]
fn assets_become_packages_with_their_stored_metadata() {
    let fresh = package_from_asset(
        "tool_1.0_amd64.deb",
        "v1.0".to_owned(),
        "https://example.org/d/tool_1.0_amd64.deb".to_owned(),
        42,
        None,
    )
    .unwrap();
    assert_eq!(*fresh.ty(), Type::Deb);
    assert_eq!(fresh.version(), "v1.0");
    assert_eq!(fresh.file_name(), "tool_1.0_amd64.deb");
    assert_eq!(fresh.creation_date(), 42);
    assert!(matches!(fresh.data(), Data::Empty));

    let stored = PackageMetadata::new("tool_1.0_amd64.deb".to_owned(), 42, "stored".to_owned());
    let cached = package_from_asset(
        "tool_1.0_amd64.deb",
        "v1.0".to_owned(),
        "https://example.org/d/tool_1.0_amd64.deb".to_owned(),
        42,
        Some(stored),
    )
    .unwrap();
    assert!(cached.is_metadata_available());
    match cached.data() {
        Data::Metadata(text) => assert_eq!(text, "stored"),
        _ => panic!("the stored metadata should be in the cell"),
    }

    // Assets that are no packages are dropped.
    assert!(package_from_asset("checksums.txt", String::new(), String::new(), 0, None).is_none());
    assert!(package_from_asset("tool.AppImage", String::new(), String::new(), 0, None).is_none());
}

#[test]
fn apt_clients_get_the_packages_of_their_release() {
    let repo = repository();
    let jammy = repo.select_package_apt("ubuntu", "Debian APT-HTTP/1.3 (2.4.8)").unwrap();
    assert_eq!(
        names(&jammy),
        vec!["alpha_1.0-ubuntu22.04_amd64.deb", "tool_1.0-ubuntu22.04_amd64.deb"]
    );
    let noble = repo.select_package_apt("ubuntu", "Debian APT-HTTP/1.3 (2.7.14)").unwrap();
    assert_eq!(
        names(&noble),
        vec!["alpha_1.0-ubuntu22.04_amd64.deb", "tool_1.0-ubuntu24.04_amd64.deb"]
    );
    let bookworm = repo.select_package_apt("debian", "Debian APT-HTTP/1.3 (2.6.1)").unwrap();
    assert_eq!(names(&bookworm), vec!["tool_1.0-debian12_amd64.deb"]);
    // An agent of unknown version gets only what is built for no version.
    let unknown = repo.select_package_apt("ubuntu", "curl/8").unwrap();
    assert!(unknown.is_empty());

    assert_eq!(
        repo.select_package_apt("fedora", "Debian APT-HTTP/1.3 (2.4.8)").err(),
        Some(Error::UnknownDistribution)
    );
    assert_eq!(repo.select_package_apt("", "").err(), Some(Error::UnknownDistribution));
}

#[test]
fn rpm_clients_get_the_packages_of_their_release() {
    let repo = repository();
    let fedora = repo
        .select_package_rpm("libdnf (Fedora Linux 40; container; Linux.x86_64)")
        .unwrap();
    assert_eq!(names(&fedora), vec!["tool-1.0-1.fc39.x86_64.rpm"]);
    let suse = repo
        .select_package_rpm("ZYpp 17.31.15 (curl 8.5.0) openSUSE-Tumbleweed-x86_64")
        .unwrap();
    assert_eq!(names(&suse), vec!["tool-1.0-1.tumbleweed.x86_64.rpm"]);
    assert_eq!(
        repo.select_package_rpm("Debian APT-HTTP/1.3 (2.4.8)").err(),
        Some(Error::UnknownAgent)
    );
}

#[test]
fn selected_packages_share_their_cells_with_the_repository() {
    let repo = repository();
    let selected = repo.select_package_apt("debian", "Debian APT-HTTP/1.3 (2.6.1)").unwrap();
    assert!(!repo.packages()[2].is_metadata_available());
    selected[0].set_metadata("m".to_owned());
    assert!(repo.packages()[2].is_metadata_available());
}

#[test]
fn only_packages_without_metadata_are_fetched() {
    let cached = package("cached_1.0_amd64.deb");
    cached.set_metadata("m".to_owned());
    let fresh = package("fresh_1.0_amd64.deb");
    let loaded = package("loaded_1.0_amd64.deb");
    loaded.set_package_data(vec![1]);
    let (ready, needed) = Repository::split_for_download(vec![fresh, cached, loaded]);
    assert_eq!(names(&ready), vec!["cached_1.0_amd64.deb"]);
    assert_eq!(names(&needed), vec!["fresh_1.0_amd64.deb", "loaded_1.0_amd64.deb"]);
    let (ready, needed) = Repository::split_for_download(vec![]);
    assert!(ready.is_empty() && needed.is_empty());
}

#[test]
fn packages_are_split_by_their_flags() {
    let packages =
        vec![package("a_1.0.deb"), package("b_1.0.deb"), package("c_1.0.deb"), package("d_1.0.deb")];
    let (ready, needed) = Repository::partition(&packages, &vec![true, false, false, true]);
    assert_eq!(names(&ready), vec!["a_1.0.deb", "d_1.0.deb"]);
    assert_eq!(names(&needed), vec!["b_1.0.deb", "c_1.0.deb"]);
    let (ready, needed) = Repository::partition(&packages, &vec![false; 4]);
    assert!(ready.is_empty());
    assert_eq!(needed.len(), 4);
    // What is handed out shares its cell with what was handed in.
    needed[0].set_metadata("m".to_owned());
    assert!(packages[0].is_metadata_available());
}

#[test]
fn downloads_come_back_ordered_by_file_name() {
    let mut repo = repository();
    let ready = vec![package("m_1.0_amd64.deb")];
    let fetched = vec![package("z_1.0_amd64.deb"), package("a_1.0_amd64.deb")];
    let all = repo.complete_downloads(ready, fetched);
    assert_eq!(names(&all), vec!["a_1.0_amd64.deb", "m_1.0_amd64.deb", "z_1.0_amd64.deb"]);
    assert_eq!(names(repo.downloaded()), vec!["z_1.0_amd64.deb", "a_1.0_amd64.deb"]);
    assert_eq!(repo.packages().len(), 7);

    let more = repo.complete_downloads(vec![], vec![package("b_1.0_amd64.deb")]);
    assert_eq!(names(&more), vec!["b_1.0_amd64.deb"]);
    assert_eq!(
        names(repo.downloaded()),
        vec!["z_1.0_amd64.deb", "a_1.0_amd64.deb", "b_1.0_amd64.deb"]
    );
}

#[test]
fn packages_are_sorted_by_file_name() {
    let sorted = sort_by_file_name(vec![
        package("b_1.0.deb"),
        package("a_2.0.deb"),
        package("c_1.0.deb"),
        package("a_1.0.deb"),
        package("B_1.0.deb"),
    ]);
    assert_eq!(
        names(&sorted),
        vec!["B_1.0.deb", "a_1.0.deb", "a_2.0.deb", "b_1.0.deb", "c_1.0.deb"]
    );
    assert!(sort_by_file_name(vec![]).is_empty());
}

#[test]
fn only_parsed_downloads_are_stored() {
    let mut repo = repository();
    let parsed = package("parsed_1.0_amd64.deb");
    parsed.set_package_data(deb_for("parsed"));
    let broken = package("broken_1.0_amd64.deb");
    broken.set_package_data(b"garbage".to_vec());
    let all = repo.complete_downloads(vec![], vec![parsed, broken]);
    assert!(repo.save_package_metadata().is_empty());

    let record = DebianPackage::from_package(&all[1], ReleaseChannel::Stable).unwrap();
    assert!(DebianPackage::from_package(&all[0], ReleaseChannel::Stable).is_err());

    let records = repo.save_package_metadata();
    assert_eq!(records.len(), 1);
    assert_eq!(records[0].name(), "parsed_1.0_amd64.deb");
    assert_eq!(records[0].created_at(), 0);
    assert_eq!(
        records[0],
        PackageMetadata::new("parsed_1.0_amd64.deb".to_owned(), 0, record.to_metadata())
    );
}

#[test]
fn stored_metadata_gives_the_same_record_again() {
    let package = Package::detect_package(
        "OpenBangla-Keyboard_2.0.0-ubuntu20.04.deb",
        "2.0.0".to_owned(),
        "https://example.org/OpenBangla-Keyboard_2.0.0-ubuntu20.04.deb".to_owned(),
        1719792000,
    )
    .unwrap();
    package.set_package_data(deb_for("openbangla-keyboard"));
    let first = DebianPackage::from_package(&package, ReleaseChannel::Stable).unwrap();

    let metadata = PackageMetadata::from_package(&package).unwrap();
    assert_eq!(metadata.name(), "OpenBangla-Keyboard_2.0.0-ubuntu20.04.deb");
    assert_eq!(metadata.created_at(), 1719792000);

    // What the store hands back is attached to the package of a later
    // request, which is then parsed without its bytes.
    let retrieved = PackageMetadata::new(
        metadata.name().to_owned(),
        metadata.created_at(),
        metadata.data(),
    );
    let later = package_from_asset(
        "OpenBangla-Keyboard_2.0.0-ubuntu20.04.deb",
        "2.0.0".to_owned(),
        "https://example.org/OpenBangla-Keyboard_2.0.0-ubuntu20.04.deb".to_owned(),
        1719792000,
        Some(retrieved),
    )
    .unwrap();
    let second = DebianPackage::from_package(&later, ReleaseChannel::Stable).unwrap();
    assert_eq!(first.to_metadata(), second.to_metadata());

    assert!(PackageMetadata::from_package(&Package::detect_package(
        "a_1.0.deb",
        String::new(),
        String::new(),
        0
    )
    .unwrap())
    .is_none());
    assert!(PackageMetadata::from_data("a", 0, &Data::Package(vec![1])).is_none());
    assert!(PackageMetadata::from_data("a", 0, &Data::Empty).is_none());
    assert_eq!(
        PackageMetadata::from_data("a", 7, &Data::Metadata("m".to_owned())),
        Some(PackageMetadata::new("a".to_owned(), 7, "m".to_owned()))
    );
    let _ = Dist::Tumbleweed;
}
