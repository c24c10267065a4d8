use packhub::apt::deb::{control_in_member, count_plain, read_control_file, DebianPackage};
use packhub::apt::index::{gzip_compression, latest_creation, render_packages, AptIndices};
use packhub::error::Error;
use packhub::package::{Data, Package};
use packhub::utils::{Arch, ReleaseChannel};
use std::io::{Read, Write};

const URL: &str = "https://github.com/OpenBangla/OpenBangla-Keyboard/releases/download/2.0.0/OpenBangla-Keyboard_2.0.0-ubuntu20.04.deb";

const CONTROL: &str = "Package: openbangla-keyboard\nVersion: 2.0.0\nSection: utils\nPriority: optional\nArchitecture: amd64\nMaintainer: OpenBangla Team <openbanglateam@gmail.com>\nDescription: OpenSource Bengali input method\n";

fn tar_of(files: &[(&str, &[u8])]) -> Vec<u8> {
    let mut builder = tar::Builder::new(Vec::new());
    for (path, content) in files {
        let mut header = tar::Header::new_gnu();
        header.as_old_mut().name[..path.len()].copy_from_slice(path.as_bytes());
        header.set_size(content.len() as u64);
        header.set_mode(0o644);
        header.set_cksum();
        builder.append(&header, *content).unwrap();
    }
    builder.into_inner().unwrap()
}

fn gzip_of(data: &[u8]) -> Vec<u8> {
    let mut encoder = libflate::gzip::Encoder::new(Vec::new()).unwrap();
    encoder.write_all(data).unwrap();
    encoder.finish().into_result().unwrap()
}

fn ar_of(members: &[(&str, &[u8])]) -> Vec<u8> {
    let mut builder = ar::Builder::new(Vec::new());
    for (name, content) in members {
        let header = ar::Header::new(name.as_bytes().to_vec(), content.len() as u64);
        builder.append(&header, *content).unwrap();
    }
    builder.into_inner().unwrap()
}

fn deb_with_control(control: &str) -> Vec<u8> {
    let control_tar =
        gzip_of(&tar_of(&[("./md5sums", b"0  usr/bin/x\n"), ("./control", control.as_bytes())]));
    let data_tar = gzip_of(&tar_of(&[("./usr/bin/x", b"binary")]));
    ar_of(&[
        ("debian-binary", b"2.0\n"),
        ("control.tar.gz", &control_tar),
        ("data.tar.gz", &data_tar),
    ])
}

fn hex<T: AsRef<[u8]>>(bytes: T) -> String {
    bytes.as_ref().iter().map(|b| format!("{:02x}", b)).collect()
}

fn package(name: &str, version: &str, created: i64) -> Package {
    Package::detect_package(name, version.to_owned(), name.to_owned(), created).unwrap()
}

#[test]
fn test_parsing() {
    let package = Package::detect_package(
        "OpenBangla-Keyboard_2.0.0-ubuntu20.04.deb",
        "2.0.0".to_owned(),
        URL.to_owned(),
        0,
    )
    .unwrap();
    package.set_package_data(deb_with_control(CONTROL));

    let deb = DebianPackage::from_package(&package, ReleaseChannel::Stable).unwrap();
    assert_eq!(deb.get_arch(), Ok(Arch::Amd64));
    assert_eq!(deb.get_package(), "openbangla-keyboard");
    assert_eq!(deb.package_name().as_deref(), Some("openbangla-keyboard"));
}

#[test]
#[should_panic]
fn test_without_data() {
    let package = Package::detect_package(
        "OpenBangla-Keyboard_2.0.0-ubuntu20.04.deb",
        "2.0.0".to_owned(),
        URL.to_owned(),
        0,
    )
    .unwrap();

    let _ = DebianPackage::from_package(&package, ReleaseChannel::Stable).unwrap();
}

#[test]
fn deb_test_loading_from_metadata() {
    let package = Package::detect_package(
        "OpenBangla-Keyboard_2.0.0-ubuntu20.04.deb",
        "2.0.0".to_owned(),
        URL.to_owned(),
        0,
    )
    .unwrap();
    package.set_package_data(deb_with_control(CONTROL));

    let first = DebianPackage::from_package(&package, ReleaseChannel::Stable).unwrap();

    // The package data should have been replaced by the metadata
    assert!(matches!(package.data(), Data::Metadata(_)));

    let second = DebianPackage::from_package(&package, ReleaseChannel::Stable).unwrap();
    assert_eq!(first.to_metadata(), second.to_metadata());
    assert_eq!(first.control, second.control);
    assert_eq!(first.size, second.size);
    assert_eq!(first.filename, second.filename);
}

#[test]
fn the_record_holds_control_text_digests_and_path() {
    let data = deb_with_control(&format!("{}\n\n  ", CONTROL));
    let deb = DebianPackage::from_bytes(
        &data,
        ReleaseChannel::Unstable,
        "2.0.0",
        "OpenBangla-Keyboard_2.0.0-ubuntu20.04.deb",
    )
    .unwrap();
    assert_eq!(deb.control, CONTROL.trim_end());
    assert_eq!(deb.size, data.len());
    assert_eq!(deb.filename, "pool/unstable/2.0.0/OpenBangla-Keyboard_2.0.0-ubuntu20.04.deb");
    assert_eq!(deb.md5, hex(<md5::Md5 as md5::Digest>::digest(&data)));
    assert_eq!(deb.sha1, hex(<sha1::Sha1 as sha1::Digest>::digest(&data)));
    assert_eq!(deb.sha256, hex(<sha2::Sha256 as sha2::Digest>::digest(&data)));
    assert_eq!(deb.sha512, hex(<sha2::Sha512 as sha2::Digest>::digest(&data)));
}

#[test]
fn the_control_file_is_found_in_the_archive() {
    assert_eq!(read_control_file(&deb_with_control(CONTROL)), Ok(CONTROL.to_owned()));

    // No control archive at all.
    let plain = ar_of(&[("debian-binary", b"2.0\n")]);
    assert_eq!(read_control_file(&plain), Err(Error::ParseFailed));

    // A control archive without a control file.
    let empty = gzip_of(&tar_of(&[("./md5sums", b"")]));
    let without = ar_of(&[("debian-binary", b"2.0\n"), ("control.tar.gz", &empty)]);
    assert_eq!(read_control_file(&without), Err(Error::ParseFailed));

    // A control archive that is no gzip stream.
    let broken = ar_of(&[("control.tar.gz", b"not gzip")]);
    assert_eq!(read_control_file(&broken), Err(Error::ParseFailed));

    // A control file that is no text.
    let binary = gzip_of(&tar_of(&[("./control", &[0xff, 0xfe, 0x00])]));
    let no_text = ar_of(&[("control.tar.gz", &binary)]);
    assert_eq!(read_control_file(&no_text), Err(Error::ParseFailed));

    // Only the name `./control` counts.
    let other = gzip_of(&tar_of(&[("control", CONTROL.as_bytes())]));
    let misnamed = ar_of(&[("control.tar.gz", &other)]);
    assert_eq!(read_control_file(&misnamed), Err(Error::ParseFailed));

    // Not an archive.
    assert_eq!(read_control_file(b"garbage"), Err(Error::ParseFailed));
    assert_eq!(read_control_file(b""), Err(Error::ParseFailed));

    // A second control archive is searched where the first one has no
    // control file.
    let good = gzip_of(&tar_of(&[("./control", CONTROL.as_bytes())]));
    let twice = ar_of(&[("control.tar.gz", &empty), ("control.tar.gz", &good)]);
    assert_eq!(read_control_file(&twice), Ok(CONTROL.to_owned()));
}

#[test]
fn records_read_back_from_their_metadata() {
    let data = deb_with_control(CONTROL);
    let deb = DebianPackage::from_bytes(&data, ReleaseChannel::Stable, "2.0.0", "a.deb").unwrap();
    let text = deb.to_metadata();
    let back = DebianPackage::from_metadata(&text).unwrap();
    assert_eq!(back.control, deb.control);
    assert_eq!(back.md5, deb.md5);
    assert_eq!(back.sha1, deb.sha1);
    assert_eq!(back.sha256, deb.sha256);
    assert_eq!(back.sha512, deb.sha512);
    assert_eq!(back.size, deb.size);
    assert_eq!(back.filename, deb.filename);
    assert_eq!(back.to_metadata(), text);

    assert!(DebianPackage::from_metadata("").is_err());
    assert!(DebianPackage::from_metadata("not metadata").is_err());
    assert!(DebianPackage::from_metadata("1:a1:b1:c1:d1:e1:x1:g").is_err());
    assert!(DebianPackage::from_metadata("1:a1:b1:c1:d1:e1:7").is_err());
    let small = DebianPackage::from_metadata("1:a1:b1:c1:d1:e1:71:g").unwrap();
    assert_eq!(small.size, 7);
    assert_eq!(small.filename, "g");
}

#[test]
fn parsing_goes_from_bytes_to_metadata_and_stays_there() {
    let data = Data::Package(deb_with_control(CONTROL));
    let (first, next) =
        DebianPackage::from_data(&data, ReleaseChannel::Stable, "2.0.0", "a.deb").unwrap();
    let next = next.expect("the cell changes when bytes were parsed");
    let Data::Metadata(text) = &next else {
        panic!("the cell should hold metadata after parsing");
    };
    assert_eq!(*text, first.to_metadata());

    let (second, unchanged) =
        DebianPackage::from_data(&next, ReleaseChannel::Stable, "2.0.0", "a.deb").unwrap();
    assert!(unchanged.is_none());
    assert_eq!(second.to_metadata(), first.to_metadata());

    assert_eq!(
        DebianPackage::from_data(&Data::Empty, ReleaseChannel::Stable, "2.0.0", "a.deb").err(),
        Some(Error::ParseFailed)
    );
    assert_eq!(
        DebianPackage::from_data(
            &Data::Package(b"garbage".to_vec()),
            ReleaseChannel::Stable,
            "2.0.0",
            "a.deb"
        )
        .err(),
        Some(Error::ParseFailed)
    );
}

#[test]
fn architecture_and_name_come_from_the_control_text() {
    let mut deb =
        DebianPackage::from_bytes(&deb_with_control(CONTROL), ReleaseChannel::Stable, "1", "a.deb")
            .unwrap();
    deb.control = "Package: x\nArchitecture: arm64".to_owned();
    assert_eq!(deb.get_arch(), Ok(Arch::Arm64));
    deb.control = "Package: x\nArchitecture: all".to_owned();
    assert_eq!(deb.get_arch(), Err(()));
    deb.control = "Package: x".to_owned();
    assert_eq!(deb.get_arch(), Err(()));
    assert_eq!(deb.package_name().as_deref(), Some("x"));
    deb.control = "Version: 1".to_owned();
    assert_eq!(deb.package_name(), None);
}

fn expected_stanza(deb: &DebianPackage) -> String {
    format!(
        "{}\nFilename: {}\nSize: {}\nMD5sum: {}\nSHA1: {}\nSHA256: {}\nSHA512: {}\n\n",
        deb.control, deb.filename, deb.size, deb.md5, deb.sha1, deb.sha256, deb.sha512
    )
}

#[test]
fn index_test_apt_indices() {
    let package = Package::detect_package(
        "OpenBangla-Keyboard_2.0.0-ubuntu20.04.deb",
        "2.0.0".to_owned(),
        URL.to_owned(),
        1699461612,
    )
    .unwrap();
    let data = deb_with_control(CONTROL);
    package.set_package_data(data.clone());

    let packages = vec![package];

    let indices = AptIndices::new(&packages, ReleaseChannel::Stable);

    // Packages
    let packages = indices.get_package_index(&Arch::Amd64);
    assert!(packages.contains("Package: openbangla-keyboard\n"));
    assert!(packages.contains("Architecture: amd64\n"));
    assert!(packages
        .contains("\nFilename: pool/stable/2.0.0/OpenBangla-Keyboard_2.0.0-ubuntu20.04.deb\n"));
    assert!(packages.contains(&format!("\nSize: {}\n", data.len())));
    let sha256 = hex(<sha2::Sha256 as sha2::Digest>::digest(&data));
    assert!(packages.contains(&format!("\nSHA256: {}\n", sha256)));
    let deb = DebianPackage::from_bytes(
        &data,
        ReleaseChannel::Stable,
        "2.0.0",
        "OpenBangla-Keyboard_2.0.0-ubuntu20.04.deb",
    )
    .unwrap();
    assert_eq!(packages, expected_stanza(&deb).trim_end());

    // Release
    let release = indices.get_release_index().unwrap();
    let gz = gzip_compression(packages.as_bytes()).unwrap();
    let line = |digest: String, size: usize, path: &str| format!(" {} {} {}\n", digest, size, path);
    let plain = "main/binary-amd64/Packages";
    let packed = "main/binary-amd64/Packages.gz";
    let p = packages.as_bytes();
    let expected = format!(
        "Origin: . stable\nLabel: . stable\nDate: Wed, 8 Nov 2023 16:40:12 +0000\nSuite: stable\n\
         MD5Sum:\n{}{}SHA1:\n{}{}SHA256:\n{}{}SHA512:\n{}{}",
        line(hex(<md5::Md5 as md5::Digest>::digest(p)), p.len(), plain),
        line(hex(<md5::Md5 as md5::Digest>::digest(&gz)), gz.len(), packed),
        line(hex(<sha1::Sha1 as sha1::Digest>::digest(p)), p.len(), plain),
        line(hex(<sha1::Sha1 as sha1::Digest>::digest(&gz)), gz.len(), packed),
        line(hex(<sha2::Sha256 as sha2::Digest>::digest(p)), p.len(), plain),
        line(hex(<sha2::Sha256 as sha2::Digest>::digest(&gz)), gz.len(), packed),
        line(hex(<sha2::Sha512 as sha2::Digest>::digest(p)), p.len(), plain),
        line(hex(<sha2::Sha512 as sha2::Digest>::digest(&gz)), gz.len(), packed),
    );
    assert_eq!(release, expected);
}

fn control_for(name: &str, arch: &str) -> String {
    format!("Package: {}\nVersion: 3.0.0\nArchitecture: {}\nDescription: test\n", name, arch)
}

#[test]
fn test_multiple_packages() {
    let package1 = package("fcitx-openbangla_3.0.0.deb", "3.0.0", 10);
    package1.set_package_data(deb_with_control(&control_for("fcitx-openbangla", "amd64")));

    let package2 = package("ibus-openbangla_3.0.0.deb", "3.0.0", 20);
    package2.set_package_data(deb_with_control(&control_for("ibus-openbangla", "amd64")));

    let packages = vec![package1, package2];

    let indices = AptIndices::new(&packages, ReleaseChannel::Stable);

    // Packages
    let text = indices.get_package_index(&Arch::Amd64);
    let first = DebianPackage::from_package(&packages[0], ReleaseChannel::Stable).unwrap();
    let second = DebianPackage::from_package(&packages[1], ReleaseChannel::Stable).unwrap();
    let expected = format!("{}{}", expected_stanza(&first), expected_stanza(&second));
    assert_eq!(text, expected.trim_end());
    assert_eq!(text, render_packages(&vec![first, second]));
    let packed = gzip_compression(text.as_bytes()).unwrap();
    assert!(packed.len() < text.len());

    // Release
    let release = indices.get_release_index().unwrap();
    assert!(release.contains(&format!(" {} main/binary-amd64/Packages\n", text.len())));
    assert!(release.contains(&format!(" {} main/binary-amd64/Packages.gz\n", packed.len())));
    assert!(release.contains("Date: Thu, 1 Jan 1970 00:00:20 +0000\n"));
    assert_eq!(release.matches("main/binary-").count(), 8);
}

#[test]
fn test_multiple_architectures() {
    let builds = [
        ("fastfetch-linux-aarch64.deb", "arm64"),
        ("fastfetch-linux-amd64.deb", "amd64"),
        ("fastfetch-linux-armv6l.deb", "armhf"),
        ("fastfetch-linux-armv7l.deb", "armhf"),
        ("fastfetch-linux-ppc64le.deb", "ppc64el"),
        ("fastfetch-linux-riscv64.deb", "riscv64"),
        ("fastfetch-linux-s390x.deb", "s390x"),
    ];
    let packages: Vec<Package> = builds
        .iter()
        .map(|(file, arch)| {
            let p = package(file, "2.40.3", 0);
            p.set_package_data(deb_with_control(&control_for("fastfetch", arch)));
            p
        })
        .collect();

    let indices = AptIndices::new(&packages, ReleaseChannel::Stable);

    // Release
    let release = indices.get_release_index().unwrap();
    let paths: Vec<&str> = release
        .lines()
        .skip_while(|l| *l != "SHA256:")
        .skip(1)
        .take_while(|l| l.starts_with(' '))
        .map(|l| l.rsplit(' ').next().unwrap())
        .collect();
    assert_eq!(
        paths,
        vec![
            "main/binary-amd64/Packages",
            "main/binary-amd64/Packages.gz",
            "main/binary-arm64/Packages",
            "main/binary-arm64/Packages.gz",
            "main/binary-armhf/Packages",
            "main/binary-armhf/Packages.gz",
            "main/binary-ppc64el/Packages",
            "main/binary-ppc64el/Packages.gz",
            "main/binary-riscv64/Packages",
            "main/binary-riscv64/Packages.gz",
            "main/binary-s390x/Packages",
            "main/binary-s390x/Packages.gz",
        ]
    );
    let mut sorted = paths.clone();
    sorted.sort();
    assert_eq!(paths, sorted);
    // Both ARM builds with hard float are in one index.
    assert_eq!(indices.get_package_index(&Arch::Armhf).matches("Package: fastfetch").count(), 2);
    assert!(indices.get_package_index(&Arch::PPC64le).starts_with("Package: fastfetch\n"));
    assert_eq!(indices.get_package_index(&Arch::Aarch64), "");
}

#[test]
fn an_empty_repository_has_a_well_formed_release() {
    let indices = AptIndices::new(&[], ReleaseChannel::Unstable);
    assert_eq!(
        indices.get_release_index().unwrap(),
        "Origin: . unstable\nLabel: . unstable\nDate: Thu, 1 Jan 1970 00:00:00 +0000\nSuite: unstable\nMD5Sum:\nSHA1:\nSHA256:\nSHA512:\n"
    );
    assert_eq!(indices.get_package_index(&Arch::Amd64), "");
}

#[test]
fn packages_that_cannot_be_parsed_are_left_out() {
    let good = package("good_1.0_amd64.deb", "1.0", 5);
    good.set_package_data(deb_with_control(&control_for("good", "amd64")));
    let bad = package("bad_1.0_amd64.deb", "1.0", 50);
    bad.set_package_data(b"garbage".to_vec());
    let missing = package("missing_1.0_amd64.deb", "1.0", 7);
    let indices = AptIndices::new(&[good, bad, missing], ReleaseChannel::Stable);
    let text = indices.get_package_index(&Arch::Amd64);
    assert_eq!(text.matches("Package: ").count(), 1);
    assert!(text.starts_with("Package: good\n"));
    // The date is that of the newest package all the same.
    assert_eq!(indices.release_date().unwrap(), "Thu, 1 Jan 1970 00:00:50 +0000");
}

#[test]
fn the_release_date_is_that_of_the_newest_package() {
    let packages = [
        package("a_1.0.deb", "1", 1699461612),
        package("b_1.0.deb", "1", 1700000000),
        package("c_1.0.deb", "1", 1600000000),
    ];
    assert_eq!(latest_creation(&packages), 1700000000);
    assert_eq!(latest_creation(&packages[..1]), 1699461612);
    assert_eq!(latest_creation(&[]), 0);
    let negative = [package("a_1.0.deb", "1", -5), package("b_1.0.deb", "1", -10)];
    assert_eq!(latest_creation(&negative), -5);

    let indices = AptIndices::new(&packages, ReleaseChannel::Stable);
    assert_eq!(indices.release_date().unwrap(), "Tue, 14 Nov 2023 22:13:20 +0000");
    let indices = AptIndices::new(&packages[..1], ReleaseChannel::Stable);
    assert_eq!(indices.release_date().unwrap(), "Wed, 8 Nov 2023 16:40:12 +0000");
}

#[test]
fn dates_outside_the_years_of_rfc_2822_are_refused() {
    let late = AptIndices::new(&[package("a_1.0.deb", "1", 253402300800)], ReleaseChannel::Stable);
    assert_eq!(late.release_date(), Err(Error::RenderFailed));
    assert_eq!(late.get_release_index(), Err(Error::RenderFailed));
    let last = AptIndices::new(&[package("a_1.0.deb", "1", 253402300799)], ReleaseChannel::Stable);
    assert_eq!(last.release_date().unwrap(), "Fri, 31 Dec 9999 23:59:59 +0000");
    let first = AptIndices::new(&[package("a_1.0.deb", "1", -62167219200)], ReleaseChannel::Stable);
    assert_eq!(first.release_date().unwrap(), "Sat, 1 Jan 0000 00:00:00 +0000");
    let early = AptIndices::new(&[package("a_1.0.deb", "1", -62167219201)], ReleaseChannel::Stable);
    assert_eq!(early.release_date(), Err(Error::RenderFailed));
}

#[test]
fn gzip_is_stable_and_reads_back() {
    let data = b"Package: a\nArchitecture: amd64\n".repeat(20);
    let once = gzip_compression(&data).unwrap();
    let twice = gzip_compression(&data).unwrap();
    assert_eq!(once, twice);
    assert_ne!(once, data);
    // The stream begins with the magic number and the deflate method, and
    // the modification time in the header is zero.
    assert_eq!(&once[..3], &[0x1f, 0x8b, 0x08]);
    assert_eq!(&once[4..8], &[0, 0, 0, 0]);
    let mut decoder = libflate::gzip::Decoder::new(&once[..]).unwrap();
    let mut back = Vec::new();
    decoder.read_to_end(&mut back).unwrap();
    assert_eq!(back, data);

    let empty = gzip_compression(&[]).unwrap();
    let mut decoder = libflate::gzip::Decoder::new(&empty[..]).unwrap();
    let mut back = Vec::new();
    decoder.read_to_end(&mut back).unwrap();
    assert!(back.is_empty());
}

#[test]
fn architectures_that_share_a_name_keep_the_paths_in_order() {
    let builds = [
        ("tool_1.0_one.deb", "aarch64"),
        ("tool_1.0_two.deb", "arm64"),
        ("tool_1.0_three.deb", "armv7"),
        ("tool_1.0_four.deb", "x86_64"),
    ];
    let packages: Vec<Package> = builds
        .iter()
        .map(|(file, arch)| {
            let p = package(file, "1.0", 0);
            p.set_package_data(deb_with_control(&control_for("tool", arch)));
            p
        })
        .collect();
    let indices = AptIndices::new(&packages, ReleaseChannel::Stable);
    let release = indices.get_release_index().unwrap();
    let paths: Vec<&str> = release
        .lines()
        .skip_while(|l| *l != "MD5Sum:")
        .skip(1)
        .take_while(|l| l.starts_with(' '))
        .map(|l| l.rsplit(' ').next().unwrap())
        .collect();
    assert_eq!(
        paths,
        vec![
            "main/binary-amd64/Packages",
            "main/binary-amd64/Packages.gz",
            "main/binary-arm64/Packages",
            "main/binary-arm64/Packages",
            "main/binary-arm64/Packages.gz",
            "main/binary-arm64/Packages.gz",
            "main/binary-armhf/Packages",
            "main/binary-armhf/Packages.gz",
        ]
    );
    let mut sorted = paths.clone();
    sorted.sort();
    assert_eq!(paths, sorted);
    assert_eq!(indices.get_package_index(&Arch::Arm64).matches("Package: ").count(), 1);
    assert_eq!(indices.get_package_index(&Arch::Aarch64).matches("Package: ").count(), 1);
}

fn ar_header(name: &str, size: usize) -> Vec<u8> {
    format!("{:<16}{:<12}{:<6}{:<6}{:<8}{:<10}`\n", name, 0, 0, 0, 644, size).into_bytes()
}

#[test]
fn only_members_with_plain_headers_are_read() {
    assert_eq!(count_plain(&deb_with_control(CONTROL)), 3);
    assert_eq!(count_plain(b""), 0);
    assert_eq!(count_plain(b"!<arch>\n"), 0);

    // A name that refers to a table that is not there.
    let mut bad = b"!<arch>\n".to_vec();
    bad.extend(ar_header("/5", 0));
    assert_eq!(count_plain(&bad), 0);
    assert_eq!(read_control_file(&bad), Err(Error::ParseFailed));

    // The same after a member that can be read: what stands before is kept.
    let control_tar = gzip_of(&tar_of(&[("./control", CONTROL.as_bytes())]));
    let mut mixed = ar_of(&[("debian-binary", b"2.0\n"), ("control.tar.gz", &control_tar)]);
    let members = count_plain(&mixed);
    assert_eq!(members, 2);
    mixed.extend(ar_header("/99999", 0));
    mixed.extend(ar_header("//", 4));
    mixed.extend(b"ab/\n");
    assert_eq!(count_plain(&mixed), 2);
    assert_eq!(read_control_file(&mixed), Ok(CONTROL.to_owned()));

    // A control archive behind such a name is not reached.
    let mut hidden = b"!<arch>\n".to_vec();
    hidden.extend(ar_header("//", 0));
    hidden.extend(ar_header("control.tar.gz", control_tar.len()));
    hidden.extend(&control_tar);
    assert_eq!(count_plain(&hidden), 0);
    assert_eq!(read_control_file(&hidden), Err(Error::ParseFailed));

    // Long names of the other variant, and sizes that are no plain number.
    let mut bsd = b"!<arch>\n".to_vec();
    bsd.extend(ar_header("#1/20", 20));
    assert_eq!(count_plain(&bsd), 0);
    let mut odd = b"!<arch>\n".to_vec();
    odd.extend(format!("{:<16}{:<12}{:<6}{:<6}{:<8}{:<10}`\n", "a", 0, 0, 0, 644, "+1").into_bytes());
    assert_eq!(count_plain(&odd), 0);
    let mut cut = b"!<arch>\n".to_vec();
    cut.extend(&ar_header("a", 5)[..59]);
    assert_eq!(count_plain(&cut), 0);
}

#[test]
fn each_member_is_asked_for_the_control_text() {
    let control_tar = gzip_of(&tar_of(&[("./control", CONTROL.as_bytes())]));
    let other_tar = gzip_of(&tar_of(&[("./md5sums", b"0"), ("./postinst", b"#!/bin/sh\n")]));

    // A member of another name says nothing, whatever it holds.
    assert_eq!(control_in_member(&(b"debian-binary".to_vec(), b"2.0\n".to_vec())), None);
    assert_eq!(control_in_member(&(b"data.tar.gz".to_vec(), control_tar.clone())), None);
    assert_eq!(control_in_member(&(b"control.tar.xz".to_vec(), control_tar.clone())), None);
    // The control archive gives the text.
    assert_eq!(
        control_in_member(&(b"control.tar.gz".to_vec(), control_tar.clone())),
        Some(Ok(CONTROL.to_owned()))
    );
    // One without the file says nothing; one that cannot be unpacked
    // ends the search.
    assert_eq!(control_in_member(&(b"control.tar.gz".to_vec(), other_tar.clone())), None);
    assert_eq!(
        control_in_member(&(b"control.tar.gz".to_vec(), b"no gzip".to_vec())),
        Some(Err(Error::ParseFailed))
    );
    let no_text = gzip_of(&tar_of(&[("./control", &[0xff, 0xfe])]));
    assert_eq!(
        control_in_member(&(b"control.tar.gz".to_vec(), no_text)),
        Some(Err(Error::ParseFailed))
    );

    // The search goes on behind a control archive without the file, and
    // ends at the first that has it.
    let later = gzip_of(&tar_of(&[("./control", b"Package: later\n")]));
    let deb = ar_of(&[
        ("debian-binary", b"2.0\n"),
        ("control.tar.gz", &other_tar),
        ("control.tar.gz", &control_tar),
        ("control.tar.gz", &later),
    ]);
    assert_eq!(read_control_file(&deb), Ok(CONTROL.to_owned()));
    // What stands behind the control archive is not read: bytes that are
    // no member do no harm there.
    let mut cut = ar_of(&[("debian-binary", b"2.0\n"), ("control.tar.gz", &control_tar)]);
    cut.extend(b"data.tar.gz     and nothing of a header");
    assert_eq!(read_control_file(&cut), Ok(CONTROL.to_owned()));
    // In front of it they end the search.
    let mut early = b"!<arch>\n".to_vec();
    early.extend(b"no header");
    assert_eq!(read_control_file(&early), Err(Error::ParseFailed));
}
