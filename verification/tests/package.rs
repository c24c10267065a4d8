use packhub::error::Error;
use packhub::package::{split_extention, Data, Package};
use packhub::utils::{Arch, Dist, Type};

#[test]
fn test_package() {
    let pack = Package::detect_package(
        "OpenBangla-Keyboard_2.0.0-ubuntu22.04.deb",
        "2.0.0".to_owned(),
        String::new(),
        0,
    )
    .unwrap();
    assert_eq!(pack.version(), "2.0.0");
    assert_eq!(pack.distribution(), Some(&Dist::ubuntu("22.04")));
    assert_eq!(*pack.ty(), Type::Deb);

    let pack = Package::detect_package(
        "OpenBangla-Keyboard_2.0.0-fedora36.rpm",
        "2.0.0".to_owned(),
        String::new(),
        0,
    )
    .unwrap();
    assert_eq!(pack.version(), "2.0.0");
    assert_eq!(pack.distribution(), Some(&Dist::fedora("36")));
    assert_eq!(*pack.ty(), Type::Rpm);

    let pack = Package::detect_package(
        "caprine_2.56.1_amd64.deb",
        "v2.56.1".to_owned(),
        String::new(),
        0,
    )
    .unwrap();
    assert_eq!(pack.version(), "v2.56.1");
    assert_eq!(pack.distribution(), None);
    assert_eq!(*pack.ty(), Type::Deb);

    let pack = Package::detect_package(
        "ibus-openbangla_3.0.0-opensuse-tumbleweed.rpm",
        "3.0.0".to_owned(),
        String::new(),
        0,
    )
    .unwrap();
    assert_eq!(pack.version(), "3.0.0");
    assert_eq!(pack.distribution(), Some(&Dist::Tumbleweed));
    assert_eq!(*pack.ty(), Type::Rpm);
}

#[test]
fn test_package_change_propagation() {
    let pack = Package::detect_package(
        "OpenBangla-Keyboard_2.0.0-ubuntu22.04.deb",
        "2.0.0".to_owned(),
        String::new(),
        0,
    )
    .unwrap();

    assert!(!pack.is_metadata_available());

    let pack2 = pack.clone();
    pack2.set_metadata(String::new());

    assert!(pack.is_metadata_available());
}

#[test]
fn test_split_extension() {
    assert_eq!(
        split_extention("OpenBangla-Keyboard_2.0.0-ubuntu22.04.deb"),
        Some(Type::Deb)
    );
    assert_eq!(
        split_extention("OpenBangla-Keyboard_2.0.0-fedora36.rpm"),
        Some(Type::Rpm)
    );
    assert_eq!(split_extention("caprine_2.56.1_amd64.snap"), None);
    assert_eq!(split_extention("deb"), None);
}

#[test]
fn extension_must_follow_a_name() {
    assert_eq!(split_extention(".deb"), None);
    assert_eq!(split_extention(".rpm"), None);
    assert_eq!(split_extention("a.deb"), Some(Type::Deb));
    assert_eq!(split_extention("a.rpm"), Some(Type::Rpm));
    assert_eq!(split_extention(""), None);
    assert_eq!(split_extention("a.deb.sig"), None);
    assert_eq!(split_extention("a.DEB"), None);
}

#[test]
fn unknown_extension_is_refused() {
    let r = Package::detect_package(
        "caprine_2.56.1_amd64.snap",
        "v2.56.1".to_owned(),
        String::new(),
        0,
    );
    assert_eq!(r.err(), Some(Error::UnknownFilename));
}

#[test]
fn file_name_is_the_last_segment_of_the_address() {
    let pack = Package::detect_package(
        "OpenBangla-Keyboard_2.0.0-ubuntu20.04.deb",
        "2.0.0".to_owned(),
        "https://github.com/OpenBangla/OpenBangla-Keyboard/releases/download/2.0.0/OpenBangla-Keyboard_2.0.0-ubuntu20.04.deb".to_owned(),
        1699461612,
    )
    .unwrap();
    assert_eq!(pack.file_name(), "OpenBangla-Keyboard_2.0.0-ubuntu20.04.deb");
    assert_eq!(
        pack.download_url(),
        "https://github.com/OpenBangla/OpenBangla-Keyboard/releases/download/2.0.0/OpenBangla-Keyboard_2.0.0-ubuntu20.04.deb"
    );
    assert_eq!(pack.creation_date(), 1699461612);
    assert_eq!(pack.name(), Some("OpenBangla-Keyboard"));
    assert_eq!(pack.architecture(), Arch::Amd64);

    let bare = Package::detect_package("a_1.0.deb", String::new(), "a_1.0.deb".to_owned(), 0)
        .unwrap();
    assert_eq!(bare.file_name(), "a_1.0.deb");
    let slash = Package::detect_package("a_1.0.deb", String::new(), "x/y/".to_owned(), 0).unwrap();
    assert_eq!(slash.file_name(), "");
}

#[test]
fn data_cell_goes_from_empty_to_package_to_metadata() {
    let pack = Package::detect_package("a_1.0.deb", String::new(), "a_1.0.deb".to_owned(), 0)
        .unwrap();
    assert!(matches!(pack.data(), Data::Empty));
    let other = pack.clone();
    other.set_package_data(vec![1, 2, 3]);
    match pack.data() {
        Data::Package(bytes) => assert_eq!(bytes, vec![1, 2, 3]),
        _ => panic!("the cell should hold the package bytes"),
    }
    assert!(!pack.is_metadata_available());
    pack.set_metadata("m".to_owned());
    match other.data() {
        Data::Metadata(text) => assert_eq!(text, "m"),
        _ => panic!("the cell should hold the metadata"),
    }
    assert!(other.is_metadata_available());
}

#[test]
fn only_metadata_counts_as_metadata() {
    assert!(Data::Metadata(String::new()).is_metadata());
    assert!(Data::Metadata("m".to_owned()).is_metadata());
    assert!(!Data::Package(vec![1]).is_metadata());
    assert!(!Data::Package(Vec::new()).is_metadata());
    assert!(!Data::Empty.is_metadata());
}
