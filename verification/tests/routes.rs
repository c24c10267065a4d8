use packhub::apt::index::{gzip_compression, AptIndices};
use packhub::error::Error;
use packhub::package::Package;
use packhub::pgp::{generate_keys, passphrase};
use packhub::routes::{
    empty_packages_file, packages_file, packed_index, release_file, release_index, repo_file,
    repo_index, upstream_url, ReleaseFile, RepoFile,
};
use packhub::rpm::index::{get_primary_index, get_repomd_index, IndexKind};
use packhub::utils::ReleaseChannel;

fn indices() -> AptIndices {
    let package =
        Package::detect_package("a_1.0_amd64.deb", "1.0".to_owned(), "a_1.0_amd64.deb".to_owned(), 60)
            .unwrap();
    AptIndices::new(&[package], ReleaseChannel::Stable)
}

#[test]
fn file_names_stand_for_the_forms_of_the_release_index() {
    assert_eq!(release_file("Release"), Ok(ReleaseFile::Plain));
    assert_eq!(release_file("Release.gpg"), Ok(ReleaseFile::Detached));
    assert_eq!(release_file("InRelease"), Ok(ReleaseFile::Clearsigned));
    assert_eq!(release_file("release"), Err(Error::RouteInput));
    assert_eq!(release_file("Packages"), Err(Error::RouteInput));
    assert_eq!(release_file(""), Err(Error::RouteInput));
}

#[test]
fn file_names_stand_for_the_files_of_the_repository_data() {
    assert_eq!(repo_file("repomd.xml"), Ok(RepoFile::Repomd));
    assert_eq!(repo_file("repomd.xml.asc"), Ok(RepoFile::RepomdSignature));
    assert_eq!(repo_file("repomd.xml.key"), Ok(RepoFile::RepomdKey));
    assert_eq!(repo_file("primary.xml.zst"), Ok(RepoFile::Index(IndexKind::Primary)));
    assert_eq!(repo_file("filelists.xml.zst"), Ok(RepoFile::Index(IndexKind::Filelists)));
    assert_eq!(repo_file("other.xml.zst"), Ok(RepoFile::Index(IndexKind::Other)));
    assert_eq!(repo_file("primary.xml"), Err(Error::RouteInput));
    assert_eq!(repo_file("primary.xml.gz"), Err(Error::RouteInput));
    assert_eq!(repo_file(""), Err(Error::RouteInput));
}

#[test]
fn the_release_index_is_served_plain_or_signed() {
    let passphrase = passphrase("secure-passphrase");
    let cert = generate_keys(&passphrase).unwrap();
    let indices = indices();
    let text = indices.get_release_index().unwrap();

    assert_eq!(release_index(&indices, "Release", &cert, &passphrase), Ok(text.clone().into_bytes()));
    let clear = release_index(&indices, "InRelease", &cert, &passphrase).unwrap();
    let clear = String::from_utf8(clear).unwrap();
    assert!(clear.starts_with("-----BEGIN PGP SIGNED MESSAGE-----\n"));
    assert!(clear.contains("Origin: . stable\n"));
    let detached = release_index(&indices, "Release.gpg", &cert, &passphrase).unwrap();
    assert!(detached.starts_with(b"-----BEGIN PGP SIGNATURE-----\n"));
    assert_eq!(release_index(&indices, "Release.sig", &cert, &passphrase), Err(Error::RouteInput));
}

#[test]
fn the_packages_index_is_served_plain_or_packed() {
    let indices = indices();
    assert_eq!(packages_file(&indices, "amd64", "Packages"), Ok(Vec::new()));
    assert_eq!(packages_file(&indices, "arm64", "Packages.gz"), gzip_compression(&[]));
    assert_eq!(packages_file(&indices, "amd64", "Release"), Err(Error::RouteInput));
    assert_eq!(packages_file(&indices, "sparc", "Packages"), Err(Error::RouteInput));
    assert_eq!(packages_file(&indices, "all", "Packages"), Err(Error::RouteInput));

    assert_eq!(empty_packages_file("Packages"), Ok(Vec::new()));
    assert_eq!(empty_packages_file("Packages.gz"), gzip_compression(&[]));
    assert_eq!(empty_packages_file("Packages.xz"), Err(Error::RouteInput));
}

#[test]
fn the_repository_data_is_served_by_file_name() {
    let passphrase = passphrase("secure-passphrase");
    let cert = generate_keys(&passphrase).unwrap();
    let repomd = get_repomd_index(&[]).unwrap();
    assert_eq!(repo_index(&[], "repomd.xml", &cert, &passphrase), Ok(repomd.into_bytes()));
    let primary = repo_index(&[], "primary.xml.zst", &cert, &passphrase).unwrap();
    assert_eq!(zstd::decode_all(&primary[..]).unwrap(), get_primary_index(&[]).into_bytes());
    assert_eq!(primary, packed_index(IndexKind::Primary, &[]).unwrap());
    let other = repo_index(&[], "other.xml.zst", &cert, &passphrase).unwrap();
    assert_ne!(primary, other);
    let signature = repo_index(&[], "repomd.xml.asc", &cert, &passphrase).unwrap();
    assert!(signature.starts_with(b"-----BEGIN PGP SIGNATURE-----\n"));
    let key = repo_index(&[], "repomd.xml.key", &cert, &passphrase).unwrap();
    assert!(key.starts_with(b"-----BEGIN PGP PUBLIC KEY BLOCK-----\n"));
    assert_eq!(repo_index(&[], "repomd.json", &cert, &passphrase), Err(Error::RouteInput));
}

#[test]
fn packages_are_passed_through_from_upstream() {
    assert_eq!(
        upstream_url("OpenBangla", "OpenBangla-Keyboard", "2.0.0", "OpenBangla-Keyboard_2.0.0-ubuntu20.04.deb"),
        "https://github.com/OpenBangla/OpenBangla-Keyboard/releases/download/2.0.0/OpenBangla-Keyboard_2.0.0-ubuntu20.04.deb"
    );
}
