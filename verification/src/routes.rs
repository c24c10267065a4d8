//! What the HTTP adapter asks of the core: which artifact a file name of a
//! request stands for, and the bytes of that artifact.

use crate::apt::index::{gzip_compression, gzip_of, packages_text, release_of, AptIndices};
use crate::error::Error;
use crate::pgp::{armored_public_key, begins_with, clearsign_metadata, detached_sign_metadata, public_key_header, signature_header, signed_message_header};
use crate::rpm::index::{get_repomd_index, index_text, packages_view, render_index, repomd_index_of, zstd_compression, zstd_of, IndexKind};
use crate::rpm::package::RPMPackage;
use crate::text::{from_chars, push_str, str_eq};
use crate::utils::{arch_of_name, Arch};
use sequoia_openpgp::crypto::Password;
use sequoia_openpgp::Cert;
use vstd::prelude::*;
use vstd::utf8::encode_utf8;

verus! {

/// The forms in which the `Release` index is served.
#[derive(Debug, Clone, Copy, PartialEq, Eq, Structural)]
pub enum ReleaseFile {
    /// `Release`: the index as it is.
    Plain,
    /// `Release.gpg`: a detached signature of the index.
    Detached,
    /// `InRelease`: the index in a cleartext-signed message.
    Clearsigned,
}

/// The form of the `Release` index that a file name stands for.
pub open spec fn release_file_of(file: Seq<char>) -> Option<ReleaseFile> {
    if file == "Release"@ {
        Some(ReleaseFile::Plain)
    } else if file == "Release.gpg"@ {
        Some(ReleaseFile::Detached)
    } else if file == "InRelease"@ {
        Some(ReleaseFile::Clearsigned)
    } else {
        None
    }
}

/// Tells the form of the `Release` index that is asked for. Fails with
/// [`Error::RouteInput`] exactly when the name stands for none.
pub fn release_file(file: &str) -> (r: Result<ReleaseFile, Error>)
    ensures
        match r {
            Ok(form) => release_file_of(file@) == Some(form),
            Err(e) => release_file_of(file@) is None && e == Error::RouteInput,
        },
{
    if str_eq(file, "Release") {
        Ok(ReleaseFile::Plain)
    } else if str_eq(file, "Release.gpg") {
        Ok(ReleaseFile::Detached)
    } else if str_eq(file, "InRelease") {
        Ok(ReleaseFile::Clearsigned)
    } else {
        Err(Error::RouteInput)
    }
}

/// Serves the `Release` index in the form that `file` asks for. An unknown
/// name fails with [`Error::RouteInput`], an index that cannot be rendered
/// with [`Error::RenderFailed`], both before anything is signed. The plain
/// form is the index itself; a signed form is what the signer makes of it,
/// which begins with the header line of its kind, or
/// [`Error::SignFailed`].
pub fn release_index(indices: &AptIndices, file: &str, cert: &Cert, passphrase: &Password) -> (r:
    Result<Vec<u8>, Error>)
    ensures
        release_file_of(file@) is None ==> r == Err::<Vec<u8>, Error>(Error::RouteInput),
        release_file_of(file@) is Some && release_of(indices@) is None ==> r == Err::<
            Vec<u8>,
            Error,
        >(Error::RenderFailed),
        release_file_of(file@) == Some(ReleaseFile::Plain) && release_of(indices@) is Some ==> r
            is Ok && r->Ok_0@ == encode_utf8(release_of(indices@)->0),
        release_file_of(file@) is Some && release_file_of(file@) != Some(ReleaseFile::Plain)
            && release_of(indices@) is Some ==> r is Ok || r == Err::<Vec<u8>, Error>(
            Error::SignFailed,
        ),
        release_file_of(file@) == Some(ReleaseFile::Detached) ==> (r matches Ok(signature)
            ==> begins_with(signature@, signature_header())),
        release_file_of(file@) == Some(ReleaseFile::Clearsigned) ==> (r matches Ok(signed)
            ==> begins_with(signed@, signed_message_header())),
{
    let form = match release_file(file) {
        Ok(form) => form,
        Err(e) => {
            return Err(e);
        },
    };
    let text = match indices.get_release_index() {
        Ok(text) => text,
        Err(e) => {
            return Err(e);
        },
    };
    match form {
        ReleaseFile::Plain => Ok(text.as_str().as_bytes_vec()),
        ReleaseFile::Detached => detached_sign_metadata(text.as_str(), cert, passphrase),
        ReleaseFile::Clearsigned => clearsign_metadata(text.as_str(), cert, passphrase),
    }
}

/// The bytes of the `Packages` index of an architecture, as it is or
/// packed with gzip; `None` where the architecture or the file name is not
/// known, or gzip fails.
pub open spec fn packages_file_of(indices: crate::apt::index::AptIndicesModel, arch: Seq<char>, file: Seq<char>) -> Option<
    Seq<u8>,
> {
    match arch_of_name(arch) {
        Some(a) => {
            let plain = encode_utf8(packages_text(indices.buckets[crate::apt::index::arch_place(a)]));
            if file == "Packages"@ {
                Some(plain)
            } else if file == "Packages.gz"@ {
                gzip_of(plain)
            } else {
                None
            }
        },
        None => None,
    }
}

/// Serves the `Packages` index of an architecture. Fails with
/// [`Error::RouteInput`] on an architecture or a file name that is not
/// known, and with [`Error::RenderFailed`] where gzip fails.
pub fn packages_file(indices: &AptIndices, arch: &str, file: &str) -> (r: Result<Vec<u8>, Error>)
    ensures
        match r {
            Ok(bytes) => packages_file_of(indices@, arch@, file@) == Some(bytes@),
            Err(e) => packages_file_of(indices@, arch@, file@) is None && (e == Error::RouteInput
                <==> arch_of_name(arch@) is None || (file@ != "Packages"@ && file@
                != "Packages.gz"@)) && (e == Error::RouteInput || e == Error::RenderFailed),
        },
{
    let Some(a) = Arch::parse(arch) else {
        return Err(Error::RouteInput);
    };
    if str_eq(file, "Packages") {
        Ok(indices.get_package_index(&a).as_str().as_bytes_vec())
    } else if str_eq(file, "Packages.gz") {
        let text = indices.get_package_index(&a);
        gzip_compression(text.as_str().as_bytes())
    } else {
        Err(Error::RouteInput)
    }
}

/// The bytes served for the architecture `all`, which holds no packages:
/// an empty index, as it is or packed with gzip.
pub open spec fn empty_packages_file_of(file: Seq<char>) -> Option<Seq<u8>> {
    if file == "Packages"@ {
        Some(Seq::empty())
    } else if file == "Packages.gz"@ {
        gzip_of(Seq::empty())
    } else {
        None
    }
}

/// Serves the empty `Packages` index of the architecture `all`. Fails with
/// [`Error::RouteInput`] on a file name that is not known, and with
/// [`Error::RenderFailed`] where gzip fails.
pub fn empty_packages_file(file: &str) -> (r: Result<Vec<u8>, Error>)
    ensures
        match r {
            Ok(bytes) => empty_packages_file_of(file@) == Some(bytes@),
            Err(e) => empty_packages_file_of(file@) is None && (e == Error::RouteInput <==> (file@
                != "Packages"@ && file@ != "Packages.gz"@)) && (e == Error::RouteInput || e
                == Error::RenderFailed),
        },
{
    if str_eq(file, "Packages") {
        Ok(Vec::new())
    } else if str_eq(file, "Packages.gz") {
        let nothing: Vec<u8> = Vec::new();
        gzip_compression(nothing.as_slice())
    } else {
        Err(Error::RouteInput)
    }
}

/// The files of the repository data of an RPM repository.
#[derive(Debug, Clone, Copy, PartialEq, Eq, Structural)]
pub enum RepoFile {
    /// `repomd.xml`: the root index.
    Repomd,
    /// `repomd.xml.asc`: a detached signature of the root index.
    RepomdSignature,
    /// `repomd.xml.key`: the public key in ASCII armor.
    RepomdKey,
    /// One of the three indices, packed with zstd.
    Index(IndexKind),
}

/// The file of the repository data that a file name stands for.
pub open spec fn repo_file_of(file: Seq<char>) -> Option<RepoFile> {
    if file == "repomd.xml"@ {
        Some(RepoFile::Repomd)
    } else if file == "repomd.xml.asc"@ {
        Some(RepoFile::RepomdSignature)
    } else if file == "repomd.xml.key"@ {
        Some(RepoFile::RepomdKey)
    } else if file == "primary.xml.zst"@ {
        Some(RepoFile::Index(IndexKind::Primary))
    } else if file == "filelists.xml.zst"@ {
        Some(RepoFile::Index(IndexKind::Filelists))
    } else if file == "other.xml.zst"@ {
        Some(RepoFile::Index(IndexKind::Other))
    } else {
        None
    }
}

/// Tells the file of the repository data that is asked for. Fails with
/// [`Error::RouteInput`] exactly when the name stands for none.
pub fn repo_file(file: &str) -> (r: Result<RepoFile, Error>)
    ensures
        match r {
            Ok(which) => repo_file_of(file@) == Some(which),
            Err(e) => repo_file_of(file@) is None && e == Error::RouteInput,
        },
{
    if str_eq(file, "repomd.xml") {
        Ok(RepoFile::Repomd)
    } else if str_eq(file, "repomd.xml.asc") {
        Ok(RepoFile::RepomdSignature)
    } else if str_eq(file, "repomd.xml.key") {
        Ok(RepoFile::RepomdKey)
    } else if str_eq(file, "primary.xml.zst") {
        Ok(RepoFile::Index(IndexKind::Primary))
    } else if str_eq(file, "filelists.xml.zst") {
        Ok(RepoFile::Index(IndexKind::Filelists))
    } else if str_eq(file, "other.xml.zst") {
        Ok(RepoFile::Index(IndexKind::Other))
    } else {
        Err(Error::RouteInput)
    }
}

/// One of the three indices as it is served: packed with zstd. Fails with
/// [`Error::RenderFailed`] exactly when zstd fails.
pub fn packed_index(kind: IndexKind, packages: &[RPMPackage]) -> (r: Result<Vec<u8>, Error>)
    ensures
        match r {
            Ok(bytes) => zstd_of(encode_utf8(index_text(kind, packages_view(packages@)))) == Some(
                bytes@,
            ),
            Err(e) => zstd_of(encode_utf8(index_text(kind, packages_view(packages@)))) is None
                && e == Error::RenderFailed,
        },
{
    let text = render_index(kind, packages);
    zstd_compression(text.as_str().as_bytes())
}

/// Serves a file of the repository data. An unknown name fails with
/// [`Error::RouteInput`] before anything is rendered. The root index and
/// the three packed indices are what their renderers give. The signature
/// is asked for only of a root index that can be rendered: where it cannot,
/// the answer is [`Error::RenderFailed`]. Signature and key are what the
/// signer makes, each beginning with the header line of its kind, or
/// [`Error::SignFailed`].
pub fn repo_index(packages: &[RPMPackage], file: &str, cert: &Cert, passphrase: &Password) -> (r:
    Result<Vec<u8>, Error>)
    ensures
        repo_file_of(file@) is None ==> r == Err::<Vec<u8>, Error>(Error::RouteInput),
        repo_file_of(file@) == Some(RepoFile::Repomd) ==> match r {
            Ok(bytes) => repomd_index_of(packages_view(packages@)) is Some && bytes@ == encode_utf8(
                repomd_index_of(packages_view(packages@))->0,
            ),
            Err(e) => repomd_index_of(packages_view(packages@)) is None && e
                == Error::RenderFailed,
        },
        repo_file_of(file@) matches Some(RepoFile::Index(kind)) ==> match r {
            Ok(bytes) => zstd_of(encode_utf8(index_text(kind, packages_view(packages@)))) == Some(
                bytes@,
            ),
            Err(e) => zstd_of(encode_utf8(index_text(kind, packages_view(packages@)))) is None
                && e == Error::RenderFailed,
        },
        repo_file_of(file@) == Some(RepoFile::RepomdSignature) && repomd_index_of(
            packages_view(packages@),
        ) is None ==> r == Err::<Vec<u8>, Error>(Error::RenderFailed),
        repo_file_of(file@) == Some(RepoFile::RepomdSignature) && repomd_index_of(
            packages_view(packages@),
        ) is Some ==> r is Ok || r == Err::<Vec<u8>, Error>(Error::SignFailed),
        repo_file_of(file@) == Some(RepoFile::RepomdKey) ==> r is Ok || r == Err::<Vec<u8>, Error>(
            Error::SignFailed,
        ),
        repo_file_of(file@) == Some(RepoFile::RepomdSignature) ==> (r matches Ok(signature)
            ==> begins_with(signature@, signature_header())),
        repo_file_of(file@) == Some(RepoFile::RepomdKey) ==> (r matches Ok(armored)
            ==> begins_with(armored@, public_key_header())),
{
    let which = match repo_file(file) {
        Ok(which) => which,
        Err(e) => {
            return Err(e);
        },
    };
    match which {
        RepoFile::Repomd => match get_repomd_index(packages) {
            Ok(text) => Ok(text.as_str().as_bytes_vec()),
            Err(e) => Err(e),
        },
        RepoFile::RepomdSignature => match get_repomd_index(packages) {
            Ok(text) => detached_sign_metadata(text.as_str(), cert, passphrase),
            Err(e) => Err(e),
        },
        RepoFile::RepomdKey => armored_public_key(cert),
        RepoFile::Index(kind) => packed_index(kind, packages),
    }
}

/// The address of an asset of a release at the upstream host.
pub open spec fn upstream_url_of(owner: Seq<char>, repo: Seq<char>, ver: Seq<char>, file: Seq<char>) -> Seq<
    char,
> {
    "https://github.com/"@ + owner + "/"@ + repo + "/releases/download/"@ + ver + "/"@ + file
}

/// The address from which a package is passed through to the client.
pub fn upstream_url(owner: &str, repo: &str, ver: &str, file: &str) -> (r: String)
    ensures
        r@ == upstream_url_of(owner@, repo@, ver@, file@),
{
    let mut out: Vec<char> = Vec::new();
    push_str(&mut out, "https://github.com/");
    push_str(&mut out, owner);
    push_str(&mut out, "/");
    push_str(&mut out, repo);
    push_str(&mut out, "/releases/download/");
    push_str(&mut out, ver);
    push_str(&mut out, "/");
    push_str(&mut out, file);
    assert(out@ == upstream_url_of(owner@, repo@, ver@, file@));
    from_chars(&out)
}

} // verus!
