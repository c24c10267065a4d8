//! OpenPGP signatures over the rendered indices, and the export of the
//! public key.
//!
//! Signatures carry their time of making, and keys are made from random
//! numbers, so of their bytes only that is promised which holds of every
//! outcome: the line that they begin with. What depends on the certificate
//! alone, its binary forms, has a name.

use crate::error::Error;
use sequoia_openpgp::crypto::KeyPair;
use sequoia_openpgp::crypto::Password;
use sequoia_openpgp::Cert;
use vstd::prelude::*;
use vstd::utf8::encode_utf8;

verus! {

/// An OpenPGP certificate: a key with its subkeys and user ids.
#[verifier::external_type_specification]
#[verifier::external_body]
pub struct ExCert(Cert);

/// A passphrase, kept encrypted in memory.
#[verifier::external_type_specification]
#[verifier::external_body]
pub struct ExPassword(Password);

/// A secret key that is unlocked and ready to sign.
#[verifier::external_type_specification]
#[verifier::external_body]
pub struct ExKeyPair(KeyPair);

/// The bytes that a passphrase holds.
pub uninterp spec fn password_bytes(password: Password) -> Seq<u8>;

/// The user ids of a certificate, in their order.
pub uninterp spec fn cert_user_ids(cert: Cert) -> Seq<Seq<u8>>;

/// The packets of a certificate in binary form, secret keys left out;
/// `None` where the certificate cannot be written.
pub uninterp spec fn public_packets(cert: Cert) -> Option<Seq<u8>>;

/// The packets of a certificate in binary form, secret keys included;
/// `None` where the certificate cannot be written.
pub uninterp spec fn secret_packets(cert: Cert) -> Option<Seq<u8>>;

/// The packets, secret keys included, of the certificate that the bytes
/// hold, in binary or armored form; `None` where they hold none.
pub uninterp spec fn parsed_cert(bytes: Seq<u8>) -> Option<Option<Seq<u8>>>;

/// The bytes begin with the text, one byte for each character.
pub open spec fn begins_with(bytes: Seq<u8>, text: Seq<char>) -> bool {
    text.len() <= bytes.len() && forall|i: int|
        0 <= i < text.len() ==> #[trigger] bytes[i] as char == text[i]
}

/// The first line of a cleartext-signed message.
pub open spec fn signed_message_header() -> Seq<char> {
    "-----BEGIN PGP SIGNED MESSAGE-----"@
}

/// The first line of an armored signature.
pub open spec fn signature_header() -> Seq<char> {
    "-----BEGIN PGP SIGNATURE-----"@
}

/// The first line of an armored public key.
pub open spec fn public_key_header() -> Seq<char> {
    "-----BEGIN PGP PUBLIC KEY BLOCK-----"@
}

/// The user id of the gateway's certificate.
pub open spec fn gateway_user_id() -> Seq<char> {
    "PackHub <sign@packhub.dev>"@
}

/// Makes a passphrase of a text.
///
/// Wraps the conversion of `&str` into `sequoia_openpgp::crypto::Password`,
/// which keeps the bytes of the text.
#[verifier::external_body]
fn password_of(text: &str) -> (r: Password)
    ensures
        password_bytes(r) == encode_utf8(text@),
{
    Password::from(text)
}

/// Makes a new certificate with a signing subkey, protected by the
/// passphrase.
///
/// Wraps `CertBuilder::new`, `add_userid`, `set_password`,
/// `add_signing_subkey` and `generate` of `sequoia_openpgp`. The key is
/// random, so nothing is claimed of it; the certificate has the one user
/// id that the builder was given.
#[verifier::external_body]
fn new_cert(user_id: &str, passphrase: &Password) -> (r: Option<Cert>)
    ensures
        r matches Some(cert) ==> cert_user_ids(cert) == seq![encode_utf8(user_id@)],
{
    let builder = sequoia_openpgp::cert::CertBuilder::new().add_userid(user_id);
    let builder = builder.set_password(Some(passphrase.clone())).add_signing_subkey();
    builder.generate().ok().map(|made| made.0)
}

/// Unlocks the first key of the certificate that can sign now: one that
/// is supported, alive and not revoked under the standard policy.
///
/// Wraps `Cert::keys` with its filters `secret`, `with_policy`,
/// `supported`, `alive`, `revoked` and `for_signing`, and
/// `Key::decrypt_secret` and `Key::into_keypair`. Which key is alive
/// depends on the time, so nothing is claimed of the result.
#[verifier::external_body]
fn signing_key(cert: &Cert, passphrase: &Password) -> Option<KeyPair> {
    let policy = sequoia_openpgp::policy::StandardPolicy::new();
    let keys = cert.keys().secret().with_policy(&policy, None).supported().alive();
    let key = keys.revoked(false).for_signing().next()?.key().clone();
    key.decrypt_secret(passphrase).ok()?.into_keypair().ok()
}

/// Signs the text in the cleartext signature framework.
///
/// Wraps `Message::new`, `Signer::new`, `Signer::cleartext`, `build`,
/// writing to the signer and `finalize` of
/// `sequoia_openpgp::serialize::stream`. The signature carries its time
/// of making, so only the header line is claimed, which the signer writes
/// first.
#[verifier::external_body]
fn sign_cleartext(data: &str, key: KeyPair) -> (r: Option<Vec<u8>>)
    ensures
        r matches Some(signed) ==> begins_with(signed@, signed_message_header()),
{
    let mut sink = vec![];
    let message = sequoia_openpgp::serialize::stream::Message::new(&mut sink);
    let signer = sequoia_openpgp::serialize::stream::Signer::new(message, key).ok()?;
    let mut signer = signer.cleartext().build().ok()?;
    std::io::Write::write_all(&mut signer, data.as_bytes()).ok()?;
    signer.finalize().ok()?;
    Some(sink)
}

/// Makes an armored detached signature of the text.
///
/// Wraps `Message::new`, `Armorer::new`, `Armorer::kind`, `Signer::new`,
/// `Signer::detached`, `build`, writing to the signer and `finalize` of
/// `sequoia_openpgp::serialize::stream`. The signature carries its time
/// of making, so only the header line is claimed, which the armor writer
/// writes first.
#[verifier::external_body]
fn sign_detached(data: &str, key: KeyPair) -> (r: Option<Vec<u8>>)
    ensures
        r matches Some(signature) ==> begins_with(signature@, signature_header()),
{
    let mut sink = vec![];
    let message = sequoia_openpgp::serialize::stream::Message::new(&mut sink);
    let armorer = sequoia_openpgp::serialize::stream::Armorer::new(message);
    let message = armorer.kind(sequoia_openpgp::armor::Kind::Signature).build().ok()?;
    let signer = sequoia_openpgp::serialize::stream::Signer::new(message, key).ok()?;
    let mut signer = signer.detached().build().ok()?;
    std::io::Write::write_all(&mut signer, data.as_bytes()).ok()?;
    signer.finalize().ok()?;
    Some(sink)
}

/// The public part of the certificate in ASCII armor.
///
/// Wraps `Cert::armored` and `SerializeInto::to_vec`. The comments of the
/// armor name the user ids that are valid now, so only the header line is
/// claimed, which the armor writer writes first.
#[verifier::external_body]
fn public_key_armored(cert: &Cert) -> (r: Option<Vec<u8>>)
    ensures
        r matches Some(armored) ==> begins_with(armored@, public_key_header()),
{
    sequoia_openpgp::serialize::SerializeInto::to_vec(&cert.armored()).ok()
}

/// The public part of the certificate in binary form.
///
/// Wraps `SerializeInto::to_vec` on the certificate. The contract names
/// the result.
#[verifier::external_body]
fn public_key_binary(cert: &Cert) -> (r: Option<Vec<u8>>)
    ensures
        match r {
            Some(packets) => public_packets(*cert) == Some(packets@),
            None => public_packets(*cert) is None,
        },
{
    sequoia_openpgp::serialize::SerializeInto::to_vec(cert).ok()
}

/// The certificate with its secret keys in binary form.
///
/// Wraps `Cert::as_tsk` and `SerializeInto::to_vec`. The contract names the
/// result.
#[verifier::external_body]
fn secret_key_binary(cert: &Cert) -> (r: Option<Vec<u8>>)
    ensures
        match r {
            Some(packets) => secret_packets(*cert) == Some(packets@),
            None => secret_packets(*cert) is None,
        },
{
    sequoia_openpgp::serialize::SerializeInto::to_vec(&cert.as_tsk()).ok()
}

/// Reads a certificate from its binary or armored form.
///
/// Wraps `Cert::from_bytes` of `sequoia_openpgp::parse::Parse`. The
/// contract names the result by the packets of the certificate.
#[verifier::external_body]
fn read_cert(bytes: &[u8]) -> (r: Option<Cert>)
    ensures
        match r {
            Some(cert) => parsed_cert(bytes@) == Some(secret_packets(cert)),
            None => parsed_cert(bytes@) is None,
        },
{
    <Cert as sequoia_openpgp::parse::Parse<Cert>>::from_bytes(bytes).ok()
}

fn or_sign_failed<T>(made: Option<T>) -> (r: Result<T, Error>)
    ensures
        match r {
            Ok(v) => made == Some(v),
            Err(e) => made is None && e == Error::SignFailed,
        },
{
    match made {
        Some(v) => Ok(v),
        None => Err(Error::SignFailed),
    }
}

/// The passphrase that protects the signing key: it holds the bytes of
/// the text.
pub fn passphrase(text: &str) -> (r: Password)
    ensures
        password_bytes(r) == encode_utf8(text@),
{
    password_of(text)
}

/// Makes a new certificate for the gateway, with a signing subkey that the
/// passphrase protects; its one user id is [`gateway_user_id`]. Any
/// failure is reported as [`Error::SignFailed`].
pub fn generate_keys(passphrase: &Password) -> (r: Result<Cert, Error>)
    ensures
        r matches Ok(cert) ==> cert_user_ids(cert) == seq![encode_utf8(gateway_user_id())],
        r is Err ==> r->Err_0 == Error::SignFailed,
{
    or_sign_failed(new_cert("PackHub <sign@packhub.dev>", passphrase))
}

/// The certificate with its secret keys, as it is kept in the key file.
/// Fails with [`Error::SignFailed`] exactly when the certificate cannot
/// be written.
pub fn export_secret_key(cert: &Cert) -> (r: Result<Vec<u8>, Error>)
    ensures
        match r {
            Ok(packets) => secret_packets(*cert) == Some(packets@),
            Err(e) => secret_packets(*cert) is None && e == Error::SignFailed,
        },
{
    or_sign_failed(secret_key_binary(cert))
}

/// Reads the certificate back from the content of the key file. Fails
/// with [`Error::SignFailed`] exactly when the bytes hold no certificate.
pub fn load_cert(bytes: &[u8]) -> (r: Result<Cert, Error>)
    ensures
        match r {
            Ok(cert) => parsed_cert(bytes@) == Some(secret_packets(cert)),
            Err(e) => parsed_cert(bytes@) is None && e == Error::SignFailed,
        },
{
    or_sign_failed(read_cert(bytes))
}

/// Signs metadata as a cleartext-signed message, with the first key of the
/// certificate that can sign now. The message begins with
/// [`signed_message_header`]. Where no such key can be unlocked with the
/// passphrase, or signing fails, the failure is reported as
/// [`Error::SignFailed`].
pub fn clearsign_metadata(data: &str, cert: &Cert, passphrase: &Password) -> (r: Result<
    Vec<u8>,
    Error,
>)
    ensures
        r matches Ok(signed) ==> begins_with(signed@, signed_message_header()),
        r is Err ==> r->Err_0 == Error::SignFailed,
{
    match signing_key(cert, passphrase) {
        Some(key) => or_sign_failed(sign_cleartext(data, key)),
        None => Err(Error::SignFailed),
    }
}

/// Makes an armored detached signature of metadata, with the first key of
/// the certificate that can sign now. The signature begins with
/// [`signature_header`]. Where no such key can be unlocked with the
/// passphrase, or signing fails, the failure is reported as
/// [`Error::SignFailed`].
pub fn detached_sign_metadata(content: &str, cert: &Cert, passphrase: &Password) -> (r: Result<
    Vec<u8>,
    Error,
>)
    ensures
        r matches Ok(signature) ==> begins_with(signature@, signature_header()),
        r is Err ==> r->Err_0 == Error::SignFailed,
{
    match signing_key(cert, passphrase) {
        Some(key) => or_sign_failed(sign_detached(content, key)),
        None => Err(Error::SignFailed),
    }
}

/// The public key in ASCII armor; it begins with [`public_key_header`].
/// Any failure is reported as [`Error::SignFailed`].
pub fn armored_public_key(cert: &Cert) -> (r: Result<Vec<u8>, Error>)
    ensures
        r matches Ok(armored) ==> begins_with(armored@, public_key_header()),
        r is Err ==> r->Err_0 == Error::SignFailed,
{
    or_sign_failed(public_key_armored(cert))
}

/// The public key in binary form. Fails with [`Error::SignFailed`]
/// exactly when the certificate cannot be written.
pub fn dearmored_public_key(cert: &Cert) -> (r: Result<Vec<u8>, Error>)
    ensures
        match r {
            Ok(packets) => public_packets(*cert) == Some(packets@),
            Err(e) => public_packets(*cert) is None && e == Error::SignFailed,
        },
{
    or_sign_failed(public_key_binary(cert))
}

} // verus!
