//! Debian packages: the control file inside the archive, the digests of the
//! archive, and the record that the `Packages` index quotes.

use crate::codec::{decode, decode_fields, encode, encode_fields, lemma_decimal_roundtrip, lemma_decode_encode, strings_view};
use crate::digest::{hashsum, hex_lower, md5_sum, sha1_sum, sha256_sum, sha512_sum, HashAlgorithm};
use crate::error::Error;
use crate::package::{Data, DataModel, Package};
use crate::pattern::{first_capture, regex_capture};
use crate::platform::captured;
use crate::text::{decimal, decimal_value, from_chars, parse_u64, push_str, spec_decimal, to_chars, trim_end, trimmed_end};
use crate::utils::{arch_of_name, channel_name, Arch, ReleaseChannel};
use vstd::prelude::*;
use vstd::utf8::{decode_utf8, valid_utf8};

verus! {

/// The member of an `ar` archive at place `index`, counted from 0, with
/// its identifier and its content; `None` where the archive has no such
/// member, or it or one before it cannot be read.
pub uninterp spec fn ar_member_at(data: Seq<u8>, index: nat) -> Option<(Seq<u8>, Seq<u8>)>;

/// The length of the line that opens an archive.
pub const AR_MAGIC_LEN: usize = 8;

/// The number of leading decimal digits among the `limit` bytes at `at`.
pub open spec fn digits_run(data: Seq<u8>, at: int, limit: int) -> int
    decreases limit,
{
    if limit <= 0 || !(48 <= data[at] <= 57) {
        0
    } else {
        1 + digits_run(data, at + 1, limit - 1)
    }
}

/// The number that the `count` decimal digits at `at` denote.
pub open spec fn digits_number(data: Seq<u8>, at: int, count: int) -> nat
    decreases count,
{
    if count <= 0 {
        0
    } else {
        (digits_number(data, at, count - 1) * 10 + (data[at + count - 1] - 48)) as nat
    }
}

/// The size that the ten bytes at `at` give in the plainest way: decimal
/// digits, at least one, then spaces only.
pub open spec fn size_field(data: Seq<u8>, at: int) -> Option<nat> {
    let run = digits_run(data, at, 10);
    if run >= 1 && forall|i: int| at + run <= i < at + 10 ==> data[i] == 32 {
        Some(digits_number(data, at, run))
    } else {
        None
    }
}

/// The header of a member at `p` is plain: it lies within the bytes, its
/// name begins neither with `/`, as the names of the GNU variant that refer
/// to a table do, nor with `#1/`, as the long names of the BSD variant do,
/// and its size is given in the plainest way.
pub open spec fn plain_header(data: Seq<u8>, p: int) -> bool {
    &&& 0 <= p
    &&& p + 60 <= data.len()
    &&& data[p] != 47
    &&& !(data[p] == 35 && data[p + 1] == 49 && data[p + 2] == 47)
    &&& size_field(data, p + 48) is Some
}

/// Where the member after the plain one at `p` starts: after the header,
/// the content, and one byte that fills an odd size up.
pub open spec fn next_member(data: Seq<u8>, p: int) -> int {
    p + 60 + size_field(data, p + 48)->0 + size_field(data, p + 48)->0 % 2
}

/// The number of members with plain headers from `p` on, up to the first
/// one that has none.
pub open spec fn plain_from(data: Seq<u8>, p: int) -> nat
    decreases data.len() - p,
{
    if !plain_header(data, p) {
        0
    } else if next_member(data, p) + 60 <= data.len() {
        1 + plain_from(data, next_member(data, p))
    } else {
        1
    }
}

/// The number of leading members of an archive that have plain headers. A
/// Debian package has no others.
pub open spec fn plain_members(data: Seq<u8>) -> nat {
    plain_from(data, AR_MAGIC_LEN as int)
}

/// What a gzip stream unpacks to; `None` where the bytes are no gzip
/// stream.
pub uninterp spec fn gunzip(data: Seq<u8>) -> Option<Seq<u8>>;

/// The files of a `tar` archive, each with its path and its content, in
/// the order of the archive, up to its end or to the first file that
/// cannot be read; and whether the end was reached.
pub uninterp spec fn tar_listing(data: Seq<u8>) -> (Seq<(Seq<u8>, Seq<u8>)>, bool);

/// The views of a list of named byte strings.
pub open spec fn listing_view(members: Seq<(Vec<u8>, Vec<u8>)>) -> Seq<(Seq<u8>, Seq<u8>)> {
    Seq::new(members.len(), |i: int| (members[i].0@, members[i].1@))
}

/// The view of a named byte string that may be missing.
pub open spec fn member_view(member: Option<(Vec<u8>, Vec<u8>)>) -> Option<(Seq<u8>, Seq<u8>)> {
    match member {
        Some(m) => Some((m.0@, m.1@)),
        None => None,
    }
}

/// Reads the member of an `ar` archive at place `index`.
///
/// Wraps `ar::Archive::new`, `Archive::next_entry`, which is called
/// `index` times to pass over the members before, `Entry::header`,
/// `Header::identifier` and reading an entry to its end. The contract names
/// the result. The crate looks a name that begins with `/` up in a table
/// without testing the place, and sizes a buffer by a name that begins
/// with `#1/`; so it is asked only for members up to which all headers are
/// plain.
#[verifier::external_body]
fn ar_member(data: &[u8], index: usize) -> (r: Option<(Vec<u8>, Vec<u8>)>)
    requires
        index < plain_members(data@),
    ensures
        member_view(r) == ar_member_at(data@, index as nat),
{
    let mut archive = ar::Archive::new(data);
    for _ in 0..index {
        archive.next_entry()?.ok()?;
    }
    let mut entry = archive.next_entry()?.ok()?;
    let mut content = Vec::new();
    std::io::Read::read_to_end(&mut entry, &mut content).ok()?;
    Some((entry.header().identifier().to_vec(), content))
}

fn read_size(data: &[u8], at: usize) -> (r: Option<u64>)
    requires
        at + 10 <= data@.len(),
    ensures
        match r {
            Some(size) => size_field(data@, at as int) == Some(size as nat),
            None => size_field(data@, at as int) is None,
        },
        r is Some ==> r->0 < 10_000_000_000,
{
    let total = data.len();
    let mut run: usize = 0;
    let mut value: u64 = 0;
    while run < 10 && 48 <= data[at + run] && data[at + run] <= 57
        invariant
            run <= 10,
            at + 10 <= data@.len(),
            total == data@.len(),
            digits_run(data@, at as int, 10) == run + digits_run(data@, at + run, 10 - run),
            value == digits_number(data@, at as int, run as int),
            run <= 0 ==> value < 1,
            run <= 1 ==> value < 10,
            run <= 2 ==> value < 100,
            run <= 3 ==> value < 1_000,
            run <= 4 ==> value < 10_000,
            run <= 5 ==> value < 100_000,
            run <= 6 ==> value < 1_000_000,
            run <= 7 ==> value < 10_000_000,
            run <= 8 ==> value < 100_000_000,
            run <= 9 ==> value < 1_000_000_000,
            value < 10_000_000_000,
        decreases 10 - run,
    {
        value = value * 10 + (data[at + run] - 48) as u64;
        run = run + 1;
    }
    if run == 0 {
        return None;
    }
    let mut i: usize = run;
    while i < 10
        invariant
            1 <= run <= i <= 10,
            at + 10 <= data@.len(),
            total == data@.len(),
            digits_run(data@, at as int, 10) == run,
            value == digits_number(data@, at as int, run as int),
            forall|j: int| at + run <= j < at + i ==> data@[j] == 32,
        decreases 10 - i,
    {
        if data[at + i] != 32 {
            assert(data@[at + i] != 32);
            return None;
        }
        i = i + 1;
    }
    Some(value)
}

fn is_plain(data: &[u8], p: usize) -> (r: Option<u64>)
    ensures
        match r {
            Some(size) => plain_header(data@, p as int) && size_field(data@, p + 48) == Some(
                size as nat,
            ) && size < 10_000_000_000,
            None => !plain_header(data@, p as int),
        },
{
    if p > data.len() || data.len() - p < 60 {
        return None;
    }
    if data[p] == 47 || (data[p] == 35 && data[p + 1] == 49 && data[p + 2] == 47) {
        return None;
    }
    read_size(data, p + 48)
}

/// Counts the leading members of an archive that have plain headers.
pub fn count_plain(data: &[u8]) -> (r: usize)
    ensures
        r == plain_members(data@),
{
    let mut p: usize = AR_MAGIC_LEN;
    let mut count: usize = 0;
    loop
        invariant
            count <= p,
            plain_members(data@) == count + plain_from(data@, p as int),
        decreases data@.len() - p,
    {
        let Some(size) = is_plain(data, p) else {
            return count;
        };
        let step: u64 = 60 + size + size % 2;
        if step > (data.len() - p) as u64 || (data.len() - p) as u64 - step < 60 {
            return count + 1;
        }
        p = p + step as usize;
        count = count + 1;
    }
}

/// Unpacks a gzip stream.
///
/// Wraps `libflate::gzip::Decoder::new` and reading the decoder to its end.
/// The contract names the result.
#[verifier::external_body]
fn gzip_decode(data: &[u8]) -> (r: Option<Vec<u8>>)
    ensures
        match r {
            Some(bytes) => gunzip(data@) == Some(bytes@),
            None => gunzip(data@) is None,
        },
{
    let mut decoder = libflate::gzip::Decoder::new(data).ok()?;
    let mut out = Vec::new();
    std::io::Read::read_to_end(&mut decoder, &mut out).ok()?;
    Some(out)
}

/// Lists the files of a `tar` archive.
///
/// Wraps `tar::Archive::new`, `Archive::entries`, `Entry::path_bytes` and
/// reading an entry to its end. The contract names the result.
#[verifier::external_body]
fn tar_members(data: &[u8]) -> (r: (Vec<(Vec<u8>, Vec<u8>)>, bool))
    ensures
        (listing_view(r.0@), r.1) == tar_listing(data@),
{
    let mut archive = tar::Archive::new(data);
    let mut members = Vec::new();
    let Ok(entries) = archive.entries() else { return (members, false) };
    for entry in entries {
        let Ok(mut entry) = entry else { return (members, false) };
        let mut content = Vec::new();
        let read = std::io::Read::read_to_end(&mut entry, &mut content);
        if read.is_err() { return (members, false) }
        members.push((entry.path_bytes().into_owned(), content));
    }
    (members, true)
}

/// Reads bytes as UTF-8 text.
///
/// Wraps `String::from_utf8`, which succeeds exactly on valid UTF-8 and
/// then holds the characters that the bytes encode.
#[verifier::external_body]
fn utf8_text(bytes: Vec<u8>) -> (r: Option<String>)
    ensures
        r is Some == valid_utf8(bytes@),
        r is Some ==> r->0@ == decode_utf8(bytes@),
{
    String::from_utf8(bytes).ok()
}

/// The bytes spell `name`, one byte for each character.
pub open spec fn spells(bytes: Seq<u8>, name: Seq<char>) -> bool {
    bytes.len() == name.len() && forall|i: int|
        0 <= i < bytes.len() ==> #[trigger] bytes[i] as char == name[i]
}

/// Whether the bytes spell `name`.
pub fn is_named(bytes: &Vec<u8>, name: &str) -> (r: bool)
    ensures
        r == spells(bytes@, name@),
{
    let chars = to_chars(name);
    if bytes.len() != chars.len() {
        return false;
    }
    let mut i: usize = 0;
    while i < bytes.len()
        invariant
            i <= bytes.len(),
            bytes.len() == chars.len(),
            chars@ == name@,
            forall|j: int| 0 <= j < i ==> #[trigger] bytes@[j] as char == chars@[j],
        decreases bytes.len() - i,
    {
        if bytes[i] as char != chars[i] {
            assert(bytes@[i as int] as char != name@[i as int]);
            return false;
        }
        i = i + 1;
    }
    true
}

/// The content of the first file of the listing whose path is `./control`.
pub open spec fn control_in_tar(files: Seq<(Seq<u8>, Seq<u8>)>) -> Option<Seq<u8>>
    decreases files.len(),
{
    if files.len() == 0 {
        None
    } else if spells(files[0].0, "./control"@) {
        Some(files[0].1)
    } else {
        control_in_tar(files.drop_first())
    }
}

/// What one member of a Debian package says of the control text. A
/// member that is not named `control.tar.gz` says nothing (`None`), and so
/// does a control archive that was read to its end and holds no
/// `./control`. Otherwise the search ends here: with the text of the first
/// `./control` of the archive, or without one (`Some(None)`) where the
/// member cannot be unpacked, the archive cannot be read to its end, or the
/// file is not valid UTF-8.
pub open spec fn member_control(member: (Seq<u8>, Seq<u8>)) -> Option<Option<Seq<char>>> {
    if !spells(member.0, "control.tar.gz"@) {
        None
    } else {
        match gunzip(member.1) {
            None => Some(None),
            Some(tarball) => match control_in_tar(tar_listing(tarball).0) {
                Some(bytes) => if valid_utf8(bytes) {
                    Some(Some(decode_utf8(bytes)))
                } else {
                    Some(None)
                },
                None => if tar_listing(tarball).1 {
                    None
                } else {
                    Some(None)
                },
            },
        }
    }
}

/// The control text found by going through the members of a Debian
/// package in order, from place `i` on: what the first member that says
/// anything says. The search fails (`None`) at a member that cannot be
/// read, and after the last member with a plain header.
pub open spec fn control_from(data: Seq<u8>, i: nat) -> Option<Seq<char>>
    decreases plain_members(data) - i,
{
    if i >= plain_members(data) {
        None
    } else {
        match ar_member_at(data, i) {
            None => None,
            Some(member) => match member_control(member) {
                Some(found) => found,
                None => control_from(data, i + 1),
            },
        }
    }
}

/// The control text of a Debian package; `None` where none can be read
/// from its members with plain headers.
pub open spec fn control_of(data: Seq<u8>) -> Option<Seq<char>> {
    control_from(data, 0)
}

/// Finds the control file among the files of a control archive; see
/// [`control_in_tar`].
pub fn find_control(files: &Vec<(Vec<u8>, Vec<u8>)>) -> (r: Option<Vec<u8>>)
    ensures
        match r {
            Some(bytes) => control_in_tar(listing_view(files@)) == Some(bytes@),
            None => control_in_tar(listing_view(files@)) is None,
        },
{
    let ghost all = listing_view(files@);
    let mut i: usize = 0;
    assert(all.skip(0) == all);
    while i < files.len()
        invariant
            i <= files.len(),
            all == listing_view(files@),
            control_in_tar(all) == control_in_tar(all.skip(i as int)),
        decreases files.len() - i,
    {
        assert(all.skip(i as int)[0] == all[i as int]);
        assert(all.skip(i as int).drop_first() == all.skip(i + 1));
        if is_named(&files[i].0, "./control") {
            return Some(files[i].1.clone());
        }
        i = i + 1;
    }
    None
}

/// Looks for the control text in one member of a Debian package; see
/// [`member_control`]. `None` where the member says nothing.
pub fn control_in_member(member: &(Vec<u8>, Vec<u8>)) -> (r: Option<Result<String, Error>>)
    ensures
        match r {
            Some(Ok(text)) => member_control((member.0@, member.1@)) == Some(Some(text@)),
            Some(Err(e)) => member_control((member.0@, member.1@)) == Some(None::<Seq<char>>) && e
                == Error::ParseFailed,
            None => member_control((member.0@, member.1@)) is None,
        },
{
    if !is_named(&member.0, "control.tar.gz") {
        return None;
    }
    let Some(tarball) = gzip_decode(member.1.as_slice()) else {
        return Some(Err(Error::ParseFailed));
    };
    let (files, complete) = tar_members(tarball.as_slice());
    match find_control(&files) {
        Some(bytes) => match utf8_text(bytes) {
            Some(text) => Some(Ok(text)),
            None => Some(Err(Error::ParseFailed)),
        },
        None => if complete {
            None
        } else {
            Some(Err(Error::ParseFailed))
        },
    }
}

/// Reads the control text of a Debian package. Fails with
/// [`Error::ParseFailed`] exactly when [`control_of`] finds none.
pub fn read_control_file(data: &[u8]) -> (r: Result<String, Error>)
    ensures
        match r {
            Ok(text) => control_of(data@) == Some(text@),
            Err(e) => control_of(data@) is None && e == Error::ParseFailed,
        },
{
    let members = count_plain(data);
    let mut i: usize = 0;
    while i < members
        invariant
            i <= members,
            members == plain_members(data@),
            control_of(data@) == control_from(data@, i as nat),
        decreases members - i,
    {
        let Some(member) = ar_member(data, i) else {
            return Err(Error::ParseFailed);
        };
        match control_in_member(&member) {
            Some(found) => {
                return found;
            },
            None => {},
        }
        i = i + 1;
    }
    Err(Error::ParseFailed)
}

/// What the `Packages` index quotes of a Debian package.
#[derive(Debug)]
pub struct DebianPackage {
    pub control: String,
    pub md5: String,
    pub sha1: String,
    pub sha256: String,
    pub sha512: String,
    pub size: usize,
    pub filename: String,
}

/// The mathematical content of a [`DebianPackage`].
pub struct DebianPackageModel {
    pub control: Seq<char>,
    pub md5: Seq<char>,
    pub sha1: Seq<char>,
    pub sha256: Seq<char>,
    pub sha512: Seq<char>,
    pub size: nat,
    pub filename: Seq<char>,
}

impl View for DebianPackage {
    type V = DebianPackageModel;

    open spec fn view(&self) -> DebianPackageModel {
        DebianPackageModel {
            control: self.control@,
            md5: self.md5@,
            sha1: self.sha1@,
            sha256: self.sha256@,
            sha512: self.sha512@,
            size: self.size as nat,
            filename: self.filename@,
        }
    }
}

impl Clone for DebianPackage {
    fn clone(&self) -> (r: Self)
        ensures
            r@ == self@,
    {
        DebianPackage {
            control: self.control.clone(),
            md5: self.md5.clone(),
            sha1: self.sha1.clone(),
            sha256: self.sha256.clone(),
            sha512: self.sha512.clone(),
            size: self.size,
            filename: self.filename.clone(),
        }
    }
}

/// The path under which the gateway serves a Debian package.
pub open spec fn pool_path(channel: ReleaseChannel, version: Seq<char>, file: Seq<char>) -> Seq<
    char,
> {
    "pool/"@ + channel_name(channel) + "/"@ + version + "/"@ + file
}

/// The record of the Debian package with the bytes `data`; `None` where
/// its control text cannot be read.
pub open spec fn deb_record(
    data: Seq<u8>,
    channel: ReleaseChannel,
    version: Seq<char>,
    file: Seq<char>,
) -> Option<DebianPackageModel> {
    match control_of(data) {
        Some(text) => Some(
            DebianPackageModel {
                control: trimmed_end(text),
                md5: hex_lower(md5_sum(data)),
                sha1: hex_lower(sha1_sum(data)),
                sha256: hex_lower(sha256_sum(data)),
                sha512: hex_lower(sha512_sum(data)),
                size: data.len(),
                filename: pool_path(channel, version, file),
            },
        ),
        None => None,
    }
}

/// The fields of a record, in the order in which they are serialized.
pub open spec fn deb_fields(p: DebianPackageModel) -> Seq<Seq<char>> {
    seq![p.control, p.md5, p.sha1, p.sha256, p.sha512, spec_decimal(p.size), p.filename]
}

/// The serialized form of a record.
pub open spec fn deb_metadata(p: DebianPackageModel) -> Seq<char> {
    encode_fields(deb_fields(p))
}

/// The record that a list of fields stands for; `None` where the list is
/// not that of a record that fits this machine.
pub open spec fn deb_of_fields(fields: Seq<Seq<char>>) -> Option<DebianPackageModel> {
    if fields.len() == 7 && decimal_value(fields[5]) is Some && decimal_value(fields[5])->0
        <= usize::MAX {
        Some(
            DebianPackageModel {
                control: fields[0],
                md5: fields[1],
                sha1: fields[2],
                sha256: fields[3],
                sha512: fields[4],
                size: decimal_value(fields[5])->0,
                filename: fields[6],
            },
        )
    } else {
        None
    }
}

/// The record that serialized metadata stands for.
pub open spec fn deb_of_metadata(text: Seq<char>) -> Option<DebianPackageModel> {
    match decode_fields(text) {
        Some(fields) => deb_of_fields(fields),
        None => None,
    }
}

/// What parsing makes of the content of a package's data cell: the record
/// and what the cell holds afterwards. Metadata is read back and stays;
/// the bytes of a package are parsed and give way to the metadata of the
/// record; an empty cell gives nothing.
pub open spec fn deb_parse(
    data: DataModel,
    channel: ReleaseChannel,
    version: Seq<char>,
    file: Seq<char>,
) -> Option<(DebianPackageModel, DataModel)> {
    match data {
        DataModel::Metadata(text) => match deb_of_metadata(text) {
            Some(p) => Some((p, data)),
            None => None,
        },
        DataModel::Package(bytes) => match deb_record(bytes, channel, version, file) {
            Some(p) => Some((p, DataModel::Metadata(deb_metadata(p)))),
            None => None,
        },
        DataModel::Empty => None,
    }
}

/// `r` is what parsing makes of a data cell that holds `data`: the record,
/// or the failure where parsing gives nothing.
pub open spec fn deb_parsed_as(
    data: DataModel,
    channel: ReleaseChannel,
    version: Seq<char>,
    file: Seq<char>,
    r: Result<DebianPackage, Error>,
) -> bool {
    match r {
        Ok(p) => match deb_parse(data, channel, version, file) {
            Some(parsed) => parsed.0 == p@,
            None => false,
        },
        Err(e) => deb_parse(data, channel, version, file) is None && e == Error::ParseFailed,
    }
}

/// A record that fits this machine is read back from its serialized form
/// as it was.
pub proof fn lemma_deb_roundtrip(p: DebianPackageModel)
    requires
        p.size <= usize::MAX,
    ensures
        deb_of_metadata(deb_metadata(p)) == Some(p),
{
    lemma_decode_encode(deb_fields(p));
    lemma_decimal_roundtrip(p.size);
}

/// Parsing the bytes of a package leaves metadata in the cell, and parsing
/// that metadata gives the same record and leaves the cell as it is.
pub proof fn lemma_deb_parse_idempotent(
    bytes: Seq<u8>,
    channel: ReleaseChannel,
    version: Seq<char>,
    file: Seq<char>,
)
    requires
        bytes.len() <= usize::MAX,
        deb_parse(DataModel::Package(bytes), channel, version, file) is Some,
    ensures
        ({
            let first = deb_parse(DataModel::Package(bytes), channel, version, file)->0;
            &&& first.1 is Metadata
            &&& deb_parse(first.1, channel, version, file) == Some(first)
        }),
{
    let first = deb_parse(DataModel::Package(bytes), channel, version, file)->0;
    lemma_deb_roundtrip(first.0);
}

/// The architecture that the control text of a record names, where it
/// names one that is known.
pub open spec fn record_arch(p: DebianPackageModel) -> Option<Arch> {
    match captured(regex_capture(architecture_pattern(), p.control)) {
        Some(name) => arch_of_name(name),
        None => None,
    }
}

/// The pattern that finds the architecture in a control text.
pub open spec fn architecture_pattern() -> Seq<char> {
    r"Architecture: (\w+)"@
}

/// The pattern that finds the package name in a control text.
pub open spec fn package_pattern() -> Seq<char> {
    r"Package: (.+)"@
}

impl DebianPackage {
    /// Parses the bytes of a Debian package that is served as `file` of the
    /// release `version` in `channel`. Fails with [`Error::ParseFailed`]
    /// exactly when the control text cannot be read.
    pub fn from_bytes(data: &[u8], channel: ReleaseChannel, version: &str, file: &str) -> (r:
        Result<DebianPackage, Error>)
        ensures
            match r {
                Ok(p) => deb_record(data@, channel, version@, file@) == Some(p@),
                Err(e) => deb_record(data@, channel, version@, file@) is None && e
                    == Error::ParseFailed,
            },
    {
        let text = match read_control_file(data) {
            Ok(text) => text,
            Err(e) => {
                return Err(e);
            },
        };
        let control = from_chars(&trim_end(&to_chars(text.as_str())));
        let mut path: Vec<char> = Vec::new();
        push_str(&mut path, "pool/");
        push_str(&mut path, channel.name());
        push_str(&mut path, "/");
        push_str(&mut path, version);
        push_str(&mut path, "/");
        push_str(&mut path, file);
        assert(path@ == pool_path(channel, version@, file@));
        Ok(
            DebianPackage {
                control,
                md5: hashsum(HashAlgorithm::Md5, data),
                sha1: hashsum(HashAlgorithm::Sha1, data),
                sha256: hashsum(HashAlgorithm::Sha256, data),
                sha512: hashsum(HashAlgorithm::Sha512, data),
                size: data.len(),
                filename: from_chars(&path),
            },
        )
    }

    /// The serialized form of the record.
    pub fn to_metadata(&self) -> (r: String)
        ensures
            r@ == deb_metadata(self@),
    {
        let mut fields: Vec<String> = Vec::new();
        fields.push(self.control.clone());
        fields.push(self.md5.clone());
        fields.push(self.sha1.clone());
        fields.push(self.sha256.clone());
        fields.push(self.sha512.clone());
        fields.push(decimal(self.size as u64));
        fields.push(self.filename.clone());
        assert(strings_view(fields@) == deb_fields(self@));
        encode(&fields)
    }

    /// Reads a record back from its serialized form. Fails with
    /// [`Error::ParseFailed`] exactly when the text is not the serialized
    /// form of a record.
    pub fn from_metadata(text: &str) -> (r: Result<DebianPackage, Error>)
        ensures
            match r {
                Ok(p) => deb_of_metadata(text@) == Some(p@),
                Err(e) => deb_of_metadata(text@) is None && e == Error::ParseFailed,
            },
    {
        let Some(fields) = decode(text) else {
            return Err(Error::ParseFailed);
        };
        if fields.len() != 7 {
            return Err(Error::ParseFailed);
        }
        let size = match parse_u64(&to_chars(fields[5].as_str())) {
            Some(n) => {
                if n > usize::MAX as u64 {
                    return Err(Error::ParseFailed);
                }
                n as usize
            },
            None => {
                return Err(Error::ParseFailed);
            },
        };
        Ok(
            DebianPackage {
                control: fields[0].clone(),
                md5: fields[1].clone(),
                sha1: fields[2].clone(),
                sha256: fields[3].clone(),
                sha512: fields[4].clone(),
                size,
                filename: fields[6].clone(),
            },
        )
    }

    /// Parses what a package's data cell holds; see [`deb_parse`]. Hands
    /// out the record and, where the cell is to change, its new content.
    /// Fails with [`Error::ParseFailed`] exactly when [`deb_parse`] gives
    /// nothing.
    pub fn from_data(data: &Data, channel: ReleaseChannel, version: &str, file: &str) -> (r:
        Result<(DebianPackage, Option<Data>), Error>)
        ensures
            match r {
                Ok((p, next)) => deb_parse(data@, channel, version@, file@) == Some(
                    (
                        p@,
                        match next {
                            Some(d) => d@,
                            None => data@,
                        },
                    ),
                ) && (next is Some <==> data is Package),
                Err(e) => deb_parse(data@, channel, version@, file@) is None && e
                    == Error::ParseFailed,
            },
    {
        match data {
            Data::Metadata(text) => match DebianPackage::from_metadata(text.as_str()) {
                Ok(p) => Ok((p, None)),
                Err(e) => Err(e),
            },
            Data::Package(bytes) => match DebianPackage::from_bytes(
                bytes.as_slice(),
                channel,
                version,
                file,
            ) {
                Ok(p) => {
                    let metadata = p.to_metadata();
                    Ok((p, Some(Data::Metadata(metadata))))
                },
                Err(e) => Err(e),
            },
            Data::Empty => Err(Error::ParseFailed),
        }
    }

    /// Parses a package and leaves the metadata of the record in its data
    /// cell, where every clone of the package finds it. A cell that holds
    /// metadata already is read back and not touched. The result is what
    /// [`DebianPackage::from_data`] makes of what the cell held when it was
    /// read, for the version and the file name of the package; what the
    /// cell held is not known here, since every clone may write to it.
    pub fn from_package(package: &Package, channel: ReleaseChannel) -> (r: Result<
        DebianPackage,
        Error,
    >)
        ensures
            exists|held: DataModel| #[trigger]
                deb_parsed_as(held, channel, package@.version, package@.file_name, r),
            r is Err ==> r->Err_0 == Error::ParseFailed,
    {
        let data = package.data();
        let r = match DebianPackage::from_data(
            &data,
            channel,
            package.version(),
            package.file_name(),
        ) {
            Ok((p, next)) => {
                match next {
                    Some(Data::Metadata(text)) => package.set_metadata(text),
                    _ => {},
                }
                Ok(p)
            },
            Err(e) => Err(e),
        };
        assert(deb_parsed_as(data@, channel, package@.version, package@.file_name, r));
        r
    }

    /// The architecture that the control text names; `Err` where it names
    /// none that is known.
    pub fn get_arch(&self) -> (r: Result<Arch, ()>)
        ensures
            r == match record_arch(self@) {
                Some(a) => Ok::<Arch, ()>(a),
                None => Err::<Arch, ()>(()),
            },
    {
        match first_capture(r"Architecture: (\w+)", self.control.as_str()) {
            Some(Some(name)) => match Arch::parse(name.as_str()) {
                Some(a) => Ok(a),
                None => Err(()),
            },
            _ => Err(()),
        }
    }

    /// The package name that the control text gives; `None` where it gives
    /// none.
    pub fn package_name(&self) -> (r: Option<String>)
        ensures
            crate::detect::text_view(r) == captured(
                regex_capture(package_pattern(), self@.control),
            ),
    {
        match first_capture(r"Package: (.+)", self.control.as_str()) {
            Some(Some(_)) => Some(self.get_package()),
            _ => None,
        }
    }

    /// The package name that the control text gives.
    pub fn get_package(&self) -> (r: String)
        requires
            captured(regex_capture(package_pattern(), self@.control)) is Some,
        ensures
            Some(r@) == captured(regex_capture(package_pattern(), self@.control)),
    {
        match first_capture(r"Package: (.+)", self.control.as_str()) {
            Some(Some(name)) => name,
            _ => String::new(),
        }
    }
}

} // verus!
