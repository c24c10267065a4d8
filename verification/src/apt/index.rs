//! The `Packages` and `Release` indices of a Debian repository.

use crate::apt::deb::{deb_parse, deb_parsed_as, record_arch, DebianPackage, DebianPackageModel};
use crate::digest::{hashsum, hex_lower, md5_sum, sha1_sum, sha256_sum, sha512_sum, HashAlgorithm};
use crate::error::Error;
use crate::package::{DataModel, Package, PackageModel};
use crate::selector::models;
use crate::text::{from_chars, lemma_lex_asymmetric, lemma_lex_irreflexive, lex_lt, push_decimal, push_str, spec_decimal, trim_end, trimmed_end};
use crate::utils::{arch_name, channel_name, Arch, ReleaseChannel};
use vstd::prelude::*;
use vstd::utf8::encode_utf8;

verus! {

/// What gzip makes of `data` with the modification time in its header set
/// to zero; `None` where the encoder fails.
pub uninterp spec fn gzip_of(data: Seq<u8>) -> Option<Seq<u8>>;

/// The date and time, `secs` seconds after the Unix epoch in UTC, in the
/// form of RFC 2822, such as `Wed, 8 Nov 2023 16:40:12 +0000`.
pub uninterp spec fn rfc2822_text(secs: int) -> Seq<char>;

/// The bytes begin with the header of a gzip stream whose modification
/// time is zero: the magic number `1f 8b`, the deflate method `08`, a byte
/// of flags, four zero bytes of time, and two more bytes.
pub open spec fn gzip_header(packed: Seq<u8>) -> bool {
    &&& packed.len() >= 10
    &&& packed[0] == 0x1f
    &&& packed[1] == 0x8b
    &&& packed[2] == 0x08
    &&& packed[4] == 0
    &&& packed[5] == 0
    &&& packed[6] == 0
    &&& packed[7] == 0
}

/// The first second of the year 0, the earliest that RFC 2822 can show.
pub const RFC2822_MIN: i64 = -62167219200;

/// The last second of the year 9999, the latest that RFC 2822 can show.
pub const RFC2822_MAX: i64 = 253402300799;

/// Packs `data` with gzip, the modification time in the header set to
/// zero.
///
/// Wraps `libflate::gzip::HeaderBuilder`, `EncodeOptions::header`,
/// `Encoder::with_options`, writing to the encoder and `Encoder::finish`.
/// The contract names the result, and states what the crate writes first:
/// a header of at least ten bytes that begins with the two bytes of the
/// gzip magic number and the byte of the deflate method, and whose bytes 4
/// to 7 hold the modification time.
#[verifier::external_body]
fn gzip_encode(data: &[u8]) -> (r: Option<Vec<u8>>)
    ensures
        match r {
            Some(packed) => gzip_of(data@) == Some(packed@) && gzip_header(packed@),
            None => gzip_of(data@) is None,
        },
{
    let header = libflate::gzip::HeaderBuilder::new().modification_time(0).finish();
    let options = libflate::gzip::EncodeOptions::new().header(header);
    let mut encoder = libflate::gzip::Encoder::with_options(Vec::new(), options).ok()?;
    std::io::Write::write_all(&mut encoder, data).ok()?;
    encoder.finish().into_result().ok()
}

/// Writes a date and time in the form of RFC 2822.
///
/// Wraps `chrono::DateTime::from_timestamp` and `DateTime::to_rfc2822`,
/// which panics outside the years 0 to 9999: those are left out. The
/// contract names the result.
#[verifier::external_body]
fn rfc2822(secs: i64) -> (r: String)
    requires
        RFC2822_MIN <= secs <= RFC2822_MAX,
    ensures
        r@ == rfc2822_text(secs as int),
{
    chrono::DateTime::from_timestamp(secs, 0).map(|d| d.to_rfc2822()).unwrap_or_default()
}

/// Packs `data` with gzip, the modification time in the header set to
/// zero, so that the same input always gives the same bytes. Fails with
/// [`Error::RenderFailed`] exactly when the encoder fails.
pub fn gzip_compression(data: &[u8]) -> (r: Result<Vec<u8>, Error>)
    ensures
        match r {
            Ok(packed) => gzip_of(data@) == Some(packed@) && gzip_header(packed@),
            Err(e) => gzip_of(data@) is None && e == Error::RenderFailed,
        },
{
    match gzip_encode(data) {
        Some(packed) => Ok(packed),
        None => Err(Error::RenderFailed),
    }
}

/// The creation time of the newest of the packages; the Unix epoch for an
/// empty list.
pub open spec fn latest_created(created: Seq<int>) -> int
    decreases created.len(),
{
    if created.len() == 0 {
        0
    } else if created.len() == 1 {
        created[0]
    } else {
        let rest = latest_created(created.drop_last());
        if created.last() > rest {
            created.last()
        } else {
            rest
        }
    }
}

/// The newest creation time is that of one of the packages and not older
/// than any of them.
pub proof fn lemma_latest_created(created: Seq<int>)
    requires
        created.len() > 0,
    ensures
        exists|i: int| 0 <= i < created.len() && created[i] == latest_created(created),
        forall|i: int| 0 <= i < created.len() ==> created[i] <= latest_created(created),
    decreases created.len(),
{
    if created.len() == 1 {
        assert(created[0] == latest_created(created));
    } else {
        let rest = created.drop_last();
        lemma_latest_created(rest);
        let w = choose|i: int| 0 <= i < rest.len() && rest[i] == latest_created(rest);
        if created.last() > latest_created(rest) {
            assert(created[created.len() - 1] == latest_created(created));
        } else {
            assert(created[w] == latest_created(created));
        }
        assert forall|i: int| 0 <= i < created.len() implies created[i] <= latest_created(
            created,
        ) by {
            if i < rest.len() {
                assert(rest[i] == created[i]);
            }
        }
    }
}

/// The creation times of a list of packages.
pub open spec fn creation_times(packages: Seq<Package>) -> Seq<int> {
    Seq::new(packages.len(), |i: int| packages[i]@.created)
}

/// The creation time of the newest of the packages.
pub fn latest_creation(packages: &[Package]) -> (r: i64)
    ensures
        r == latest_created(creation_times(packages@)),
{
    let ghost all = creation_times(packages@);
    if packages.len() == 0 {
        return 0;
    }
    let mut latest: i64 = packages[0].creation_date();
    let mut i: usize = 1;
    assert(all.take(1) == seq![all[0]]);
    while i < packages.len()
        invariant
            1 <= i <= packages.len(),
            all == creation_times(packages@),
            latest == latest_created(all.take(i as int)),
        decreases packages.len() - i,
    {
        let created = packages[i].creation_date();
        assert(all.take(i + 1).drop_last() == all.take(i as int));
        assert(all.take(i + 1).last() == created);
        if created > latest {
            latest = created;
        }
        i = i + 1;
    }
    assert(all.take(packages.len() as int) == all);
    latest
}

/// The architectures in the order in which the `Release` index lists them:
/// the order of their names on the wire.
pub open spec fn arch_order() -> Seq<Arch> {
    seq![
        Arch::Amd64,
        Arch::Arm64,
        Arch::Aarch64,
        Arch::Armhf,
        Arch::Armv7,
        Arch::PPC64le,
        Arch::RiscV64,
        Arch::S390x,
    ]
}

/// The place of an architecture in [`arch_order`].
pub open spec fn arch_place(a: Arch) -> int {
    match a {
        Arch::Amd64 => 0,
        Arch::Arm64 => 1,
        Arch::Aarch64 => 2,
        Arch::Armhf => 3,
        Arch::Armv7 => 4,
        Arch::PPC64le => 5,
        Arch::RiscV64 => 6,
        Arch::S390x => 7,
    }
}

fn place_of(a: Arch) -> (r: usize)
    ensures
        r == arch_place(a),
        r < 8,
        arch_order()[r as int] == a,
{
    match a {
        Arch::Amd64 => 0,
        Arch::Arm64 => 1,
        Arch::Aarch64 => 2,
        Arch::Armhf => 3,
        Arch::Armv7 => 4,
        Arch::PPC64le => 5,
        Arch::RiscV64 => 6,
        Arch::S390x => 7,
    }
}

fn arch_at(place: usize) -> (r: Arch)
    requires
        place < 8,
    ensures
        r == arch_order()[place as int],
        arch_place(r) == place,
{
    if place == 0 {
        Arch::Amd64
    } else if place == 1 {
        Arch::Arm64
    } else if place == 2 {
        Arch::Aarch64
    } else if place == 3 {
        Arch::Armhf
    } else if place == 4 {
        Arch::Armv7
    } else if place == 5 {
        Arch::PPC64le
    } else if place == 6 {
        Arch::RiscV64
    } else {
        Arch::S390x
    }
}

/// The views of a list of records.
pub open spec fn records_view(records: Seq<DebianPackage>) -> Seq<DebianPackageModel> {
    Seq::new(records.len(), |i: int| records[i]@)
}

/// The records of the list that are built for `arch`, in the order of the
/// list.
pub open spec fn bucket_of(records: Seq<DebianPackageModel>, arch: Arch) -> Seq<
    DebianPackageModel,
>
    decreases records.len(),
{
    if records.len() == 0 {
        Seq::empty()
    } else if record_arch(records.last()) == Some(arch) {
        bucket_of(records.drop_last(), arch).push(records.last())
    } else {
        bucket_of(records.drop_last(), arch)
    }
}

/// The records of the packages that can be parsed, in the order of the
/// list, where the data cell of each package holds the content at its
/// place in `cells`.
pub open spec fn parsed_debs(packages: Seq<PackageModel>, cells: Seq<DataModel>, channel: ReleaseChannel) -> Seq<
    DebianPackageModel,
>
    decreases packages.len(),
{
    if packages.len() == 0 || cells.len() != packages.len() {
        Seq::empty()
    } else {
        let before = parsed_debs(packages.drop_last(), cells.drop_last(), channel);
        let p = packages.last();
        match deb_parse(cells.last(), channel, p.version, p.file_name) {
            Some(parsed) => before.push(parsed.0),
            None => before,
        }
    }
}

/// The buckets hold the records sorted by architecture: each bucket those
/// of its architecture, in the order of the list.
pub open spec fn sorted_into(buckets: Seq<Seq<DebianPackageModel>>, records: Seq<DebianPackageModel>) -> bool {
    forall|a: Arch| #[trigger] buckets[arch_place(a)] == bucket_of(records, a)
}

/// The entry of one package in the `Packages` index: its control text and
/// the fields that locate and check the file, then an empty line.
pub open spec fn stanza(p: DebianPackageModel) -> Seq<char> {
    p.control + "\nFilename: "@ + p.filename + "\nSize: "@ + spec_decimal(p.size) + "\nMD5sum: "@
        + p.md5 + "\nSHA1: "@ + p.sha1 + "\nSHA256: "@ + p.sha256 + "\nSHA512: "@ + p.sha512
        + "\n\n"@
}

/// The entries of a list of packages, one after the other.
pub open spec fn stanzas(records: Seq<DebianPackageModel>) -> Seq<char>
    decreases records.len(),
{
    if records.len() == 0 {
        Seq::empty()
    } else {
        stanzas(records.drop_last()) + stanza(records.last())
    }
}

/// The `Packages` index of a list of packages: their entries without the
/// white space at the end.
pub open spec fn packages_text(records: Seq<DebianPackageModel>) -> Seq<char> {
    trimmed_end(stanzas(records))
}

/// One file that the `Release` index vouches for.
#[derive(Debug)]
pub struct IndexFile {
    pub md5: String,
    pub sha1: String,
    pub sha256: String,
    pub sha512: String,
    pub size: usize,
    pub path: String,
}

/// The mathematical content of an [`IndexFile`].
pub struct IndexFileModel {
    pub md5: Seq<char>,
    pub sha1: Seq<char>,
    pub sha256: Seq<char>,
    pub sha512: Seq<char>,
    pub size: nat,
    pub path: Seq<char>,
}

impl View for IndexFile {
    type V = IndexFileModel;

    open spec fn view(&self) -> IndexFileModel {
        IndexFileModel {
            md5: self.md5@,
            sha1: self.sha1@,
            sha256: self.sha256@,
            sha512: self.sha512@,
            size: self.size as nat,
            path: self.path@,
        }
    }
}

/// The views of a list of files.
pub open spec fn files_view(files: Seq<IndexFile>) -> Seq<IndexFileModel> {
    Seq::new(files.len(), |i: int| files[i]@)
}

/// What the `Release` index says of the file at `path` with the bytes
/// `content`.
pub open spec fn file_of(path: Seq<char>, content: Seq<u8>) -> IndexFileModel {
    IndexFileModel {
        md5: hex_lower(md5_sum(content)),
        sha1: hex_lower(sha1_sum(content)),
        sha256: hex_lower(sha256_sum(content)),
        sha512: hex_lower(sha512_sum(content)),
        size: content.len(),
        path,
    }
}

/// The path of the `Packages` index of an architecture.
pub open spec fn packages_path(a: Arch) -> Seq<char> {
    "main/binary-"@ + arch_name(a) + "/Packages"@
}

/// The `Packages` index of an architecture as a file of the `Release`
/// index; nothing where the architecture has no package.
pub open spec fn plain_file(records: Seq<DebianPackageModel>, a: Arch) -> Seq<IndexFileModel> {
    if records.len() == 0 {
        Seq::empty()
    } else {
        seq![file_of(packages_path(a), encode_utf8(packages_text(records)))]
    }
}

/// The gzip of the `Packages` index of an architecture as a file of the
/// `Release` index; nothing where the architecture has no package, `None`
/// where gzip fails.
pub open spec fn packed_file(records: Seq<DebianPackageModel>, a: Arch) -> Option<
    Seq<IndexFileModel>,
> {
    if records.len() == 0 {
        Some(Seq::empty())
    } else {
        match gzip_of(encode_utf8(packages_text(records))) {
            Some(packed) => Some(seq![file_of(packages_path(a) + ".gz"@, packed)]),
            None => None,
        }
    }
}

/// The files of two architectures that share their name on the wire: the
/// indices first, then their gzips, so that the paths are in order.
pub open spec fn pair_files(
    first: Seq<DebianPackageModel>,
    a: Arch,
    second: Seq<DebianPackageModel>,
    b: Arch,
) -> Option<Seq<IndexFileModel>> {
    match (packed_file(first, a), packed_file(second, b)) {
        (Some(x), Some(y)) => Some(plain_file(first, a) + plain_file(second, b) + x + y),
        _ => None,
    }
}

/// The files of an architecture that has its name on the wire to itself.
pub open spec fn single_files(records: Seq<DebianPackageModel>, a: Arch) -> Option<
    Seq<IndexFileModel>,
> {
    match packed_file(records, a) {
        Some(x) => Some(plain_file(records, a) + x),
        None => None,
    }
}

/// One list of files after another; `None` where either is.
pub open spec fn followed_by(files: Option<Seq<IndexFileModel>>, more: Option<Seq<IndexFileModel>>) -> Option<
    Seq<IndexFileModel>,
> {
    match (files, more) {
        (Some(x), Some(y)) => Some(x + y),
        _ => None,
    }
}

/// The files of the `Release` index: those of each name on the wire, in
/// the order of the names. `None` where gzip fails.
pub open spec fn release_files(buckets: Seq<Seq<DebianPackageModel>>) -> Option<
    Seq<IndexFileModel>,
> {
    followed_by(
        followed_by(
            followed_by(
                followed_by(
                    followed_by(
                        single_files(buckets[0], Arch::Amd64),
                        pair_files(buckets[1], Arch::Arm64, buckets[2], Arch::Aarch64),
                    ),
                    pair_files(buckets[3], Arch::Armhf, buckets[4], Arch::Armv7),
                ),
                single_files(buckets[5], Arch::PPC64le),
            ),
            single_files(buckets[6], Arch::RiscV64),
        ),
        single_files(buckets[7], Arch::S390x),
    )
}

/// Which digest a section of the `Release` index quotes.
pub open spec fn quoted(file: IndexFileModel, algorithm: HashAlgorithm) -> Seq<char> {
    match algorithm {
        HashAlgorithm::Md5 => file.md5,
        HashAlgorithm::Sha1 => file.sha1,
        HashAlgorithm::Sha256 => file.sha256,
        HashAlgorithm::Sha512 => file.sha512,
    }
}

/// One line of a section: digest, size and path of a file.
pub open spec fn file_line(file: IndexFileModel, algorithm: HashAlgorithm) -> Seq<char> {
    " "@ + quoted(file, algorithm) + " "@ + spec_decimal(file.size) + " "@ + file.path + "\n"@
}

/// The lines of a section, one for each file.
pub open spec fn file_lines(files: Seq<IndexFileModel>, algorithm: HashAlgorithm) -> Seq<char>
    decreases files.len(),
{
    if files.len() == 0 {
        Seq::empty()
    } else {
        file_lines(files.drop_last(), algorithm) + file_line(files.last(), algorithm)
    }
}

/// The title of a section of the `Release` index.
pub open spec fn section_title(algorithm: HashAlgorithm) -> Seq<char> {
    match algorithm {
        HashAlgorithm::Md5 => "MD5Sum:\n"@,
        HashAlgorithm::Sha1 => "SHA1:\n"@,
        HashAlgorithm::Sha256 => "SHA256:\n"@,
        HashAlgorithm::Sha512 => "SHA512:\n"@,
    }
}

/// A section of the `Release` index: its title and its lines.
pub open spec fn section(files: Seq<IndexFileModel>, algorithm: HashAlgorithm) -> Seq<char> {
    section_title(algorithm) + file_lines(files, algorithm)
}

/// The `Release` index: origin, label, date and suite, then the digests of
/// the files under each algorithm.
pub open spec fn release_text(channel: ReleaseChannel, date: Seq<char>, files: Seq<IndexFileModel>) -> Seq<
    char,
> {
    "Origin: . "@ + channel_name(channel) + "\nLabel: . "@ + channel_name(channel) + "\nDate: "@
        + date + "\nSuite: "@ + channel_name(channel) + "\n"@ + section(
        files,
        HashAlgorithm::Md5,
    ) + section(files, HashAlgorithm::Sha1) + section(files, HashAlgorithm::Sha256) + section(
        files,
        HashAlgorithm::Sha512,
    )
}

/// The indices of a Debian repository: the packages of each architecture,
/// the date of the newest package, and the channel that they belong to.
///
/// The packages lie in one list for each architecture, the lists in the
/// order of [`arch_order`]: a walk over them meets the architectures in
/// the same order on every run, which a hash map does not promise, and so
/// the `Release` file comes out sorted by path without a sort.
#[derive(Debug)]
pub struct AptIndices {
    buckets: Vec<Vec<DebianPackage>>,
    date: i64,
    channel: ReleaseChannel,
}

/// The mathematical content of an [`AptIndices`]: the packages of each
/// architecture, by its place in [`arch_order`].
pub struct AptIndicesModel {
    pub buckets: Seq<Seq<DebianPackageModel>>,
    pub date: int,
    pub channel: ReleaseChannel,
}

impl View for AptIndices {
    type V = AptIndicesModel;

    closed spec fn view(&self) -> AptIndicesModel {
        AptIndicesModel {
            buckets: Seq::new(self.buckets@.len(), |a: int| records_view(self.buckets@[a]@)),
            date: self.date as int,
            channel: self.channel,
        }
    }
}

/// The `Release` index of the given indices; `None` where its date is
/// outside the years that RFC 2822 can show, or gzip fails.
pub open spec fn release_of(indices: AptIndicesModel) -> Option<Seq<char>> {
    if RFC2822_MIN <= indices.date <= RFC2822_MAX {
        match release_files(indices.buckets) {
            Some(files) => Some(release_text(indices.channel, rfc2822_text(indices.date), files)),
            None => None,
        }
    } else {
        None
    }
}

fn push_stanza(out: &mut Vec<char>, p: &DebianPackage)
    ensures
        final(out)@ == old(out)@ + stanza(p@),
{
    push_str(out, p.control.as_str());
    push_str(out, "\nFilename: ");
    push_str(out, p.filename.as_str());
    push_str(out, "\nSize: ");
    push_decimal(out, p.size as u64);
    push_str(out, "\nMD5sum: ");
    push_str(out, p.md5.as_str());
    push_str(out, "\nSHA1: ");
    push_str(out, p.sha1.as_str());
    push_str(out, "\nSHA256: ");
    push_str(out, p.sha256.as_str());
    push_str(out, "\nSHA512: ");
    push_str(out, p.sha512.as_str());
    push_str(out, "\n\n");
    assert(out@ == old(out)@ + stanza(p@));
}

/// Renders the `Packages` index of a list of records.
pub fn render_packages(records: &Vec<DebianPackage>) -> (r: String)
    ensures
        r@ == packages_text(records_view(records@)),
{
    let ghost all = records_view(records@);
    let mut out: Vec<char> = Vec::new();
    let mut i: usize = 0;
    assert(all.take(0) == Seq::<DebianPackageModel>::empty());
    while i < records.len()
        invariant
            i <= records.len(),
            all == records_view(records@),
            out@ == stanzas(all.take(i as int)),
        decreases records.len() - i,
    {
        push_stanza(&mut out, &records[i]);
        assert(all.take(i + 1).drop_last() == all.take(i as int));
        assert(all.take(i + 1).last() == records@[i as int]@);
        i = i + 1;
    }
    assert(all.take(records.len() as int) == all);
    from_chars(&trim_end(&out))
}

fn describe(path: String, content: &[u8]) -> (r: IndexFile)
    ensures
        r@ == file_of(path@, content@),
{
    IndexFile {
        md5: hashsum(HashAlgorithm::Md5, content),
        sha1: hashsum(HashAlgorithm::Sha1, content),
        sha256: hashsum(HashAlgorithm::Sha256, content),
        sha512: hashsum(HashAlgorithm::Sha512, content),
        size: content.len(),
        path,
    }
}

fn path_of(a: Arch, packed: bool) -> (r: String)
    ensures
        r@ == if packed {
            packages_path(a) + ".gz"@
        } else {
            packages_path(a)
        },
{
    let mut path: Vec<char> = Vec::new();
    push_str(&mut path, "main/binary-");
    push_str(&mut path, a.name());
    push_str(&mut path, "/Packages");
    assert(path@ == packages_path(a));
    if packed {
        push_str(&mut path, ".gz");
    }
    from_chars(&path)
}

fn push_plain(records: &Vec<DebianPackage>, a: Arch, files: &mut Vec<IndexFile>)
    ensures
        files_view(final(files)@) == files_view(old(files)@) + plain_file(records_view(records@), a),
{
    if records.len() == 0 {
        assert(files_view(files@) + Seq::<IndexFileModel>::empty() == files_view(files@));
        return ;
    }
    let text = render_packages(records);
    let file = describe(path_of(a, false), text.as_str().as_bytes());
    let ghost before = files_view(files@);
    files.push(file);
    assert(files_view(files@) == before + seq![file@]);
}

fn push_packed(records: &Vec<DebianPackage>, a: Arch, files: &mut Vec<IndexFile>) -> (ok: bool)
    ensures
        match packed_file(records_view(records@), a) {
            Some(these) => ok && files_view(final(files)@) == files_view(old(files)@) + these,
            None => !ok,
        },
{
    if records.len() == 0 {
        assert(files_view(files@) + Seq::<IndexFileModel>::empty() == files_view(files@));
        return true;
    }
    let text = render_packages(records);
    let Some(packed) = gzip_encode(text.as_str().as_bytes()) else {
        return false;
    };
    let file = describe(path_of(a, true), packed.as_slice());
    let ghost before = files_view(files@);
    files.push(file);
    assert(files_view(files@) == before + seq![file@]);
    true
}

fn push_single(records: &Vec<DebianPackage>, a: Arch, files: &mut Vec<IndexFile>) -> (ok: bool)
    ensures
        match followed_by(Some(files_view(old(files)@)), single_files(records_view(records@), a)) {
            Some(all) => ok && files_view(final(files)@) == all,
            None => !ok,
        },
{
    push_plain(records, a, files);
    let ok = push_packed(records, a, files);
    proof {
        let rs = records_view(records@);
        if packed_file(rs, a) is Some {
            assert(files_view(old(files)@) + plain_file(rs, a) + packed_file(rs, a)->0
                == files_view(old(files)@) + (plain_file(rs, a) + packed_file(rs, a)->0));
        }
    }
    ok
}

fn push_pair(
    first: &Vec<DebianPackage>,
    a: Arch,
    second: &Vec<DebianPackage>,
    b: Arch,
    files: &mut Vec<IndexFile>,
) -> (ok: bool)
    ensures
        match followed_by(
            Some(files_view(old(files)@)),
            pair_files(records_view(first@), a, records_view(second@), b),
        ) {
            Some(all) => ok && files_view(final(files)@) == all,
            None => !ok,
        },
{
    push_plain(first, a, files);
    push_plain(second, b, files);
    if !push_packed(first, a, files) {
        return false;
    }
    let ok = push_packed(second, b, files);
    proof {
        let ra = records_view(first@);
        let rb = records_view(second@);
        if packed_file(rb, b) is Some {
            assert(files_view(old(files)@) + plain_file(ra, a) + plain_file(rb, b) + packed_file(
                ra,
                a,
            )->0 + packed_file(rb, b)->0 == files_view(old(files)@) + (plain_file(ra, a)
                + plain_file(rb, b) + packed_file(ra, a)->0 + packed_file(rb, b)->0));
        }
    }
    ok
}

fn push_quoted(out: &mut Vec<char>, file: &IndexFile, algorithm: HashAlgorithm)
    ensures
        final(out)@ == old(out)@ + file_line(file@, algorithm),
{
    push_str(out, " ");
    match algorithm {
        HashAlgorithm::Md5 => push_str(out, file.md5.as_str()),
        HashAlgorithm::Sha1 => push_str(out, file.sha1.as_str()),
        HashAlgorithm::Sha256 => push_str(out, file.sha256.as_str()),
        HashAlgorithm::Sha512 => push_str(out, file.sha512.as_str()),
    }
    push_str(out, " ");
    push_decimal(out, file.size as u64);
    push_str(out, " ");
    push_str(out, file.path.as_str());
    push_str(out, "\n");
    assert(out@ == old(out)@ + file_line(file@, algorithm));
}

fn push_section(out: &mut Vec<char>, files: &Vec<IndexFile>, algorithm: HashAlgorithm)
    ensures
        final(out)@ == old(out)@ + section(files_view(files@), algorithm),
{
    let ghost all = files_view(files@);
    match algorithm {
        HashAlgorithm::Md5 => push_str(out, "MD5Sum:\n"),
        HashAlgorithm::Sha1 => push_str(out, "SHA1:\n"),
        HashAlgorithm::Sha256 => push_str(out, "SHA256:\n"),
        HashAlgorithm::Sha512 => push_str(out, "SHA512:\n"),
    }
    let ghost start = out@;
    let mut i: usize = 0;
    assert(all.take(0) == Seq::<IndexFileModel>::empty());
    assert(start + Seq::<char>::empty() == start);
    while i < files.len()
        invariant
            i <= files.len(),
            all == files_view(files@),
            out@ == start + file_lines(all.take(i as int), algorithm),
        decreases files.len() - i,
    {
        push_quoted(out, &files[i], algorithm);
        assert(all.take(i + 1).drop_last() == all.take(i as int));
        assert(all.take(i + 1).last() == files@[i as int]@);
        assert(start + file_lines(all.take(i as int), algorithm) + file_line(
            files@[i as int]@,
            algorithm,
        ) == start + (file_lines(all.take(i as int), algorithm) + file_line(
            files@[i as int]@,
            algorithm,
        )));
        i = i + 1;
    }
    assert(all.take(files.len() as int) == all);
    assert(old(out)@ + section_title(algorithm) + file_lines(all, algorithm) == old(out)@ + (
    section_title(algorithm) + file_lines(all, algorithm)));
}

/// Renders the `Release` index of `channel` with the given date line and
/// files.
pub fn render_release(channel: ReleaseChannel, date: &str, files: &Vec<IndexFile>) -> (r: String)
    ensures
        r@ == release_text(channel, date@, files_view(files@)),
{
    let mut out: Vec<char> = Vec::new();
    push_str(&mut out, "Origin: . ");
    push_str(&mut out, channel.name());
    push_str(&mut out, "\nLabel: . ");
    push_str(&mut out, channel.name());
    push_str(&mut out, "\nDate: ");
    push_str(&mut out, date);
    push_str(&mut out, "\nSuite: ");
    push_str(&mut out, channel.name());
    push_str(&mut out, "\n");
    push_section(&mut out, files, HashAlgorithm::Md5);
    push_section(&mut out, files, HashAlgorithm::Sha1);
    push_section(&mut out, files, HashAlgorithm::Sha256);
    push_section(&mut out, files, HashAlgorithm::Sha512);
    assert(out@ == release_text(channel, date@, files_view(files@)));
    from_chars(&out)
}

impl AptIndices {
    #[verifier::type_invariant]
    spec fn well_formed(self) -> bool {
        self.buckets@.len() == 8
    }

    /// Sorts records into the indices of a repository: each record goes to
    /// the architecture that its control text names; a record that names
    /// none that is known is left out. `date` is the creation time of the
    /// newest package.
    pub fn from_records(records: &Vec<DebianPackage>, date: i64, channel: ReleaseChannel) -> (r:
        AptIndices)
        ensures
            r@.date == date,
            r@.channel == channel,
            r@.buckets.len() == 8,
            forall|a: Arch| #[trigger]
                r@.buckets[arch_place(a)] == bucket_of(records_view(records@), a),
    {
        let ghost all = records_view(records@);
        let mut archs: Vec<Option<Arch>> = Vec::new();
        let mut i: usize = 0;
        while i < records.len()
            invariant
                i <= records.len(),
                all == records_view(records@),
                archs@.len() == i,
                forall|k: int| 0 <= k < i ==> #[trigger] archs@[k] == record_arch(all[k]),
            decreases records.len() - i,
        {
            let arch = match records[i].get_arch() {
                Ok(a) => Some(a),
                Err(_) => None,
            };
            archs.push(arch);
            i = i + 1;
        }
        let mut buckets: Vec<Vec<DebianPackage>> = Vec::new();
        let mut place: usize = 0;
        while place < 8
            invariant
                place <= 8,
                all == records_view(records@),
                archs@.len() == records@.len(),
                forall|k: int| 0 <= k < records@.len() ==> #[trigger] archs@[k] == record_arch(all[k]),
                buckets@.len() == place,
                forall|p: int|
                    0 <= p < place ==> records_view(#[trigger] buckets@[p]@) == bucket_of(
                        all,
                        arch_order()[p],
                    ),
            decreases 8 - place,
        {
            let arch = arch_at(place);
            let mut bucket: Vec<DebianPackage> = Vec::new();
            let mut k: usize = 0;
            assert(all.take(0) == Seq::<DebianPackageModel>::empty());
            while k < records.len()
                invariant
                    k <= records.len(),
                    all == records_view(records@),
                    archs@.len() == records@.len(),
                    forall|m: int|
                        0 <= m < records@.len() ==> #[trigger] archs@[m] == record_arch(all[m]),
                    records_view(bucket@) == bucket_of(all.take(k as int), arch),
                decreases records.len() - k,
            {
                assert(all.take(k + 1).drop_last() == all.take(k as int));
                assert(all.take(k + 1).last() == all[k as int]);
                let fits = match archs[k] {
                    Some(a) => a == arch,
                    None => false,
                };
                if fits {
                    let ghost before = records_view(bucket@);
                    bucket.push(records[k].clone());
                    assert(records_view(bucket@) == before.push(all[k as int]));
                }
                k = k + 1;
            }
            assert(all.take(records.len() as int) == all);
            buckets.push(bucket);
            place = place + 1;
        }
        let r = AptIndices { buckets, date, channel };
        proof {
            assert forall|a: Arch| #[trigger]
                r@.buckets[arch_place(a)] == bucket_of(records_view(records@), a) by {
                assert(arch_order()[arch_place(a)] == a);
            }
        }
        r
    }

    /// Parses the packages and sorts them into the indices of a repository
    /// of `channel`. A package that cannot be parsed, or whose control text
    /// names no known architecture, is left out. The data cell of each
    /// package that was parsed holds its metadata afterwards. The indices
    /// are those of [`parsed_debs`] of the packages and of what their cells
    /// held, each when its package was read; what the cells held is not
    /// known here.
    pub fn new(packages: &[Package], channel: ReleaseChannel) -> (r: AptIndices)
        ensures
            r@.date == latest_created(creation_times(packages@)),
            r@.channel == channel,
            r@.buckets.len() == 8,
            exists|cells: Seq<DataModel>|
                cells.len() == packages@.len() && sorted_into(
                    r@.buckets,
                    #[trigger] parsed_debs(models(packages@), cells, channel),
                ),
    {
        let date = latest_creation(packages);
        let ghost all = models(packages@);
        let ghost mut cells: Seq<DataModel> = Seq::empty();
        let mut records: Vec<DebianPackage> = Vec::new();
        let mut i: usize = 0;
        assert(all.take(0) == Seq::<PackageModel>::empty());
        assert(records_view(records@) == Seq::<DebianPackageModel>::empty());
        while i < packages.len()
            invariant
                i <= packages.len(),
                all == models(packages@),
                cells.len() == i,
                records_view(records@) == parsed_debs(all.take(i as int), cells, channel),
            decreases packages.len() - i,
        {
            let parsed = DebianPackage::from_package(&packages[i], channel);
            let ghost before = records_view(records@);
            proof {
                let p = packages@[i as int]@;
                let held = choose|held: DataModel| #[trigger]
                    deb_parsed_as(held, channel, p.version, p.file_name, parsed);
                assert(all.take(i + 1).drop_last() == all.take(i as int));
                assert(all.take(i + 1).last() == p);
                assert(cells.push(held).drop_last() == cells);
                cells = cells.push(held);
            }
            match parsed {
                Ok(record) => {
                    records.push(record);
                    assert(records_view(records@) == before.push(record@));
                },
                Err(_) => {},
            }
            i = i + 1;
        }
        assert(all.take(packages.len() as int) == all);
        let r = AptIndices::from_records(&records, date, channel);
        assert(cells.len() == packages@.len() && sorted_into(
            r@.buckets,
            parsed_debs(models(packages@), cells, channel),
        ));
        r
    }

    /// The `Packages` index of an architecture; empty where it has no
    /// package.
    pub fn get_package_index(&self, arch: &Arch) -> (r: String)
        ensures
            self@.buckets.len() == 8,
            r@ == packages_text(self@.buckets[arch_place(*arch)]),
    {
        proof {
            use_type_invariant(self);
        }
        render_packages(&self.buckets[place_of(*arch)])
    }

    /// The date line of the `Release` index: the creation time of the
    /// newest package in the form of RFC 2822. Fails with
    /// [`Error::RenderFailed`] exactly when that time is outside the years
    /// 0 to 9999.
    pub fn release_date(&self) -> (r: Result<String, Error>)
        ensures
            match r {
                Ok(text) => RFC2822_MIN <= self@.date <= RFC2822_MAX && text@ == rfc2822_text(
                    self@.date,
                ),
                Err(e) => !(RFC2822_MIN <= self@.date <= RFC2822_MAX) && e == Error::RenderFailed,
            },
    {
        if RFC2822_MIN <= self.date && self.date <= RFC2822_MAX {
            Ok(rfc2822(self.date))
        } else {
            Err(Error::RenderFailed)
        }
    }

    /// The `Release` index: origin, label, date and suite, then for each
    /// architecture that has packages the digests of its `Packages` index
    /// and of the gzip of it. Fails with [`Error::RenderFailed`] exactly
    /// when [`release_of`] gives nothing.
    pub fn get_release_index(&self) -> (r: Result<String, Error>)
        ensures
            match r {
                Ok(text) => release_of(self@) == Some(text@),
                Err(e) => release_of(self@) is None && e == Error::RenderFailed,
            },
    {
        proof {
            use_type_invariant(self);
        }
        let date = match self.release_date() {
            Ok(text) => text,
            Err(e) => {
                return Err(e);
            },
        };
        let mut files: Vec<IndexFile> = Vec::new();
        let ghost buckets = self@.buckets;
        proof {
            assert forall|p: int| 0 <= p < 8 implies #[trigger] buckets[p] == records_view(
                self.buckets@[p]@,
            ) by {}
            assert(Seq::<IndexFileModel>::empty() + single_files(buckets[0], Arch::Amd64)->0
                == single_files(buckets[0], Arch::Amd64)->0);
        }
        let b = &self.buckets;
        if !push_single(&b[0], Arch::Amd64, &mut files) || !push_pair(
            &b[1],
            Arch::Arm64,
            &b[2],
            Arch::Aarch64,
            &mut files,
        ) || !push_pair(&b[3], Arch::Armhf, &b[4], Arch::Armv7, &mut files) || !push_single(
            &b[5],
            Arch::PPC64le,
            &mut files,
        ) || !push_single(&b[6], Arch::RiscV64, &mut files) || !push_single(
            &b[7],
            Arch::S390x,
            &mut files,
        ) {
            return Err(Error::RenderFailed);
        }
        Ok(render_release(self.channel, date.as_str(), &files))
    }
}

/// The place of an architecture's name on the wire in the order of those
/// names.
pub open spec fn wire_rank(a: Arch) -> int {
    match a {
        Arch::Amd64 => 0,
        Arch::Arm64 | Arch::Aarch64 => 1,
        Arch::Armhf | Arch::Armv7 => 2,
        Arch::PPC64le => 3,
        Arch::RiscV64 => 4,
        Arch::S390x => 5,
    }
}

/// The path of the `Packages` index of an architecture, as it is or packed.
pub open spec fn index_path(a: Arch, packed: bool) -> Seq<char> {
    if packed {
        packages_path(a) + ".gz"@
    } else {
        packages_path(a)
    }
}

/// The paths of the files are in order: none comes before one that stands
/// earlier in the list.
pub open spec fn paths_ordered(files: Seq<IndexFileModel>) -> bool {
    forall|i: int, j: int|
        0 <= i < j < files.len() ==> !lex_lt((#[trigger] files[j]).path, (#[trigger] files[i]).path)
}

/// The file is an index of an architecture whose name has the given place
/// in the order of names.
spec fn has_rank(file: IndexFileModel, rank: int) -> bool {
    exists|a: Arch, packed: bool| wire_rank(a) == rank && file.path == #[trigger] index_path(a, packed)
}

/// Every file is an index of an architecture whose name has a place from
/// `low` up to, but not including, `high`.
spec fn ranks_within(files: Seq<IndexFileModel>, low: int, high: int) -> bool {
    forall|i: int| 0 <= i < files.len() ==> rank_between(#[trigger] files[i], low, high)
}

/// The file is an index of an architecture whose name has a place from
/// `low` up to, but not including, `high`.
spec fn rank_between(file: IndexFileModel, low: int, high: int) -> bool {
    exists|rank: int| low <= rank < high && #[trigger] has_rank(file, rank)
}

/// `x` and `y` agree before position `k`, where `x` has the smaller
/// character.
spec fn differs_at(x: Seq<char>, y: Seq<char>, k: int) -> bool {
    0 <= k < x.len() && k < y.len() && x.take(k) == y.take(k) && x[k] < y[k]
}

proof fn lemma_differs_lex(x: Seq<char>, y: Seq<char>, k: int, s: Seq<char>, t: Seq<char>)
    requires
        differs_at(x, y, k),
    ensures
        lex_lt(x + s, y + t),
    decreases k,
{
    if k > 0 {
        assert(x[0] == x.take(k)[0] && y[0] == y.take(k)[0]);
        assert(x.drop_first().take(k - 1) == x.take(k).drop_first());
        assert(y.drop_first().take(k - 1) == y.take(k).drop_first());
        lemma_differs_lex(x.drop_first(), y.drop_first(), k - 1, s, t);
        assert((x + s).drop_first() == x.drop_first() + s);
        assert((y + t).drop_first() == y.drop_first() + t);
    }
}

proof fn lemma_common_prefix(p: Seq<char>, x: Seq<char>, y: Seq<char>)
    ensures
        lex_lt(p + x, p + y) == lex_lt(x, y),
    decreases p.len(),
{
    if p.len() == 0 {
        assert(p + x == x);
        assert(p + y == y);
    } else {
        lemma_common_prefix(p.drop_first(), x, y);
        assert((p + x).drop_first() == p.drop_first() + x);
        assert((p + y).drop_first() == p.drop_first() + y);
    }
}

proof fn lemma_extension(x: Seq<char>, s: Seq<char>)
    ensures
        !lex_lt(x + s, x),
    decreases x.len(),
{
    if x.len() > 0 {
        lemma_extension(x.drop_first(), s);
        assert((x + s).drop_first() == x.drop_first() + s);
    }
}

proof fn lemma_names_differ(a: Arch, b: Arch) -> (k: int)
    requires
        wire_rank(a) < wire_rank(b),
    ensures
        differs_at(arch_name(a), arch_name(b), k),
{
    reveal_strlit("amd64");
    reveal_strlit("arm64");
    reveal_strlit("armhf");
    reveal_strlit("ppc64el");
    reveal_strlit("riscv64");
    reveal_strlit("s390x");
    let x = arch_name(a);
    let y = arch_name(b);
    let k: int = if x[0] != y[0] {
        0
    } else if x[1] != y[1] {
        1
    } else {
        3
    };
    assert(x.take(k) =~= y.take(k));
    k
}

proof fn lemma_paths_ordered(a: Arch, pa: bool, b: Arch, pb: bool)
    requires
        wire_rank(a) <= wire_rank(b),
        wire_rank(a) == wire_rank(b) ==> !pa || pb,
    ensures
        !lex_lt(index_path(b, pb), index_path(a, pa)),
{
    let pre = "main/binary-"@;
    let suf = "/Packages"@;
    if wire_rank(a) < wire_rank(b) {
        let k = lemma_names_differ(a, b);
        let sa = if pa {
            suf + ".gz"@
        } else {
            suf
        };
        let sb = if pb {
            suf + ".gz"@
        } else {
            suf
        };
        lemma_differs_lex(arch_name(a), arch_name(b), k, sa, sb);
        lemma_common_prefix(pre, arch_name(a) + sa, arch_name(b) + sb);
        assert(index_path(a, pa) == pre + (arch_name(a) + sa));
        assert(index_path(b, pb) == pre + (arch_name(b) + sb));
        lemma_lex_asymmetric(index_path(a, pa), index_path(b, pb));
    } else {
        assert(arch_name(a) == arch_name(b));
        if pa == pb {
            lemma_lex_irreflexive(index_path(a, pa));
        } else {
            lemma_extension(packages_path(a), ".gz"@);
        }
    }
}

proof fn lemma_single_files(records: Seq<DebianPackageModel>, a: Arch)
    requires
        single_files(records, a) is Some,
    ensures
        paths_ordered(single_files(records, a)->0),
        ranks_within(single_files(records, a)->0, wire_rank(a), wire_rank(a) + 1),
{
    let files = single_files(records, a)->0;
    if records.len() > 0 {
        assert(files[0].path == index_path(a, false));
        assert(files[1].path == index_path(a, true));
        lemma_paths_ordered(a, false, a, true);
        assert(has_rank(files[0], wire_rank(a)));
        assert(has_rank(files[1], wire_rank(a)));
        assert(rank_between(files[0], wire_rank(a), wire_rank(a) + 1));
        assert(rank_between(files[1], wire_rank(a), wire_rank(a) + 1));
    }
}

proof fn lemma_pair_files(first: Seq<DebianPackageModel>, a: Arch, second: Seq<DebianPackageModel>, b: Arch)
    requires
        pair_files(first, a, second, b) is Some,
        wire_rank(a) == wire_rank(b),
    ensures
        paths_ordered(pair_files(first, a, second, b)->0),
        ranks_within(pair_files(first, a, second, b)->0, wire_rank(a), wire_rank(a) + 1),
{
    let files = pair_files(first, a, second, b)->0;
    let rank = wire_rank(a);
    let plains = plain_file(first, a) + plain_file(second, b);
    let n = plains.len() as int;
    assert(files == plains + (packed_file(first, a)->0 + packed_file(second, b)->0));
    assert forall|i: int| 0 <= i < files.len() implies has_rank(#[trigger] files[i], rank) && (i
        < n ==> files[i].path == index_path(a, false) || files[i].path == index_path(b, false))
        && (i >= n ==> files[i].path == index_path(a, true) || files[i].path == index_path(
        b,
        true,
    )) by {
        if files[i].path == index_path(a, false) || files[i].path == index_path(a, true) {
        } else {
            assert(files[i].path == index_path(b, false) || files[i].path == index_path(b, true));
        }
    }
    assert forall|i: int| 0 <= i < files.len() implies rank_between(
        #[trigger] files[i],
        rank,
        rank + 1,
    ) by {
        assert(has_rank(files[i], rank));
    }
    assert forall|i: int, j: int| 0 <= i < j < files.len() implies !lex_lt(
        (#[trigger] files[j]).path,
        (#[trigger] files[i]).path,
    ) by {
        lemma_paths_ordered(a, false, a, false);
        lemma_paths_ordered(a, false, b, false);
        lemma_paths_ordered(b, false, a, false);
        lemma_paths_ordered(a, false, a, true);
        lemma_paths_ordered(a, false, b, true);
        lemma_paths_ordered(b, false, a, true);
        lemma_paths_ordered(b, false, b, true);
        lemma_paths_ordered(a, true, a, true);
        lemma_paths_ordered(a, true, b, true);
        lemma_paths_ordered(b, true, a, true);
        lemma_paths_ordered(b, true, b, true);
        lemma_paths_ordered(b, false, b, false);
    }
}

proof fn lemma_followed_by(x: Seq<IndexFileModel>, y: Seq<IndexFileModel>, rank: int)
    requires
        paths_ordered(x),
        paths_ordered(y),
        ranks_within(x, 0, rank),
        ranks_within(y, rank, rank + 1),
    ensures
        paths_ordered(x + y),
        ranks_within(x + y, 0, rank + 1),
{
    let all = x + y;
    assert forall|i: int| 0 <= i < all.len() implies rank_between(#[trigger] all[i], 0, rank + 1) by {
        if i < x.len() {
            assert(all[i] == x[i]);
            assert(rank_between(x[i], 0, rank));
            let q = choose|q: int| 0 <= q < rank && #[trigger] has_rank(x[i], q);
            assert(has_rank(all[i], q));
        } else {
            assert(all[i] == y[i - x.len()]);
            assert(rank_between(y[i - x.len()], rank, rank + 1));
            let q = choose|q: int| rank <= q < rank + 1 && #[trigger] has_rank(y[i - x.len()], q);
            assert(has_rank(all[i], q));
        }
    }
    assert forall|i: int, j: int| 0 <= i < j < all.len() implies !lex_lt(
        (#[trigger] all[j]).path,
        (#[trigger] all[i]).path,
    ) by {
        if j < x.len() {
            assert(all[i] == x[i] && all[j] == x[j]);
        } else if i >= x.len() {
            assert(all[i] == y[i - x.len()] && all[j] == y[j - x.len()]);
        } else {
            assert(all[i] == x[i] && all[j] == y[j - x.len()]);
            assert(rank_between(x[i], 0, rank));
            assert(rank_between(y[j - x.len()], rank, rank + 1));
            let qi = choose|q: int| 0 <= q < rank && #[trigger] has_rank(x[i], q);
            let qj = choose|q: int| rank <= q < rank + 1 && #[trigger] has_rank(y[j - x.len()], q);
            let (a, pa) = choose|a: Arch, pa: bool|
                wire_rank(a) == qi && x[i].path == #[trigger] index_path(a, pa);
            let (b, pb) = choose|b: Arch, pb: bool|
                wire_rank(b) == qj && y[j - x.len()].path == #[trigger] index_path(b, pb);
            lemma_paths_ordered(a, pa, b, pb);
        }
    }
}

/// The files of the `Release` index are listed in the order of their
/// paths.
pub proof fn lemma_release_paths_ordered(buckets: Seq<Seq<DebianPackageModel>>)
    requires
        release_files(buckets) is Some,
    ensures
        paths_ordered(release_files(buckets)->0),
{
    let g0 = single_files(buckets[0], Arch::Amd64)->0;
    let g1 = pair_files(buckets[1], Arch::Arm64, buckets[2], Arch::Aarch64)->0;
    let g2 = pair_files(buckets[3], Arch::Armhf, buckets[4], Arch::Armv7)->0;
    let g3 = single_files(buckets[5], Arch::PPC64le)->0;
    let g4 = single_files(buckets[6], Arch::RiscV64)->0;
    let g5 = single_files(buckets[7], Arch::S390x)->0;
    lemma_single_files(buckets[0], Arch::Amd64);
    lemma_pair_files(buckets[1], Arch::Arm64, buckets[2], Arch::Aarch64);
    lemma_pair_files(buckets[3], Arch::Armhf, buckets[4], Arch::Armv7);
    lemma_single_files(buckets[5], Arch::PPC64le);
    lemma_single_files(buckets[6], Arch::RiscV64);
    lemma_single_files(buckets[7], Arch::S390x);
    lemma_followed_by(g0, g1, 1);
    lemma_followed_by(g0 + g1, g2, 2);
    lemma_followed_by(g0 + g1 + g2, g3, 3);
    lemma_followed_by(g0 + g1 + g2 + g3, g4, 4);
    lemma_followed_by(g0 + g1 + g2 + g3 + g4, g5, 5);
}

} // verus!
