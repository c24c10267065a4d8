//! RPM packages: what the header of the package says, and the record that
//! the indices quote.

use crate::detect::text_view;
use crate::digest::{hashsum, hex_lower, sha256_sum, HashAlgorithm};
use crate::error::Error;
use crate::rpm::layout::{header_end, headers_are_sound, headers_sound, lemma_headers_in_order, main_header_at};
use crate::text::{from_chars, push_str};
use ::rpm::IndexSignatureTag;
use vstd::prelude::*;

verus! {

/// The texts of the header of an RPM package, `None` for each that the
/// header lacks, in this order: name, version, release, architecture,
/// vendor, URL, license, summary, description, group, build host, source
/// package. `None` where the bytes are no RPM package.
pub uninterp spec fn rpm_texts(data: Seq<u8>) -> Option<Seq<Option<Seq<char>>>>;

/// The numbers of the header of an RPM package, `None` for each that the
/// header lacks, in this order: epoch, build time, installed size, archive
/// size in 64 bits, payload size in 32 bits, and the offsets in the file
/// at which the header starts and ends. `None` where the bytes are no RPM
/// package.
pub uninterp spec fn rpm_numbers(data: Seq<u8>) -> Option<Seq<Option<u64>>>;

/// What an RPM package provides, each with name, flags and version; `None`
/// inside where the header lacks the list, `None` where the bytes are no RPM
/// package.
pub uninterp spec fn rpm_provides(data: Seq<u8>) -> Option<Option<Seq<(Seq<char>, u32, Seq<char>)>>>;

/// What an RPM package requires, each with name, flags and version; `None`
/// inside where the header lacks the list, `None` where the bytes are no RPM
/// package.
pub uninterp spec fn rpm_requires(data: Seq<u8>) -> Option<Option<Seq<(Seq<char>, u32, Seq<char>)>>>;

/// The files of an RPM package, each with its path and its mode; `None`
/// inside where the list cannot be read, `None` where the bytes are no RPM
/// package.
pub uninterp spec fn rpm_files(data: Seq<u8>) -> Option<Option<Seq<(Seq<char>, u16)>>>;

/// The views of a list of optional texts.
pub open spec fn texts_view(texts: Seq<Option<String>>) -> Seq<Option<Seq<char>>> {
    Seq::new(texts.len(), |i: int| text_view(texts[i]))
}

/// The views of a list of dependencies as the header gives them.
pub open spec fn raw_dependencies_view(deps: Seq<(String, u32, String)>) -> Seq<
    (Seq<char>, u32, Seq<char>),
> {
    Seq::new(deps.len(), |i: int| (deps[i].0@, deps[i].1, deps[i].2@))
}

/// The views of a list of files as the header gives them.
pub open spec fn raw_files_view(files: Seq<(String, u16)>) -> Seq<(Seq<char>, u16)> {
    Seq::new(files.len(), |i: int| (files[i].0@, files[i].1))
}

/// The view of an optional list of dependencies.
pub open spec fn optional_dependencies_view(deps: Option<Vec<(String, u32, String)>>) -> Option<
    Seq<(Seq<char>, u32, Seq<char>)>,
> {
    match deps {
        Some(d) => Some(raw_dependencies_view(d@)),
        None => None,
    }
}

/// The view of an optional list of files.
pub open spec fn optional_files_view(files: Option<Vec<(String, u16)>>) -> Option<
    Seq<(Seq<char>, u16)>,
> {
    match files {
        Some(f) => Some(raw_files_view(f@)),
        None => None,
    }
}

/// Reads the texts of the header of an RPM package.
///
/// Wraps `rpm::PackageMetadata::parse` and the getters `get_name`,
/// `get_version`, `get_release`, `get_arch`, `get_vendor`, `get_url`,
/// `get_license`, `get_summary`, `get_description`, `get_group`,
/// `get_build_host` and `get_source_rpm`. The contract names the result and
/// states its length. The
/// parser slices the store of a header at the offset of each entry and
/// sizes its buffers by the counts of the entries, so headers that are
/// not sound are left out.
#[verifier::external_body]
fn header_texts(data: &[u8]) -> (r: Option<Vec<Option<String>>>)
    requires
        headers_sound(data@),
    ensures
        match r {
            Some(texts) => rpm_texts(data@) == Some(texts_view(texts@)) && texts@.len() == 12,
            None => rpm_texts(data@) is None,
        },
{
    let mut input = data;
    let m = ::rpm::PackageMetadata::parse(&mut input).ok()?;
    let identity = [m.get_name(), m.get_version(), m.get_release(), m.get_arch()];
    let origin = [m.get_vendor(), m.get_url(), m.get_license(), m.get_summary()];
    let rest = [m.get_description(), m.get_group(), m.get_build_host(), m.get_source_rpm()];
    let all = identity.into_iter().chain(origin).chain(rest);
    Some(all.map(|r| r.ok().map(str::to_owned)).collect())
}

/// Reads the numbers of the header of an RPM package.
///
/// Wraps `rpm::PackageMetadata::parse`, the getters `get_epoch`,
/// `get_build_time`, `get_installed_size` and
/// `get_package_segment_offsets`, and `Header::get_entry_data_as_u64` and
/// `get_entry_data_as_u32` on the signature header. The contract names the
/// result and states its length, that the two offsets are where the main
/// header starts and where it ends, as the crate adds them up from the
/// lengths that the headers give, and that epoch and payload size, which
/// the crate hands out in 32 bits, fit 32 bits. The
/// parser slices the store of a header at the offset of each entry and
/// sizes its buffers by the counts of the entries, and the offsets are
/// added up in 32 bits, so headers that are not sound are left out.
#[verifier::external_body]
fn header_numbers(data: &[u8]) -> (r: Option<Vec<Option<u64>>>)
    requires
        headers_sound(data@),
    ensures
        match r {
            Some(numbers) => rpm_numbers(data@) == Some(numbers@) && numbers@.len() == 7
                && numbers@[5] == Some(main_header_at(data@) as u64) && numbers@[6] == Some(
                header_end(data@, main_header_at(data@)) as u64,
            ) && (numbers@[0] is Some ==> numbers@[0]->0 <= u32::MAX) && (numbers@[4] is Some
                ==> numbers@[4]->0 <= u32::MAX),
            None => rpm_numbers(data@) is None,
        },
{
    let mut input = data;
    let m = ::rpm::PackageMetadata::parse(&mut input).ok()?;
    let at = m.get_package_segment_offsets();
    let long = m.signature.get_entry_data_as_u64(IndexSignatureTag::RPMSIGTAG_LONGARCHIVESIZE);
    let short = m.signature.get_entry_data_as_u32(IndexSignatureTag::RPMSIGTAG_PAYLOADSIZE);
    let (epoch, short) = (m.get_epoch().ok().map(u64::from), short.ok().map(u64::from));
    let (built, installed) = (m.get_build_time().ok(), m.get_installed_size().ok());
    Some(vec![epoch, built, installed, long.ok(), short, Some(at.header), Some(at.payload)])
}

/// Reads what an RPM package provides.
///
/// Wraps `rpm::PackageMetadata::parse` and `get_provides`. The contract
/// names the result. The
/// parser slices the store of a header at the offset of each entry and
/// sizes its buffers by the counts of the entries, so headers that are
/// not sound are left out.
#[verifier::external_body]
fn header_provides(data: &[u8]) -> (r: Option<Option<Vec<(String, u32, String)>>>)
    requires
        headers_sound(data@),
    ensures
        match r {
            Some(deps) => rpm_provides(data@) == Some(optional_dependencies_view(deps)),
            None => rpm_provides(data@) is None,
        },
{
    let mut input = data;
    let m = ::rpm::PackageMetadata::parse(&mut input).ok()?;
    let deps = m.get_provides().ok();
    Some(deps.map(|v| v.into_iter().map(|d| (d.name, d.flags.bits(), d.version)).collect()))
}

/// Reads what an RPM package requires.
///
/// Wraps `rpm::PackageMetadata::parse` and `get_requires`. The contract
/// names the result. The
/// parser slices the store of a header at the offset of each entry and
/// sizes its buffers by the counts of the entries, so headers that are
/// not sound are left out.
#[verifier::external_body]
fn header_requires(data: &[u8]) -> (r: Option<Option<Vec<(String, u32, String)>>>)
    requires
        headers_sound(data@),
    ensures
        match r {
            Some(deps) => rpm_requires(data@) == Some(optional_dependencies_view(deps)),
            None => rpm_requires(data@) is None,
        },
{
    let mut input = data;
    let m = ::rpm::PackageMetadata::parse(&mut input).ok()?;
    let deps = m.get_requires().ok();
    Some(deps.map(|v| v.into_iter().map(|d| (d.name, d.flags.bits(), d.version)).collect()))
}

/// Reads the files of an RPM package.
///
/// Wraps `rpm::PackageMetadata::parse`, `get_file_entries`,
/// `FileEntry::path` and `FileEntry::mode`. A path that is no valid UTF-8
/// is shown with replacement characters. The contract names the result. The
/// parser slices the store of a header at the offset of each entry and
/// sizes its buffers by the counts of the entries, so headers that are
/// not sound are left out.
#[verifier::external_body]
fn header_files(data: &[u8]) -> (r: Option<Option<Vec<(String, u16)>>>)
    requires
        headers_sound(data@),
    ensures
        match r {
            Some(files) => rpm_files(data@) == Some(optional_files_view(files)),
            None => rpm_files(data@) is None,
        },
{
    let mut input = data;
    let m = ::rpm::PackageMetadata::parse(&mut input).ok()?;
    let files = m.get_file_entries().ok();
    let plain = |f: &::rpm::FileEntry| (f.path().to_string_lossy().into_owned(), f.mode().raw_mode());
    Some(files.map(|v| v.iter().map(plain).collect()))
}

/// A capability that a package provides or requires.
#[derive(Debug)]
pub struct Dependency {
    pub dependency: String,
    pub version: String,
    pub condition: String,
}

/// The mathematical content of a [`Dependency`].
pub struct DependencyModel {
    pub dependency: Seq<char>,
    pub version: Seq<char>,
    pub condition: Seq<char>,
}

impl View for Dependency {
    type V = DependencyModel;

    open spec fn view(&self) -> DependencyModel {
        DependencyModel {
            dependency: self.dependency@,
            version: self.version@,
            condition: self.condition@,
        }
    }
}

impl Clone for Dependency {
    fn clone(&self) -> (r: Self)
        ensures
            r@ == self@,
    {
        Dependency {
            dependency: self.dependency.clone(),
            version: self.version.clone(),
            condition: self.condition.clone(),
        }
    }
}

/// A file of a package.
#[derive(Debug)]
pub struct File {
    pub path: String,
    pub dir: bool,
}

/// The mathematical content of a [`File`].
pub struct FileModel {
    pub path: Seq<char>,
    pub dir: bool,
}

impl View for File {
    type V = FileModel;

    open spec fn view(&self) -> FileModel {
        FileModel { path: self.path@, dir: self.dir }
    }
}

impl Clone for File {
    fn clone(&self) -> (r: Self)
        ensures
            r@ == self@,
    {
        File { path: self.path.clone(), dir: self.dir }
    }
}

/// What the indices quote of an RPM package.
#[derive(Debug)]
pub struct RPMPackage {
    pub name: String,
    pub epoch: u32,
    pub version: String,
    pub release: String,
    pub arch: String,
    pub vendor: Option<String>,
    pub url: Option<String>,
    pub license: Option<String>,
    pub summary: Option<String>,
    pub description: Option<String>,
    pub group: Option<String>,
    pub build_time: u64,
    pub build_host: Option<String>,
    pub source: Option<String>,
    pub provides: Vec<Dependency>,
    pub requires: Vec<Dependency>,
    pub sha256: String,
    pub header_start: u64,
    pub header_end: u64,
    pub files: Vec<File>,
    pub pkg_size: usize,
    pub installed_size: u64,
    pub archive_size: u64,
    pub location: String,
    pub pkg_time: i64,
}

/// The mathematical content of an [`RPMPackage`].
pub struct RPMPackageModel {
    pub name: Seq<char>,
    pub epoch: nat,
    pub version: Seq<char>,
    pub release: Seq<char>,
    pub arch: Seq<char>,
    pub vendor: Option<Seq<char>>,
    pub url: Option<Seq<char>>,
    pub license: Option<Seq<char>>,
    pub summary: Option<Seq<char>>,
    pub description: Option<Seq<char>>,
    pub group: Option<Seq<char>>,
    pub build_time: nat,
    pub build_host: Option<Seq<char>>,
    pub source: Option<Seq<char>>,
    pub provides: Seq<DependencyModel>,
    pub requires: Seq<DependencyModel>,
    pub sha256: Seq<char>,
    pub header_start: nat,
    pub header_end: nat,
    pub files: Seq<FileModel>,
    pub pkg_size: nat,
    pub installed_size: nat,
    pub archive_size: nat,
    pub location: Seq<char>,
    pub pkg_time: int,
}

/// The views of a list of dependencies.
pub open spec fn dependencies_view(deps: Seq<Dependency>) -> Seq<DependencyModel> {
    Seq::new(deps.len(), |i: int| deps[i]@)
}

/// The views of a list of files.
pub open spec fn files_view(files: Seq<File>) -> Seq<FileModel> {
    Seq::new(files.len(), |i: int| files[i]@)
}

impl View for RPMPackage {
    type V = RPMPackageModel;

    open spec fn view(&self) -> RPMPackageModel {
        RPMPackageModel {
            name: self.name@,
            epoch: self.epoch as nat,
            version: self.version@,
            release: self.release@,
            arch: self.arch@,
            vendor: text_view(self.vendor),
            url: text_view(self.url),
            license: text_view(self.license),
            summary: text_view(self.summary),
            description: text_view(self.description),
            group: text_view(self.group),
            build_time: self.build_time as nat,
            build_host: text_view(self.build_host),
            source: text_view(self.source),
            provides: dependencies_view(self.provides@),
            requires: dependencies_view(self.requires@),
            sha256: self.sha256@,
            header_start: self.header_start as nat,
            header_end: self.header_end as nat,
            files: files_view(self.files@),
            pkg_size: self.pkg_size as nat,
            installed_size: self.installed_size as nat,
            archive_size: self.archive_size as nat,
            location: self.location@,
            pkg_time: self.pkg_time as int,
        }
    }
}

/// The flag of a dependency whose version may be less.
pub const FLAG_LESS: u32 = 2;

/// The flag of a dependency whose version may be greater.
pub const FLAG_GREATER: u32 = 4;

/// The flag of a dependency whose version may be equal.
pub const FLAG_EQUAL: u32 = 8;

/// The flag of a dependency on a feature of the package manager itself.
pub const FLAG_RPMLIB: u32 = 0x100_0000;

/// The flag of a dependency on a configuration.
pub const FLAG_CONFIG: u32 = 0x1000_0000;

/// The bits of a file mode that hold the type of the file.
pub const MODE_TYPE_MASK: u16 = 0o170000;

/// The type bits of a directory.
pub const MODE_DIRECTORY: u16 = 0o040000;

/// How the version of a dependency is compared, as the flags say:
/// "greater or equal" where both bits are set, else "less or equal", else
/// "equal", else nothing.
pub open spec fn condition_of(flags: u32) -> Seq<char> {
    if flags & (FLAG_GREATER | FLAG_EQUAL) == (FLAG_GREATER | FLAG_EQUAL) {
        "GE"@
    } else if flags & (FLAG_LESS | FLAG_EQUAL) == (FLAG_LESS | FLAG_EQUAL) {
        "LE"@
    } else if flags & FLAG_EQUAL == FLAG_EQUAL {
        "EQ"@
    } else {
        ""@
    }
}

/// Tells from the flags of a dependency how its version is compared.
pub fn flag_to_condition(flags: u32) -> (r: String)
    ensures
        r@ == condition_of(flags),
        r@ == "GE"@ || r@ == "LE"@ || r@ == "EQ"@ || r@ == ""@,
{
    if flags & (FLAG_GREATER | FLAG_EQUAL) == (FLAG_GREATER | FLAG_EQUAL) {
        "GE".to_owned()
    } else if flags & (FLAG_LESS | FLAG_EQUAL) == (FLAG_LESS | FLAG_EQUAL) {
        "LE".to_owned()
    } else if flags & FLAG_EQUAL == FLAG_EQUAL {
        "EQ".to_owned()
    } else {
        "".to_owned()
    }
}

/// Whether a requirement is one on other packages: neither on a feature of
/// the package manager nor on a configuration.
pub open spec fn is_listed(flags: u32) -> bool {
    flags & FLAG_RPMLIB != FLAG_RPMLIB && flags & FLAG_CONFIG != FLAG_CONFIG
}

/// Whether a mode is that of a directory.
pub open spec fn is_directory(mode: u16) -> bool {
    mode & MODE_TYPE_MASK == MODE_DIRECTORY
}

/// The dependency that an entry of the header stands for.
pub open spec fn dependency_of(raw: (Seq<char>, u32, Seq<char>)) -> DependencyModel {
    DependencyModel { dependency: raw.0, version: raw.2, condition: condition_of(raw.1) }
}

/// All entries of the list as dependencies.
pub open spec fn provides_of(raw: Seq<(Seq<char>, u32, Seq<char>)>) -> Seq<DependencyModel> {
    Seq::new(raw.len(), |i: int| dependency_of(raw[i]))
}

/// The entries of the list that are requirements on other packages, as
/// dependencies, in the order of the list.
pub open spec fn requires_of(raw: Seq<(Seq<char>, u32, Seq<char>)>) -> Seq<DependencyModel>
    decreases raw.len(),
{
    if raw.len() == 0 {
        Seq::empty()
    } else if is_listed(raw.last().1) {
        requires_of(raw.drop_last()).push(dependency_of(raw.last()))
    } else {
        requires_of(raw.drop_last())
    }
}

/// The files of the list, each with the note whether it is a directory.
pub open spec fn files_of(raw: Seq<(Seq<char>, u16)>) -> Seq<FileModel> {
    Seq::new(raw.len(), |i: int| FileModel { path: raw[i].0, dir: is_directory(raw[i].1) })
}

/// The path under which the gateway serves an RPM package.
pub open spec fn package_location(version: Seq<char>, file: Seq<char>) -> Seq<char> {
    "package/"@ + version + "/"@ + file
}

/// The record that the parts of a header give. The header must hold name,
/// version, release, architecture, build time, installed size, one of the
/// two archive sizes, and the lists of what the package provides, requires
/// and holds; the epoch is 0 where the header has none.
pub open spec fn rpm_of_parts(
    texts: Seq<Option<Seq<char>>>,
    numbers: Seq<Option<u64>>,
    provided: Option<Seq<(Seq<char>, u32, Seq<char>)>>,
    required: Option<Seq<(Seq<char>, u32, Seq<char>)>>,
    held: Option<Seq<(Seq<char>, u16)>>,
    sha256: Seq<char>,
    pkg_size: nat,
    location: Seq<char>,
    pkg_time: int,
) -> Option<RPMPackageModel> {
    if texts.len() == 12 && numbers.len() == 7 && texts[0] is Some && texts[1] is Some && texts[2]
        is Some && texts[3] is Some && numbers[1] is Some && numbers[2] is Some && (numbers[3]
        is Some || numbers[4] is Some) && numbers[5] is Some && numbers[6] is Some && provided
        is Some && required is Some && held is Some && (numbers[0] is Some ==> numbers[0]->0
        <= u32::MAX) {
        Some(
            RPMPackageModel {
                name: texts[0]->0,
                epoch: match numbers[0] {
                    Some(e) => e as nat,
                    None => 0,
                },
                version: texts[1]->0,
                release: texts[2]->0,
                arch: texts[3]->0,
                vendor: texts[4],
                url: texts[5],
                license: texts[6],
                summary: texts[7],
                description: texts[8],
                group: texts[9],
                build_time: numbers[1]->0 as nat,
                build_host: texts[10],
                source: texts[11],
                provides: provides_of(provided->0),
                requires: requires_of(required->0),
                sha256,
                header_start: numbers[5]->0 as nat,
                header_end: numbers[6]->0 as nat,
                files: files_of(held->0),
                pkg_size,
                installed_size: numbers[2]->0 as nat,
                archive_size: match numbers[3] {
                    Some(long) => long as nat,
                    None => numbers[4]->0 as nat,
                },
                location,
                pkg_time,
            },
        )
    } else {
        None
    }
}

/// The record of the RPM package with the bytes `data`, served as `file`
/// of the release `version` and created at `created`; `None` where the
/// headers are not sound, the bytes are no RPM package, or the header
/// lacks what the record needs.
pub open spec fn rpm_record(data: Seq<u8>, version: Seq<char>, file: Seq<char>, created: int) -> Option<
    RPMPackageModel,
> {
    if !headers_sound(data) {
        None
    } else {
        rpm_record_of_sound(data, version, file, created)
    }
}

/// The numbers of a header with the two offsets as the layout of the
/// package gives them: where the main header starts, and where it ends.
pub open spec fn placed(numbers: Seq<Option<u64>>, data: Seq<u8>) -> Seq<Option<u64>> {
    if numbers.len() == 7 {
        numbers.update(5, Some(main_header_at(data) as u64)).update(
            6,
            Some(header_end(data, main_header_at(data)) as u64),
        )
    } else {
        numbers
    }
}

/// The record of an RPM package whose headers are sound.
pub open spec fn rpm_record_of_sound(
    data: Seq<u8>,
    version: Seq<char>,
    file: Seq<char>,
    created: int,
) -> Option<RPMPackageModel> {
    match (rpm_texts(data), rpm_numbers(data), rpm_provides(data), rpm_requires(data), rpm_files(data)) {
        (Some(texts), Some(numbers), Some(provided), Some(required), Some(held)) => rpm_of_parts(
            texts,
            placed(numbers, data),
            provided,
            required,
            held,
            hex_lower(sha256_sum(data)),
            data.len(),
            package_location(version, file),
            created,
        ),
        _ => None,
    }
}

/// The record of a package says where its main header lies: it starts
/// behind the lead and ends within the bytes, not before it starts.
pub proof fn lemma_header_range(data: Seq<u8>, version: Seq<char>, file: Seq<char>, created: int)
    requires
        rpm_record(data, version, file, created) is Some,
    ensures
        ({
            let record = rpm_record(data, version, file, created)->0;
            &&& record.header_start == main_header_at(data)
            &&& record.header_end == header_end(data, main_header_at(data))
            &&& 96 <= record.header_start <= record.header_end <= data.len()
            &&& record.pkg_size == data.len()
        }),
{
    lemma_headers_in_order(data);
}

fn clone_text(text: &Option<String>) -> (r: Option<String>)
    ensures
        text_view(r) == text_view(*text),
{
    match text {
        Some(t) => Some(t.clone()),
        None => None,
    }
}

fn all_dependencies(raw: &Vec<(String, u32, String)>) -> (r: Vec<Dependency>)
    ensures
        dependencies_view(r@) == provides_of(raw_dependencies_view(raw@)),
{
    let mut out: Vec<Dependency> = Vec::new();
    let mut i: usize = 0;
    while i < raw.len()
        invariant
            i <= raw.len(),
            out@.len() == i,
            forall|k: int|
                0 <= k < i ==> (#[trigger] out@[k])@ == dependency_of(
                    raw_dependencies_view(raw@)[k],
                ),
        decreases raw.len() - i,
    {
        out.push(
            Dependency {
                dependency: raw[i].0.clone(),
                version: raw[i].2.clone(),
                condition: flag_to_condition(raw[i].1),
            },
        );
        i = i + 1;
    }
    assert(dependencies_view(out@) =~= provides_of(raw_dependencies_view(raw@)));
    out
}

fn listed_dependencies(raw: &Vec<(String, u32, String)>) -> (r: Vec<Dependency>)
    ensures
        dependencies_view(r@) == requires_of(raw_dependencies_view(raw@)),
{
    let ghost all = raw_dependencies_view(raw@);
    let mut out: Vec<Dependency> = Vec::new();
    let mut i: usize = 0;
    assert(all.take(0) == Seq::<(Seq<char>, u32, Seq<char>)>::empty());
    while i < raw.len()
        invariant
            i <= raw.len(),
            all == raw_dependencies_view(raw@),
            dependencies_view(out@) == requires_of(all.take(i as int)),
        decreases raw.len() - i,
    {
        assert(all.take(i + 1).drop_last() == all.take(i as int));
        assert(all.take(i + 1).last() == all[i as int]);
        let flags = raw[i].1;
        if flags & FLAG_RPMLIB != FLAG_RPMLIB && flags & FLAG_CONFIG != FLAG_CONFIG {
            let ghost before = dependencies_view(out@);
            let dep = Dependency {
                dependency: raw[i].0.clone(),
                version: raw[i].2.clone(),
                condition: flag_to_condition(flags),
            };
            out.push(dep);
            assert(dependencies_view(out@) == before.push(dependency_of(all[i as int])));
        }
        i = i + 1;
    }
    assert(all.take(raw.len() as int) == all);
    out
}

fn all_files(raw: &Vec<(String, u16)>) -> (r: Vec<File>)
    ensures
        files_view(r@) == files_of(raw_files_view(raw@)),
{
    let mut out: Vec<File> = Vec::new();
    let mut i: usize = 0;
    while i < raw.len()
        invariant
            i <= raw.len(),
            out@.len() == i,
            forall|k: int|
                0 <= k < i ==> (#[trigger] out@[k])@ == (FileModel {
                    path: raw_files_view(raw@)[k].0,
                    dir: is_directory(raw_files_view(raw@)[k].1),
                }),
        decreases raw.len() - i,
    {
        out.push(File { path: raw[i].0.clone(), dir: raw[i].1 & MODE_TYPE_MASK == MODE_DIRECTORY });
        i = i + 1;
    }
    assert(files_view(out@) =~= files_of(raw_files_view(raw@)));
    out
}

impl RPMPackage {
    /// Builds the record from the parts of a header; see [`rpm_of_parts`].
    /// Fails with [`Error::ParseFailed`] exactly when the header lacks
    /// what the record needs.
    pub fn from_parts(
        texts: &Vec<Option<String>>,
        numbers: &Vec<Option<u64>>,
        provided: &Option<Vec<(String, u32, String)>>,
        required: &Option<Vec<(String, u32, String)>>,
        held: &Option<Vec<(String, u16)>>,
        sha256: String,
        pkg_size: usize,
        location: String,
        pkg_time: i64,
    ) -> (r: Result<RPMPackage, Error>)
        ensures
            match r {
                Ok(p) => rpm_of_parts(
                    texts_view(texts@),
                    numbers@,
                    optional_dependencies_view(*provided),
                    optional_dependencies_view(*required),
                    optional_files_view(*held),
                    sha256@,
                    pkg_size as nat,
                    location@,
                    pkg_time as int,
                ) == Some(p@),
                Err(e) => rpm_of_parts(
                    texts_view(texts@),
                    numbers@,
                    optional_dependencies_view(*provided),
                    optional_dependencies_view(*required),
                    optional_files_view(*held),
                    sha256@,
                    pkg_size as nat,
                    location@,
                    pkg_time as int,
                ) is None && e == Error::ParseFailed,
            },
    {
        if texts.len() != 12 || numbers.len() != 7 {
            return Err(Error::ParseFailed);
        }
        let (Some(name), Some(version), Some(release), Some(arch)) = (
            &texts[0],
            &texts[1],
            &texts[2],
            &texts[3],
        ) else {
            return Err(Error::ParseFailed);
        };
        let (Some(build_time), Some(installed_size), Some(header_start), Some(header_end)) = (
            numbers[1],
            numbers[2],
            numbers[5],
            numbers[6],
        ) else {
            return Err(Error::ParseFailed);
        };
        let archive_size = match (numbers[3], numbers[4]) {
            (Some(long), _) => long,
            (None, Some(short)) => short,
            (None, None) => {
                return Err(Error::ParseFailed);
            },
        };
        let epoch: u32 = match numbers[0] {
            Some(e) => {
                if e > u32::MAX as u64 {
                    return Err(Error::ParseFailed);
                }
                e as u32
            },
            None => 0,
        };
        let (Some(provided), Some(required), Some(held)) = (provided, required, held) else {
            return Err(Error::ParseFailed);
        };
        Ok(
            RPMPackage {
                name: name.clone(),
                epoch,
                version: version.clone(),
                release: release.clone(),
                arch: arch.clone(),
                vendor: clone_text(&texts[4]),
                url: clone_text(&texts[5]),
                license: clone_text(&texts[6]),
                summary: clone_text(&texts[7]),
                description: clone_text(&texts[8]),
                group: clone_text(&texts[9]),
                build_time,
                build_host: clone_text(&texts[10]),
                source: clone_text(&texts[11]),
                provides: all_dependencies(provided),
                requires: listed_dependencies(required),
                sha256,
                header_start,
                header_end,
                files: all_files(held),
                pkg_size,
                installed_size,
                archive_size,
                location,
                pkg_time,
            },
        )
    }

    /// Parses the bytes of an RPM package that is served as `file` of the
    /// release `version` and was created at `created`. Fails with
    /// [`Error::ParseFailed`] exactly when [`rpm_record`] gives nothing.
    /// The record says where the main header lies: behind the lead, and
    /// within the bytes.
    pub fn from_bytes(data: &[u8], version: &str, file: &str, created: i64) -> (r: Result<
        RPMPackage,
        Error,
    >)
        ensures
            match r {
                Ok(p) => rpm_record(data@, version@, file@, created as int) == Some(p@),
                Err(e) => rpm_record(data@, version@, file@, created as int) is None && e
                    == Error::ParseFailed,
            },
            r matches Ok(p) ==> p.header_start == main_header_at(data@) && p.header_end
                == header_end(data@, main_header_at(data@)) && p.header_start <= p.header_end
                <= data@.len() && p.pkg_size == data@.len(),
    {
        if !headers_are_sound(data) {
            return Err(Error::ParseFailed);
        }
        let sha256 = hashsum(HashAlgorithm::Sha256, data);
        let texts = header_texts(data);
        let numbers = header_numbers(data);
        let provided = header_provides(data);
        let required = header_requires(data);
        let held = header_files(data);
        let (Some(texts), Some(numbers), Some(provided), Some(required), Some(held)) = (
            texts,
            numbers,
            provided,
            required,
            held,
        ) else {
            return Err(Error::ParseFailed);
        };
        let mut location: Vec<char> = Vec::new();
        push_str(&mut location, "package/");
        push_str(&mut location, version);
        push_str(&mut location, "/");
        push_str(&mut location, file);
        assert(location@ == package_location(version@, file@));
        proof {
            lemma_headers_in_order(data@);
            assert(numbers@ =~= placed(numbers@, data@));
        }
        RPMPackage::from_parts(
            &texts,
            &numbers,
            &provided,
            &required,
            &held,
            sha256,
            data.len(),
            from_chars(&location),
            created,
        )
    }
}

} // verus!
