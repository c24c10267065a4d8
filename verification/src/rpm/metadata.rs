//! The serialized form of the record of an RPM package, and what parsing
//! makes of a package's data cell.

use crate::codec::{decode, decode_fields, decode_optional, encode, encode_fields, encode_optional, lemma_decimal_int_roundtrip, lemma_decimal_roundtrip, lemma_decode_encode, lemma_optional_roundtrip, optional_field, optional_of_field, strings_view};
use crate::error::Error;
use crate::package::{Data, DataModel, Package, PackageModel};
use crate::rpm::index::packages_view;
use crate::selector::models;
use crate::rpm::package::{dependencies_view, files_view, lemma_header_range, rpm_record, Dependency, DependencyModel, File, FileModel, RPMPackage, RPMPackageModel};
use crate::text::{decimal, decimal_int, decimal_value, int_value, parse_i64, parse_u64, spec_decimal, spec_decimal_int, to_chars};
use vstd::prelude::*;

verus! {

/// The texts of a list of dependencies, three for each: name, version and
/// condition.
pub open spec fn flat_dependencies(deps: Seq<DependencyModel>) -> Seq<Seq<char>>
    decreases deps.len(),
{
    if deps.len() == 0 {
        Seq::empty()
    } else {
        flat_dependencies(deps.drop_last()) + seq![
            deps.last().dependency,
            deps.last().version,
            deps.last().condition,
        ]
    }
}

/// The list of dependencies that a list of texts stands for, three texts
/// for each; `None` where the number of texts is no multiple of three.
pub open spec fn dependencies_of_flat(fields: Seq<Seq<char>>) -> Option<Seq<DependencyModel>> {
    if fields.len() % 3 == 0 {
        Some(
            Seq::new(
                fields.len() / 3,
                |i: int|
                    DependencyModel {
                        dependency: fields[3 * i],
                        version: fields[3 * i + 1],
                        condition: fields[3 * i + 2],
                    },
            ),
        )
    } else {
        None
    }
}

/// A truth value as a field.
pub open spec fn flag_field(b: bool) -> Seq<char> {
    if b {
        seq!['1']
    } else {
        seq!['0']
    }
}

/// The texts of a list of files, two for each: path and whether it is a
/// directory.
pub open spec fn flat_files(files: Seq<FileModel>) -> Seq<Seq<char>>
    decreases files.len(),
{
    if files.len() == 0 {
        Seq::empty()
    } else {
        flat_files(files.drop_last()) + seq![files.last().path, flag_field(files.last().dir)]
    }
}

/// The list of files that a list of texts stands for, two texts for each;
/// `None` where the texts are not those of a list of files.
pub open spec fn files_of_flat(fields: Seq<Seq<char>>) -> Option<Seq<FileModel>> {
    if fields.len() % 2 == 0 && forall|i: int|
        0 <= i < fields.len() / 2 ==> #[trigger] fields[2 * i + 1] == flag_field(true) || fields[2
            * i + 1] == flag_field(false) {
        Some(
            Seq::new(
                fields.len() / 2,
                |i: int| FileModel { path: fields[2 * i], dir: fields[2 * i + 1] == flag_field(true) },
            ),
        )
    } else {
        None
    }
}

proof fn lemma_flat_dependencies(deps: Seq<DependencyModel>)
    ensures
        flat_dependencies(deps).len() == 3 * deps.len(),
        forall|i: int|
            0 <= i < deps.len() ==> flat_dependencies(deps)[3 * i] == (#[trigger] deps[i]).dependency
                && flat_dependencies(deps)[3 * i + 1] == deps[i].version && flat_dependencies(
                deps,
            )[3 * i + 2] == deps[i].condition,
    decreases deps.len(),
{
    if deps.len() > 0 {
        lemma_flat_dependencies(deps.drop_last());
        assert forall|i: int| 0 <= i < deps.len() implies flat_dependencies(deps)[3 * i] == (
        #[trigger] deps[i]).dependency && flat_dependencies(deps)[3 * i + 1] == deps[i].version
            && flat_dependencies(deps)[3 * i + 2] == deps[i].condition by {
            if i < deps.len() - 1 {
                assert(deps.drop_last()[i] == deps[i]);
            }
        }
    }
}

proof fn lemma_flat_files(files: Seq<FileModel>)
    ensures
        flat_files(files).len() == 2 * files.len(),
        forall|i: int|
            0 <= i < files.len() ==> flat_files(files)[2 * i] == (#[trigger] files[i]).path
                && flat_files(files)[2 * i + 1] == flag_field(files[i].dir),
    decreases files.len(),
{
    if files.len() > 0 {
        lemma_flat_files(files.drop_last());
        assert forall|i: int| 0 <= i < files.len() implies flat_files(files)[2 * i] == (
        #[trigger] files[i]).path && flat_files(files)[2 * i + 1] == flag_field(files[i].dir) by {
            if i < files.len() - 1 {
                assert(files.drop_last()[i] == files[i]);
            }
        }
    }
}

/// A list of dependencies reads back from its texts as it was.
pub proof fn lemma_dependencies_roundtrip(deps: Seq<DependencyModel>)
    ensures
        dependencies_of_flat(flat_dependencies(deps)) == Some(deps),
{
    lemma_flat_dependencies(deps);
    let back = dependencies_of_flat(flat_dependencies(deps))->0;
    assert(back.len() == deps.len());
    assert forall|i: int| 0 <= i < deps.len() implies back[i] == deps[i] by {
        assert(deps[i].dependency == flat_dependencies(deps)[3 * i]);
    }
    assert(back =~= deps);
}

/// A list of files reads back from its texts as it was.
pub proof fn lemma_files_roundtrip(files: Seq<FileModel>)
    ensures
        files_of_flat(flat_files(files)) == Some(files),
{
    lemma_flat_files(files);
    let fields = flat_files(files);
    assert forall|i: int| 0 <= i < fields.len() / 2 implies #[trigger] fields[2 * i + 1]
        == flag_field(true) || fields[2 * i + 1] == flag_field(false) by {
        assert(fields[2 * i + 1] == flag_field(files[i].dir));
    }
    let back = files_of_flat(fields)->0;
    assert(back.len() == files.len());
    assert forall|i: int| 0 <= i < files.len() implies back[i] == files[i] by {
        assert(files[i].path == fields[2 * i]);
        assert(flag_field(true) != flag_field(false)) by {
            assert(flag_field(true)[0] == '1');
            assert(flag_field(false)[0] == '0');
        }
    }
    assert(back =~= files);
}

/// The fields of a record, in the order in which they are serialized. The
/// three lists are fields that hold a serialized list of texts each.
pub open spec fn rpm_fields(p: RPMPackageModel) -> Seq<Seq<char>> {
    seq![
        p.name,
        spec_decimal(p.epoch),
        p.version,
        p.release,
        p.arch,
        optional_field(p.vendor),
        optional_field(p.url),
        optional_field(p.license),
        optional_field(p.summary),
        optional_field(p.description),
        optional_field(p.group),
        spec_decimal(p.build_time),
        optional_field(p.build_host),
        optional_field(p.source),
        encode_fields(flat_dependencies(p.provides)),
        encode_fields(flat_dependencies(p.requires)),
        p.sha256,
        spec_decimal(p.header_start),
        spec_decimal(p.header_end),
        encode_fields(flat_files(p.files)),
        spec_decimal(p.pkg_size),
        spec_decimal(p.installed_size),
        spec_decimal(p.archive_size),
        p.location,
        spec_decimal_int(p.pkg_time),
    ]
}

/// The serialized form of a record.
pub open spec fn rpm_metadata(p: RPMPackageModel) -> Seq<char> {
    encode_fields(rpm_fields(p))
}

/// The number that a field holds, where it fits `max`.
pub open spec fn number_within(field: Seq<char>, max: nat) -> Option<nat> {
    match decimal_value(field) {
        Some(n) => if n <= max {
            Some(n)
        } else {
            None
        },
        None => None,
    }
}

/// The list of dependencies that a field holds.
pub open spec fn dependencies_of_field(field: Seq<char>) -> Option<Seq<DependencyModel>> {
    match decode_fields(field) {
        Some(texts) => dependencies_of_flat(texts),
        None => None,
    }
}

/// The list of files that a field holds.
pub open spec fn files_of_field(field: Seq<char>) -> Option<Seq<FileModel>> {
    match decode_fields(field) {
        Some(texts) => files_of_flat(texts),
        None => None,
    }
}

/// The integer that a field holds, where it fits 64 bits.
pub open spec fn time_of_field(field: Seq<char>) -> Option<int> {
    match int_value(field) {
        Some(i) => if i64::MIN <= i <= i64::MAX {
            Some(i)
        } else {
            None
        },
        None => None,
    }
}

/// Every field of the list stands for what the record needs of it.
pub open spec fn fields_readable(f: Seq<Seq<char>>) -> bool {
    &&& f.len() == 25
    &&& number_within(f[1], u32::MAX as nat) is Some
    &&& optional_of_field(f[5]) is Some
    &&& optional_of_field(f[6]) is Some
    &&& optional_of_field(f[7]) is Some
    &&& optional_of_field(f[8]) is Some
    &&& optional_of_field(f[9]) is Some
    &&& optional_of_field(f[10]) is Some
    &&& number_within(f[11], u64::MAX as nat) is Some
    &&& optional_of_field(f[12]) is Some
    &&& optional_of_field(f[13]) is Some
    &&& dependencies_of_field(f[14]) is Some
    &&& dependencies_of_field(f[15]) is Some
    &&& number_within(f[17], u64::MAX as nat) is Some
    &&& number_within(f[18], u64::MAX as nat) is Some
    &&& files_of_field(f[19]) is Some
    &&& number_within(f[20], usize::MAX as nat) is Some
    &&& number_within(f[21], u64::MAX as nat) is Some
    &&& number_within(f[22], u64::MAX as nat) is Some
    &&& time_of_field(f[24]) is Some
}

/// The record that a list of fields stands for; `None` where the list is
/// not that of a record that fits this machine.
pub open spec fn rpm_of_fields(f: Seq<Seq<char>>) -> Option<RPMPackageModel> {
    if fields_readable(f) {
        Some(
            RPMPackageModel {
                name: f[0],
                epoch: number_within(f[1], u32::MAX as nat)->0,
                version: f[2],
                release: f[3],
                arch: f[4],
                vendor: optional_of_field(f[5])->0,
                url: optional_of_field(f[6])->0,
                license: optional_of_field(f[7])->0,
                summary: optional_of_field(f[8])->0,
                description: optional_of_field(f[9])->0,
                group: optional_of_field(f[10])->0,
                build_time: number_within(f[11], u64::MAX as nat)->0,
                build_host: optional_of_field(f[12])->0,
                source: optional_of_field(f[13])->0,
                provides: dependencies_of_field(f[14])->0,
                requires: dependencies_of_field(f[15])->0,
                sha256: f[16],
                header_start: number_within(f[17], u64::MAX as nat)->0,
                header_end: number_within(f[18], u64::MAX as nat)->0,
                files: files_of_field(f[19])->0,
                pkg_size: number_within(f[20], usize::MAX as nat)->0,
                installed_size: number_within(f[21], u64::MAX as nat)->0,
                archive_size: number_within(f[22], u64::MAX as nat)->0,
                location: f[23],
                pkg_time: time_of_field(f[24])->0,
            },
        )
    } else {
        None
    }
}

/// The record that serialized metadata stands for.
pub open spec fn rpm_of_metadata(text: Seq<char>) -> Option<RPMPackageModel> {
    match decode_fields(text) {
        Some(fields) => rpm_of_fields(fields),
        None => None,
    }
}

/// The numbers of the record fit the machine types that hold them.
pub open spec fn fits(p: RPMPackageModel) -> bool {
    &&& p.epoch <= u32::MAX
    &&& p.build_time <= u64::MAX
    &&& p.header_start <= u64::MAX
    &&& p.header_end <= u64::MAX
    &&& p.pkg_size <= usize::MAX
    &&& p.installed_size <= u64::MAX
    &&& p.archive_size <= u64::MAX
    &&& i64::MIN <= p.pkg_time <= i64::MAX
}

/// A record that fits this machine is read back from its serialized form
/// as it was.
pub proof fn lemma_rpm_roundtrip(p: RPMPackageModel)
    requires
        fits(p),
    ensures
        rpm_of_metadata(rpm_metadata(p)) == Some(p),
{
    let f = rpm_fields(p);
    lemma_decode_encode(f);
    lemma_decimal_roundtrip(p.epoch);
    lemma_decimal_roundtrip(p.build_time);
    lemma_decimal_roundtrip(p.header_start);
    lemma_decimal_roundtrip(p.header_end);
    lemma_decimal_roundtrip(p.pkg_size);
    lemma_decimal_roundtrip(p.installed_size);
    lemma_decimal_roundtrip(p.archive_size);
    lemma_decimal_int_roundtrip(p.pkg_time);
    lemma_optional_roundtrip(p.vendor);
    lemma_optional_roundtrip(p.url);
    lemma_optional_roundtrip(p.license);
    lemma_optional_roundtrip(p.summary);
    lemma_optional_roundtrip(p.description);
    lemma_optional_roundtrip(p.group);
    lemma_optional_roundtrip(p.build_host);
    lemma_optional_roundtrip(p.source);
    lemma_decode_encode(flat_dependencies(p.provides));
    lemma_decode_encode(flat_dependencies(p.requires));
    lemma_decode_encode(flat_files(p.files));
    lemma_dependencies_roundtrip(p.provides);
    lemma_dependencies_roundtrip(p.requires);
    lemma_files_roundtrip(p.files);
    assert(fields_readable(f));
    assert(rpm_of_fields(f)->0 == p);
}

/// What parsing makes of the content of a package's data cell: the record
/// and what the cell holds afterwards. Metadata is read back and stays;
/// the bytes of a package are parsed and give way to the metadata of the
/// record; an empty cell gives nothing.
pub open spec fn rpm_parse(data: DataModel, version: Seq<char>, file: Seq<char>, created: int) -> Option<
    (RPMPackageModel, DataModel),
> {
    match data {
        DataModel::Metadata(text) => match rpm_of_metadata(text) {
            Some(p) => Some((p, data)),
            None => None,
        },
        DataModel::Package(bytes) => match rpm_record(bytes, version, file, created) {
            Some(p) => Some((p, DataModel::Metadata(rpm_metadata(p)))),
            None => None,
        },
        DataModel::Empty => None,
    }
}

/// `r` is what parsing makes of the data cell of the package `p` that
/// holds `data`: the record, or the failure where parsing gives nothing.
pub open spec fn rpm_parsed_as(data: DataModel, p: PackageModel, r: Result<RPMPackage, Error>) -> bool {
    match r {
        Ok(record) => match rpm_parse(data, p.version, p.file_name, p.created) {
            Some(parsed) => parsed.0 == record@,
            None => false,
        },
        Err(e) => rpm_parse(data, p.version, p.file_name, p.created) is None && e
            == Error::ParseFailed,
    }
}

/// The records of the packages that can be parsed, in the order of the
/// list, where the data cell of each package holds the content at its
/// place in `cells`.
pub open spec fn parsed_records(packages: Seq<PackageModel>, cells: Seq<DataModel>) -> Seq<
    RPMPackageModel,
>
    decreases packages.len(),
{
    if packages.len() == 0 || cells.len() != packages.len() {
        Seq::empty()
    } else {
        let before = parsed_records(packages.drop_last(), cells.drop_last());
        let p = packages.last();
        match rpm_parse(cells.last(), p.version, p.file_name, p.created) {
            Some(parsed) => before.push(parsed.0),
            None => before,
        }
    }
}

fn number_field(field: &String) -> (r: Option<u64>)
    ensures
        match r {
            Some(n) => number_within(field@, u64::MAX as nat) == Some(n as nat),
            None => number_within(field@, u64::MAX as nat) is None,
        },
{
    parse_u64(&to_chars(field.as_str()))
}

fn write_dependencies(deps: &Vec<Dependency>) -> (r: String)
    ensures
        r@ == encode_fields(flat_dependencies(dependencies_view(deps@))),
{
    let ghost all = dependencies_view(deps@);
    let mut texts: Vec<String> = Vec::new();
    let mut i: usize = 0;
    assert(all.take(0) == Seq::<DependencyModel>::empty());
    while i < deps.len()
        invariant
            i <= deps.len(),
            all == dependencies_view(deps@),
            strings_view(texts@) == flat_dependencies(all.take(i as int)),
        decreases deps.len() - i,
    {
        assert(all.take(i + 1).drop_last() == all.take(i as int));
        assert(all.take(i + 1).last() == deps@[i as int]@);
        let ghost before = strings_view(texts@);
        texts.push(deps[i].dependency.clone());
        texts.push(deps[i].version.clone());
        texts.push(deps[i].condition.clone());
        assert(strings_view(texts@) == before + seq![
            deps@[i as int]@.dependency,
            deps@[i as int]@.version,
            deps@[i as int]@.condition,
        ]);
        i = i + 1;
    }
    assert(all.take(deps.len() as int) == all);
    encode(&texts)
}

fn write_files(files: &Vec<File>) -> (r: String)
    ensures
        r@ == encode_fields(flat_files(files_view(files@))),
{
    let ghost all = files_view(files@);
    let mut texts: Vec<String> = Vec::new();
    let mut i: usize = 0;
    assert(all.take(0) == Seq::<FileModel>::empty());
    while i < files.len()
        invariant
            i <= files.len(),
            all == files_view(files@),
            strings_view(texts@) == flat_files(all.take(i as int)),
        decreases files.len() - i,
    {
        assert(all.take(i + 1).drop_last() == all.take(i as int));
        assert(all.take(i + 1).last() == files@[i as int]@);
        let ghost before = strings_view(texts@);
        texts.push(files[i].path.clone());
        let mut flag: Vec<char> = Vec::new();
        flag.push(
            if files[i].dir {
                '1'
            } else {
                '0'
            },
        );
        let flag = crate::text::from_chars(&flag);
        assert(flag@ == flag_field(files@[i as int].dir));
        texts.push(flag);
        assert(strings_view(texts@) == before + seq![
            files@[i as int]@.path,
            flag_field(files@[i as int]@.dir),
        ]);
        i = i + 1;
    }
    assert(all.take(files.len() as int) == all);
    encode(&texts)
}

fn read_dependencies(field: &String) -> (r: Option<Vec<Dependency>>)
    ensures
        match r {
            Some(deps) => dependencies_of_field(field@) == Some(dependencies_view(deps@)),
            None => dependencies_of_field(field@) is None,
        },
{
    let Some(texts) = decode(field.as_str()) else {
        return None;
    };
    if texts.len() % 3 != 0 {
        return None;
    }
    let ghost fields = strings_view(texts@);
    let count: usize = texts.len() / 3;
    let mut out: Vec<Dependency> = Vec::new();
    let mut i: usize = 0;
    assert(texts@.len() == 3 * count);
    while i < count
        invariant
            i <= count,
            count == texts@.len() / 3,
            texts@.len() == 3 * count,
            texts@.len() <= usize::MAX,
            fields == strings_view(texts@),
            out@.len() == i,
            forall|k: int|
                0 <= k < i ==> (#[trigger] out@[k])@ == (DependencyModel {
                    dependency: fields[3 * k],
                    version: fields[3 * k + 1],
                    condition: fields[3 * k + 2],
                }),
        decreases count - i,
    {
        out.push(
            Dependency {
                dependency: texts[3 * i].clone(),
                version: texts[3 * i + 1].clone(),
                condition: texts[3 * i + 2].clone(),
            },
        );
        i = i + 1;
    }
    assert(dependencies_view(out@) =~= dependencies_of_flat(fields)->0);
    Some(out)
}

fn read_files(field: &String) -> (r: Option<Vec<File>>)
    ensures
        match r {
            Some(files) => files_of_field(field@) == Some(files_view(files@)),
            None => files_of_field(field@) is None,
        },
{
    let Some(texts) = decode(field.as_str()) else {
        return None;
    };
    if texts.len() % 2 != 0 {
        return None;
    }
    let ghost fields = strings_view(texts@);
    let count: usize = texts.len() / 2;
    let mut out: Vec<File> = Vec::new();
    let mut i: usize = 0;
    assert(texts@.len() == 2 * count);
    while i < count
        invariant
            i <= count,
            count == texts@.len() / 2,
            texts@.len() == 2 * count,
            texts@.len() <= usize::MAX,
            decode_fields(field@) == Some(fields),
            fields == strings_view(texts@),
            out@.len() == i,
            forall|k: int|
                0 <= k < i ==> #[trigger] fields[2 * k + 1] == flag_field(true) || fields[2 * k
                    + 1] == flag_field(false),
            forall|k: int|
                0 <= k < i ==> (#[trigger] out@[k])@ == (FileModel {
                    path: fields[2 * k],
                    dir: fields[2 * k + 1] == flag_field(true),
                }),
        decreases count - i,
    {
        let flag = to_chars(texts[2 * i + 1].as_str());
        if flag.len() != 1 || (flag[0] != '1' && flag[0] != '0') {
            proof {
                let at = i as int;
                assert(fields[2 * at + 1] == flag@);
                assert(flag_field(true).len() == 1 && flag_field(false).len() == 1);
                assert(flag_field(true)[0] == '1' && flag_field(false)[0] == '0');
                assert(fields[2 * at + 1] != flag_field(true));
                assert(fields[2 * at + 1] != flag_field(false));
                assert(0 <= at < fields.len() / 2);
            }
            return None;
        }
        let dir = flag[0] == '1';
        proof {
            let at = i as int;
            assert(fields[2 * at + 1] == flag@);
            assert(flag@ =~= flag_field(dir));
            assert(flag_field(true)[0] != flag_field(false)[0]);
        }
        out.push(File { path: texts[2 * i].clone(), dir });
        i = i + 1;
    }
    assert(files_view(out@) =~= files_of_flat(fields)->0);
    Some(out)
}

impl RPMPackage {
    /// The serialized form of the record.
    pub fn to_metadata(&self) -> (r: String)
        ensures
            r@ == rpm_metadata(self@),
    {
        let mut fields: Vec<String> = Vec::new();
        fields.push(self.name.clone());
        fields.push(decimal(self.epoch as u64));
        fields.push(self.version.clone());
        fields.push(self.release.clone());
        fields.push(self.arch.clone());
        fields.push(encode_optional(&self.vendor));
        fields.push(encode_optional(&self.url));
        fields.push(encode_optional(&self.license));
        fields.push(encode_optional(&self.summary));
        fields.push(encode_optional(&self.description));
        fields.push(encode_optional(&self.group));
        fields.push(decimal(self.build_time));
        fields.push(encode_optional(&self.build_host));
        fields.push(encode_optional(&self.source));
        fields.push(write_dependencies(&self.provides));
        fields.push(write_dependencies(&self.requires));
        fields.push(self.sha256.clone());
        fields.push(decimal(self.header_start));
        fields.push(decimal(self.header_end));
        fields.push(write_files(&self.files));
        fields.push(decimal(self.pkg_size as u64));
        fields.push(decimal(self.installed_size));
        fields.push(decimal(self.archive_size));
        fields.push(self.location.clone());
        fields.push(decimal_int(self.pkg_time));
        assert(strings_view(fields@) =~= rpm_fields(self@));
        encode(&fields)
    }

    /// Reads a record back from its serialized form. Fails with
    /// [`Error::ParseFailed`] exactly when the text is not the serialized
    /// form of a record.
    pub fn from_metadata(text: &str) -> (r: Result<RPMPackage, Error>)
        ensures
            match r {
                Ok(p) => rpm_of_metadata(text@) == Some(p@),
                Err(e) => rpm_of_metadata(text@) is None && e == Error::ParseFailed,
            },
    {
        let Some(fields) = decode(text) else {
            return Err(Error::ParseFailed);
        };
        if fields.len() != 25 {
            return Err(Error::ParseFailed);
        }
        let ghost f = strings_view(fields@);
        let (
            Some(epoch),
            Some(build_time),
            Some(header_start),
            Some(header_end),
            Some(pkg_size),
            Some(installed_size),
            Some(archive_size),
        ) = (
            number_field(&fields[1]),
            number_field(&fields[11]),
            number_field(&fields[17]),
            number_field(&fields[18]),
            number_field(&fields[20]),
            number_field(&fields[21]),
            number_field(&fields[22]),
        ) else {
            return Err(Error::ParseFailed);
        };
        if epoch > u32::MAX as u64 || pkg_size > usize::MAX as u64 {
            return Err(Error::ParseFailed);
        }
        let (
            Some(vendor),
            Some(url),
            Some(license),
            Some(summary),
            Some(description),
            Some(group),
            Some(build_host),
            Some(source),
        ) = (
            decode_optional(fields[5].as_str()),
            decode_optional(fields[6].as_str()),
            decode_optional(fields[7].as_str()),
            decode_optional(fields[8].as_str()),
            decode_optional(fields[9].as_str()),
            decode_optional(fields[10].as_str()),
            decode_optional(fields[12].as_str()),
            decode_optional(fields[13].as_str()),
        ) else {
            return Err(Error::ParseFailed);
        };
        let (Some(provided), Some(required), Some(held)) = (
            read_dependencies(&fields[14]),
            read_dependencies(&fields[15]),
            read_files(&fields[19]),
        ) else {
            return Err(Error::ParseFailed);
        };
        let Some(pkg_time) = parse_i64(&to_chars(fields[24].as_str())) else {
            return Err(Error::ParseFailed);
        };
        assert(fields_readable(f));
        Ok(
            RPMPackage {
                name: fields[0].clone(),
                epoch: epoch as u32,
                version: fields[2].clone(),
                release: fields[3].clone(),
                arch: fields[4].clone(),
                vendor,
                url,
                license,
                summary,
                description,
                group,
                build_time,
                build_host,
                source,
                provides: provided,
                requires: required,
                sha256: fields[16].clone(),
                header_start,
                header_end,
                files: held,
                pkg_size: pkg_size as usize,
                installed_size,
                archive_size,
                location: fields[23].clone(),
                pkg_time,
            },
        )
    }

    /// Parses what a package's data cell holds; see [`rpm_parse`]. Hands
    /// out the record and, where the cell is to change, its new content.
    /// Fails with [`Error::ParseFailed`] exactly when [`rpm_parse`] gives
    /// nothing.
    pub fn from_data(data: &Data, version: &str, file: &str, created: i64) -> (r: Result<
        (RPMPackage, Option<Data>),
        Error,
    >)
        ensures
            match r {
                Ok((p, next)) => rpm_parse(data@, version@, file@, created as int) == Some(
                    (
                        p@,
                        match next {
                            Some(d) => d@,
                            None => data@,
                        },
                    ),
                ) && (next is Some <==> data is Package),
                Err(e) => rpm_parse(data@, version@, file@, created as int) is None && e
                    == Error::ParseFailed,
            },
    {
        match data {
            Data::Metadata(text) => match RPMPackage::from_metadata(text.as_str()) {
                Ok(p) => Ok((p, None)),
                Err(e) => Err(e),
            },
            Data::Package(bytes) => match RPMPackage::from_bytes(
                bytes.as_slice(),
                version,
                file,
                created,
            ) {
                Ok(p) => {
                    let metadata = p.to_metadata();
                    Ok((p, Some(Data::Metadata(metadata))))
                },
                Err(e) => Err(e),
            },
            Data::Empty => Err(Error::ParseFailed),
        }
    }

    /// Parses a package and leaves the metadata of the record in its data
    /// cell, where every clone of the package finds it. A cell that holds
    /// metadata already is read back and not touched. The result is what
    /// [`RPMPackage::from_data`] makes of what the cell held when it was
    /// read, for the version, the file name and the creation time of the
    /// package; what the cell held is not known here, since every clone may
    /// write to it.
    pub fn from_package(package: &Package) -> (r: Result<RPMPackage, Error>)
        ensures
            exists|held: DataModel| #[trigger] rpm_parsed_as(held, package@, r),
            r is Err ==> r->Err_0 == Error::ParseFailed,
    {
        let data = package.data();
        let r = match RPMPackage::from_data(
            &data,
            package.version(),
            package.file_name(),
            package.creation_date(),
        ) {
            Ok((p, next)) => {
                match next {
                    Some(Data::Metadata(text)) => package.set_metadata(text),
                    _ => {},
                }
                Ok(p)
            },
            Err(e) => Err(e),
        };
        assert(rpm_parsed_as(data@, package@, r));
        r
    }
}

/// Parses the packages that can be parsed, in the order of the list; a
/// package that cannot be parsed is left out. The data cell of each package
/// that was parsed holds its metadata afterwards. The result is
/// [`parsed_records`] of the packages and of what their cells held, each
/// when its package was read; what the cells held is not known here.
pub fn parse_packages(packages: &[Package]) -> (r: Vec<RPMPackage>)
    ensures
        exists|cells: Seq<DataModel>|
            cells.len() == packages@.len() && packages_view(r@) == #[trigger] parsed_records(
                models(packages@),
                cells,
            ),
        r@.len() <= packages@.len(),
{
    let ghost all = models(packages@);
    let ghost mut cells: Seq<DataModel> = Seq::empty();
    let mut records: Vec<RPMPackage> = Vec::new();
    let mut i: usize = 0;
    assert(all.take(0) == Seq::<PackageModel>::empty());
    assert(packages_view(records@) == Seq::<RPMPackageModel>::empty());
    while i < packages.len()
        invariant
            i <= packages.len(),
            all == models(packages@),
            cells.len() == i,
            records@.len() <= i,
            packages_view(records@) == parsed_records(all.take(i as int), cells),
        decreases packages.len() - i,
    {
        let parsed = RPMPackage::from_package(&packages[i]);
        let ghost before = packages_view(records@);
        proof {
            let held = choose|held: DataModel| #[trigger]
                rpm_parsed_as(held, packages@[i as int]@, parsed);
            assert(all.take(i + 1).drop_last() == all.take(i as int));
            assert(all.take(i + 1).last() == packages@[i as int]@);
            assert(cells.push(held).drop_last() == cells);
            cells = cells.push(held);
        }
        match parsed {
            Ok(record) => {
                records.push(record);
                assert(packages_view(records@) == before.push(record@));
            },
            Err(_) => {},
        }
        i = i + 1;
    }
    assert(all.take(packages.len() as int) == all);
    records
}

/// A package whose data cell held its bytes has a record that says where
/// the main header lies within those bytes: behind the lead, ending where
/// it starts or later, and not behind the last byte.
pub proof fn lemma_parsed_header_range(bytes: Seq<u8>, p: PackageModel, r: Result<RPMPackage, Error>)
    requires
        rpm_parsed_as(DataModel::Package(bytes), p, r),
        r is Ok,
    ensures
        96 <= r->Ok_0@.header_start <= r->Ok_0@.header_end <= bytes.len(),
        r->Ok_0@.pkg_size == bytes.len(),
{
    lemma_header_range(bytes, p.version, p.file_name, p.created);
}

/// The record of a package that was parsed from bytes fits this machine.
pub proof fn lemma_rpm_record_fits(data: Seq<u8>, version: Seq<char>, file: Seq<char>, created: int)
    requires
        data.len() <= usize::MAX,
        i64::MIN <= created <= i64::MAX,
        rpm_record(data, version, file, created) is Some,
    ensures
        fits(rpm_record(data, version, file, created)->0),
{
}

/// Parsing the bytes of a package leaves metadata in the cell, and parsing
/// that metadata gives the same record and leaves the cell as it is.
pub proof fn lemma_rpm_parse_idempotent(bytes: Seq<u8>, version: Seq<char>, file: Seq<char>, created: int)
    requires
        bytes.len() <= usize::MAX,
        i64::MIN <= created <= i64::MAX,
        rpm_parse(DataModel::Package(bytes), version, file, created) is Some,
    ensures
        ({
            let first = rpm_parse(DataModel::Package(bytes), version, file, created)->0;
            &&& first.1 is Metadata
            &&& rpm_parse(first.1, version, file, created) == Some(first)
        }),
{
    let first = rpm_parse(DataModel::Package(bytes), version, file, created)->0;
    lemma_rpm_record_fits(bytes, version, file, created);
    lemma_rpm_roundtrip(first.0);
}

} // verus!
