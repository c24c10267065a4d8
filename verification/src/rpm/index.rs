//! The `primary`, `filelists`, `other` and `repomd` indices of an RPM
//! repository.

use crate::apt::index::latest_created;
use crate::digest::{hashsum, hex_lower, sha256_sum, HashAlgorithm};
use crate::error::Error;
use crate::rpm::package::{Dependency, DependencyModel, File, FileModel, RPMPackage, RPMPackageModel};
use crate::text::{from_chars, push_decimal, push_decimal_int, push_str, spec_decimal, spec_decimal_int, to_chars};
use vstd::prelude::*;
use vstd::utf8::encode_utf8;

verus! {

/// What zstd makes of `data` at its default level; `None` where the
/// encoder fails.
pub uninterp spec fn zstd_of(data: Seq<u8>) -> Option<Seq<u8>>;

/// Packs `data` with zstd at its default level.
///
/// Wraps `zstd::encode_all` with level 0, which stands for the default.
/// The contract names the result.
#[verifier::external_body]
fn zstd_encode(data: &[u8]) -> (r: Option<Vec<u8>>)
    ensures
        match r {
            Some(packed) => zstd_of(data@) == Some(packed@),
            None => zstd_of(data@) is None,
        },
{
    zstd::encode_all(data, 0).ok()
}

/// Packs `data` with zstd at its default level. Fails with
/// [`Error::RenderFailed`] exactly when the encoder fails.
pub fn zstd_compression(data: &[u8]) -> (r: Result<Vec<u8>, Error>)
    ensures
        match r {
            Ok(packed) => zstd_of(data@) == Some(packed@),
            Err(e) => zstd_of(data@) is None && e == Error::RenderFailed,
        },
{
    match zstd_encode(data) {
        Some(packed) => Ok(packed),
        None => Err(Error::RenderFailed),
    }
}

/// How a character is written in XML: the five characters of markup by
/// their entities, any other as it is.
pub open spec fn escaped_char(c: char) -> Seq<char> {
    if c == '&' {
        "&amp;"@
    } else if c == '<' {
        "&lt;"@
    } else if c == '>' {
        "&gt;"@
    } else if c == '"' {
        "&quot;"@
    } else if c == '\'' {
        "&apos;"@
    } else {
        seq![c]
    }
}

/// How a text is written in XML.
pub open spec fn escaped(text: Seq<char>) -> Seq<char>
    decreases text.len(),
{
    if text.len() == 0 {
        Seq::empty()
    } else {
        escaped(text.drop_last()) + escaped_char(text.last())
    }
}

/// The text, or the empty text where there is none.
pub open spec fn text_or_empty(text: Option<Seq<char>>) -> Seq<char> {
    match text {
        Some(t) => t,
        None => Seq::empty(),
    }
}

/// Appends `text` to `out` as it is written in XML.
pub fn push_escaped(out: &mut Vec<char>, text: &str)
    ensures
        final(out)@ == old(out)@ + escaped(text@),
{
    let chars = to_chars(text);
    let mut i: usize = 0;
    assert(chars@.take(0) == Seq::<char>::empty());
    assert(out@ + Seq::<char>::empty() == out@);
    while i < chars.len()
        invariant
            i <= chars.len(),
            chars@ == text@,
            out@ == old(out)@ + escaped(chars@.take(i as int)),
        decreases chars.len() - i,
    {
        let c = chars[i];
        let ghost before = out@;
        if c == '&' {
            push_str(out, "&amp;");
        } else if c == '<' {
            push_str(out, "&lt;");
        } else if c == '>' {
            push_str(out, "&gt;");
        } else if c == '"' {
            push_str(out, "&quot;");
        } else if c == '\'' {
            push_str(out, "&apos;");
        } else {
            out.push(c);
        }
        assert(out@ == before + escaped_char(c));
        assert(chars@.take(i + 1).drop_last() == chars@.take(i as int));
        assert(chars@.take(i + 1).last() == c);
        i = i + 1;
    }
    assert(chars@.take(chars.len() as int) == chars@);
}

fn push_optional(out: &mut Vec<char>, text: &Option<String>)
    ensures
        final(out)@ == old(out)@ + escaped(text_or_empty(crate::detect::text_view(*text))),
{
    match text {
        Some(t) => push_escaped(out, t.as_str()),
        None => {
            assert(out@ + escaped(Seq::<char>::empty()) == out@);
        },
    }
}

/// The views of a list of records.
pub open spec fn packages_view(packages: Seq<RPMPackage>) -> Seq<RPMPackageModel> {
    Seq::new(packages.len(), |i: int| packages[i]@)
}

/// The line that gives epoch, version and release of a package.
#[verifier::opaque]
pub open spec fn version_line(p: RPMPackageModel) -> Seq<char> {
    "  <version epoch=\""@ + spec_decimal(p.epoch) + "\" ver=\""@ + escaped(p.version) + "\" rel=\""@ + escaped(p.release) + "\"/>\n"@
}

/// The line of one dependency: its name, and how its version is compared
/// where that is said.
#[verifier::opaque]
pub open spec fn entry_line(d: DependencyModel) -> Seq<char> {
    if d.condition.len() == 0 {
        "      <rpm:entry name=\""@ + escaped(d.dependency) + "\"/>\n"@
    } else {
        "      <rpm:entry name=\""@ + escaped(d.dependency) + "\" flags=\""@ + escaped(d.condition) + "\" ver=\""@ + escaped(d.version) + "\"/>\n"@
    }
}

/// The lines of a list of dependencies.
pub open spec fn entry_lines(deps: Seq<DependencyModel>) -> Seq<char>
    decreases deps.len(),
{
    if deps.len() == 0 {
        Seq::empty()
    } else {
        entry_lines(deps.drop_last()) + entry_line(deps.last())
    }
}

/// The line of one file, marked where it is a directory.
#[verifier::opaque]
pub open spec fn file_line(f: FileModel, indent: Seq<char>) -> Seq<char> {
    if f.dir {
        indent + "<file type=\"dir\">"@ + escaped(f.path) + "</file>\n"@
    } else {
        indent + "<file>"@ + escaped(f.path) + "</file>\n"@
    }
}

/// The lines of a list of files.
pub open spec fn file_lines(files: Seq<FileModel>, indent: Seq<char>) -> Seq<char>
    decreases files.len(),
{
    if files.len() == 0 {
        Seq::empty()
    } else {
        file_lines(files.drop_last(), indent) + file_line(files.last(), indent)
    }
}

/// The first part of the entry of a package in the `primary` index: what
/// the package is.
#[verifier::opaque]
pub open spec fn primary_identity(p: RPMPackageModel) -> Seq<char> {
    "<package type=\"rpm\">\n  <name>"@ + escaped(p.name) + "</name>\n  <arch>"@ + escaped(p.arch) + "</arch>\n"@ + version_line(p) + "  <checksum type=\"sha256\" pkgid=\"YES\">"@ + escaped(p.sha256) + "</checksum>\n  <summary>"@ + escaped(text_or_empty(p.summary)) + "</summary>\n  <description>"@ + escaped(text_or_empty(p.description)) + "</description>\n  <packager></packager>\n  <url>"@ + escaped(text_or_empty(p.url)) + "</url>\n"@
}

/// The second part of the entry of a package in the `primary` index: its
/// times, its sizes and where it is served.
#[verifier::opaque]
pub open spec fn primary_numbers(p: RPMPackageModel) -> Seq<char> {
    "  <time file=\""@ + spec_decimal_int(p.pkg_time) + "\" build=\""@ + spec_decimal(p.build_time) + "\"/>\n  <size package=\""@ + spec_decimal(p.pkg_size) + "\" installed=\""@ + spec_decimal(p.installed_size) + "\" archive=\""@ + spec_decimal(p.archive_size) + "\"/>\n  <location href=\""@ + escaped(p.location) + "\"/>\n"@
}

/// The third part of the entry of a package in the `primary` index: where
/// the package comes from, and where its header lies in the file.
#[verifier::opaque]
pub open spec fn primary_format(p: RPMPackageModel) -> Seq<char> {
    "  <format>\n    <rpm:license>"@ + escaped(text_or_empty(p.license)) + "</rpm:license>\n    <rpm:vendor>"@ + escaped(text_or_empty(p.vendor)) + "</rpm:vendor>\n    <rpm:group>"@ + escaped(text_or_empty(p.group)) + "</rpm:group>\n    <rpm:buildhost>"@ + escaped(text_or_empty(p.build_host)) + "</rpm:buildhost>\n    <rpm:sourcerpm>"@ + escaped(text_or_empty(p.source)) + "</rpm:sourcerpm>\n    <rpm:header-range start=\""@ + spec_decimal(p.header_start) + "\" end=\""@ + spec_decimal(p.header_end) + "\"/>\n"@
}

/// The last part of the entry of a package in the `primary` index: what
/// the package provides, requires and holds.
#[verifier::opaque]
pub open spec fn primary_lists(p: RPMPackageModel) -> Seq<char> {
    "    <rpm:provides>\n"@ + entry_lines(p.provides) + "    </rpm:provides>\n    <rpm:requires>\n"@ + entry_lines(p.requires) + "    </rpm:requires>\n"@ + file_lines(p.files, "    "@) + "  </format>\n</package>\n"@
}

/// The entry of one package in the `primary` index.
pub open spec fn primary_entry(p: RPMPackageModel) -> Seq<char> {
    primary_identity(p) + primary_numbers(p) + primary_format(p) + primary_lists(p)
}

/// The entry of one package in the `filelists` index.
#[verifier::opaque]
pub open spec fn filelists_entry(p: RPMPackageModel) -> Seq<char> {
    "<package pkgid=\""@ + escaped(p.sha256) + "\" name=\""@ + escaped(p.name) + "\" arch=\""@ + escaped(p.arch) + "\">\n"@ + version_line(p) + file_lines(p.files, "  "@) + "</package>\n"@
}

/// The entry of one package in the `other` index, which holds no change
/// log.
#[verifier::opaque]
pub open spec fn other_entry(p: RPMPackageModel) -> Seq<char> {
    "<package pkgid=\""@ + escaped(p.sha256) + "\" name=\""@ + escaped(p.name) + "\" arch=\""@ + escaped(p.arch) + "\">\n"@ + version_line(p) + "</package>\n"@
}

/// The three indices that list packages.
#[derive(Debug, Clone, Copy, PartialEq, Eq, Structural)]
pub enum IndexKind {
    Primary,
    Filelists,
    Other,
}

/// The entry of one package in the index of the given kind.
pub open spec fn entry_of(kind: IndexKind, p: RPMPackageModel) -> Seq<char> {
    match kind {
        IndexKind::Primary => primary_entry(p),
        IndexKind::Filelists => filelists_entry(p),
        IndexKind::Other => other_entry(p),
    }
}

/// The entries of a list of packages, one after the other.
pub open spec fn entries_of(kind: IndexKind, packages: Seq<RPMPackageModel>) -> Seq<char>
    decreases packages.len(),
{
    if packages.len() == 0 {
        Seq::empty()
    } else {
        entries_of(kind, packages.drop_last()) + entry_of(kind, packages.last())
    }
}

/// What stands before the number of packages in the index of a kind.
pub open spec fn index_head(kind: IndexKind) -> Seq<char> {
    match kind {
        IndexKind::Primary => "<?xml version=\"1.0\" encoding=\"UTF-8\"?>\n<metadata xmlns=\"http://linux.duke.edu/metadata/common\" xmlns:rpm=\"http://linux.duke.edu/metadata/rpm\" packages=\""@,
        IndexKind::Filelists => "<?xml version=\"1.0\" encoding=\"UTF-8\"?>\n<filelists xmlns=\"http://linux.duke.edu/metadata/filelists\" packages=\""@,
        IndexKind::Other => "<?xml version=\"1.0\" encoding=\"UTF-8\"?>\n<otherdata xmlns=\"http://linux.duke.edu/metadata/other\" packages=\""@,
    }
}

/// What closes the index of a kind.
pub open spec fn index_foot(kind: IndexKind) -> Seq<char> {
    match kind {
        IndexKind::Primary => "</metadata>\n"@,
        IndexKind::Filelists => "</filelists>\n"@,
        IndexKind::Other => "</otherdata>\n"@,
    }
}

/// The index of a kind for a list of packages: the opening element with
/// the number of packages, the entry of each package, the closing element.
pub open spec fn index_text(kind: IndexKind, packages: Seq<RPMPackageModel>) -> Seq<char> {
    index_head(kind) + spec_decimal(packages.len()) + "\">\n"@ + entries_of(kind, packages)
        + index_foot(kind)
}

fn push_version(out: &mut Vec<char>, p: &RPMPackage)
    ensures
        final(out)@ == old(out)@ + version_line(p@),
{
    push_str(out, "  <version epoch=\"");
    push_decimal(out, p.epoch as u64);
    push_str(out, "\" ver=\"");
    push_escaped(out, p.version.as_str());
    push_str(out, "\" rel=\"");
    push_escaped(out, p.release.as_str());
    push_str(out, "\"/>\n");
    assert(out@ == old(out)@ + version_line(p@)) by {
        reveal(version_line);
    }
}

fn push_entries(out: &mut Vec<char>, deps: &Vec<Dependency>)
    ensures
        final(out)@ == old(out)@ + entry_lines(crate::rpm::package::dependencies_view(deps@)),
{
    let ghost all = crate::rpm::package::dependencies_view(deps@);
    let mut i: usize = 0;
    assert(all.take(0) == Seq::<DependencyModel>::empty());
    assert(out@ + Seq::<char>::empty() == out@);
    while i < deps.len()
        invariant
            i <= deps.len(),
            all == crate::rpm::package::dependencies_view(deps@),
            out@ == old(out)@ + entry_lines(all.take(i as int)),
        decreases deps.len() - i,
    {
        let d = &deps[i];
        let ghost before = out@;
        if d.condition.as_str().unicode_len() == 0 {
            push_str(out, "      <rpm:entry name=\"");
        push_escaped(out, d.dependency.as_str());
        push_str(out, "\"/>\n");
        } else {
            push_str(out, "      <rpm:entry name=\"");
        push_escaped(out, d.dependency.as_str());
        push_str(out, "\" flags=\"");
        push_escaped(out, d.condition.as_str());
        push_str(out, "\" ver=\"");
        push_escaped(out, d.version.as_str());
        push_str(out, "\"/>\n");
        }
        assert(out@ == before + entry_line(d@)) by {
            reveal(entry_line);
        }
        assert(all.take(i + 1).drop_last() == all.take(i as int));
        assert(all.take(i + 1).last() == d@);
        i = i + 1;
    }
    assert(all.take(deps.len() as int) == all);
}

fn push_files(out: &mut Vec<char>, files: &Vec<File>, indent: &str)
    ensures
        final(out)@ == old(out)@ + file_lines(crate::rpm::package::files_view(files@), indent@),
{
    let ghost all = crate::rpm::package::files_view(files@);
    let mut i: usize = 0;
    assert(all.take(0) == Seq::<FileModel>::empty());
    assert(out@ + Seq::<char>::empty() == out@);
    while i < files.len()
        invariant
            i <= files.len(),
            all == crate::rpm::package::files_view(files@),
            out@ == old(out)@ + file_lines(all.take(i as int), indent@),
        decreases files.len() - i,
    {
        let f = &files[i];
        let ghost before = out@;
        if f.dir {
            push_str(out, indent);
        push_str(out, "<file type=\"dir\">");
        push_escaped(out, f.path.as_str());
        push_str(out, "</file>\n");
        } else {
            push_str(out, indent);
        push_str(out, "<file>");
        push_escaped(out, f.path.as_str());
        push_str(out, "</file>\n");
        }
        assert(out@ == before + file_line(f@, indent@)) by {
            reveal(file_line);
        }
        assert(all.take(i + 1).drop_last() == all.take(i as int));
        assert(all.take(i + 1).last() == f@);
        i = i + 1;
    }
    assert(all.take(files.len() as int) == all);
}

fn push_primary_identity(out: &mut Vec<char>, p: &RPMPackage)
    ensures
        final(out)@ == old(out)@ + primary_identity(p@),
{
    push_str(out, "<package type=\"rpm\">\n  <name>");
    push_escaped(out, p.name.as_str());
    push_str(out, "</name>\n  <arch>");
    push_escaped(out, p.arch.as_str());
    push_str(out, "</arch>\n");
    push_version(out, p);
    push_str(out, "  <checksum type=\"sha256\" pkgid=\"YES\">");
    push_escaped(out, p.sha256.as_str());
    push_str(out, "</checksum>\n  <summary>");
    push_optional(out, &p.summary);
    push_str(out, "</summary>\n  <description>");
    push_optional(out, &p.description);
    push_str(out, "</description>\n  <packager></packager>\n  <url>");
    push_optional(out, &p.url);
    push_str(out, "</url>\n");
    assert(out@ == old(out)@ + primary_identity(p@)) by {
        reveal(primary_identity);
    }
}

fn push_primary_numbers(out: &mut Vec<char>, p: &RPMPackage)
    ensures
        final(out)@ == old(out)@ + primary_numbers(p@),
{
    push_str(out, "  <time file=\"");
    push_decimal_int(out, p.pkg_time);
    push_str(out, "\" build=\"");
    push_decimal(out, p.build_time);
    push_str(out, "\"/>\n  <size package=\"");
    push_decimal(out, p.pkg_size as u64);
    push_str(out, "\" installed=\"");
    push_decimal(out, p.installed_size);
    push_str(out, "\" archive=\"");
    push_decimal(out, p.archive_size);
    push_str(out, "\"/>\n  <location href=\"");
    push_escaped(out, p.location.as_str());
    push_str(out, "\"/>\n");
    assert(out@ == old(out)@ + primary_numbers(p@)) by {
        reveal(primary_numbers);
    }
}

fn push_primary_format(out: &mut Vec<char>, p: &RPMPackage)
    ensures
        final(out)@ == old(out)@ + primary_format(p@),
{
    push_str(out, "  <format>\n    <rpm:license>");
    push_optional(out, &p.license);
    push_str(out, "</rpm:license>\n    <rpm:vendor>");
    push_optional(out, &p.vendor);
    push_str(out, "</rpm:vendor>\n    <rpm:group>");
    push_optional(out, &p.group);
    push_str(out, "</rpm:group>\n    <rpm:buildhost>");
    push_optional(out, &p.build_host);
    push_str(out, "</rpm:buildhost>\n    <rpm:sourcerpm>");
    push_optional(out, &p.source);
    push_str(out, "</rpm:sourcerpm>\n    <rpm:header-range start=\"");
    push_decimal(out, p.header_start);
    push_str(out, "\" end=\"");
    push_decimal(out, p.header_end);
    push_str(out, "\"/>\n");
    assert(out@ == old(out)@ + primary_format(p@)) by {
        reveal(primary_format);
    }
}

fn push_primary_lists(out: &mut Vec<char>, p: &RPMPackage)
    ensures
        final(out)@ == old(out)@ + primary_lists(p@),
{
    push_str(out, "    <rpm:provides>\n");
    push_entries(out, &p.provides);
    push_str(out, "    </rpm:provides>\n    <rpm:requires>\n");
    push_entries(out, &p.requires);
    push_str(out, "    </rpm:requires>\n");
    push_files(out, &p.files, "    ");
    push_str(out, "  </format>\n</package>\n");
    assert(out@ == old(out)@ + primary_lists(p@)) by {
        reveal(primary_lists);
    }
}

fn push_primary(out: &mut Vec<char>, p: &RPMPackage)
    ensures
        final(out)@ == old(out)@ + primary_entry(p@),
{
    push_primary_identity(out, p);
    push_primary_numbers(out, p);
    push_primary_format(out, p);
    push_primary_lists(out, p);
    assert(out@ == old(out)@ + primary_entry(p@));
}

fn push_filelists(out: &mut Vec<char>, p: &RPMPackage)
    ensures
        final(out)@ == old(out)@ + filelists_entry(p@),
{
    push_str(out, "<package pkgid=\"");
    push_escaped(out, p.sha256.as_str());
    push_str(out, "\" name=\"");
    push_escaped(out, p.name.as_str());
    push_str(out, "\" arch=\"");
    push_escaped(out, p.arch.as_str());
    push_str(out, "\">\n");
    push_version(out, p);
    push_files(out, &p.files, "  ");
    push_str(out, "</package>\n");
    assert(out@ == old(out)@ + filelists_entry(p@)) by {
        reveal(filelists_entry);
    }
}

fn push_other(out: &mut Vec<char>, p: &RPMPackage)
    ensures
        final(out)@ == old(out)@ + other_entry(p@),
{
    push_str(out, "<package pkgid=\"");
    push_escaped(out, p.sha256.as_str());
    push_str(out, "\" name=\"");
    push_escaped(out, p.name.as_str());
    push_str(out, "\" arch=\"");
    push_escaped(out, p.arch.as_str());
    push_str(out, "\">\n");
    push_version(out, p);
    push_str(out, "</package>\n");
    assert(out@ == old(out)@ + other_entry(p@)) by {
        reveal(other_entry);
    }
}

/// Renders the index of the given kind for a list of packages.
pub fn render_index(kind: IndexKind, packages: &[RPMPackage]) -> (r: String)
    ensures
        r@ == index_text(kind, packages_view(packages@)),
{
    let ghost all = packages_view(packages@);
    let mut buffer: Vec<char> = Vec::new();
    let out = &mut buffer;
    match kind {
        IndexKind::Primary => push_str(out, "<?xml version=\"1.0\" encoding=\"UTF-8\"?>\n<metadata xmlns=\"http://linux.duke.edu/metadata/common\" xmlns:rpm=\"http://linux.duke.edu/metadata/rpm\" packages=\""),
        IndexKind::Filelists => push_str(out, "<?xml version=\"1.0\" encoding=\"UTF-8\"?>\n<filelists xmlns=\"http://linux.duke.edu/metadata/filelists\" packages=\""),
        IndexKind::Other => push_str(out, "<?xml version=\"1.0\" encoding=\"UTF-8\"?>\n<otherdata xmlns=\"http://linux.duke.edu/metadata/other\" packages=\""),
    }
    push_decimal(out, packages.len() as u64);
    push_str(out, "\">\n");
    let ghost start = out@;
    let mut i: usize = 0;
    assert(all.take(0) == Seq::<RPMPackageModel>::empty());
    assert(start + Seq::<char>::empty() == start);
    while i < packages.len()
        invariant
            i <= packages.len(),
            all == packages_view(packages@),
            out@ == start + entries_of(kind, all.take(i as int)),
        decreases packages.len() - i,
    {
        let ghost before = out@;
        match kind {
            IndexKind::Primary => push_primary(out, &packages[i]),
            IndexKind::Filelists => push_filelists(out, &packages[i]),
            IndexKind::Other => push_other(out, &packages[i]),
        }
        assert(out@ == before + entry_of(kind, packages@[i as int]@));
        assert(all.take(i + 1).drop_last() == all.take(i as int));
        assert(all.take(i + 1).last() == packages@[i as int]@);
        i = i + 1;
    }
    assert(all.take(packages.len() as int) == all);
    match kind {
        IndexKind::Primary => push_str(out, "</metadata>\n"),
        IndexKind::Filelists => push_str(out, "</filelists>\n"),
        IndexKind::Other => push_str(out, "</otherdata>\n"),
    }
    assert(out@ == index_text(kind, all));
    from_chars(&buffer)
}

/// The `primary` index: what each package is and needs.
pub fn get_primary_index(packages: &[RPMPackage]) -> (r: String)
    ensures
        r@ == index_text(IndexKind::Primary, packages_view(packages@)),
{
    render_index(IndexKind::Primary, packages)
}

/// The `filelists` index: the files of each package.
pub fn get_filelists_index(packages: &[RPMPackage]) -> (r: String)
    ensures
        r@ == index_text(IndexKind::Filelists, packages_view(packages@)),
{
    render_index(IndexKind::Filelists, packages)
}

/// The `other` index: the packages without change logs.
pub fn get_other_index(packages: &[RPMPackage]) -> (r: String)
    ensures
        r@ == index_text(IndexKind::Other, packages_view(packages@)),
{
    render_index(IndexKind::Other, packages)
}

/// What `repomd` says of one index: digest and size of the index as it is
/// served, packed with zstd, and as it is once unpacked.
#[derive(Debug)]
pub struct Metadata {
    pub sha256: String,
    pub open_sha256: String,
    pub size: usize,
    pub open_size: usize,
}

/// The mathematical content of a [`Metadata`].
pub struct MetadataModel {
    pub sha256: Seq<char>,
    pub open_sha256: Seq<char>,
    pub size: nat,
    pub open_size: nat,
}

impl View for Metadata {
    type V = MetadataModel;

    open spec fn view(&self) -> MetadataModel {
        MetadataModel {
            sha256: self.sha256@,
            open_sha256: self.open_sha256@,
            size: self.size as nat,
            open_size: self.open_size as nat,
        }
    }
}

/// What `repomd` says of the index with the given text; `None` where zstd
/// fails.
pub open spec fn summary_of(content: Seq<char>) -> Option<MetadataModel> {
    match zstd_of(encode_utf8(content)) {
        Some(packed) => Some(
            MetadataModel {
                sha256: hex_lower(sha256_sum(packed)),
                open_sha256: hex_lower(sha256_sum(encode_utf8(content))),
                size: packed.len(),
                open_size: encode_utf8(content).len(),
            },
        ),
        None => None,
    }
}

impl Metadata {
    /// Sums up an index for `repomd`. Fails with [`Error::RenderFailed`]
    /// exactly when zstd fails.
    pub fn create(content: String) -> (r: Result<Metadata, Error>)
        ensures
            match r {
                Ok(m) => summary_of(content@) == Some(m@),
                Err(e) => summary_of(content@) is None && e == Error::RenderFailed,
            },
    {
        let data = content.as_str().as_bytes();
        let open_size = data.len();
        let open_sha256 = hashsum(HashAlgorithm::Sha256, data);
        let packed = match zstd_compression(data) {
            Ok(packed) => packed,
            Err(e) => {
                return Err(e);
            },
        };
        let size = packed.len();
        let sha256 = hashsum(HashAlgorithm::Sha256, packed.as_slice());
        Ok(Metadata { sha256, open_sha256, size, open_size })
    }
}

/// The root index of an RPM repository: what it says of the three indices,
/// and the time of the newest package.
#[derive(Debug)]
pub struct RepoMD {
    pub primary: Metadata,
    pub filelists: Metadata,
    pub other: Metadata,
    pub timestamp: i64,
}

/// The mathematical content of a [`RepoMD`].
pub struct RepoMDModel {
    pub primary: MetadataModel,
    pub filelists: MetadataModel,
    pub other: MetadataModel,
    pub timestamp: int,
}

impl View for RepoMD {
    type V = RepoMDModel;

    open spec fn view(&self) -> RepoMDModel {
        RepoMDModel {
            primary: self.primary@,
            filelists: self.filelists@,
            other: self.other@,
            timestamp: self.timestamp as int,
        }
    }
}

/// The root index for the three indices with the given texts; `None` where
/// zstd fails on one of them.
pub open spec fn repomd_of(primary: Seq<char>, filelists: Seq<char>, other: Seq<char>, timestamp: int) -> Option<
    RepoMDModel,
> {
    match (summary_of(primary), summary_of(filelists), summary_of(other)) {
        (Some(p), Some(f), Some(o)) => Some(
            RepoMDModel { primary: p, filelists: f, other: o, timestamp },
        ),
        _ => None,
    }
}

/// What `repomd` says of the index of one kind.
#[verifier::opaque]
pub open spec fn data_block(kind: Seq<char>, s: MetadataModel, timestamp: int) -> Seq<char> {
    "  <data type=\""@ + kind + "\">\n    <checksum type=\"sha256\">"@ + escaped(s.sha256) + "</checksum>\n    <open-checksum type=\"sha256\">"@ + escaped(s.open_sha256) + "</open-checksum>\n    <location href=\"repodata/"@ + kind + ".xml.zst\"/>\n    <timestamp>"@ + spec_decimal_int(timestamp) + "</timestamp>\n    <size>"@ + spec_decimal(s.size) + "</size>\n    <open-size>"@ + spec_decimal(s.open_size) + "</open-size>\n  </data>\n"@
}

/// The text of the root index.
pub open spec fn repomd_text(r: RepoMDModel) -> Seq<char> {
    "<?xml version=\"1.0\" encoding=\"UTF-8\"?>\n<repomd xmlns=\"http://linux.duke.edu/metadata/repo\" xmlns:rpm=\"http://linux.duke.edu/metadata/rpm\">\n  <revision>"@ + spec_decimal_int(r.timestamp) + "</revision>\n"@ + data_block("primary"@, r.primary, r.timestamp) + data_block("filelists"@, r.filelists, r.timestamp) + data_block("other"@, r.other, r.timestamp) + "</repomd>\n"@
}

fn push_data(out: &mut Vec<char>, kind: &str, s: &Metadata, timestamp: i64)
    ensures
        final(out)@ == old(out)@ + data_block(kind@, s@, timestamp as int),
{
    push_str(out, "  <data type=\"");
    push_str(out, kind);
    push_str(out, "\">\n    <checksum type=\"sha256\">");
    push_escaped(out, s.sha256.as_str());
    push_str(out, "</checksum>\n    <open-checksum type=\"sha256\">");
    push_escaped(out, s.open_sha256.as_str());
    push_str(out, "</open-checksum>\n    <location href=\"repodata/");
    push_str(out, kind);
    push_str(out, ".xml.zst\"/>\n    <timestamp>");
    push_decimal_int(out, timestamp);
    push_str(out, "</timestamp>\n    <size>");
    push_decimal(out, s.size as u64);
    push_str(out, "</size>\n    <open-size>");
    push_decimal(out, s.open_size as u64);
    push_str(out, "</open-size>\n  </data>\n");
    assert(out@ == old(out)@ + data_block(kind@, s@, timestamp as int)) by {
        reveal(data_block);
    }
}

impl RepoMD {
    /// Sums up the three indices. Fails with [`Error::RenderFailed`]
    /// exactly when zstd fails on one of them.
    pub fn create(primary: String, filelists: String, other: String, timestamp: i64) -> (r: Result<
        RepoMD,
        Error,
    >)
        ensures
            match r {
                Ok(m) => repomd_of(primary@, filelists@, other@, timestamp as int) == Some(m@),
                Err(e) => repomd_of(primary@, filelists@, other@, timestamp as int) is None && e
                    == Error::RenderFailed,
            },
    {
        let primary = match Metadata::create(primary) {
            Ok(m) => m,
            Err(e) => {
                return Err(e);
            },
        };
        let filelists = match Metadata::create(filelists) {
            Ok(m) => m,
            Err(e) => {
                return Err(e);
            },
        };
        let other = match Metadata::create(other) {
            Ok(m) => m,
            Err(e) => {
                return Err(e);
            },
        };
        Ok(RepoMD { primary, filelists, other, timestamp })
    }

    /// The text of the root index.
    pub fn render(&self) -> (r: String)
        ensures
            r@ == repomd_text(self@),
    {
        let mut buffer: Vec<char> = Vec::new();
        let out = &mut buffer;
        push_str(out, "<?xml version=\"1.0\" encoding=\"UTF-8\"?>\n<repomd xmlns=\"http://linux.duke.edu/metadata/repo\" xmlns:rpm=\"http://linux.duke.edu/metadata/rpm\">\n  <revision>");
        push_decimal_int(out, self.timestamp);
        push_str(out, "</revision>\n");
        push_data(out, "primary", &self.primary, self.timestamp);
        push_data(out, "filelists", &self.filelists, self.timestamp);
        push_data(out, "other", &self.other, self.timestamp);
        push_str(out, "</repomd>\n");
        assert(out@ == repomd_text(self@));
        from_chars(&buffer)
    }
}

/// The creation times of a list of records.
pub open spec fn package_times(packages: Seq<RPMPackageModel>) -> Seq<int> {
    Seq::new(packages.len(), |i: int| packages[i].pkg_time)
}

/// The creation time of the newest of the packages; the Unix epoch for an
/// empty list.
pub fn latest_package_time(packages: &[RPMPackage]) -> (r: i64)
    ensures
        r == latest_created(package_times(packages_view(packages@))),
{
    let ghost all = package_times(packages_view(packages@));
    if packages.len() == 0 {
        return 0;
    }
    let mut latest: i64 = packages[0].pkg_time;
    let mut i: usize = 1;
    assert(all.take(1) == seq![all[0]]);
    while i < packages.len()
        invariant
            1 <= i <= packages.len(),
            all == package_times(packages_view(packages@)),
            latest == latest_created(all.take(i as int)),
        decreases packages.len() - i,
    {
        let time = packages[i].pkg_time;
        assert(all.take(i + 1).drop_last() == all.take(i as int));
        assert(all.take(i + 1).last() == time);
        if time > latest {
            latest = time;
        }
        i = i + 1;
    }
    assert(all.take(packages.len() as int) == all);
    latest
}

/// The root index of the repository of the given packages; `None` where
/// zstd fails on one of the three indices. Its revision and the time stamp
/// of each index are the creation time of the newest package.
pub open spec fn repomd_index_of(packages: Seq<RPMPackageModel>) -> Option<Seq<char>> {
    match repomd_of(
        index_text(IndexKind::Primary, packages),
        index_text(IndexKind::Filelists, packages),
        index_text(IndexKind::Other, packages),
        latest_created(package_times(packages)),
    ) {
        Some(r) => Some(repomd_text(r)),
        None => None,
    }
}

/// The root index of the repository of the given packages. Fails with
/// [`Error::RenderFailed`] exactly when zstd fails on one of the three
/// indices.
pub fn get_repomd_index(packages: &[RPMPackage]) -> (r: Result<String, Error>)
    ensures
        match r {
            Ok(text) => repomd_index_of(packages_view(packages@)) == Some(text@),
            Err(e) => repomd_index_of(packages_view(packages@)) is None && e
                == Error::RenderFailed,
        },
{
    let primary = get_primary_index(packages);
    let filelists = get_filelists_index(packages);
    let other = get_other_index(packages);
    let timestamp = latest_package_time(packages);
    match RepoMD::create(primary, filelists, other, timestamp) {
        Ok(repomd) => Ok(repomd.render()),
        Err(e) => Err(e),
    }
}

} // verus!
