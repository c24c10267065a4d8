//! A package asset of an upstream release: what its file name tells, where
//! it comes from, and a cell for its bytes or its parsed metadata that all
//! clones of the package share.

use crate::detect::{classify, PackageInfo, PackageInfoModel};
use crate::error::Error;
use crate::text::{compare_str, ends_with, from_chars, has_suffix, last_path_segment, last_segment, lex_lt, str_eq, to_chars, Order};
use crate::utils::{Arch, Dist, Type};
use std::sync::Arc;
use std::sync::Mutex;
use vstd::prelude::*;

verus! {

/// What a package's cell holds: nothing yet, the bytes of the downloaded
/// file, or the metadata parsed from them, in serialized form.
#[derive(Debug)]
pub enum Data {
    Package(Vec<u8>),
    Metadata(String),
    Empty,
}

/// The mathematical content of a [`Data`].
pub enum DataModel {
    Package(Seq<u8>),
    Metadata(Seq<char>),
    Empty,
}

impl View for Data {
    type V = DataModel;

    open spec fn view(&self) -> DataModel {
        match self {
            Data::Package(b) => DataModel::Package(b@),
            Data::Metadata(m) => DataModel::Metadata(m@),
            Data::Empty => DataModel::Empty,
        }
    }
}

impl Data {
    /// Whether this is metadata.
    pub fn is_metadata(&self) -> (r: bool)
        ensures
            r == (self@ is Metadata),
    {
        matches!(self, Data::Metadata(_))
    }
}

impl Clone for Data {
    fn clone(&self) -> (r: Self)
        ensures
            r@ == self@,
    {
        match self {
            Data::Package(b) => Data::Package(b.clone()),
            Data::Metadata(m) => Data::Metadata(m.clone()),
            Data::Empty => Data::Empty,
        }
    }
}

/// The standard library's mutual-exclusion lock.
#[verifier::external_type_specification]
#[verifier::external_body]
#[verifier::reject_recursive_types(T)]
pub struct ExMutex<T: ?Sized>(Mutex<T>);

/// Makes a lock around `data`.
///
/// Wraps `Mutex::new`. Nothing is claimed of the lock: what it holds may
/// change whenever another owner writes to it.
#[verifier::external_body]
fn cell_new(data: Data) -> Mutex<Data> {
    Mutex::new(data)
}

/// A second handle on the same cell.
///
/// Wraps `Arc::clone`, which hands out another pointer to the same
/// allocation.
#[verifier::external_body]
fn cell_share(cell: &Arc<Mutex<Data>>) -> Arc<Mutex<Data>> {
    Arc::clone(cell)
}

/// A copy of what the cell holds now.
///
/// Wraps `Mutex::lock`. A lock that a panicking writer left behind is read
/// all the same. Nothing is claimed of the result: another owner may have
/// written since the last look.
#[verifier::external_body]
fn cell_read(cell: &Arc<Mutex<Data>>) -> Data {
    match cell.lock() {
        Ok(guard) => guard.clone(),
        Err(poisoned) => poisoned.into_inner().clone(),
    }
}

/// Replaces what the cell holds.
///
/// Wraps `Mutex::lock`; the write is seen by every handle on the cell.
#[verifier::external_body]
fn cell_write(cell: &Arc<Mutex<Data>>, data: Data) {
    match cell.lock() {
        Ok(mut guard) => *guard = data,
        Err(poisoned) => *poisoned.into_inner() = data,
    }
}

/// The package type that the extension of `name` denotes: what follows the
/// last dot, which may not be the first character of the name.
pub open spec fn type_of_name(name: Seq<char>) -> Option<Type> {
    if ends_with(name, ".deb"@) && name.len() > ".deb"@.len() {
        Some(Type::Deb)
    } else if ends_with(name, ".rpm"@) && name.len() > ".rpm"@.len() {
        Some(Type::Rpm)
    } else {
        None
    }
}

/// Tells the package type from the extension of a file name.
pub fn split_extention(s: &str) -> (r: Option<Type>)
    ensures
        r == type_of_name(s@),
        r == Some(Type::Deb) ==> ends_with(s@, ".deb"@),
        r == Some(Type::Rpm) ==> ends_with(s@, ".rpm"@),
{
    let name = to_chars(s);
    let deb = to_chars(".deb");
    let rpm = to_chars(".rpm");
    if has_suffix(&name, &deb) && name.len() > deb.len() {
        Some(Type::Deb)
    } else if has_suffix(&name, &rpm) && name.len() > rpm.len() {
        Some(Type::Rpm)
    } else {
        None
    }
}

/// A package asset. Its identity never changes; its data cell is shared by
/// all its clones.
#[derive(Debug)]
pub struct Package {
    tipe: Type,
    info: PackageInfo,
    url: String,
    ver: String,
    file: String,
    created: i64,
    data: Arc<Mutex<Data>>,
}

/// The identity of a [`Package`]: everything but its data cell.
pub struct PackageModel {
    pub ty: Type,
    pub info: PackageInfoModel,
    pub url: Seq<char>,
    pub version: Seq<char>,
    pub file_name: Seq<char>,
    pub created: int,
}

impl View for Package {
    type V = PackageModel;

    closed spec fn view(&self) -> PackageModel {
        PackageModel {
            ty: self.tipe,
            info: self.info@,
            url: self.url@,
            version: self.ver@,
            file_name: self.file@,
            created: self.created as int,
        }
    }
}

/// The architecture that a package is taken to be built for: `amd64` where
/// its file name names none.
pub open spec fn arch_or_default(a: Option<Arch>) -> Arch {
    match a {
        Some(a) => a,
        None => Arch::Amd64,
    }
}

impl Package {
    #[verifier::type_invariant]
    spec fn well_formed(self) -> bool {
        self.file@ == last_segment(self.url@)
    }

    /// Classifies an asset by its file name. `ver` is the tag of the
    /// release, `url` the address of the asset, `created` the time of its
    /// last change in seconds since the Unix epoch.
    ///
    /// Fails with [`Error::UnknownFilename`] exactly when the name has no
    /// package extension. The new package's cell is empty.
    pub fn detect_package(name: &str, ver: String, url: String, created: i64) -> (r: Result<
        Package,
        Error,
    >)
        ensures
            match r {
                Ok(p) => type_of_name(name@) == Some(p@.ty) && p@ == (PackageModel {
                    ty: p@.ty,
                    info: classify(name@),
                    url: url@,
                    version: ver@,
                    file_name: last_segment(url@),
                    created: created as int,
                }),
                Err(e) => type_of_name(name@) is None && e == Error::UnknownFilename,
            },
            r is Ok && r->Ok_0@.ty == Type::Deb ==> ends_with(name@, ".deb"@),
            r is Ok && r->Ok_0@.ty == Type::Rpm ==> ends_with(name@, ".rpm"@),
    {
        let Some(tipe) = split_extention(name) else {
            return Err(Error::UnknownFilename);
        };
        let info = PackageInfo::parse_package(name);
        let file = from_chars(&last_path_segment(&to_chars(url.as_str())));
        let data = Arc::new(cell_new(Data::Empty));
        Ok(Package { tipe, info, url, ver, file, created, data })
    }

    /// The display name of the package, where its file name shows one.
    pub fn name(&self) -> (r: Option<&str>)
        ensures
            match r {
                Some(n) => self@.info.name == Some(n@),
                None => self@.info.name is None,
            },
    {
        match &self.info.name {
            Some(n) => Some(n.as_str()),
            None => None,
        }
    }

    /// The architecture of the package; `amd64` where its file name names
    /// none.
    pub fn architecture(&self) -> (r: Arch)
        ensures
            r == arch_or_default(self@.info.architecture),
    {
        match self.info.architecture {
            Some(a) => a,
            None => Arch::Amd64,
        }
    }

    /// The container format of the package.
    pub fn ty(&self) -> (r: &Type)
        ensures
            *r == self@.ty,
    {
        &self.tipe
    }

    /// The distribution that the package was built for, where its file name
    /// names one.
    pub fn distribution(&self) -> (r: Option<&Dist>)
        ensures
            match r {
                Some(d) => self@.info.distro == Some(d@),
                None => self@.info.distro is None,
            },
    {
        match &self.info.distro {
            Some(d) => Some(d),
            None => None,
        }
    }

    /// The tag of the release that the package belongs to.
    pub fn version(&self) -> (r: &str)
        ensures
            r@ == self@.version,
    {
        self.ver.as_str()
    }

    /// The address that the package is downloaded from.
    pub fn download_url(&self) -> (r: &str)
        ensures
            r@ == self@.url,
    {
        self.url.as_str()
    }

    /// The file name of the package: the last segment of its address.
    pub fn file_name(&self) -> (r: &str)
        ensures
            r@ == self@.file_name,
            r@ == last_segment(self@.url),
    {
        proof {
            use_type_invariant(self);
        }
        self.file.as_str()
    }

    /// When the asset was last changed, in seconds since the Unix epoch.
    pub fn creation_date(&self) -> (r: i64)
        ensures
            r == self@.created,
    {
        self.created
    }

    /// A copy of what the data cell holds now. Another clone of the package
    /// may write to the cell at any time, so nothing is promised of it.
    pub fn data(&self) -> Data {
        cell_read(&self.data)
    }

    /// Puts the bytes of the downloaded file into the data cell.
    pub fn set_package_data(&self, data: Vec<u8>) {
        cell_write(&self.data, Data::Package(data))
    }

    /// Puts serialized metadata into the data cell.
    pub fn set_metadata(&self, metadata: String) {
        cell_write(&self.data, Data::Metadata(metadata))
    }

    /// Whether the data cell holds metadata at the moment of the call:
    /// what [`Data::is_metadata`] says of what [`Package::data`] hands out.
    /// Another clone of the package may write to the cell at any time, so
    /// nothing is promised of the answer.
    pub fn is_metadata_available(&self) -> bool {
        self.data().is_metadata()
    }

    /// Compares two packages by file name, the key by which output is
    /// ordered.
    pub fn compare(&self, other: &Package) -> (r: Order)
        ensures
            r == Order::Less <==> lex_lt(self@.file_name, other@.file_name),
            r == Order::Equal <==> self@.file_name == other@.file_name,
            r == Order::Greater <==> lex_lt(other@.file_name, self@.file_name),
    {
        compare_str(self.file.as_str(), other.file.as_str())
    }
}

impl Clone for Package {
    /// A second handle on the same package: the clone has the same identity
    /// and shares the data cell.
    fn clone(&self) -> (r: Self)
        ensures
            r@ == self@,
    {
        proof {
            use_type_invariant(self);
        }
        Package {
            tipe: self.tipe,
            info: PackageInfo {
                name: match &self.info.name {
                    Some(n) => Some(n.clone()),
                    None => None,
                },
                distro: match &self.info.distro {
                    Some(d) => Some(d.clone()),
                    None => None,
                },
                architecture: self.info.architecture,
            },
            url: self.url.clone(),
            ver: self.ver.clone(),
            file: self.file.clone(),
            created: self.created,
            data: cell_share(&self.data),
        }
    }
}

impl PartialEq for Package {
    fn eq(&self, other: &Self) -> (r: bool) {
        self.tipe == other.tipe && self.info == other.info && str_eq(
            self.url.as_str(),
            other.url.as_str(),
        ) && str_eq(self.ver.as_str(), other.ver.as_str()) && str_eq(
            self.file.as_str(),
            other.file.as_str(),
        ) && self.created == other.created
    }
}

impl Eq for Package {

}

impl vstd::std_specs::cmp::PartialEqSpecImpl for Package {
    open spec fn obeys_eq_spec() -> bool {
        true
    }

    open spec fn eq_spec(&self, other: &Self) -> bool {
        self@ == other@
    }
}

} // verus!
