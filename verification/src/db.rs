//! The record under which the metadata of a package is kept in the store.

use crate::package::{Data, DataModel, Package, PackageModel};
use vstd::prelude::*;

verus! {

/// The stored metadata of one package, kept under the package's file name.
#[derive(Debug)]
pub struct PackageMetadata {
    name: String,
    created_at: i64,
    metadata: String,
}

/// The mathematical content of a [`PackageMetadata`].
pub struct PackageMetadataModel {
    pub name: Seq<char>,
    pub created_at: int,
    pub metadata: Seq<char>,
}

impl View for PackageMetadata {
    type V = PackageMetadataModel;

    closed spec fn view(&self) -> PackageMetadataModel {
        PackageMetadataModel {
            name: self.name@,
            created_at: self.created_at as int,
            metadata: self.metadata@,
        }
    }
}

impl PartialEq for PackageMetadata {
    fn eq(&self, other: &Self) -> (r: bool) {
        self.name == other.name && self.created_at == other.created_at && self.metadata
            == other.metadata
    }
}

impl Eq for PackageMetadata {

}

impl vstd::std_specs::cmp::PartialEqSpecImpl for PackageMetadata {
    open spec fn obeys_eq_spec() -> bool {
        true
    }

    open spec fn eq_spec(&self, other: &Self) -> bool {
        self@ == other@
    }
}

/// The record to store for a package whose data cell holds `data`: one
/// exactly where the cell holds metadata.
pub open spec fn record_of(name: Seq<char>, created: int, data: DataModel) -> Option<
    PackageMetadataModel,
> {
    match data {
        DataModel::Metadata(text) => Some(
            PackageMetadataModel { name, created_at: created, metadata: text },
        ),
        _ => None,
    }
}

/// `r` is the record to store for the package `p` whose data cell holds
/// `data`.
pub open spec fn stored_as(data: DataModel, p: PackageModel, r: Option<PackageMetadata>) -> bool {
    match r {
        Some(record) => record_of(p.file_name, p.created, data) == Some(record@),
        None => record_of(p.file_name, p.created, data) is None,
    }
}

impl PackageMetadata {
    /// A record as it comes back from the store.
    pub fn new(name: String, created_at: i64, metadata: String) -> (r: PackageMetadata)
        ensures
            r@ == (PackageMetadataModel {
                name: name@,
                created_at: created_at as int,
                metadata: metadata@,
            }),
    {
        PackageMetadata { name, created_at, metadata }
    }

    /// The record to store for a package with the given file name and
    /// creation time whose data cell holds `data`; `None` where the cell
    /// holds no metadata.
    pub fn from_data(name: &str, created: i64, data: &Data) -> (r: Option<PackageMetadata>)
        ensures
            match r {
                Some(record) => record_of(name@, created as int, data@) == Some(record@),
                None => record_of(name@, created as int, data@) is None,
            },
    {
        match data {
            Data::Metadata(text) => Some(
                PackageMetadata { name: name.to_owned(), created_at: created, metadata: text.clone() },
            ),
            _ => None,
        }
    }

    /// The record to store for a package; `None` where its data cell holds
    /// no metadata at the moment of the call. The result is what
    /// [`PackageMetadata::from_data`] makes of what the cell held when it
    /// was read; a record carries the file name and the creation time of
    /// the package.
    pub fn from_package(package: &Package) -> (r: Option<PackageMetadata>)
        ensures
            exists|held: DataModel| #[trigger] stored_as(held, package@, r),
            r is Some ==> r->0@.name == package@.file_name && r->0@.created_at == package@.created,
    {
        let data = package.data();
        let r = PackageMetadata::from_data(package.file_name(), package.creation_date(), &data);
        assert(stored_as(data@, package@, r));
        r
    }

    /// The file name of the package, the key of the record.
    pub fn name(&self) -> (r: &str)
        ensures
            r@ == self@.name,
    {
        self.name.as_str()
    }

    /// The creation time of the package, in seconds since the Unix epoch.
    pub fn created_at(&self) -> (r: i64)
        ensures
            r == self@.created_at,
    {
        self.created_at
    }

    /// The serialized metadata.
    pub fn data(self) -> (r: String)
        ensures
            r@ == self@.metadata,
    {
        self.metadata
    }
}

} // verus!
