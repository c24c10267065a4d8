//! The decisions of one request: which release to take, which packages to
//! serve, which of them to fetch, and what to store afterwards. Fetching
//! and storing themselves are the caller's.

use crate::db::{record_of, stored_as, PackageMetadata, PackageMetadataModel};
use crate::error::Error;
use crate::package::{DataModel, Package, PackageModel};
use crate::platform::{apt_dist_of, detect_rpm_os, rpm_os_of, AptPlatformDetection};
use crate::selector::{is_selection, models, places, select_indices};
use crate::text::{lemma_lex_irreflexive, lemma_lex_transitive, lex_lt, str_eq, Order};
use crate::utils::{Dist, DistModel, Family};
use vstd::prelude::*;
use vstd::seq_lib::{to_multiset_build, to_multiset_insert};

verus! {

/// The place of the first release of the list that is no draft, the list
/// being ordered from the newest release to the oldest.
pub open spec fn first_published_in(drafts: Seq<bool>) -> Option<int>
    decreases drafts.len(),
{
    if drafts.len() == 0 {
        None
    } else if !drafts[0] {
        Some(0)
    } else {
        match first_published_in(drafts.drop_first()) {
            Some(i) => Some(i + 1),
            None => None,
        }
    }
}

/// The first release that is no draft is one, and every release before it
/// is a draft.
pub proof fn lemma_first_published(drafts: Seq<bool>)
    ensures
        match first_published_in(drafts) {
            Some(i) => 0 <= i < drafts.len() && !drafts[i] && forall|j: int|
                0 <= j < i ==> drafts[j],
            None => forall|j: int| 0 <= j < drafts.len() ==> drafts[j],
        },
    decreases drafts.len(),
{
    if drafts.len() > 0 && drafts[0] {
        let rest = drafts.drop_first();
        lemma_first_published(rest);
        match first_published_in(rest) {
            Some(i) => {
                assert forall|j: int| 0 <= j < i + 1 implies drafts[j] by {
                    if j > 0 {
                        assert(rest[j - 1] == drafts[j]);
                    }
                }
            },
            None => {
                assert forall|j: int| 0 <= j < drafts.len() implies drafts[j] by {
                    if j > 0 {
                        assert(rest[j - 1] == drafts[j]);
                    }
                }
            },
        }
    }
}

/// Picks the release of the unstable channel from the releases of a
/// project, newest first, each told by whether it is a draft: the newest
/// that is no draft, which may be a pre-release.
pub fn first_published(drafts: &Vec<bool>) -> (r: Option<usize>)
    ensures
        match r {
            Some(i) => first_published_in(drafts@) == Some(i as int),
            None => first_published_in(drafts@) is None,
        },
{
    let mut i: usize = 0;
    assert(drafts@.skip(0) == drafts@);
    while i < drafts.len()
        invariant
            i <= drafts.len(),
            first_published_in(drafts@) == match first_published_in(drafts@.skip(i as int)) {
                Some(k) => Some(k + i),
                None => None,
            },
        decreases drafts.len() - i,
    {
        assert(drafts@.skip(i as int)[0] == drafts@[i as int]);
        assert(drafts@.skip(i as int).drop_first() == drafts@.skip(i + 1));
        if !drafts[i] {
            return Some(i);
        }
        i = i + 1;
    }
    None
}

/// Makes the package of an asset of a release: `tag` is the tag of the
/// release, `url` and `updated` the address and the time of the last
/// change of the asset. Metadata found in the store is put into the data
/// cell. An asset whose name has no package extension gives nothing.
pub fn package_from_asset(
    name: &str,
    tag: String,
    url: String,
    updated: i64,
    stored: Option<PackageMetadata>,
) -> (r: Option<Package>)
    ensures
        r is Some <==> crate::package::type_of_name(name@) is Some,
        r is Some ==> r->0@ == (PackageModel {
            ty: crate::package::type_of_name(name@)->0,
            info: crate::detect::classify(name@),
            url: url@,
            version: tag@,
            file_name: crate::text::last_segment(url@),
            created: updated as int,
        }),
{
    match Package::detect_package(name, tag, url, updated) {
        Ok(package) => {
            match stored {
                Some(record) => package.set_metadata(record.data()),
                None => {},
            }
            Some(package)
        },
        Err(_) => None,
    }
}

/// `a` does not come after `b` in the order of file names.
pub open spec fn name_le(a: PackageModel, b: PackageModel) -> bool {
    !lex_lt(b.file_name, a.file_name)
}

/// The list is ordered by file name.
pub open spec fn ordered_by_name(packages: Seq<PackageModel>) -> bool {
    forall|i: int, j: int|
        0 <= i < j < packages.len() ==> name_le(#[trigger] packages[i], #[trigger] packages[j])
}

/// Orders packages by file name.
pub fn sort_by_file_name(packages: Vec<Package>) -> (r: Vec<Package>)
    ensures
        ordered_by_name(models(r@)),
        r@.to_multiset() == packages@.to_multiset(),
{
    let mut input = packages;
    let mut out: Vec<Package> = Vec::new();
    assert(out@.to_multiset().add(input@.to_multiset()) =~= packages@.to_multiset()) by {
        broadcast use vstd::seq_lib::group_to_multiset_ensures;

        assert(out@.to_multiset() =~= vstd::multiset::Multiset::empty());
    }
    while input.len() > 0
        invariant
            ordered_by_name(models(out@)),
            out@.to_multiset().add(input@.to_multiset()) == packages@.to_multiset(),
        decreases input.len(),
    {
        let ghost before_in = input@;
        let ghost before_out = out@;
        let p = input.pop().unwrap();
        assert(before_in == input@.push(p));
        let mut k: usize = 0;
        while k < out.len() && p.compare(&out[k]) != Order::Less
            invariant
                k <= out.len(),
                forall|i: int| 0 <= i < k ==> name_le(#[trigger] models(out@)[i], p@),
            decreases out.len() - k,
        {
            k = k + 1;
        }
        proof {
            let ps = models(before_out);
            assert forall|j: int| k <= j < ps.len() implies name_le(p@, #[trigger] ps[j]) by {
                if lex_lt(ps[j].file_name, p@.file_name) {
                    assert(lex_lt(p@.file_name, ps[k as int].file_name));
                    lemma_lex_transitive(ps[j].file_name, p@.file_name, ps[k as int].file_name);
                    if j > k {
                        assert(name_le(ps[k as int], ps[j]));
                    } else {
                        lemma_lex_irreflexive(ps[j].file_name);
                    }
                }
            }
            to_multiset_build(input@, p);
            to_multiset_insert(before_out, k as int, p);
        }
        out.insert(k, p);
        proof {
            let ps = models(before_out);
            let qs = models(out@);
            assert forall|i: int, j: int| 0 <= i < j < qs.len() implies name_le(
                #[trigger] qs[i],
                #[trigger] qs[j],
            ) by {
                if j < k {
                    assert(qs[i] == ps[i] && qs[j] == ps[j]);
                } else if j == k {
                    assert(qs[i] == ps[i]);
                } else if i < k {
                    assert(qs[i] == ps[i] && qs[j] == ps[j - 1]);
                } else if i == k {
                    assert(qs[j] == ps[j - 1]);
                } else {
                    assert(qs[i] == ps[i - 1] && qs[j] == ps[j - 1]);
                }
            }
            assert(out@.to_multiset().add(input@.to_multiset()) =~= before_out.to_multiset().add(
                before_in.to_multiset(),
            ));
        }
    }
    assert(out@.to_multiset() =~= packages@.to_multiset()) by {
        broadcast use vstd::seq_lib::group_to_multiset_ensures;

        assert(input@.to_multiset() =~= vstd::multiset::Multiset::empty());
    }
    out
}

/// The packages of one request: the assets of the release, those that
/// were fetched for this request, and the table by which the caller's
/// distribution is told.
#[derive(Debug)]
pub struct Repository {
    packages: Vec<Package>,
    downloaded: Vec<Package>,
    platform: AptPlatformDetection,
}

/// The mathematical content of a [`Repository`]: the identities of its
/// packages and of those fetched for this request.
pub struct RepositoryModel {
    pub packages: Seq<PackageModel>,
    pub downloaded: Seq<PackageModel>,
}

impl View for Repository {
    type V = RepositoryModel;

    closed spec fn view(&self) -> RepositoryModel {
        RepositoryModel { packages: models(self.packages@), downloaded: models(self.downloaded@) }
    }
}

/// The distribution that a request to the APT side names: by its tag and
/// the user-agent of `apt`; `None` for a tag that is neither `ubuntu` nor
/// `debian`.
pub open spec fn apt_request_dist(
    table: Seq<crate::platform::AptReleaseModel>,
    distro: Seq<char>,
    agent: Seq<char>,
) -> Option<DistModel> {
    if distro == "ubuntu"@ {
        Some(apt_dist_of(table, Family::Ubuntu, agent))
    } else if distro == "debian"@ {
        Some(apt_dist_of(table, Family::Debian, agent))
    } else {
        None
    }
}

/// The packages of the list whose flag is `wanted`, in the order of the
/// list.
pub open spec fn kept(packages: Seq<PackageModel>, flags: Seq<bool>, wanted: bool) -> Seq<
    PackageModel,
>
    decreases packages.len(),
{
    if packages.len() == 0 || flags.len() != packages.len() {
        Seq::empty()
    } else if flags.last() == wanted {
        kept(packages.drop_last(), flags.drop_last(), wanted).push(packages.last())
    } else {
        kept(packages.drop_last(), flags.drop_last(), wanted)
    }
}

/// The views of a list of records.
pub open spec fn stored_view(records: Seq<PackageMetadata>) -> Seq<PackageMetadataModel> {
    Seq::new(records.len(), |i: int| records[i]@)
}

/// The records to store for the packages whose data cells hold metadata,
/// in the order of the list, where the cell of each package holds the
/// content at its place in `cells`.
pub open spec fn stored_records(packages: Seq<PackageModel>, cells: Seq<DataModel>) -> Seq<
    PackageMetadataModel,
>
    decreases packages.len(),
{
    if packages.len() == 0 || cells.len() != packages.len() {
        Seq::empty()
    } else {
        let before = stored_records(packages.drop_last(), cells.drop_last());
        match record_of(packages.last().file_name, packages.last().created, cells.last()) {
            Some(record) => before.push(record),
            None => before,
        }
    }
}

/// The record carries the file name and the creation time of the package.
pub open spec fn is_record_of(record: PackageMetadataModel, p: PackageModel) -> bool {
    record.name == p.file_name && record.created_at == p.created
}

/// The record is that of one of the packages.
pub open spec fn saved_from(record: PackageMetadataModel, packages: Seq<PackageModel>) -> bool {
    exists|i: int| 0 <= i < packages.len() && is_record_of(record, #[trigger] packages[i])
}

impl Repository {
    /// The table by which the distribution of an `apt` client is told.
    pub closed spec fn table(&self) -> Seq<crate::platform::AptReleaseModel> {
        self.platform@
    }

    /// The repository of one request: the packages of the release, none
    /// fetched yet.
    pub fn new(packages: Vec<Package>, platform: AptPlatformDetection) -> (r: Repository)
        ensures
            r@.packages == models(packages@),
            r@.downloaded.len() == 0,
            r.table() == platform@,
    {
        Repository { packages, downloaded: Vec::new(), platform }
    }

    /// The packages of the release.
    pub fn packages(&self) -> (r: &Vec<Package>)
        ensures
            models(r@) == self@.packages,
    {
        &self.packages
    }

    /// The packages fetched for this request.
    pub fn downloaded(&self) -> (r: &Vec<Package>)
        ensures
            models(r@) == self@.downloaded,
    {
        &self.downloaded
    }

    fn select(&self, dist: &Dist) -> (r: Vec<Package>)
        ensures
            exists|picked: Seq<int>|
                is_selection(self@.packages, dist@, picked) && picked.len() == r@.len() && forall|
                    k: int,
                |
                    0 <= k < r@.len() ==> 0 <= #[trigger] picked[k] < self@.packages.len()
                        && r@[k]@ == self@.packages[picked[k]],
    {
        let picked = select_indices(self.packages.as_slice(), dist);
        let mut out: Vec<Package> = Vec::new();
        let mut k: usize = 0;
        while k < picked.len()
            invariant
                k <= picked.len(),
                out@.len() == k,
                forall|m: int| 0 <= m < picked@.len() ==> #[trigger] picked@[m] < self.packages@.len(),
                forall|m: int| 0 <= m < k ==> (#[trigger] out@[m])@ == self.packages@[picked@[m] as int]@,
            decreases picked.len() - k,
        {
            out.push(self.packages[picked[k]].clone());
            k = k + 1;
        }
        proof {
            let places = places(picked@);
            assert(is_selection(self@.packages, dist@, places) && places.len() == out@.len()
                && forall|m: int|
                0 <= m < out@.len() ==> 0 <= #[trigger] places[m] < self@.packages.len()
                    && out@[m]@ == self@.packages[places[m]]);
        }
        out
    }

    /// Selects the packages for a client of the APT side: `distro` is the
    /// distribution tag of the request, `agent` the user-agent of `apt`.
    /// Fails with [`Error::UnknownDistribution`] exactly when the tag is
    /// neither `ubuntu` nor `debian`. The packages are clones: they share
    /// their data cells with the packages of the repository.
    pub fn select_package_apt(&self, distro: &str, agent: &str) -> (r: Result<Vec<Package>, Error>)
        ensures
            match r {
                Ok(selected) => apt_request_dist(self.table(), distro@, agent@) is Some && exists|
                    picked: Seq<int>,
                |
                    is_selection(
                        self@.packages,
                        apt_request_dist(self.table(), distro@, agent@)->0,
                        picked,
                    ) && picked.len() == selected@.len() && forall|k: int|
                        0 <= k < selected@.len() ==> 0 <= #[trigger] picked[k]
                            < self@.packages.len() && selected@[k]@ == self@.packages[picked[k]],
                Err(e) => apt_request_dist(self.table(), distro@, agent@) is None && e
                    == Error::UnknownDistribution,
            },
    {
        let dist = if str_eq(distro, "ubuntu") {
            self.platform.detect_ubuntu_for_apt(agent)
        } else if str_eq(distro, "debian") {
            self.platform.detect_debian_for_apt(agent)
        } else {
            return Err(Error::UnknownDistribution);
        };
        Ok(self.select(&dist))
    }

    /// Selects the packages for a client of the RPM side by its
    /// user-agent. Fails with [`Error::UnknownAgent`] exactly when the
    /// agent is neither `dnf` on Fedora nor `zypper` on Tumbleweed. The
    /// packages are clones: they share their data cells with the packages
    /// of the repository.
    pub fn select_package_rpm(&self, agent: &str) -> (r: Result<Vec<Package>, Error>)
        ensures
            match r {
                Ok(selected) => rpm_os_of(agent@) is Some && exists|picked: Seq<int>|
                    is_selection(self@.packages, rpm_os_of(agent@)->0, picked) && picked.len()
                        == selected@.len() && forall|k: int|
                        0 <= k < selected@.len() ==> 0 <= #[trigger] picked[k]
                            < self@.packages.len() && selected@[k]@ == self@.packages[picked[k]],
                Err(e) => rpm_os_of(agent@) is None && e == Error::UnknownAgent,
            },
    {
        match detect_rpm_os(agent) {
            Some(dist) => {
                let selected = self.select(&dist);
                proof {
                    let picked = choose|picked: Seq<int>|
                        is_selection(self@.packages, dist@, picked) && picked.len()
                            == selected@.len() && forall|k: int|
                            0 <= k < selected@.len() ==> 0 <= #[trigger] picked[k]
                                < self@.packages.len() && selected@[k]@
                                == self@.packages[picked[k]];
                    assert(rpm_os_of(agent@) == Some(dist@));
                    assert(is_selection(self@.packages, rpm_os_of(agent@)->0, picked));
                }
                Ok(selected)
            },
            None => Err(Error::UnknownAgent),
        }
    }

    /// The records to put into the store when the request is done: one for
    /// each package fetched for this request whose data cell holds metadata
    /// by now, which is so once the package was parsed, in the order in
    /// which the packages were fetched. The result is [`stored_records`] of
    /// the fetched packages and of what their cells held, each when its
    /// package was read; what the cells held is not known here.
    pub fn save_package_metadata(&self) -> (r: Vec<PackageMetadata>)
        ensures
            exists|cells: Seq<DataModel>|
                cells.len() == self@.downloaded.len() && stored_view(r@)
                    == #[trigger] stored_records(self@.downloaded, cells),
            forall|k: int| 0 <= k < r@.len() ==> saved_from((#[trigger] r@[k])@, self@.downloaded),
    {
        let ghost all = self@.downloaded;
        let ghost mut cells: Seq<DataModel> = Seq::empty();
        let mut records: Vec<PackageMetadata> = Vec::new();
        let mut i: usize = 0;
        assert(all.take(0) == Seq::<PackageModel>::empty());
        assert(stored_view(records@) == Seq::<PackageMetadataModel>::empty());
        while i < self.downloaded.len()
            invariant
                i <= self.downloaded.len(),
                all == self@.downloaded,
                cells.len() == i,
                stored_view(records@) == stored_records(all.take(i as int), cells),
                forall|k: int|
                    0 <= k < records@.len() ==> saved_from(
                        (#[trigger] records@[k])@,
                        self@.downloaded,
                    ),
            decreases self.downloaded.len() - i,
        {
            let found = PackageMetadata::from_package(&self.downloaded[i]);
            let ghost before = stored_view(records@);
            proof {
                let held = choose|held: DataModel| #[trigger]
                    stored_as(held, self.downloaded@[i as int]@, found);
                assert(all.take(i + 1).drop_last() == all.take(i as int));
                assert(all.take(i + 1).last() == self.downloaded@[i as int]@);
                assert(cells.push(held).drop_last() == cells);
                cells = cells.push(held);
            }
            match found {
                Some(record) => {
                    assert(is_record_of(record@, self@.downloaded[i as int]));
                    records.push(record);
                    assert(stored_view(records@) == before.push(record@));
                },
                None => {},
            }
            i = i + 1;
        }
        assert(all.take(self.downloaded.len() as int) == all);
        records
    }

    /// Splits the selected packages into those whose metadata is at hand
    /// and those that have to be fetched, as the data cells say at the
    /// moment of the call: see [`Repository::partition`]. Every selected
    /// package is in exactly one of the two lists.
    pub fn split_for_download(selected: Vec<Package>) -> (r: (Vec<Package>, Vec<Package>))
        ensures
            exists|at_hand: Seq<bool>|
                at_hand.len() == selected@.len() && models(r.0@) == kept(
                    models(selected@),
                    at_hand,
                    true,
                ) && models(r.1@) == kept(models(selected@), at_hand, false),
    {
        let mut at_hand: Vec<bool> = Vec::new();
        let mut i: usize = 0;
        while i < selected.len()
            invariant
                i <= selected.len(),
                at_hand@.len() == i,
            decreases selected.len() - i,
        {
            at_hand.push(selected[i].is_metadata_available());
            i = i + 1;
        }
        Repository::partition(&selected, &at_hand)
    }

    /// Splits the selected packages by whether their metadata is at hand:
    /// those for which it is, and those for which it is not, each in the
    /// order of the list. The packages handed out are clones: they share
    /// their data cells with the selected ones.
    pub fn partition(selected: &Vec<Package>, at_hand: &Vec<bool>) -> (r: (Vec<Package>, Vec<Package>))
        requires
            at_hand@.len() == selected@.len(),
        ensures
            models(r.0@) == kept(models(selected@), at_hand@, true),
            models(r.1@) == kept(models(selected@), at_hand@, false),
    {
        let ghost all = models(selected@);
        let mut ready: Vec<Package> = Vec::new();
        let mut needed: Vec<Package> = Vec::new();
        let mut i: usize = 0;
        assert(all.take(0) == Seq::<PackageModel>::empty());
        assert(models(ready@) == Seq::<PackageModel>::empty());
        assert(models(needed@) == Seq::<PackageModel>::empty());
        while i < selected.len()
            invariant
                i <= selected.len(),
                at_hand@.len() == selected@.len(),
                all == models(selected@),
                models(ready@) == kept(all.take(i as int), at_hand@.take(i as int), true),
                models(needed@) == kept(all.take(i as int), at_hand@.take(i as int), false),
            decreases selected.len() - i,
        {
            let ghost before_ready = models(ready@);
            let ghost before_needed = models(needed@);
            assert(all.take(i + 1).drop_last() == all.take(i as int));
            assert(at_hand@.take(i + 1).drop_last() == at_hand@.take(i as int));
            assert(all.take(i + 1).last() == selected@[i as int]@);
            assert(at_hand@.take(i + 1).last() == at_hand@[i as int]);
            if at_hand[i] {
                ready.push(selected[i].clone());
                assert(models(ready@) == before_ready.push(selected@[i as int]@));
            } else {
                needed.push(selected[i].clone());
                assert(models(needed@) == before_needed.push(selected@[i as int]@));
            }
            i = i + 1;
        }
        assert(all.take(selected.len() as int) == all);
        assert(at_hand@.take(selected.len() as int) == at_hand@);
        (ready, needed)
    }

    /// Takes in the packages that were fetched: they are noted as fetched
    /// for this request, and handed out together with those whose metadata
    /// was at hand, ordered by file name, so that what is rendered from
    /// them does not depend on the order in which the downloads ended.
    pub fn complete_downloads(&mut self, ready: Vec<Package>, fetched: Vec<Package>) -> (r: Vec<
        Package,
    >)
        ensures
            final(self)@.packages == old(self)@.packages,
            final(self).table() == old(self).table(),
            final(self)@.downloaded == old(self)@.downloaded + models(fetched@),
            ordered_by_name(models(r@)),
            r@.to_multiset() == (ready@ + fetched@).to_multiset(),
    {
        let mut i: usize = 0;
        assert(fetched@.take(0) == Seq::<Package>::empty());
        assert(self@.downloaded + Seq::<PackageModel>::empty() == self@.downloaded);
        while i < fetched.len()
            invariant
                i <= fetched.len(),
                self@.packages == old(self)@.packages,
                self.table() == old(self).table(),
                models(self.downloaded@) == old(self)@.downloaded + models(fetched@.take(i as int)),
            decreases fetched.len() - i,
        {
            let ghost before = models(self.downloaded@);
            self.downloaded.push(fetched[i].clone());
            proof {
                assert(models(self.downloaded@) == before.push(fetched@[i as int]@));
                assert(models(fetched@.take(i + 1)) == models(fetched@.take(i as int)).push(
                    fetched@[i as int]@,
                ));
            }
            i = i + 1;
        }
        assert(fetched@.take(fetched.len() as int) == fetched@);
        let mut all = ready;
        let mut rest = fetched;
        all.append(&mut rest);
        sort_by_file_name(all)
    }
}

} // verus!
