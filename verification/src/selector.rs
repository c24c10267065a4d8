//! Selection of the packages that suit a distribution best: the right
//! family, the closest version that is not newer, one package for each name
//! and architecture.

use crate::package::{arch_or_default, Package, PackageModel};
use crate::text::{lemma_lex_asymmetric, lemma_lex_irreflexive, lemma_lex_total, lemma_lex_transitive, lex_lt, str_eq, Order};
use crate::utils::{dist_le, dist_lt, dist_order, type_compatible, Arch, Dist, DistModel};
use crate::version::{lemma_plain_in_order, plain};
use vstd::prelude::*;

verus! {

/// The identities of a list of packages.
pub open spec fn models(from: Seq<Package>) -> Seq<PackageModel> {
    Seq::new(from.len(), |i: int| from[i]@)
}

/// The package's type can be installed on the distribution.
pub open spec fn compatible(p: PackageModel, d: DistModel) -> bool {
    type_compatible(p.ty, d.family)
}

/// The package is compatible and was built for the distribution's family,
/// in whatever version.
pub open spec fn family_match(p: PackageModel, d: DistModel) -> bool {
    compatible(p, d) && p.info.distro is Some && p.info.distro->0.family == d.family
}

/// Some package of the list was built for the distribution's family.
pub open spec fn any_family_match(ps: Seq<PackageModel>, d: DistModel) -> bool {
    exists|i: int| 0 <= i < ps.len() && family_match(#[trigger] ps[i], d)
}

/// The package was built for the distribution's family in a version that is
/// not newer than the distribution, and its file name shows a display name.
pub open spec fn candidate(p: PackageModel, d: DistModel) -> bool {
    family_match(p, d) && p.info.name is Some && dist_le(p.info.distro->0, d)
}

/// The group that a package competes in: its display name and its
/// architecture.
pub open spec fn group_of(p: PackageModel) -> (Option<Seq<char>>, Arch) {
    (p.info.name, arch_or_default(p.info.architecture))
}

/// The place of the best candidate of group `g` among the first `k`
/// packages of the list; -1 where they hold none. A later candidate takes
/// the place of the best so far only where it was built for a newer version.
pub open spec fn best_of(ps: Seq<PackageModel>, d: DistModel, g: (Option<Seq<char>>, Arch), k: nat) -> int
    decreases k,
{
    if k == 0 {
        -1
    } else {
        let before = best_of(ps, d, g, (k - 1) as nat);
        let j = k - 1;
        if candidate(ps[j], d) && group_of(ps[j]) == g && (before < 0 || dist_lt(
            ps[before].info.distro->0,
            ps[j].info.distro->0,
        )) {
            j
        } else {
            before
        }
    }
}

/// The package at `i` is the pick of its group: a candidate, and the best
/// one of its group in the whole list.
pub open spec fn is_pick(ps: Seq<PackageModel>, d: DistModel, i: int) -> bool {
    &&& 0 <= i < ps.len()
    &&& candidate(ps[i], d)
    &&& best_of(ps, d, group_of(ps[i]), ps.len()) == i
}

/// The order of the output: by file name, and by place in the list where
/// two file names are equal.
pub open spec fn output_before(ps: Seq<PackageModel>, i: int, j: int) -> bool {
    lex_lt(ps[i].file_name, ps[j].file_name) || (ps[i].file_name == ps[j].file_name && i < j)
}

/// `picked` lists the places of the selected packages in the order in which
/// they are handed out.
///
/// Where some package was built for the distribution's family, the
/// selection is made of the pick of each group, ordered by file name.
/// Where none was, it is made of all compatible packages, in the order of
/// the list.
pub open spec fn is_selection(ps: Seq<PackageModel>, d: DistModel, picked: Seq<int>) -> bool {
    if any_family_match(ps, d) {
        &&& forall|k: int| 0 <= k < picked.len() ==> is_pick(ps, d, #[trigger] picked[k])
        &&& forall|i: int| is_pick(ps, d, i) ==> picked.contains(i)
        &&& forall|k: int, l: int|
            0 <= k < l < picked.len() ==> output_before(ps, #[trigger] picked[k], #[trigger] picked[l])
    } else {
        &&& forall|k: int|
            0 <= k < picked.len() ==> 0 <= #[trigger] picked[k] < ps.len() && compatible(
                ps[picked[k]],
                d,
            )
        &&& forall|i: int| 0 <= i < ps.len() && compatible(#[trigger] ps[i], d) ==> picked.contains(i)
        &&& forall|k: int, l: int|
            0 <= k < l < picked.len() ==> #[trigger] picked[k] < #[trigger] picked[l]
    }
}

/// The places as mathematical integers.
pub open spec fn places(picked: Seq<usize>) -> Seq<int> {
    Seq::new(picked.len(), |k: int| picked[k] as int)
}

/// Every selected package can be installed on the distribution.
pub proof fn lemma_selection_compatible(ps: Seq<PackageModel>, d: DistModel, picked: Seq<int>, k: int)
    requires
        is_selection(ps, d, picked),
        0 <= k < picked.len(),
    ensures
        0 <= picked[k] < ps.len(),
        compatible(ps[picked[k]], d),
{
}

/// Every selected package suits the distribution: its type can be
/// installed there, and it was built for the distribution's family or for
/// no distribution in particular. This holds wherever some package of the
/// list was built for the family, or no compatible package of the list
/// names a distribution.
pub proof fn lemma_selection_suits(ps: Seq<PackageModel>, d: DistModel, picked: Seq<int>, k: int)
    requires
        is_selection(ps, d, picked),
        0 <= k < picked.len(),
        any_family_match(ps, d) || forall|i: int|
            0 <= i < ps.len() && compatible(#[trigger] ps[i], d) ==> ps[i].info.distro is None,
    ensures
        0 <= picked[k] < ps.len(),
        compatible(ps[picked[k]], d),
        ps[picked[k]].info.distro is None || ps[picked[k]].info.distro->0.family == d.family,
{
}

/// The best candidate of a group is a candidate of that group.
pub proof fn lemma_best_of(ps: Seq<PackageModel>, d: DistModel, g: (Option<Seq<char>>, Arch), k: nat)
    requires
        k <= ps.len(),
    ensures
        ({
            let b = best_of(ps, d, g, k);
            &&& -1 <= b < k
            &&& b < 0 ==> forall|m: int|
                0 <= m < k ==> !(candidate(#[trigger] ps[m], d) && group_of(ps[m]) == g)
            &&& b >= 0 ==> candidate(ps[b], d) && group_of(ps[b]) == g
        }),
    decreases k,
{
    if k > 0 {
        lemma_best_of(ps, d, g, (k - 1) as nat);
    }
}

/// A group has at most one pick.
pub proof fn lemma_pick_unique(ps: Seq<PackageModel>, d: DistModel, i: int, j: int)
    requires
        is_pick(ps, d, i),
        is_pick(ps, d, j),
        group_of(ps[i]) == group_of(ps[j]),
    ensures
        i == j,
{
}

/// Every group that has a candidate has a pick: with [`lemma_pick_unique`],
/// exactly one.
pub proof fn lemma_group_has_pick(ps: Seq<PackageModel>, d: DistModel, i: int)
    requires
        0 <= i < ps.len(),
        candidate(ps[i], d),
    ensures
        exists|j: int| is_pick(ps, d, j) && group_of(#[trigger] ps[j]) == group_of(ps[i]),
{
    let g = group_of(ps[i]);
    lemma_best_of(ps, d, g, ps.len());
    let b = best_of(ps, d, g, ps.len());
    assert(b >= 0) by {
        if b < 0 {
            assert(candidate(ps[i], d) && group_of(ps[i]) == g);
        }
    }
    assert(is_pick(ps, d, b));
    assert(group_of(ps[b]) == group_of(ps[i]));
}

/// The three distributions compare as a total order has them: any two
/// compare, as equal exactly where they are the same, one way exactly where
/// the other way round, and what comes before one that comes before a
/// third comes before the third.
pub open spec fn in_order(x: DistModel, y: DistModel, z: DistModel) -> bool {
    &&& dist_order(x, y) is Some
    &&& (dist_order(x, y) == Some(Order::Equal)) == (x == y)
    &&& (dist_order(x, y) == Some(Order::Less)) == (dist_order(y, x) == Some(Order::Greater))
    &&& dist_lt(x, y) && dist_lt(y, z) ==> dist_lt(x, z)
}

/// The distributions of the candidates of the list compare as a total
/// order has them.
pub open spec fn candidates_in_order(ps: Seq<PackageModel>, d: DistModel) -> bool {
    forall|i: int, j: int, k: int|
        0 <= i < ps.len() && 0 <= j < ps.len() && 0 <= k < ps.len() && candidate(
            #[trigger] ps[i],
            d,
        ) && candidate(#[trigger] ps[j], d) && candidate(#[trigger] ps[k], d) ==> in_order(
            ps[i].info.distro->0,
            ps[j].info.distro->0,
            ps[k].info.distro->0,
        )
}

/// The distribution has no version, or one without tags.
pub open spec fn plain_dist(x: DistModel) -> bool {
    x.version is None || plain(x.version->0)
}

/// Distributions whose versions have no tags compare as a total order has
/// them.
pub proof fn lemma_plain_dists_in_order(x: DistModel, y: DistModel, z: DistModel)
    requires
        plain_dist(x),
        plain_dist(y),
        plain_dist(z),
    ensures
        in_order(x, y, z),
{
    if x.version is Some && y.version is Some {
        lemma_plain_in_order(x.version->0, y.version->0, x.version->0);
        if z.version is Some {
            lemma_plain_in_order(x.version->0, y.version->0, z.version->0);
        }
    }
}

/// The versions of the distributions of all candidates have no tags.
pub open spec fn plain_candidates(ps: Seq<PackageModel>, d: DistModel) -> bool {
    forall|i: int|
        0 <= i < ps.len() && candidate(#[trigger] ps[i], d) ==> plain_dist(ps[i].info.distro->0)
}

/// Candidates whose versions have no tags compare as a total order has
/// them.
pub proof fn lemma_plain_candidates_in_order(ps: Seq<PackageModel>, d: DistModel)
    requires
        plain_candidates(ps, d),
    ensures
        candidates_in_order(ps, d),
{
    assert forall|i: int, j: int, k: int|
        0 <= i < ps.len() && 0 <= j < ps.len() && 0 <= k < ps.len() && candidate(
            #[trigger] ps[i],
            d,
        ) && candidate(#[trigger] ps[j], d) && candidate(#[trigger] ps[k], d) implies in_order(
        ps[i].info.distro->0,
        ps[j].info.distro->0,
        ps[k].info.distro->0,
    ) by {
        lemma_plain_dists_in_order(ps[i].info.distro->0, ps[j].info.distro->0, ps[k].info.distro->0);
    }
}

/// Among candidates whose versions have no tags, the pick of a group was
/// built for a newer version than every other candidate of the group, or
/// for the same version as one that stands later in the list.
pub proof fn lemma_plain_pick_is_newest(ps: Seq<PackageModel>, d: DistModel, i: int, m: int)
    requires
        plain_candidates(ps, d),
        is_pick(ps, d, i),
        0 <= m < ps.len(),
        candidate(ps[m], d),
        group_of(ps[m]) == group_of(ps[i]),
    ensures
        dist_lt(ps[m].info.distro->0, ps[i].info.distro->0) || (ps[m].info.distro
            == ps[i].info.distro && i <= m),
{
    lemma_plain_candidates_in_order(ps, d);
    lemma_best_is_newest(ps, d, group_of(ps[i]), ps.len(), m);
}

/// Where the distributions of the candidates compare as a total order has
/// them, the best candidate of a group was built for a newer version than
/// every other candidate of the group, or for the same version as one that
/// stands later in the list.
pub proof fn lemma_best_is_newest(
    ps: Seq<PackageModel>,
    d: DistModel,
    g: (Option<Seq<char>>, Arch),
    k: nat,
    m: int,
)
    requires
        k <= ps.len(),
        candidates_in_order(ps, d),
        0 <= m < k,
        candidate(ps[m], d),
        group_of(ps[m]) == g,
    ensures
        ({
            let b = best_of(ps, d, g, k);
            &&& 0 <= b < k
            &&& dist_lt(ps[m].info.distro->0, ps[b].info.distro->0) || (ps[m].info.distro
                == ps[b].info.distro && b <= m)
        }),
    decreases k,
{
    lemma_best_of(ps, d, g, k);
    lemma_best_of(ps, d, g, (k - 1) as nat);
    let before = best_of(ps, d, g, (k - 1) as nat);
    let b = best_of(ps, d, g, k);
    let j = k - 1;
    let dm = ps[m].info.distro->0;
    let dj = ps[j].info.distro->0;
    if m < j {
        lemma_best_is_newest(ps, d, g, (k - 1) as nat, m);
        if b == j {
            assert(candidate(ps[before], d) && candidate(ps[j], d));
            assert(in_order(dm, ps[before].info.distro->0, dj));
        }
    } else if b == before {
        assert(candidate(ps[before], d));
        let db = ps[before].info.distro->0;
        assert(in_order(db, dj, dj));
        assert(in_order(dj, db, dj));
        assert(!dist_lt(db, dj));
        if dist_order(db, dj) == Some(Order::Equal) {
            assert(db == dj);
            assert(ps[m].info.distro == ps[b].info.distro);
        } else {
            assert(dist_order(db, dj) == Some(Order::Greater));
            assert(dist_lt(dj, db));
        }
    } else {
        assert(b == j);
    }
}

/// Where the distributions of the candidates compare as a total order has
/// them, a package of the list that was built for the very distribution
/// asked for has the pick of its group built for that distribution too.
pub proof fn lemma_exact_match_wins(ps: Seq<PackageModel>, d: DistModel, i: int, m: int)
    requires
        candidates_in_order(ps, d),
        is_pick(ps, d, i),
        0 <= m < ps.len(),
        candidate(ps[m], d),
        group_of(ps[m]) == group_of(ps[i]),
        ps[m].info.distro == Some(d),
    ensures
        ps[i].info.distro == Some(d),
{
    lemma_best_is_newest(ps, d, group_of(ps[i]), ps.len(), m);
    assert(in_order(ps[m].info.distro->0, ps[i].info.distro->0, ps[m].info.distro->0));
    assert(in_order(ps[i].info.distro->0, ps[m].info.distro->0, ps[i].info.distro->0));
}

/// No two selected packages share display name and architecture. This
/// holds wherever some package of the list was built for the family, or no
/// two compatible packages of the list share a group.
pub proof fn lemma_selection_one_per_group(
    ps: Seq<PackageModel>,
    d: DistModel,
    picked: Seq<int>,
    k: int,
    l: int,
)
    requires
        is_selection(ps, d, picked),
        0 <= k < picked.len(),
        0 <= l < picked.len(),
        k != l,
        any_family_match(ps, d) || forall|i: int, j: int|
            0 <= i < j < ps.len() && compatible(#[trigger] ps[i], d) && compatible(
                #[trigger] ps[j],
                d,
            ) ==> group_of(ps[i]) != group_of(ps[j]),
    ensures
        group_of(ps[picked[k]]) != group_of(ps[picked[l]]),
{
    let i = picked[k];
    let j = picked[l];
    if any_family_match(ps, d) {
        if k < l {
            assert(output_before(ps, picked[k], picked[l]));
        } else {
            assert(output_before(ps, picked[l], picked[k]));
        }
        lemma_lex_irreflexive(ps[i].file_name);
        assert(i != j);
        if group_of(ps[i]) == group_of(ps[j]) {
            lemma_pick_unique(ps, d, i, j);
        }
    } else {
        if k < l {
            assert(picked[k] < picked[l]);
        } else {
            assert(picked[l] < picked[k]);
        }
    }
}

/// A list of places has at most one selection order: two selections of the
/// same list for the same distribution are the same.
pub proof fn lemma_selection_unique(ps: Seq<PackageModel>, d: DistModel, a: Seq<int>, b: Seq<int>)
    requires
        is_selection(ps, d, a),
        is_selection(ps, d, b),
    ensures
        a == b,
    decreases a.len(),
{
    if any_family_match(ps, d) {
        lemma_sorted_unique(ps, a, b);
    } else {
        lemma_increasing_unique(a, b);
    }
}

proof fn lemma_output_before_strict(ps: Seq<PackageModel>, i: int, j: int, m: int)
    ensures
        !output_before(ps, i, i),
        output_before(ps, i, j) ==> !output_before(ps, j, i),
        output_before(ps, i, j) && output_before(ps, j, m) ==> output_before(ps, i, m),
        i != j ==> output_before(ps, i, j) || output_before(ps, j, i),
{
    lemma_lex_irreflexive(ps[i].file_name);
    lemma_lex_total(ps[i].file_name, ps[j].file_name);
    if lex_lt(ps[i].file_name, ps[j].file_name) {
        lemma_lex_asymmetric(ps[i].file_name, ps[j].file_name);
        if lex_lt(ps[j].file_name, ps[m].file_name) {
            lemma_lex_transitive(ps[i].file_name, ps[j].file_name, ps[m].file_name);
        }
    }
}

proof fn lemma_sorted_unique(ps: Seq<PackageModel>, a: Seq<int>, b: Seq<int>)
    requires
        forall|k: int, l: int|
            0 <= k < l < a.len() ==> output_before(ps, #[trigger] a[k], #[trigger] a[l]),
        forall|k: int, l: int|
            0 <= k < l < b.len() ==> output_before(ps, #[trigger] b[k], #[trigger] b[l]),
        forall|k: int| 0 <= k < a.len() ==> b.contains(#[trigger] a[k]),
        forall|k: int| 0 <= k < b.len() ==> a.contains(#[trigger] b[k]),
    ensures
        a == b,
    decreases a.len(),
{
    if a.len() == 0 {
        if b.len() > 0 {
            assert(a.contains(b[0]));
        }
        assert(a =~= b);
    } else if b.len() == 0 {
        assert(b.contains(a[0]));
    } else {
        // The two first elements are both the least of the common set.
        let x = a[0];
        let y = b[0];
        assert(b.contains(x));
        assert(a.contains(y));
        let kx = choose|k: int| 0 <= k < b.len() && b[k] == x;
        let ky = choose|k: int| 0 <= k < a.len() && a[k] == y;
        lemma_output_before_strict(ps, x, y, x);
        if kx > 0 {
            assert(output_before(ps, b[0], b[kx]));
        }
        if ky > 0 {
            assert(output_before(ps, a[0], a[ky]));
        }
        assert(x == y);
        let a1 = a.drop_first();
        let b1 = b.drop_first();
        assert forall|k: int| 0 <= k < a1.len() implies b1.contains(#[trigger] a1[k]) by {
            let v = a1[k];
            assert(v == a[k + 1]);
            assert(b.contains(v));
            let kv = choose|m: int| 0 <= m < b.len() && b[m] == v;
            assert(output_before(ps, a[0], a[k + 1]));
            lemma_output_before_strict(ps, x, v, x);
            assert(kv != 0);
            assert(b1[kv - 1] == v);
        }
        assert forall|k: int| 0 <= k < b1.len() implies a1.contains(#[trigger] b1[k]) by {
            let v = b1[k];
            assert(v == b[k + 1]);
            assert(a.contains(v));
            let kv = choose|m: int| 0 <= m < a.len() && a[m] == v;
            assert(output_before(ps, b[0], b[k + 1]));
            lemma_output_before_strict(ps, y, v, y);
            assert(kv != 0);
            assert(a1[kv - 1] == v);
        }
        assert forall|k: int, l: int| 0 <= k < l < a1.len() implies output_before(
            ps,
            #[trigger] a1[k],
            #[trigger] a1[l],
        ) by {
            assert(output_before(ps, a[k + 1], a[l + 1]));
        }
        assert forall|k: int, l: int| 0 <= k < l < b1.len() implies output_before(
            ps,
            #[trigger] b1[k],
            #[trigger] b1[l],
        ) by {
            assert(output_before(ps, b[k + 1], b[l + 1]));
        }
        lemma_sorted_unique(ps, a1, b1);
        assert(a =~= seq![x] + a1);
        assert(b =~= seq![y] + b1);
    }
}

proof fn lemma_increasing_unique(a: Seq<int>, b: Seq<int>)
    requires
        forall|k: int, l: int| 0 <= k < l < a.len() ==> #[trigger] a[k] < #[trigger] a[l],
        forall|k: int, l: int| 0 <= k < l < b.len() ==> #[trigger] b[k] < #[trigger] b[l],
        forall|k: int| 0 <= k < a.len() ==> b.contains(#[trigger] a[k]),
        forall|k: int| 0 <= k < b.len() ==> a.contains(#[trigger] b[k]),
    ensures
        a == b,
    decreases a.len(),
{
    if a.len() == 0 {
        if b.len() > 0 {
            assert(a.contains(b[0]));
        }
        assert(a =~= b);
    } else if b.len() == 0 {
        assert(b.contains(a[0]));
    } else {
        let x = a[0];
        let y = b[0];
        assert(b.contains(x));
        assert(a.contains(y));
        let kx = choose|k: int| 0 <= k < b.len() && b[k] == x;
        let ky = choose|k: int| 0 <= k < a.len() && a[k] == y;
        if kx > 0 {
            assert(b[0] < b[kx]);
        }
        if ky > 0 {
            assert(a[0] < a[ky]);
        }
        assert(x == y);
        let a1 = a.drop_first();
        let b1 = b.drop_first();
        assert forall|k: int| 0 <= k < a1.len() implies b1.contains(#[trigger] a1[k]) by {
            let v = a1[k];
            assert(v == a[k + 1]);
            assert(b.contains(v));
            let kv = choose|m: int| 0 <= m < b.len() && b[m] == v;
            assert(a[0] < a[k + 1]);
            assert(kv != 0);
            assert(b1[kv - 1] == v);
        }
        assert forall|k: int| 0 <= k < b1.len() implies a1.contains(#[trigger] b1[k]) by {
            let v = b1[k];
            assert(v == b[k + 1]);
            assert(a.contains(v));
            let kv = choose|m: int| 0 <= m < a.len() && a[m] == v;
            assert(b[0] < b[k + 1]);
            assert(kv != 0);
            assert(a1[kv - 1] == v);
        }
        assert forall|k: int, l: int| 0 <= k < l < a1.len() implies #[trigger] a1[k]
            < #[trigger] a1[l] by {
            assert(a[k + 1] < a[l + 1]);
        }
        assert forall|k: int, l: int| 0 <= k < l < b1.len() implies #[trigger] b1[k]
            < #[trigger] b1[l] by {
            assert(b[k + 1] < b[l + 1]);
        }
        lemma_increasing_unique(a1, b1);
        assert(a =~= seq![x] + a1);
        assert(b =~= seq![y] + b1);
    }
}

fn is_compatible(p: &Package, dist: &Dist) -> (r: bool)
    ensures
        r == compatible(p@, dist@),
{
    p.ty().matches_distribution(dist)
}

fn is_family_match(p: &Package, dist: &Dist) -> (r: bool)
    ensures
        r == family_match(p@, dist@),
{
    if !is_compatible(p, dist) {
        return false;
    }
    match p.distribution() {
        Some(built_for) => dist.matches_distribution(built_for),
        None => false,
    }
}

fn is_candidate(p: &Package, dist: &Dist) -> (r: bool)
    ensures
        r == candidate(p@, dist@),
{
    if !is_family_match(p, dist) || p.name().is_none() {
        return false;
    }
    match p.distribution() {
        Some(built_for) => {
            let c = built_for.compare(dist);
            c == Some(Order::Less) || c == Some(Order::Equal)
        },
        None => false,
    }
}

fn same_group(a: &Package, b: &Package) -> (r: bool)
    ensures
        r == (group_of(a@) == group_of(b@)),
{
    let names = match (a.name(), b.name()) {
        (Some(x), Some(y)) => str_eq(x, y),
        (None, None) => true,
        _ => false,
    };
    names && a.architecture() == b.architecture()
}

/// Whether the package at `a` was built for an older version than the one
/// at `b`.
fn built_for_older(from: &[Package], a: usize, b: usize) -> (r: bool)
    requires
        a < from.len(),
        b < from.len(),
        from@[a as int]@.info.distro is Some,
        from@[b as int]@.info.distro is Some,
    ensures
        r == dist_lt(from@[a as int]@.info.distro->0, from@[b as int]@.info.distro->0),
{
    match (from[a].distribution(), from[b].distribution()) {
        (Some(x), Some(y)) => x.compare(y) == Some(Order::Less),
        _ => false,
    }
}

/// Whether the package at `i` is the pick of its group.
fn best_in_group(from: &[Package], dist: &Dist, i: usize) -> (r: bool)
    requires
        i < from.len(),
    ensures
        r == is_pick(models(from@), dist@, i as int),
{
    let ghost ps = models(from@);
    let ghost g = group_of(ps[i as int]);
    let mut best: Option<usize> = None;
    let mut j: usize = 0;
    while j < from.len()
        invariant
            j <= from.len(),
            i < from.len(),
            ps == models(from@),
            g == group_of(ps[i as int]),
            match best {
                Some(b) => b < j && best_of(ps, dist@, g, j as nat) == b && candidate(
                    ps[b as int],
                    dist@,
                ),
                None => best_of(ps, dist@, g, j as nat) == -1,
            },
        decreases from.len() - j,
    {
        if is_candidate(&from[j], dist) && same_group(&from[j], &from[i]) {
            let takes = match best {
                Some(b) => built_for_older(from, b, j),
                None => true,
            };
            if takes {
                best = Some(j);
            }
        }
        j = j + 1;
    }
    match best {
        Some(b) => b == i,
        None => false,
    }
}

fn comes_before(from: &[Package], a: usize, b: usize) -> (r: bool)
    requires
        a < from.len(),
        b < from.len(),
    ensures
        r == output_before(models(from@), a as int, b as int),
{
    proof {
        lemma_output_before_strict(models(from@), a as int, b as int, a as int);
    }
    match from[a].compare(&from[b]) {
        Order::Less => true,
        Order::Equal => a < b,
        Order::Greater => false,
    }
}

fn has_family_match(from: &[Package], dist: &Dist) -> (r: bool)
    ensures
        r == any_family_match(models(from@), dist@),
{
    let ghost ps = models(from@);
    let mut i: usize = 0;
    while i < from.len()
        invariant
            i <= from.len(),
            ps == models(from@),
            forall|m: int| 0 <= m < i ==> !family_match(#[trigger] ps[m], dist@),
        decreases from.len() - i,
    {
        if is_family_match(&from[i], dist) {
            assert(family_match(ps[i as int], dist@));
            return true;
        }
        i = i + 1;
    }
    false
}

fn compatible_places(from: &[Package], dist: &Dist) -> (r: Vec<usize>)
    ensures
        forall|k: int|
            0 <= k < r@.len() ==> 0 <= #[trigger] r@[k] < from@.len() && compatible(
                models(from@)[r@[k] as int],
                dist@,
            ),
        forall|i: int|
            0 <= i < from@.len() && compatible(#[trigger] models(from@)[i], dist@) ==> places(
                r@,
            ).contains(i),
        forall|k: int, l: int| 0 <= k < l < r@.len() ==> #[trigger] r@[k] < #[trigger] r@[l],
{
    let ghost ps = models(from@);
    let mut out: Vec<usize> = Vec::new();
    let mut i: usize = 0;
    while i < from.len()
        invariant
            i <= from.len(),
            ps == models(from@),
            forall|k: int|
                0 <= k < out@.len() ==> 0 <= #[trigger] out@[k] < i && compatible(
                    ps[out@[k] as int],
                    dist@,
                ),
            forall|m: int|
                0 <= m < i && compatible(#[trigger] ps[m], dist@) ==> places(out@).contains(m),
            forall|k: int, l: int|
                0 <= k < l < out@.len() ==> #[trigger] out@[k] < #[trigger] out@[l],
        decreases from.len() - i,
    {
        if is_compatible(&from[i], dist) {
            let ghost before = out@;
            out.push(i);
            proof {
                assert forall|m: int|
                    0 <= m < i + 1 && compatible(#[trigger] ps[m], dist@) implies places(
                    out@,
                ).contains(m) by {
                    if m < i {
                        let k = choose|k: int|
                            0 <= k < places(before).len() && places(before)[k] == m;
                        assert(places(out@)[k] == m);
                    } else {
                        assert(places(out@)[out@.len() - 1] == m);
                    }
                }
            }
        }
        i = i + 1;
    }
    out
}

fn picked_places(from: &[Package], dist: &Dist) -> (r: Vec<usize>)
    ensures
        forall|k: int| 0 <= k < r@.len() ==> is_pick(models(from@), dist@, #[trigger] r@[k] as int),
        forall|i: int| is_pick(models(from@), dist@, i) ==> places(r@).contains(i),
        forall|k: int, l: int|
            0 <= k < l < r@.len() ==> output_before(
                models(from@),
                #[trigger] r@[k] as int,
                #[trigger] r@[l] as int,
            ),
{
    let ghost ps = models(from@);
    let mut out: Vec<usize> = Vec::new();
    let mut i: usize = 0;
    while i < from.len()
        invariant
            i <= from.len(),
            ps == models(from@),
            forall|k: int|
                0 <= k < out@.len() ==> #[trigger] out@[k] < i && is_pick(
                    ps,
                    dist@,
                    out@[k] as int,
                ),
            forall|m: int| 0 <= m < i && is_pick(ps, dist@, m) ==> places(out@).contains(m),
            forall|k: int, l: int|
                0 <= k < l < out@.len() ==> output_before(
                    ps,
                    #[trigger] out@[k] as int,
                    #[trigger] out@[l] as int,
                ),
        decreases from.len() - i,
    {
        if best_in_group(from, dist, i) {
            let mut p: usize = 0;
            while p < out.len() && comes_before(from, out[p], i)
                invariant
                    p <= out.len(),
                    i < from.len(),
                    ps == models(from@),
                    forall|k: int| 0 <= k < out@.len() ==> #[trigger] out@[k] < i,
                    forall|k: int|
                        0 <= k < p ==> output_before(ps, #[trigger] out@[k] as int, i as int),
                decreases out.len() - p,
            {
                p = p + 1;
            }
            let ghost before = out@;
            proof {
                assert forall|l: int| p <= l < before.len() implies output_before(
                    ps,
                    i as int,
                    #[trigger] before[l] as int,
                ) by {
                    lemma_output_before_strict(ps, i as int, before[p as int] as int, before[l] as int);
                    if l > p {
                        assert(output_before(ps, before[p as int] as int, before[l] as int));
                    }
                }
            }
            out.insert(p, i);
            proof {
                assert forall|k: int, l: int| 0 <= k < l < out@.len() implies output_before(
                    ps,
                    #[trigger] out@[k] as int,
                    #[trigger] out@[l] as int,
                ) by {
                    if l < p {
                        assert(out@[k] == before[k] && out@[l] == before[l]);
                    } else if l == p {
                        assert(out@[k] == before[k]);
                    } else if k < p {
                        assert(out@[k] == before[k] && out@[l] == before[l - 1]);
                    } else if k == p {
                        assert(out@[l] == before[l - 1]);
                    } else {
                        assert(out@[k] == before[k - 1] && out@[l] == before[l - 1]);
                    }
                }
                assert forall|k: int| 0 <= k < out@.len() implies #[trigger] out@[k] < i + 1
                    && is_pick(ps, dist@, out@[k] as int) by {
                    if k < p {
                        assert(out@[k] == before[k]);
                    } else if k > p {
                        assert(out@[k] == before[k - 1]);
                    }
                }
                assert forall|m: int| 0 <= m < i + 1 && is_pick(ps, dist@, m) implies places(
                    out@,
                ).contains(m) by {
                    if m < i {
                        let k = choose|k: int|
                            0 <= k < places(before).len() && places(before)[k] == m;
                        if k < p {
                            assert(places(out@)[k] == m);
                        } else {
                            assert(places(out@)[k + 1] == m);
                        }
                    } else {
                        assert(places(out@)[p as int] == m);
                    }
                }
            }
        }
        i = i + 1;
    }
    out
}

/// Selects, from the assets of a release, the places of those that suit
/// `dist` best, in the order in which they are handed out; see
/// [`is_selection`].
pub fn select_indices(from: &[Package], dist: &Dist) -> (r: Vec<usize>)
    ensures
        is_selection(models(from@), dist@, places(r@)),
        forall|k: int| 0 <= k < r@.len() ==> #[trigger] r@[k] < from@.len(),
{
    if has_family_match(from, dist) {
        let picked = picked_places(from, dist);
        proof {
            assert forall|k: int| 0 <= k < places(picked@).len() implies is_pick(
                models(from@),
                dist@,
                #[trigger] places(picked@)[k],
            ) by {
                assert(is_pick(models(from@), dist@, picked@[k] as int));
            }
            assert forall|k: int, l: int| 0 <= k < l < places(picked@).len() implies output_before(
                models(from@),
                #[trigger] places(picked@)[k],
                #[trigger] places(picked@)[l],
            ) by {
                assert(output_before(models(from@), picked@[k] as int, picked@[l] as int));
            }
            assert forall|k: int| 0 <= k < picked@.len() implies #[trigger] picked@[k]
                < from@.len() by {
                assert(is_pick(models(from@), dist@, picked@[k] as int));
            }
        }
        picked
    } else {
        let all = compatible_places(from, dist);
        proof {
            assert forall|k: int| 0 <= k < places(all@).len() implies 0 <= #[trigger] places(
                all@,
            )[k] < models(from@).len() && compatible(models(from@)[places(all@)[k]], dist@) by {
                assert(all@[k] < from@.len());
            }
            assert forall|k: int, l: int| 0 <= k < l < places(all@).len() implies #[trigger] places(
                all@,
            )[k] < #[trigger] places(all@)[l] by {
                assert(all@[k] < all@[l]);
            }
        }
        all
    }
}

/// Selects, from the assets of a release, those that suit `dist` best.
///
/// Only packages whose type the distribution can install are considered.
/// Where none of them was built for the distribution's family, all of them
/// are handed out, in the order of the list. Otherwise each group of equal
/// display name and architecture gives its pick: the package built for the
/// newest version that is not newer than `dist`, the first of them where
/// there are several. Packages without a display name give none. The picks
/// are handed out ordered by file name.
pub fn select_packages<'a>(from: &'a [Package], dist: Dist) -> (r: Vec<&'a Package>)
    ensures
        exists|picked: Seq<int>|
            is_selection(models(from@), dist@, picked) && picked.len() == r@.len() && forall|
                k: int,
            |
                0 <= k < r@.len() ==> 0 <= #[trigger] picked[k] < from@.len() && *r@[k]
                    == from@[picked[k]],
        forall|k: int| 0 <= k < r@.len() ==> compatible((#[trigger] r@[k])@, dist@),
{
    let picked = select_indices(from, &dist);
    let mut out: Vec<&'a Package> = Vec::new();
    let mut k: usize = 0;
    while k < picked.len()
        invariant
            k <= picked.len(),
            out@.len() == k,
            forall|m: int| 0 <= m < picked@.len() ==> #[trigger] picked@[m] < from@.len(),
            forall|m: int| 0 <= m < k ==> *#[trigger] out@[m] == from@[picked@[m] as int],
        decreases picked.len() - k,
    {
        out.push(&from[picked[k]]);
        k = k + 1;
    }
    proof {
        let places = places(picked@);
        assert forall|m: int| 0 <= m < out@.len() implies compatible(
            (#[trigger] out@[m])@,
            dist@,
        ) by {
            lemma_selection_compatible(models(from@), dist@, places, m);
            assert(models(from@)[places[m]] == from@[picked@[m] as int]@);
        }
        assert(is_selection(models(from@), dist@, places) && places.len() == out@.len()
            && forall|m: int|
            0 <= m < out@.len() ==> 0 <= #[trigger] places[m] < from@.len() && *out@[m]
                == from@[places[m]]);
    }
    out
}

} // verus!
