use vstd::prelude::*;

use crate::error::ReviewError;
use crate::graph::{
    package_dir, packages_view, view_of, source_dir, DependencyGraph, ResolvedPackage, ResolvedPackageView,
};

verus! {

/// `i` is the first package of `pkgs` with the given name.
pub open spec fn is_first_named(pkgs: Seq<ResolvedPackageView>, name: Seq<char>, i: int) -> bool {
    &&& 0 <= i < pkgs.len()
    &&& pkgs[i].name == name
    &&& forall|j: int| 0 <= j < i ==> (#[trigger] pkgs[j]).name != name
}

/// The position of the first package of `pkgs` with the given name.
pub open spec fn first_named(pkgs: Seq<ResolvedPackageView>, name: Seq<char>) -> Option<int> {
    if exists|i: int| is_first_named(pkgs, name, i) {
        Some(choose|i: int| is_first_named(pkgs, name, i))
    } else {
        None
    }
}

/// `pkgs` holds a package of the given name at the given version.
pub open spec fn has_version(pkgs: Seq<ResolvedPackageView>, name: Seq<char>, version: Seq<char>) -> bool {
    exists|k: int| 0 <= k < pkgs.len() && (#[trigger] pkgs[k]).name == name && pkgs[k].version == version
}

/// The package at `i` has the given name at a version that `other` lacks.
pub open spec fn is_new_version(
    pkgs: Seq<ResolvedPackageView>,
    other: Seq<ResolvedPackageView>,
    name: Seq<char>,
    i: int,
) -> bool {
    pkgs[i].name == name && !has_version(other, name, pkgs[i].version)
}

/// `i` is the first package of `pkgs` with the given name at a version that
/// `other` lacks.
pub open spec fn is_first_new(
    pkgs: Seq<ResolvedPackageView>,
    other: Seq<ResolvedPackageView>,
    name: Seq<char>,
    i: int,
) -> bool {
    &&& 0 <= i < pkgs.len()
    &&& is_new_version(pkgs, other, name, i)
    &&& forall|j: int| 0 <= j < i ==> !#[trigger] is_new_version(pkgs, other, name, j)
}

/// The position of the first package of `pkgs` with the given name at a
/// version that `other` lacks.
pub open spec fn first_new(
    pkgs: Seq<ResolvedPackageView>,
    other: Seq<ResolvedPackageView>,
    name: Seq<char>,
) -> Option<int> {
    if exists|i: int| is_first_new(pkgs, other, name, i) {
        Some(choose|i: int| is_first_new(pkgs, other, name, i))
    } else {
        None
    }
}

/// A package that differs between two graphs, by its position in each: `None`
/// where the graph lacks it.
pub struct IndexDiff {
    pub name: Seq<char>,
    pub before: Option<int>,
    pub after: Option<int>,
}

/// The entries for the names of `before`, among its first `n` packages, whose
/// set of versions differs in `after`. Each name counts once, at its first
/// package. On each side the entry names the first package of that name at a
/// version that the other graph lacks, or else the first package of that
/// name; it is `None` only on the side whose graph lacks the name.
pub open spec fn removed_or_changed(
    before: Seq<ResolvedPackageView>,
    after: Seq<ResolvedPackageView>,
    n: nat,
) -> Seq<IndexDiff>
    decreases n,
{
    if n == 0 {
        seq![]
    } else {
        let prev = removed_or_changed(before, after, (n - 1) as nat);
        let i = n - 1;
        let name = before[i].name;
        let gone = first_new(before, after, name);
        let new = first_new(after, before, name);
        if first_named(before, name) == Some(i) && (gone is Some || new is Some) {
            let b = if gone is Some {
                gone
            } else {
                first_named(before, name)
            };
            let a = if new is Some {
                new
            } else {
                first_named(after, name)
            };
            prev.push(IndexDiff { name, before: b, after: a })
        } else {
            prev
        }
    }
}

/// The entries for the packages of `after`, among its first `n`, whose name
/// `before` lacks.
pub open spec fn added(
    before: Seq<ResolvedPackageView>,
    after: Seq<ResolvedPackageView>,
    n: nat,
) -> Seq<IndexDiff>
    decreases n,
{
    if n == 0 {
        seq![]
    } else {
        let prev = added(before, after, (n - 1) as nat);
        let i = n - 1;
        let p = after[i];
        if first_named(after, p.name) == Some(i) && first_named(before, p.name) is None {
            prev.push(IndexDiff { name: p.name, before: None, after: Some(i) })
        } else {
            prev
        }
    }
}

/// Every package name whose versions differ between two graphs: first the
/// names of `before`, in its order, then the names that only `after` has, in
/// its order.
pub open spec fn graph_diff(
    before: Seq<ResolvedPackageView>,
    after: Seq<ResolvedPackageView>,
) -> Seq<IndexDiff> {
    removed_or_changed(before, after, before.len()) + added(before, after, after.len())
}

/// What changed for one package between two graphs: the directories of its
/// source before and after, `None` where the package is new or gone.
#[derive(Debug, Clone, PartialEq, Eq)]
pub struct PackageDiff {
    pub name: String,
    pub before: Option<String>,
    pub after: Option<String>,
}

pub struct PackageDiffView {
    pub name: Seq<char>,
    pub before: Option<Seq<char>>,
    pub after: Option<Seq<char>>,
}

impl View for PackageDiff {
    type V = PackageDiffView;

    open spec fn view(&self) -> PackageDiffView {
        PackageDiffView {
            name: self.name@,
            before: match self.before {
                Some(d) => Some(d@),
                None => None,
            },
            after: match self.after {
                Some(d) => Some(d@),
                None => None,
            },
        }
    }
}

/// The source directory of the package at position `i`, where it has one.
pub open spec fn dir_at(pkgs: Seq<ResolvedPackageView>, i: Option<int>) -> Option<Option<Seq<char>>> {
    match i {
        None => Some(None),
        Some(k) => match source_dir(pkgs[k]) {
            Some(d) => Some(Some(d)),
            None => None,
        },
    }
}

/// The entry with source directories for `e`, or `None` where a package that
/// it names has no source directory.
pub open spec fn resolve(
    before: Seq<ResolvedPackageView>,
    after: Seq<ResolvedPackageView>,
    e: IndexDiff,
) -> Option<PackageDiffView> {
    match (dir_at(before, e.before), dir_at(after, e.after)) {
        (Some(b), Some(a)) => Some(PackageDiffView { name: e.name, before: b, after: a }),
        _ => None,
    }
}

proof fn lemma_first_named_unique(pkgs: Seq<ResolvedPackageView>, name: Seq<char>, i: int)
    requires
        is_first_named(pkgs, name, i),
    ensures
        first_named(pkgs, name) == Some(i),
{
    let j = choose|j: int| is_first_named(pkgs, name, j);
    assert(is_first_named(pkgs, name, j));
    if j < i {
        assert(pkgs[j].name != name);
    }
    if i < j {
        assert(pkgs[i].name != name);
    }
}

proof fn lemma_first_named_none(pkgs: Seq<ResolvedPackageView>, name: Seq<char>)
    requires
        forall|j: int| 0 <= j < pkgs.len() ==> (#[trigger] pkgs[j]).name != name,
    ensures
        first_named(pkgs, name) is None,
{
}

/// The position of the first package of `pkgs` named `name`.
fn find_named(pkgs: &Vec<ResolvedPackage>, name: &String) -> (r: Option<usize>)
    ensures
        r matches Some(i) ==> i < pkgs@.len() && first_named(view_of(pkgs@), name@) == Some(i as int),
        r is None ==> first_named(view_of(pkgs@), name@) is None,
{
    let ghost view = view_of(pkgs@);
    let mut i: usize = 0;
    while i < pkgs.len()
        invariant
            view == view_of(pkgs@),
            i <= pkgs@.len(),
            forall|j: int| 0 <= j < i ==> (#[trigger] view[j]).name != name@,
        decreases pkgs@.len() - i,
    {
        if pkgs[i].name == *name {
            proof {
                lemma_first_named_unique(view, name@, i as int);
            }
            return Some(i);
        }
        i = i + 1;
    }
    proof {
        lemma_first_named_none(view, name@);
    }
    None
}

proof fn lemma_first_new_unique(
    pkgs: Seq<ResolvedPackageView>,
    other: Seq<ResolvedPackageView>,
    name: Seq<char>,
    i: int,
)
    requires
        is_first_new(pkgs, other, name, i),
    ensures
        first_new(pkgs, other, name) == Some(i),
{
    let j = choose|j: int| is_first_new(pkgs, other, name, j);
    assert(is_first_new(pkgs, other, name, j));
    if j < i {
        assert(!is_new_version(pkgs, other, name, j));
    }
    if i < j {
        assert(!is_new_version(pkgs, other, name, i));
    }
}

/// Whether `pkgs` holds a package of the given name at the given version.
fn holds_version(pkgs: &Vec<ResolvedPackage>, name: &String, version: &String) -> (r: bool)
    ensures
        r == has_version(view_of(pkgs@), name@, version@),
{
    let ghost view = view_of(pkgs@);
    let mut i: usize = 0;
    while i < pkgs.len()
        invariant
            view == view_of(pkgs@),
            i <= pkgs@.len(),
            forall|j: int| 0 <= j < i ==> !((#[trigger] view[j]).name == name@ && view[j].version == version@),
        decreases pkgs@.len() - i,
    {
        assert(view[i as int] == pkgs@[i as int]@);
        if pkgs[i].name == *name && pkgs[i].version == *version {
            return true;
        }
        i = i + 1;
    }
    false
}

/// The position of the first package of `pkgs` named `name` at a version
/// that `other` lacks.
fn find_new(pkgs: &Vec<ResolvedPackage>, other: &Vec<ResolvedPackage>, name: &String) -> (r: Option<usize>)
    ensures
        r matches Some(i) ==> i < pkgs@.len() && first_new(view_of(pkgs@), view_of(other@), name@) == Some(i as int),
        r is None ==> first_new(view_of(pkgs@), view_of(other@), name@) is None,
{
    let ghost view = view_of(pkgs@);
    let ghost ov = view_of(other@);
    let mut i: usize = 0;
    while i < pkgs.len()
        invariant
            view == view_of(pkgs@),
            ov == view_of(other@),
            i <= pkgs@.len(),
            forall|j: int| 0 <= j < i ==> !#[trigger] is_new_version(view, ov, name@, j),
        decreases pkgs@.len() - i,
    {
        assert(view[i as int] == pkgs@[i as int]@);
        if pkgs[i].name == *name && !holds_version(other, name, &pkgs[i].version) {
            proof {
                lemma_first_new_unique(view, ov, name@, i as int);
            }
            return Some(i);
        }
        i = i + 1;
    }
    None
}

/// The source directory of the package at `i`, where `i` is given.
fn dir_of_opt(pkgs: &Vec<ResolvedPackage>, i: Option<usize>) -> (r: Result<Option<String>, ReviewError>)
    requires
        i matches Some(k) ==> k < pkgs@.len(),
    ensures
        match r {
            Ok(d) => dir_at(
                view_of(pkgs@),
                match i {
                    Some(k) => Some(k as int),
                    None => None,
                },
            ) == Some(
                match d {
                    Some(x) => Some(x@),
                    None => None::<Seq<char>>,
                },
            ),
            Err(e) => dir_at(
                view_of(pkgs@),
                match i {
                    Some(k) => Some(k as int),
                    None => None,
                },
            ) is None && e is BadManifestPath,
        },
{
    match i {
        None => Ok(None),
        Some(k) => dir_of(pkgs, k),
    }
}

fn dir_of(pkgs: &Vec<ResolvedPackage>, i: usize) -> (r: Result<Option<String>, ReviewError>)
    requires
        i < pkgs@.len(),
    ensures
        match r {
            Ok(d) => dir_at(view_of(pkgs@), Some(i as int)) == Some(
                match d {
                    Some(x) => Some(x@),
                    None => None::<Seq<char>>,
                },
            ),
            Err(e) => dir_at(view_of(pkgs@), Some(i as int)) is None
                && e is BadManifestPath,
        },
{
    match package_dir(&pkgs[i]) {
        Ok(d) => Ok(Some(d)),
        Err(e) => Err(e),
    }
}

/// Compares two dependency graphs: one entry for each package name whose
/// versions differ between them (all versions of the name are compared), in
/// the order of `graph_diff`. An entry's `before` is the source of the first
/// version that `after` lacks, or else of the first package of that name; its
/// `after` likewise from `after`. A side is `None` only where that graph lacks
/// the name. Fails with `BadManifestPath` where such a package has no
/// source directory.
pub fn metadata_diff(before: &DependencyGraph, after: &DependencyGraph) -> (r: Result<Vec<PackageDiff>, ReviewError>)
    ensures
        match r {
            Ok(v) => {
                &&& v@.len() == graph_diff(packages_view(before), packages_view(after)).len()
                &&& forall|k: int| 0 <= k < v@.len() ==> resolve(
                    packages_view(before),
                    packages_view(after),
                    graph_diff(packages_view(before), packages_view(after))[k],
                ) == Some(#[trigger] v@[k]@)
            },
            Err(e) => {
                &&& e is BadManifestPath
                &&& exists|k: int| 0 <= k < graph_diff(packages_view(before), packages_view(after)).len()
                    && resolve(
                    packages_view(before),
                    packages_view(after),
                    #[trigger] graph_diff(packages_view(before), packages_view(after))[k],
                ) is None
            },
        },
{
    let bp = &before.packages;
    let ap = &after.packages;
    let ghost bv = packages_view(before);
    let ghost av = packages_view(after);
    let mut r: Vec<PackageDiff> = Vec::new();
    let mut i: usize = 0;
    while i < bp.len()
        invariant
            bp == &before.packages,
            ap == &after.packages,
            bv == packages_view(before),
            av == packages_view(after),
            i <= bp@.len(),
            r@.len() == removed_or_changed(bv, av, i as nat).len(),
            forall|k: int| 0 <= k < r@.len() ==> resolve(bv, av, removed_or_changed(bv, av, i as nat)[k]) == Some(#[trigger] r@[k]@),
        decreases bp@.len() - i,
    {
        let ghost prev = removed_or_changed(bv, av, i as nat);
        assert(bv[i as int] == bp@[i as int]@);
        let name = &bp[i].name;
        let first = find_named(bp, name);
        let gone = find_new(bp, ap, name);
        let new = find_new(ap, bp, name);
        if first == Some(i) && (gone.is_some() || new.is_some()) {
            let gone = if gone.is_some() {
                gone
            } else {
                first
            };
            let new = if new.is_some() {
                new
            } else {
                find_named(ap, name)
            };
            let ghost e = IndexDiff {
                name: bv[i as int].name,
                before: match gone { Some(k) => Some(k as int), None => None },
                after: match new { Some(k) => Some(k as int), None => None },
            };
            assert(removed_or_changed(bv, av, (i + 1) as nat) == prev.push(e));
            let b = match dir_of_opt(bp, gone) {
                Ok(d) => d,
                Err(err) => {
                    proof {
                        lemma_removed_or_changed_prefix(bv, av, (i + 1) as nat, bv.len());
                    }
                    assert(graph_diff(bv, av)[prev.len() as int] == e);
                    return Err(err);
                },
            };
            let a = match dir_of_opt(ap, new) {
                Ok(d) => d,
                Err(err) => {
                    proof {
                        lemma_removed_or_changed_prefix(bv, av, (i + 1) as nat, bv.len());
                    }
                    assert(graph_diff(bv, av)[prev.len() as int] == e);
                    return Err(err);
                },
            };
            r.push(PackageDiff { name: name.clone(), before: b, after: a });
        } else {
            assert(removed_or_changed(bv, av, (i + 1) as nat) == prev);
        }
        i = i + 1;
    }
    let ghost first_part = removed_or_changed(bv, av, bv.len());
    let mut i: usize = 0;
    while i < ap.len()
        invariant
            bp == &before.packages,
            ap == &after.packages,
            bv == packages_view(before),
            av == packages_view(after),
            first_part == removed_or_changed(bv, av, bv.len()),
            i <= ap@.len(),
            r@.len() == (first_part + added(bv, av, i as nat)).len(),
            forall|k: int| 0 <= k < r@.len() ==> resolve(bv, av, (first_part + added(bv, av, i as nat))[k]) == Some(#[trigger] r@[k]@),
        decreases ap@.len() - i,
    {
        let ghost prev = added(bv, av, i as nat);
        assert(av[i as int] == ap@[i as int]@);
        let name = &ap[i].name;
        let first = find_named(ap, name);
        if first == Some(i) && find_named(bp, name).is_none() {
            let ghost e = IndexDiff { name: av[i as int].name, before: None, after: Some(i as int) };
            assert(added(bv, av, (i + 1) as nat) == prev.push(e));
            let a = match dir_of(ap, i) {
                Ok(d) => d,
                Err(err) => {
                    proof {
                        lemma_added_prefix(bv, av, (i + 1) as nat, av.len());
                    }
                    assert(graph_diff(bv, av)[(first_part.len() + prev.len()) as int] == e);
                    return Err(err);
                },
            };
            r.push(PackageDiff { name: name.clone(), before: None, after: a });
            assert(first_part + added(bv, av, (i + 1) as nat) =~= (first_part + prev).push(e));
        } else {
            assert(added(bv, av, (i + 1) as nat) == prev);
        }
        i = i + 1;
    }
    assert(first_part + added(bv, av, ap@.len() as nat) == graph_diff(bv, av));
    Ok(r)
}

proof fn lemma_removed_or_changed_prefix(
    b: Seq<ResolvedPackageView>,
    a: Seq<ResolvedPackageView>,
    m: nat,
    n: nat,
)
    requires
        m <= n,
    ensures
        removed_or_changed(b, a, m).len() <= removed_or_changed(b, a, n).len(),
        forall|k: int| 0 <= k < removed_or_changed(b, a, m).len() ==> #[trigger] removed_or_changed(b, a, n)[k]
            == removed_or_changed(b, a, m)[k],
    decreases n,
{
    if m < n {
        lemma_removed_or_changed_prefix(b, a, m, (n - 1) as nat);
    }
}

proof fn lemma_added_prefix(b: Seq<ResolvedPackageView>, a: Seq<ResolvedPackageView>, m: nat, n: nat)
    requires
        m <= n,
    ensures
        added(b, a, m).len() <= added(b, a, n).len(),
        forall|k: int| 0 <= k < added(b, a, m).len() ==> #[trigger] added(b, a, n)[k] == added(b, a, m)[k],
    decreases n,
{
    if m < n {
        lemma_added_prefix(b, a, m, (n - 1) as nat);
    }
}

proof fn lemma_first_new_self(g: Seq<ResolvedPackageView>, name: Seq<char>)
    ensures
        first_new(g, g, name) is None,
{
    assert forall|j: int| 0 <= j < g.len() implies !#[trigger] is_new_version(g, g, name, j) by {
        if g[j].name == name {
            assert(has_version(g, name, g[j].version));
        }
    }
}

/// A package whose only version changed between two one-package graphs gives
/// one entry, with the source of each version.
pub proof fn lemma_changed_package_entry(b: ResolvedPackageView, a: ResolvedPackageView)
    requires
        b.name == a.name,
        b.version != a.version,
    ensures
        graph_diff(seq![b], seq![a]) == seq![IndexDiff { name: b.name, before: Some(0), after: Some(0) }],
{
    let before = seq![b];
    let after = seq![a];
    lemma_first_named_unique(before, b.name, 0);
    lemma_first_named_unique(after, a.name, 0);
    assert(!has_version(after, b.name, b.version));
    assert(!has_version(before, a.name, a.version));
    lemma_first_new_unique(before, after, b.name, 0);
    lemma_first_new_unique(after, before, a.name, 0);
    assert(removed_or_changed(before, after, 0) =~= Seq::<IndexDiff>::empty());
    assert(added(before, after, 0) =~= Seq::<IndexDiff>::empty());
    assert(graph_diff(before, after) =~= seq![IndexDiff { name: b.name, before: Some(0), after: Some(0) }]);
}

proof fn lemma_first_named_exists(pkgs: Seq<ResolvedPackageView>, name: Seq<char>, k: int)
    requires
        0 <= k < pkgs.len(),
        pkgs[k].name == name,
    ensures
        first_named(pkgs, name) is Some,
    decreases k,
{
    if exists|j: int| 0 <= j < k && (#[trigger] pkgs[j]).name == name {
        let j = choose|j: int| 0 <= j < k && (#[trigger] pkgs[j]).name == name;
        lemma_first_named_exists(pkgs, name, j);
    } else {
        assert(is_first_named(pkgs, name, k));
    }
}

/// The side of an entry that names a package of `pkgs`: it is `None` exactly
/// where `pkgs` has no package of that name, and else a package of that name.
pub open spec fn side_ok(pkgs: Seq<ResolvedPackageView>, name: Seq<char>, side: Option<int>) -> bool {
    match side {
        Some(x) => 0 <= x < pkgs.len() && pkgs[x].name == name,
        None => forall|j: int| 0 <= j < pkgs.len() ==> (#[trigger] pkgs[j]).name != name,
    }
}

proof fn lemma_side_of_first_named(pkgs: Seq<ResolvedPackageView>, name: Seq<char>)
    ensures
        side_ok(pkgs, name, first_named(pkgs, name)),
{
    if first_named(pkgs, name) is None {
        assert forall|j: int| 0 <= j < pkgs.len() implies (#[trigger] pkgs[j]).name != name by {
            if pkgs[j].name == name {
                lemma_first_named_exists(pkgs, name, j);
            }
        }
    }
}

proof fn lemma_removed_or_changed_sides(
    b: Seq<ResolvedPackageView>,
    a: Seq<ResolvedPackageView>,
    n: nat,
    k: int,
)
    requires
        n <= b.len(),
        0 <= k < removed_or_changed(b, a, n).len(),
    ensures
        side_ok(b, removed_or_changed(b, a, n)[k].name, removed_or_changed(b, a, n)[k].before),
        side_ok(a, removed_or_changed(b, a, n)[k].name, removed_or_changed(b, a, n)[k].after),
        removed_or_changed(b, a, n)[k].before is Some,
    decreases n,
{
    let prev = removed_or_changed(b, a, (n - 1) as nat);
    if k < prev.len() {
        lemma_removed_or_changed_sides(b, a, (n - 1) as nat, k);
    } else {
        let i = n - 1;
        let name = b[i].name;
        lemma_side_of_first_named(a, name);
        if first_new(b, a, name) is Some {
            let x = first_new(b, a, name)->Some_0;
            assert(is_first_new(b, a, name, x));
        }
        if first_new(a, b, name) is Some {
            let x = first_new(a, b, name)->Some_0;
            assert(is_first_new(a, b, name, x));
        }
    }
}

proof fn lemma_added_sides(b: Seq<ResolvedPackageView>, a: Seq<ResolvedPackageView>, n: nat, k: int)
    requires
        n <= a.len(),
        0 <= k < added(b, a, n).len(),
    ensures
        side_ok(b, added(b, a, n)[k].name, added(b, a, n)[k].before),
        side_ok(a, added(b, a, n)[k].name, added(b, a, n)[k].after),
        added(b, a, n)[k].after is Some,
    decreases n,
{
    let prev = added(b, a, (n - 1) as nat);
    if k < prev.len() {
        lemma_added_sides(b, a, (n - 1) as nat, k);
    } else {
        lemma_side_of_first_named(b, a[n - 1].name);
    }
}

/// Each entry of a comparison names, on each side, a package of its name from
/// that graph, and is `None` on a side only where that graph lacks the name;
/// no entry is empty on both sides.
pub proof fn lemma_diff_entry_sides(b: Seq<ResolvedPackageView>, a: Seq<ResolvedPackageView>, k: int)
    requires
        0 <= k < graph_diff(b, a).len(),
    ensures
        side_ok(b, graph_diff(b, a)[k].name, graph_diff(b, a)[k].before),
        side_ok(a, graph_diff(b, a)[k].name, graph_diff(b, a)[k].after),
        graph_diff(b, a)[k].before is Some || graph_diff(b, a)[k].after is Some,
{
    let first = removed_or_changed(b, a, b.len());
    if k < first.len() {
        lemma_removed_or_changed_sides(b, a, b.len(), k);
    } else {
        lemma_added_sides(b, a, a.len(), k - first.len());
    }
}

proof fn lemma_first_new_exists(
    pkgs: Seq<ResolvedPackageView>,
    other: Seq<ResolvedPackageView>,
    name: Seq<char>,
    k: int,
)
    requires
        0 <= k < pkgs.len(),
        is_new_version(pkgs, other, name, k),
    ensures
        first_new(pkgs, other, name) is Some,
    decreases k,
{
    if exists|j: int| 0 <= j < k && #[trigger] is_new_version(pkgs, other, name, j) {
        let j = choose|j: int| 0 <= j < k && #[trigger] is_new_version(pkgs, other, name, j);
        lemma_first_new_exists(pkgs, other, name, j);
    } else {
        assert(is_first_new(pkgs, other, name, k));
    }
}

/// A package whose version the new graph lacks, under a name that the new
/// graph still has, gives an entry for that name with a source on both sides.
pub proof fn lemma_changed_name_has_entry(
    b: Seq<ResolvedPackageView>,
    a: Seq<ResolvedPackageView>,
    x: int,
    y: int,
)
    requires
        0 <= x < b.len(),
        0 <= y < a.len(),
        b[x].name == a[y].name,
        !has_version(a, b[x].name, b[x].version),
    ensures
        exists|k: int|
            0 <= k < graph_diff(b, a).len() && (#[trigger] graph_diff(b, a)[k]).name == b[x].name
                && graph_diff(b, a)[k].before is Some && graph_diff(b, a)[k].after is Some,
{
    let name = b[x].name;
    lemma_first_named_exists(b, name, x);
    let i = first_named(b, name)->Some_0;
    assert(is_first_named(b, name, i));
    lemma_first_new_exists(b, a, name, x);
    let n = (i + 1) as nat;
    let prev = removed_or_changed(b, a, i as nat);
    assert(removed_or_changed(b, a, n).len() == prev.len() + 1);
    let k = prev.len() as int;
    lemma_removed_or_changed_prefix(b, a, n, b.len());
    assert(graph_diff(b, a)[k] == removed_or_changed(b, a, n)[k]);
    assert(graph_diff(b, a)[k].name == name);
    lemma_diff_entry_sides(b, a, k);
    if graph_diff(b, a)[k].after is None {
        assert(a[y].name != name);
    }
}

/// Comparing a graph with itself finds no difference.
pub proof fn lemma_diff_self_empty(g: Seq<ResolvedPackageView>)
    ensures
        graph_diff(g, g) == Seq::<IndexDiff>::empty(),
{
    lemma_removed_or_changed_self(g, g.len());
    lemma_added_self(g, g.len());
    assert(graph_diff(g, g) =~= Seq::<IndexDiff>::empty());
}

proof fn lemma_removed_or_changed_self(g: Seq<ResolvedPackageView>, n: nat)
    requires
        n <= g.len(),
    ensures
        removed_or_changed(g, g, n) == Seq::<IndexDiff>::empty(),
    decreases n,
{
    if n > 0 {
        lemma_removed_or_changed_self(g, (n - 1) as nat);
        lemma_first_new_self(g, g[n - 1].name);
    }
}

proof fn lemma_added_self(g: Seq<ResolvedPackageView>, n: nat)
    requires
        n <= g.len(),
    ensures
        added(g, g, n) == Seq::<IndexDiff>::empty(),
    decreases n,
{
    if n > 0 {
        lemma_added_self(g, (n - 1) as nat);
    }
}

} // verus!
