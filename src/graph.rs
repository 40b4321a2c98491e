use vstd::prelude::*;

use crate::error::ReviewError;
use crate::package_id::{version_text, PackageId, PackageIdView};

verus! {

/// One package of a resolved dependency graph, as the metadata query reports it.
#[derive(Debug, Clone, PartialEq, Eq)]
pub struct ResolvedPackage {
    pub name: String,
    pub version: String,
    /// The package's identifier in the graph; it names where the package came from.
    pub id: String,
    pub manifest_path: String,
}

pub struct ResolvedPackageView {
    pub name: Seq<char>,
    pub version: Seq<char>,
    pub id: Seq<char>,
    pub manifest_path: Seq<char>,
}

impl View for ResolvedPackage {
    type V = ResolvedPackageView;

    open spec fn view(&self) -> ResolvedPackageView {
        ResolvedPackageView {
            name: self.name@,
            version: self.version@,
            id: self.id@,
            manifest_path: self.manifest_path@,
        }
    }
}

/// The result of one metadata query: the workspace root and every package of
/// the resolved graph.
#[derive(Debug, Clone, PartialEq, Eq)]
pub struct DependencyGraph {
    pub workspace_root: String,
    pub packages: Vec<ResolvedPackage>,
}

/// The views of a sequence of packages.
pub open spec fn view_of(s: Seq<ResolvedPackage>) -> Seq<ResolvedPackageView> {
    s.map_values(|p: ResolvedPackage| p@)
}

/// The views of the packages of a graph.
pub open spec fn packages_view(g: &DependencyGraph) -> Seq<ResolvedPackageView> {
    view_of(g.packages@)
}

/// What `std::path::Path::parent` yields for a path: `None` for a root, a
/// prefix or the empty path.
pub uninterp spec fn path_parent(p: Seq<char>) -> Option<Seq<char>>;

/// Relies on `std::path::Path::parent`: the directory that holds `p`, if any;
/// the empty path has none.
#[verifier::external_body]
fn parent_of(p: &str) -> (r: Option<String>)
    ensures
        r matches Some(d) ==> path_parent(p@) == Some(d@),
        r is None ==> path_parent(p@) is None,
        p@.len() == 0 ==> r is None,
{
    match std::path::Path::new(p).parent() {
        Some(d) => Some(d.to_string_lossy().into_owned()),
        None => None,
    }
}

/// The text that marks a package of the public registry in its identifier.
pub const REGISTRY_MARKER: &'static str = "crates.io-index";

/// `pat` occurs in `s` at position `i`.
pub open spec fn occurs_at(s: Seq<char>, pat: Seq<char>, i: int) -> bool {
    0 <= i && i + pat.len() <= s.len() && s.subrange(i, i + pat.len()) == pat
}

/// `pat` occurs somewhere in `s`.
pub open spec fn contains(s: Seq<char>, pat: Seq<char>) -> bool {
    exists|i: int| occurs_at(s, pat, i)
}

/// The package comes from the public registry, and so is worth reviewing.
pub open spec fn is_registry(p: ResolvedPackageView) -> bool {
    contains(p.id, REGISTRY_MARKER@)
}

fn occurs_at_exec(s: &str, n: usize, pat: &str, m: usize, i: usize) -> (r: bool)
    requires
        n == s@.len(),
        m == pat@.len(),
        i + m <= n,
    ensures
        r == occurs_at(s@, pat@, i as int),
{
    let mut k: usize = 0;
    while k < m
        invariant
            n == s@.len(),
            m == pat@.len(),
            i + m <= n,
            k <= m,
            forall|j: int| 0 <= j < k ==> s@[i + j] == pat@[j],
        decreases m - k,
    {
        if s.get_char(i + k) != pat.get_char(k) {
            assert(s@.subrange(i as int, i + m)[k as int] != pat@[k as int]);
            return false;
        }
        k = k + 1;
    }
    assert(s@.subrange(i as int, i + m) =~= pat@);
    true
}

/// Whether `pat` occurs in `s`.
pub fn contains_text(s: &str, pat: &str) -> (r: bool)
    ensures
        r == contains(s@, pat@),
{
    let n = s.unicode_len();
    let m = pat.unicode_len();
    if m > n {
        return false;
    }
    if m == 0 {
        assert(s@.subrange(0, 0) =~= pat@);
        assert(occurs_at(s@, pat@, 0));
        return true;
    }
    let mut i: usize = 0;
    while i <= n - m
        invariant
            n == s@.len(),
            m == pat@.len(),
            1 <= m <= n,
            i <= n - m + 1,
            forall|j: int| 0 <= j < i ==> !occurs_at(s@, pat@, j),
        decreases n - i + 1,
    {
        if occurs_at_exec(s, n, pat, m, i) {
            return true;
        }
        i = i + 1;
    }
    false
}

impl ResolvedPackage {
    /// Whether the package comes from the public registry.
    pub fn is_registry(&self) -> (r: bool)
        ensures
            r == is_registry(self@),
    {
        proof {
            reveal_strlit("crates.io-index");
        }
        contains_text(self.id.as_str(), REGISTRY_MARKER)
    }
}

/// The directory that holds the package's source: the parent of its manifest.
pub open spec fn source_dir(p: ResolvedPackageView) -> Option<Seq<char>> {
    path_parent(p.manifest_path)
}

/// The directory of the package's source; fails where its manifest path has
/// no parent.
pub fn package_dir(pkg: &ResolvedPackage) -> (r: Result<String, ReviewError>)
    ensures
        match r {
            Ok(d) => source_dir(pkg@) == Some(d@),
            Err(e) => {
                &&& source_dir(pkg@) is None
                &&& e matches ReviewError::BadManifestPath(t) && t@ == pkg@.manifest_path
            },
        },
{
    match parent_of(pkg.manifest_path.as_str()) {
        Some(d) => Ok(d),
        None => Err(ReviewError::BadManifestPath(pkg.manifest_path.clone())),
    }
}

/// The package is the exact version that `id` names.
pub open spec fn matches_id(p: ResolvedPackageView, id: PackageIdView) -> bool {
    p.name == id.name && p.version == version_text(id.version)
}

/// `i` is the first package of `pkgs` that matches `id`.
pub open spec fn is_first_match(
    pkgs: Seq<ResolvedPackageView>,
    id: PackageIdView,
    i: int,
) -> bool {
    &&& 0 <= i < pkgs.len()
    &&& matches_id(pkgs[i], id)
    &&& forall|j: int| 0 <= j < i ==> !matches_id(#[trigger] pkgs[j], id)
}

/// Finds in a graph the package that `id` names and returns the directory of
/// its source: the first matching package is taken. Fails with
/// `PackageNotFound` where none matches, and with `BadManifestPath` where the
/// manifest path of the match has no parent.
pub fn locate_package(graph: &DependencyGraph, id: &PackageId) -> (r: Result<String, ReviewError>)
    ensures
        match r {
            Ok(d) => exists|i: int|
                is_first_match(packages_view(graph), id@, i) && source_dir(
                    packages_view(graph)[i],
                ) == Some(d@),
            Err(ReviewError::PackageNotFound(t)) => t@ == id@.text() && forall|i: int|
                0 <= i < graph.packages@.len() ==> !matches_id(
                    #[trigger] packages_view(graph)[i],
                    id@,
                ),
            Err(ReviewError::BadManifestPath(_)) => exists|i: int|
                is_first_match(packages_view(graph), id@, i) && source_dir(
                    packages_view(graph)[i],
                ) is None,
            Err(_) => false,
        },
{
    let version = id.version().to_string();
    let pkgs = &graph.packages;
    let ghost view = packages_view(graph);
    let mut i: usize = 0;
    while i < pkgs.len()
        invariant
            view == packages_view(graph),
            pkgs == &graph.packages,
            version@ == version_text(id@.version),
            i <= pkgs@.len(),
            forall|j: int| 0 <= j < i ==> !matches_id(#[trigger] view[j], id@),
        decreases pkgs@.len() - i,
    {
        let p = &pkgs[i];
        if p.name == *id.name() && p.version == version {
            assert(is_first_match(view, id@, i as int));
            return package_dir(p);
        }
        i = i + 1;
    }
    Err(ReviewError::PackageNotFound(id.to_string()))
}

/// The text of a throwaway manifest whose one dependency is `id`, pinned to
/// its exact version.
pub open spec fn manifest_text(id: PackageIdView) -> Seq<char> {
    FETCH_MANIFEST_HEAD@ + id.name + " = \"="@ + version_text(id.version) + "\"\n"@
}

/// The part of the throwaway manifest that does not depend on the package.
pub const FETCH_MANIFEST_HEAD: &'static str = "\n[package]\nname = \"cargo-diff-temp-pkg\"\nversion = \"0.0.0\"\n\n[lib]\npath = \"./Cargo.toml\"\n\n[dependencies]\n";

/// A manifest whose only dependency is `id` at exactly its version, for
/// resolving and fetching that one package.
pub fn format_cargo_toml(id: &PackageId) -> (r: String)
    ensures
        r@ == manifest_text(id@),
{
    let mut s = String::from_str(FETCH_MANIFEST_HEAD);
    s.append(id.name().as_str());
    s.append(" = \"=");
    s.append(id.version().to_string().as_str());
    s.append("\"\n");
    proof {
        reveal_strlit(" = \"=");
        reveal_strlit("\"\n");
    }
    s
}

} // verus!
