use vstd::prelude::*;

use crate::error::ReviewError;
use crate::graph::{
    is_registry, package_dir, packages_view, source_dir, DependencyGraph, ResolvedPackageView,
};
use crate::package_id::PackageId;
use crate::snapshot_diff::{PackageDiff, PackageDiffView};

verus! {

/// Compare the sources of two package versions: copy both into `dest` where
/// it is given, else show a line diff of the two trees.
#[derive(Debug)]
pub struct Diff {
    pub first: PackageId,
    pub second: PackageId,
    pub dest: Option<String>,
}

impl Diff {
    /// The names of the directories, under the destination, that receive the
    /// two sources: the text form of each identifier.
    pub fn destination_names(&self) -> (r: (String, String))
        ensures
            r.0@ == self.first@.text(),
            r.1@ == self.second@.text(),
    {
        (self.first.to_string(), self.second.to_string())
    }
}

/// The error for a line diff tool that could not be launched: where a probe
/// finds no diff tool at all, `MissingDiffTool`; else the launch error.
pub fn diff_launch_error(tool_present: bool, launch_error: String) -> (r: ReviewError)
    ensures
        !tool_present ==> r is MissingDiffTool,
        tool_present ==> r == ReviewError::Io(launch_error),
{
    if tool_present {
        ReviewError::Io(launch_error)
    } else {
        ReviewError::MissingDiffTool
    }
}

/// Copy the source of every registry dependency of the current project into
/// `dest`.
#[derive(Debug)]
pub struct Current {
    pub dest: String,
}

/// One directory to copy: its source and the name it gets under the destination.
#[derive(Debug, Clone, PartialEq, Eq)]
pub struct CopyJob {
    pub src: String,
    pub dst_name: String,
}

/// What a snapshot of the current project does: the names of the packages it
/// skips, and the copies it makes.
#[derive(Debug, Clone, PartialEq, Eq)]
pub struct CurrentPlan {
    pub skipped: Vec<String>,
    pub copies: Vec<CopyJob>,
}

/// The name under which a package's source is kept: `name:version`.
pub open spec fn snapshot_name(p: ResolvedPackageView) -> Seq<char> {
    p.name + seq![':'] + p.version
}

/// The names of the packages, among the first `n`, that are not from the registry.
pub open spec fn skipped_names(pkgs: Seq<ResolvedPackageView>, n: nat) -> Seq<Seq<char>>
    decreases n,
{
    if n == 0 {
        seq![]
    } else if is_registry(pkgs[n - 1]) {
        skipped_names(pkgs, (n - 1) as nat)
    } else {
        skipped_names(pkgs, (n - 1) as nat).push(pkgs[n - 1].name)
    }
}

/// The packages, among the first `n`, that come from the registry.
pub open spec fn registry_packages(pkgs: Seq<ResolvedPackageView>, n: nat) -> Seq<
    ResolvedPackageView,
>
    decreases n,
{
    if n == 0 {
        seq![]
    } else if is_registry(pkgs[n - 1]) {
        registry_packages(pkgs, (n - 1) as nat).push(pkgs[n - 1])
    } else {
        registry_packages(pkgs, (n - 1) as nat)
    }
}

/// The copy that a snapshot makes of a registry package.
pub open spec fn copy_of(p: ResolvedPackageView, job: CopyJob) -> bool {
    source_dir(p) == Some(job.src@) && job.dst_name@ == snapshot_name(p)
}

impl Current {
    /// Plans the snapshot of a project's graph: packages from elsewhere than
    /// the registry (the project's own among them) are skipped by name; each
    /// registry package is copied from its source directory to
    /// `name:version`. Fails with `BadManifestPath` where a registry package
    /// has no source directory.
    pub fn plan(&self, graph: &DependencyGraph) -> (r: Result<CurrentPlan, ReviewError>)
        ensures
            match r {
                Ok(plan) => {
                    let reg = registry_packages(packages_view(graph), graph.packages@.len());
                    &&& plan.skipped@.map_values(|s: String| s@) == skipped_names(
                        packages_view(graph),
                        graph.packages@.len(),
                    )
                    &&& plan.copies@.len() == reg.len()
                    &&& forall|k: int| 0 <= k < reg.len() ==> copy_of(reg[k], #[trigger] plan.copies@[k])
                },
                Err(e) => {
                    let reg = registry_packages(packages_view(graph), graph.packages@.len());
                    &&& e is BadManifestPath
                    &&& exists|k: int| 0 <= k < reg.len() && source_dir(#[trigger] reg[k]) is None
                },
            },
    {
        let pkgs = &graph.packages;
        let ghost view = packages_view(graph);
        let mut skipped: Vec<String> = Vec::new();
        let mut copies: Vec<CopyJob> = Vec::new();
        let mut i: usize = 0;
        while i < pkgs.len()
            invariant
                pkgs == &graph.packages,
                view == packages_view(graph),
                i <= pkgs@.len(),
                skipped@.map_values(|s: String| s@) == skipped_names(view, i as nat),
                copies@.len() == registry_packages(view, i as nat).len(),
                forall|k: int|
                    0 <= k < copies@.len() ==> copy_of(
                        registry_packages(view, i as nat)[k],
                        #[trigger] copies@[k],
                    ),
            decreases pkgs@.len() - i,
        {
            let p = &pkgs[i];
            assert(view[i as int] == p@);
            if p.is_registry() {
                let src = match package_dir(p) {
                    Ok(d) => d,
                    Err(e) => {
                        proof {
                            lemma_registry_prefix(view, (i + 1) as nat, pkgs@.len() as nat);
                            assert(registry_packages(view, (i + 1) as nat) == registry_packages(
                                view,
                                i as nat,
                            ).push(p@));
                            assert(registry_packages(view, (i + 1) as nat)[copies@.len() as int]
                                == p@);
                            assert(registry_packages(view, pkgs@.len() as nat)[copies@.len() as int]
                                == p@);
                        }
                        return Err(e);
                    },
                };
                proof {
                    reveal_strlit(":");
                }
                let mut dst_name = p.name.clone();
                dst_name.append(":");
                dst_name.append(p.version.as_str());
                assert(dst_name@ =~= snapshot_name(p@));
                assert(registry_packages(view, (i + 1) as nat) == registry_packages(
                    view,
                    i as nat,
                ).push(p@));
                let job = CopyJob { src, dst_name };
                assert(copy_of(p@, job));
                copies.push(job);
            } else {
                skipped.push(p.name.clone());
                assert(skipped@.map_values(|s: String| s@) =~= skipped_names(view, (i + 1) as nat));
            }
            i = i + 1;
        }
        Ok(CurrentPlan { skipped, copies })
    }
}

proof fn lemma_registry_prefix(pkgs: Seq<ResolvedPackageView>, m: nat, n: nat)
    requires
        m <= n,
    ensures
        registry_packages(pkgs, m).len() <= registry_packages(pkgs, n).len(),
        forall|k: int|
            0 <= k < registry_packages(pkgs, m).len() ==> #[trigger] registry_packages(pkgs, n)[k]
                == registry_packages(pkgs, m)[k],
    decreases n,
{
    if m < n {
        lemma_registry_prefix(pkgs, m, (n - 1) as nat);
    }
}

/// A project whose graph is its own package and one registry dependency: the
/// snapshot skips the project's package and copies the dependency alone.
pub proof fn lemma_snapshot_member_and_dependency(m: ResolvedPackageView, p: ResolvedPackageView)
    requires
        !is_registry(m),
        is_registry(p),
    ensures
        skipped_names(seq![m, p], 2) == seq![m.name],
        registry_packages(seq![m, p], 2) == seq![p],
        skipped_names(seq![p, m], 2) == seq![m.name],
        registry_packages(seq![p, m], 2) == seq![p],
{
    let g1 = seq![m, p];
    let g2 = seq![p, m];
    assert(g1[0] == m && g1[1] == p);
    assert(g2[0] == p && g2[1] == m);
    assert(skipped_names(g1, 0) =~= Seq::<Seq<char>>::empty());
    assert(registry_packages(g1, 0) =~= Seq::<ResolvedPackageView>::empty());
    assert(skipped_names(g2, 0) =~= Seq::<Seq<char>>::empty());
    assert(registry_packages(g2, 0) =~= Seq::<ResolvedPackageView>::empty());
    assert(skipped_names(g1, 1) =~= seq![m.name]);
    assert(skipped_names(g1, 2) =~= seq![m.name]);
    assert(registry_packages(g1, 1) =~= Seq::<ResolvedPackageView>::empty());
    assert(registry_packages(g1, 2) =~= seq![p]);
    assert(skipped_names(g2, 1) =~= Seq::<Seq<char>>::empty());
    assert(skipped_names(g2, 2) =~= seq![m.name]);
    assert(registry_packages(g2, 1) =~= seq![p]);
    assert(registry_packages(g2, 2) =~= seq![p]);
}

/// One directory that an update diff writes: the source, the side (`before`
/// or `after`) and the package name under it.
#[derive(Debug, Clone, PartialEq, Eq)]
pub struct DumpJob {
    pub src: String,
    pub side: String,
    pub name: String,
}

/// The copies that dumping an entry makes: its `before` source to
/// `before/<name>` and its `after` source to `after/<name>`, each where present.
pub open spec fn dump_jobs_of(d: PackageDiffView) -> Seq<(Seq<char>, Seq<char>, Seq<char>)> {
    let b = match d.before {
        Some(s) => seq![(s, "before"@, d.name)],
        None => seq![],
    };
    let a = match d.after {
        Some(s) => seq![(s, "after"@, d.name)],
        None => seq![],
    };
    b + a
}

impl PackageDiff {
    /// The copies that dumping this entry under a destination makes.
    pub fn dump_jobs(&self) -> (r: Vec<DumpJob>)
        ensures
            r@.map_values(|j: DumpJob| (j.src@, j.side@, j.name@)) == dump_jobs_of(self@),
    {
        proof {
            reveal_strlit("before");
            reveal_strlit("after");
        }
        let mut r: Vec<DumpJob> = Vec::new();
        if let Some(src) = &self.before {
            r.push(DumpJob { src: src.clone(), side: String::from_str("before"), name: self.name.clone() });
        }
        if let Some(src) = &self.after {
            r.push(DumpJob { src: src.clone(), side: String::from_str("after"), name: self.name.clone() });
        }
        assert(r@.map_values(|j: DumpJob| (j.src@, j.side@, j.name@)) =~= dump_jobs_of(self@));
        r
    }
}

/// Update the project's dependencies, copy the sources that changed into
/// `dest`, and leave the lock file as it was.
#[derive(Debug)]
pub struct UpdateDiff {
    pub dest: String,
    /// Arguments handed on to the update command.
    pub args: Vec<String>,
}

/// Where an update diff stands.
#[derive(Debug, Clone, Copy, PartialEq, Eq, Structural)]
pub enum UpdateStage {
    Start,
    QueryingBefore,
    Acquiring,
    Updating,
    QueryingAfter,
    Dumping,
    Restoring,
    Done,
    Failed,
}

/// What the caller must do next in an update diff.
#[derive(Debug, Clone, Copy, PartialEq, Eq, Structural)]
pub enum UpdateAction {
    /// Query the project's dependency graph before the update.
    QueryBefore,
    /// Read the lock file and take a guard on it.
    AcquireGuard,
    /// Run the update command.
    RunUpdate,
    /// Query the graph after the update.
    QueryAfter,
    /// Compare the two graphs and dump every entry.
    DumpDiff,
    /// Restore the lock file through the guard.
    RestoreLockfile,
    /// Stop: the update diff succeeded.
    Finish,
    /// Stop: the update diff failed; report the first error.
    Fail,
}

/// The decisions of an update diff: the caller performs each action and
/// reports whether it succeeded.
#[derive(Debug, Clone, Copy, PartialEq, Eq)]
pub struct UpdateSession {
    pub stage: UpdateStage,
    /// The lock file guard is held and not yet restored.
    pub guard_held: bool,
    /// An action after the guard was taken failed.
    pub failed: bool,
}

impl UpdateSession {
    /// The guard is held exactly in the stages between taking it and restoring.
    pub open spec fn wf(self) -> bool {
        self.guard_held <==> (self.stage is Updating || self.stage is QueryingAfter
            || self.stage is Dumping || self.stage is Restoring)
    }
}

/// The next state and action, given whether the last action succeeded.
pub open spec fn next_step(s: UpdateSession, ok: bool) -> (UpdateSession, UpdateAction) {
    match s.stage {
        UpdateStage::Start => (
            UpdateSession { stage: UpdateStage::QueryingBefore, ..s },
            UpdateAction::QueryBefore,
        ),
        UpdateStage::QueryingBefore => if ok {
            (UpdateSession { stage: UpdateStage::Acquiring, ..s }, UpdateAction::AcquireGuard)
        } else {
            (UpdateSession { stage: UpdateStage::Failed, ..s }, UpdateAction::Fail)
        },
        UpdateStage::Acquiring => if ok {
            (
                UpdateSession { stage: UpdateStage::Updating, guard_held: true, ..s },
                UpdateAction::RunUpdate,
            )
        } else {
            (UpdateSession { stage: UpdateStage::Failed, ..s }, UpdateAction::Fail)
        },
        UpdateStage::Updating => if ok {
            (UpdateSession { stage: UpdateStage::QueryingAfter, ..s }, UpdateAction::QueryAfter)
        } else {
            (
                UpdateSession { stage: UpdateStage::Restoring, failed: true, ..s },
                UpdateAction::RestoreLockfile,
            )
        },
        UpdateStage::QueryingAfter => if ok {
            (UpdateSession { stage: UpdateStage::Dumping, ..s }, UpdateAction::DumpDiff)
        } else {
            (
                UpdateSession { stage: UpdateStage::Restoring, failed: true, ..s },
                UpdateAction::RestoreLockfile,
            )
        },
        UpdateStage::Dumping => (
            UpdateSession { stage: UpdateStage::Restoring, failed: s.failed || !ok, ..s },
            UpdateAction::RestoreLockfile,
        ),
        UpdateStage::Restoring => if ok && !s.failed {
            (
                UpdateSession { stage: UpdateStage::Done, guard_held: false, ..s },
                UpdateAction::Finish,
            )
        } else {
            (
                UpdateSession { stage: UpdateStage::Failed, guard_held: false, ..s },
                UpdateAction::Fail,
            )
        },
        UpdateStage::Done => (s, UpdateAction::Finish),
        UpdateStage::Failed => (s, UpdateAction::Fail),
    }
}

impl UpdateSession {
    /// A session that has done nothing yet.
    pub fn new() -> (r: UpdateSession)
        ensures
            r.stage == UpdateStage::Start,
            !r.guard_held,
            !r.failed,
            r.wf(),
    {
        UpdateSession { stage: UpdateStage::Start, guard_held: false, failed: false }
    }

    /// Moves on, given whether the last action succeeded (ignored at the
    /// start), and returns the next action.
    pub fn step(&mut self, ok: bool) -> (a: UpdateAction)
        ensures
            (*final(self), a) == next_step(*old(self), ok),
    {
        let s = *self;
        let (next, action) = match s.stage {
            UpdateStage::Start => (
                UpdateSession { stage: UpdateStage::QueryingBefore, ..s },
                UpdateAction::QueryBefore,
            ),
            UpdateStage::QueryingBefore => if ok {
                (UpdateSession { stage: UpdateStage::Acquiring, ..s }, UpdateAction::AcquireGuard)
            } else {
                (UpdateSession { stage: UpdateStage::Failed, ..s }, UpdateAction::Fail)
            },
            UpdateStage::Acquiring => if ok {
                (
                    UpdateSession { stage: UpdateStage::Updating, guard_held: true, ..s },
                    UpdateAction::RunUpdate,
                )
            } else {
                (UpdateSession { stage: UpdateStage::Failed, ..s }, UpdateAction::Fail)
            },
            UpdateStage::Updating => if ok {
                (UpdateSession { stage: UpdateStage::QueryingAfter, ..s }, UpdateAction::QueryAfter)
            } else {
                (
                    UpdateSession { stage: UpdateStage::Restoring, failed: true, ..s },
                    UpdateAction::RestoreLockfile,
                )
            },
            UpdateStage::QueryingAfter => if ok {
                (UpdateSession { stage: UpdateStage::Dumping, ..s }, UpdateAction::DumpDiff)
            } else {
                (
                    UpdateSession { stage: UpdateStage::Restoring, failed: true, ..s },
                    UpdateAction::RestoreLockfile,
                )
            },
            UpdateStage::Dumping => (
                UpdateSession { stage: UpdateStage::Restoring, failed: s.failed || !ok, ..s },
                UpdateAction::RestoreLockfile,
            ),
            UpdateStage::Restoring => if ok && !s.failed {
                (
                    UpdateSession { stage: UpdateStage::Done, guard_held: false, ..s },
                    UpdateAction::Finish,
                )
            } else {
                (
                    UpdateSession { stage: UpdateStage::Failed, guard_held: false, ..s },
                    UpdateAction::Fail,
                )
            },
            UpdateStage::Done => (s, UpdateAction::Finish),
            UpdateStage::Failed => (s, UpdateAction::Fail),
        };
        *self = next;
        action
    }
}

/// Every step keeps the guard's bookkeeping right, and an update diff never
/// stops while the lock file guard is still held.
pub proof fn lemma_guard_released_at_end(s: UpdateSession, ok: bool)
    requires
        s.wf(),
    ensures
        next_step(s, ok).0.wf(),
        next_step(s, ok).1 is Finish || next_step(s, ok).1 is Fail ==> !next_step(s, ok).0.guard_held,
{
}

/// When every action succeeds, an update diff queries, takes the guard,
/// updates, queries again, dumps the differences and restores the lock file
/// before it finishes, with the guard released.
pub proof fn lemma_successful_update_restores(s0: UpdateSession)
    requires
        s0.stage is Start,
        !s0.guard_held,
        !s0.failed,
    ensures
        ({
            let (s1, a1) = next_step(s0, true);
            let (s2, a2) = next_step(s1, true);
            let (s3, a3) = next_step(s2, true);
            let (s4, a4) = next_step(s3, true);
            let (s5, a5) = next_step(s4, true);
            let (s6, a6) = next_step(s5, true);
            let (s7, a7) = next_step(s6, true);
            &&& a1 is QueryBefore
            &&& a2 is AcquireGuard
            &&& a3 is RunUpdate
            &&& a4 is QueryAfter
            &&& a5 is DumpDiff
            &&& a6 is RestoreLockfile
            &&& a7 is Finish
            &&& s7.stage is Done
            &&& !s7.guard_held
        }),
{
}

/// A failed update is followed by restoring the lock file, and then the update
/// diff fails, whatever the restore reports.
pub proof fn lemma_failed_update_restores(s: UpdateSession, ok: bool)
    requires
        s.wf(),
        s.stage is Updating,
    ensures
        next_step(s, false).1 is RestoreLockfile,
        next_step(s, false).0.guard_held,
        next_step(next_step(s, false).0, ok).1 is Fail,
        !next_step(next_step(s, false).0, ok).0.guard_held,
{
}

} // verus!
