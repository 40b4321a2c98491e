use vstd::prelude::*;

use crate::error::ReviewError;
use crate::graph::path_parent;

verus! {

/// What `std::path::Path::with_extension` yields for a path and an extension.
pub uninterp spec fn path_with_extension(p: Seq<char>, ext: Seq<char>) -> Seq<char>;

/// Relies on `std::path::Path::with_extension`: the path with the extension
/// of its file name replaced by `ext`; only the file name changes, so the
/// result has the parent of `p` (`Path::parent`): it is a sibling. It panics
/// where `ext` holds a path separator, which `requires` leaves out.
#[verifier::external_body]
fn with_extension(p: &str, ext: &str) -> (r: String)
    requires
        forall|k: int| 0 <= k < ext@.len() ==> ext@[k] != '/' && ext@[k] != '\\',
    ensures
        r@ == path_with_extension(p@, ext@),
        path_parent(r@) == path_parent(p@),
{
    std::path::Path::new(p).with_extension(ext).to_string_lossy().into_owned()
}

/// The start of the error text for a lock file path that names no file.
pub const NO_FILE_NAME: &'static str = "lock file path names no file: ";

/// The extension given to the backup copy of a lock file.
pub const BACKUP_EXTENSION: &'static str = ".lock.back";

/// The state of a guard around a lock file: where the file and its backup
/// live, the contents read when the guard was taken, and whether they were
/// written back.
///
/// The file system work is the caller's: it writes the backup when the guard
/// is taken, and writes the contents back and removes the backup whenever
/// `begin_restore` answers `true`, explicitly or when the guard goes away.
#[derive(Debug)]
pub struct LockfileGuard {
    lockfile_path: String,
    lockfile_copy_path: String,
    lockfile_contents: String,
    restored: bool,
}

pub struct LockfileGuardView {
    pub path: Seq<char>,
    pub backup_path: Seq<char>,
    pub contents: Seq<char>,
    pub restored: bool,
}

impl View for LockfileGuard {
    type V = LockfileGuardView;

    closed spec fn view(&self) -> LockfileGuardView {
        LockfileGuardView {
            path: self.lockfile_path@,
            backup_path: self.lockfile_copy_path@,
            contents: self.lockfile_contents@,
            restored: self.restored,
        }
    }
}

/// The guard taken on the lock file at `path` whose contents were `contents`.
pub open spec fn acquired(path: Seq<char>, contents: Seq<char>) -> LockfileGuardView {
    LockfileGuardView {
        path,
        backup_path: path_with_extension(path, BACKUP_EXTENSION@),
        contents,
        restored: false,
    }
}

/// One request to restore: the guard after it, and whether the file must be
/// written back now. Only the first request writes.
pub open spec fn restore_step(g: LockfileGuardView) -> (LockfileGuardView, bool) {
    (LockfileGuardView { restored: true, ..g }, !g.restored)
}

impl LockfileGuard {
    /// Takes the guard on the lock file at `path`, whose contents the caller
    /// has just read. The backup goes beside it, at the path with the
    /// extension `.lock.back`. Fails with `Io` where that is the lock file's
    /// own path (a path that names no file), so that a guard always has a
    /// backup distinct from the lock file.
    pub fn new(path: String, contents: String) -> (r: Result<LockfileGuard, ReviewError>)
        ensures
            match r {
                Ok(g) => {
                    &&& g@ == acquired(path@, contents@)
                    &&& g@.backup_path != g@.path
                    &&& path_parent(g@.backup_path) == path_parent(path@)
                },
                Err(e) => {
                    &&& path_with_extension(path@, BACKUP_EXTENSION@) == path@
                    &&& e matches ReviewError::Io(t) && t@ == NO_FILE_NAME@ + path@
                },
            },
    {
        proof {
            reveal_strlit(".lock.back");
        }
        let backup = with_extension(path.as_str(), BACKUP_EXTENSION);
        if backup == path {
            let mut t = String::from_str(NO_FILE_NAME);
            t.append(path.as_str());
            return Err(ReviewError::Io(t));
        }
        Ok(
            LockfileGuard {
                lockfile_path: path,
                lockfile_copy_path: backup,
                lockfile_contents: contents,
                restored: false,
            },
        )
    }

    /// The path of the lock file.
    pub fn lockfile_path(&self) -> (r: &String)
        ensures
            r@ == self@.path,
    {
        &self.lockfile_path
    }

    /// The path of the backup copy.
    pub fn backup_path(&self) -> (r: &String)
        ensures
            r@ == self@.backup_path,
    {
        &self.lockfile_copy_path
    }

    /// The contents that the lock file had when the guard was taken.
    pub fn contents(&self) -> (r: &String)
        ensures
            r@ == self@.contents,
    {
        &self.lockfile_contents
    }

    /// Whether the contents were already written back.
    pub fn is_restored(&self) -> (r: bool)
        ensures
            r == self@.restored,
    {
        self.restored
    }

    /// Marks the guard restored and says whether the caller must now write the
    /// contents back and remove the backup: only on the first request.
    pub fn begin_restore(&mut self) -> (r: bool)
        ensures
            (final(self)@, r) == restore_step(old(self)@),
    {
        let first = !self.restored;
        self.restored = true;
        first
    }
}

/// A second request to restore writes nothing, and changes nothing.
pub proof fn lemma_restore_once(g: LockfileGuardView)
    ensures
        !restore_step(restore_step(g).0).1,
        restore_step(restore_step(g).0).0 == restore_step(g).0,
{
}

/// A guard that is released without an explicit restore still writes back
/// the contents that the lock file had when it was taken.
pub proof fn lemma_release_restores(path: Seq<char>, contents: Seq<char>)
    ensures
        restore_step(acquired(path, contents)).1,
        restore_step(acquired(path, contents)).0.contents == contents,
        restore_step(acquired(path, contents)).0.path == path,
{
}

} // verus!
