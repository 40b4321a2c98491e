use vstd::prelude::*;

verus! {

/// Every way in which a workflow of the tool can fail.
#[derive(Debug, Clone, PartialEq, Eq)]
pub enum ReviewError {
    /// A package identifier that is not of the form `name:x.y.z`; holds the text.
    InvalidSpecification(String),
    /// The metadata query failed; holds its diagnostic text.
    ResolutionFailed(String),
    /// The update command reported failure.
    UpdateFailed,
    /// The resolved graph lacks the requested package; holds its identifier text.
    PackageNotFound(String),
    /// A manifest path without a parent directory; holds the path.
    BadManifestPath(String),
    /// No line diff tool could be launched.
    MissingDiffTool,
    /// A file system operation failed; holds a description.
    Io(String),
}

} // verus!
