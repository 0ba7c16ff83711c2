use vstd::prelude::*;

verus! {

/// Every failure the pipeline can surface. External tool failures carry the
/// exit status that was observed; a missing manifest names the contract.
#[derive(Debug, Clone, PartialEq, Eq)]
pub enum RunError {
    /// The embedded contract catalog is malformed.
    ConfigError,
    /// A catalog entry has no manifest file.
    MissingManifestError { contract: String },
    /// The artifact scan root is not a directory.
    InvalidDirectoryError,
    /// The declared dependency pairs order the discovered artifacts in a cycle.
    DependencyCycleError,
    /// The external build tool exited with a non-zero status.
    BuildFailedError { status: i32 },
    /// The external optimizer exited with a non-zero status.
    OptimizeFailedError { status: i32 },
    /// The external reproduction checker exited with a non-zero status.
    ReproduceFailedError { status: i32 },
    /// The external source-control client exited with a non-zero status.
    CloneFailedError { status: i32 },
}

impl RunError {
    /// A short human-readable description, for reporting at the top level.
    pub fn describe(&self) -> (r: String)
        ensures
            self is ConfigError ==> r@ == "malformed contract catalog"@,
            self is MissingManifestError ==> r@ == "missing manifest for contract "@
                + self->MissingManifestError_contract@,
            self is InvalidDirectoryError ==> r@ == "artifact scan root is not a directory"@,
            self is DependencyCycleError ==> r@
                == "dependency pairs form a cycle over the discovered artifacts"@,
            self is BuildFailedError ==> r@ == "contract build failed"@,
            self is OptimizeFailedError ==> r@ == "artifact optimize failed"@,
            self is ReproduceFailedError ==> r@ == "artifact reproduction failed"@,
            self is CloneFailedError ==> r@ == "source clone failed"@,
    {
        match self {
            RunError::ConfigError => String::from_str("malformed contract catalog"),
            RunError::MissingManifestError { contract } => {
                let mut s = String::from_str("missing manifest for contract ");
                s.append(contract.as_str());
                s
            },
            RunError::InvalidDirectoryError => String::from_str(
                "artifact scan root is not a directory",
            ),
            RunError::DependencyCycleError => String::from_str(
                "dependency pairs form a cycle over the discovered artifacts",
            ),
            RunError::BuildFailedError { .. } => String::from_str("contract build failed"),
            RunError::OptimizeFailedError { .. } => String::from_str("artifact optimize failed"),
            RunError::ReproduceFailedError { .. } => String::from_str(
                "artifact reproduction failed",
            ),
            RunError::CloneFailedError { .. } => String::from_str("source clone failed"),
        }
    }
}

} // verus!
