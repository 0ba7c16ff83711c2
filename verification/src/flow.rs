use vstd::prelude::*;
use crate::errors::RunError;
use crate::pipeline::{is_repro_command, repro_command, CommandSpec};

verus! {

/// Where a build-mode run stands.
pub enum FlowPhase {
    /// The contract at this catalog index is being processed.
    AtContract { idx: usize },
    /// A fatal error: the run aborted; no later contract is attempted.
    Failed { error: RunError },
    /// Every contract was processed.
    Finished,
}

/// A build-mode run over the catalog, processed strictly in catalog order
/// with no continuation past the first fatal error.
pub struct BuildFlow {
    pub catalog: Vec<String>,
    pub phase: FlowPhase,
}

/// The phase's index stays inside the catalog.
pub open spec fn flow_wf(f: BuildFlow) -> bool {
    f.phase matches FlowPhase::AtContract { idx } ==> idx < f.catalog@.len()
}

impl BuildFlow {
    /// Starts a run at the catalog's first contract.
    pub fn new(catalog: Vec<String>) -> (r: BuildFlow)
        ensures
            r.catalog == catalog,
            flow_wf(r),
            catalog@.len() == 0 ==> r.phase is Finished,
            catalog@.len() > 0 ==> r.phase == (FlowPhase::AtContract { idx: 0 }),
    {
        if catalog.len() == 0 {
            BuildFlow { catalog, phase: FlowPhase::Finished }
        } else {
            BuildFlow { catalog, phase: FlowPhase::AtContract { idx: 0 } }
        }
    }

    /// The contract to process next, while the run is under way.
    pub fn current_contract(&self) -> (r: Option<String>)
        requires
            flow_wf(*self),
        ensures
            match self.phase {
                FlowPhase::AtContract { idx } => r matches Some(c) && c == self.catalog@[idx as int],
                _ => r is None,
            },
    {
        match &self.phase {
            FlowPhase::AtContract { idx } => Some(self.catalog[*idx].clone()),
            _ => None,
        }
    }

    /// Observes whether the current contract's manifest exists. A missing
    /// manifest fails the whole run at once with the error naming exactly
    /// that contract: no later contract is taken up.
    pub fn observe_manifest(self, manifest_exists: bool) -> (r: BuildFlow)
        requires
            flow_wf(self),
            self.phase is AtContract,
        ensures
            r.catalog == self.catalog,
            flow_wf(r),
            self.phase matches FlowPhase::AtContract { idx } ==> (if manifest_exists {
                r.phase == self.phase
            } else {
                r.phase matches FlowPhase::Failed { error } && error
                    matches RunError::MissingManifestError { contract } && contract@
                    == self.catalog@[idx as int]@
            }),
    {
        let BuildFlow { catalog, phase } = self;
        match phase {
            FlowPhase::AtContract { idx } => {
                if manifest_exists {
                    BuildFlow { catalog, phase: FlowPhase::AtContract { idx } }
                } else {
                    let contract = catalog[idx].clone();
                    BuildFlow {
                        catalog,
                        phase: FlowPhase::Failed {
                            error: RunError::MissingManifestError { contract },
                        },
                    }
                }
            },
            _ => {
                return vstd::pervasive::unreached();
            },
        }
    }

    /// Moves past the current contract once all its packages completed.
    pub fn advance(self) -> (r: BuildFlow)
        requires
            flow_wf(self),
            self.phase is AtContract,
        ensures
            r.catalog == self.catalog,
            flow_wf(r),
            self.phase matches FlowPhase::AtContract { idx } ==> (if idx + 1
                == self.catalog@.len() {
                r.phase is Finished
            } else {
                r.phase == (FlowPhase::AtContract { idx: (idx + 1) as usize })
            }),
    {
        let BuildFlow { catalog, phase } = self;
        let n = catalog.len();
        match phase {
            FlowPhase::AtContract { idx } => {
                proof {
                    assert(self.phase == (FlowPhase::AtContract { idx }));
                    assert(idx < n);
                }
                if idx + 1 == n {
                    BuildFlow { catalog, phase: FlowPhase::Finished }
                } else {
                    BuildFlow { catalog, phase: FlowPhase::AtContract { idx: idx + 1 } }
                }
            },
            _ => {
                return vstd::pervasive::unreached();
            },
        }
    }

    /// Records a fatal error from the current contract's pipeline: the run
    /// aborts, and the remaining contracts are not attempted.
    pub fn fail(self, error: RunError) -> (r: BuildFlow)
        ensures
            r.catalog == self.catalog,
            flow_wf(r),
            r.phase == (FlowPhase::Failed { error }),
    {
        let BuildFlow { catalog, phase: _ } = self;
        BuildFlow { catalog, phase: FlowPhase::Failed { error } }
    }
}

/// Where a reproduce-mode run stands.
pub enum ReproPhase {
    /// The artifact at this index is the next to check.
    AtArtifact { idx: usize },
    /// A reproduction failed: the run aborted and the failure is surfaced.
    Failed { error: RunError },
    /// Every artifact reproduced.
    Finished,
}

/// A reproduce-mode run: the artifacts in dependency order, each rebuilt
/// independently from the project source and compared, strictly one after
/// the other, aborting on the first mismatch.
pub struct ReproFlow {
    pub artifacts: Vec<String>,
    pub project_dir: String,
    pub phase: ReproPhase,
}

/// The phase's index stays inside the artifact list.
pub open spec fn repro_wf(f: ReproFlow) -> bool {
    f.phase matches ReproPhase::AtArtifact { idx } ==> idx < f.artifacts@.len()
}

impl ReproFlow {
    /// Starts a run at the first artifact of the given order.
    pub fn new(artifacts: Vec<String>, project_dir: String) -> (r: ReproFlow)
        ensures
            r.artifacts == artifacts,
            r.project_dir == project_dir,
            repro_wf(r),
            artifacts@.len() == 0 ==> r.phase is Finished,
            artifacts@.len() > 0 ==> r.phase == (ReproPhase::AtArtifact { idx: 0 }),
    {
        if artifacts.len() == 0 {
            ReproFlow { artifacts, project_dir, phase: ReproPhase::Finished }
        } else {
            ReproFlow { artifacts, project_dir, phase: ReproPhase::AtArtifact { idx: 0 } }
        }
    }

    /// The reproduction-checker invocation for the current artifact; none
    /// once the run finished or failed.
    pub fn next_command(&self) -> (r: Option<CommandSpec>)
        requires
            repro_wf(*self),
        ensures
            match self.phase {
                ReproPhase::AtArtifact { idx } => r matches Some(c) && is_repro_command(
                    c,
                    self.artifacts@[idx as int]@,
                    self.project_dir@,
                ),
                _ => r is None,
            },
    {
        match &self.phase {
            ReproPhase::AtArtifact { idx } => Some(
                repro_command(self.artifacts[*idx].as_str(), self.project_dir.as_str()),
            ),
            _ => None,
        }
    }

    /// Advances on the checker's exit status: success moves to the next
    /// artifact; a non-zero status aborts the run with the reproduction
    /// error carrying that status, and no later artifact is checked.
    pub fn observe_exit(self, exit_code: i32) -> (r: ReproFlow)
        requires
            repro_wf(self),
            self.phase is AtArtifact,
        ensures
            r.artifacts == self.artifacts,
            r.project_dir == self.project_dir,
            repro_wf(r),
            self.phase matches ReproPhase::AtArtifact { idx } ==> (if exit_code != 0 {
                r.phase == (ReproPhase::Failed {
                    error: RunError::ReproduceFailedError { status: exit_code },
                })
            } else if idx + 1 == self.artifacts@.len() {
                r.phase is Finished
            } else {
                r.phase == (ReproPhase::AtArtifact { idx: (idx + 1) as usize })
            }),
    {
        let ReproFlow { artifacts, project_dir, phase } = self;
        let n = artifacts.len();
        match phase {
            ReproPhase::AtArtifact { idx } => {
                proof {
                    assert(self.phase == (ReproPhase::AtArtifact { idx }));
                    assert(idx < n);
                }
                if exit_code != 0 {
                    ReproFlow {
                        artifacts,
                        project_dir,
                        phase: ReproPhase::Failed {
                            error: RunError::ReproduceFailedError { status: exit_code },
                        },
                    }
                } else if idx + 1 == n {
                    ReproFlow { artifacts, project_dir, phase: ReproPhase::Finished }
                } else {
                    ReproFlow {
                        artifacts,
                        project_dir,
                        phase: ReproPhase::AtArtifact { idx: idx + 1 },
                    }
                }
            },
            _ => {
                return vstd::pervasive::unreached();
            },
        }
    }
}


} // verus!
