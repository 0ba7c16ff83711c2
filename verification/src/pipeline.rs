use vstd::prelude::*;
use vstd::string::*;
use crate::errors::RunError;
use crate::paths::{expected_artifact_path, optimized_path, optimized_of, wasm_name_of};

verus! {

/// One external invocation, fully determined before it is launched: the
/// program, an optional working directory, environment overrides, and the
/// argument list in order.
pub struct CommandSpec {
    pub program: String,
    pub current_dir: Option<String>,
    pub env: Vec<(String, String)>,
    pub args: Vec<String>,
}

/// The external build invocation for one package: the build subcommand with
/// the manifest, package and output directory, under the toolchain override.
pub open spec fn is_build_command(
    c: CommandSpec,
    manifest: Seq<char>,
    package: Seq<char>,
    out_dir: Seq<char>,
    toolchain: Seq<char>,
) -> bool {
    &&& c.program@ == "cargo"@
    &&& c.current_dir matches Some(d) && d@ == "../soroban-cli"@
    &&& c.env@.len() == 1
    &&& c.env@[0].0@ == "RUSTUP_TOOLCHAIN"@
    &&& c.env@[0].1@ == toolchain
    &&& c.args@.len() == 9
    &&& c.args@[0]@ == "run"@
    &&& c.args@[1]@ == "contract"@
    &&& c.args@[2]@ == "build"@
    &&& c.args@[3]@ == "--manifest-path"@
    &&& c.args@[4]@ == manifest
    &&& c.args@[5]@ == "--package"@
    &&& c.args@[6]@ == package
    &&& c.args@[7]@ == "--out-dir"@
    &&& c.args@[8]@ == out_dir
}

/// The external optimizer invocation: reads `wasm`, writes `wasm_out`.
pub open spec fn is_optimize_command(c: CommandSpec, wasm: Seq<char>, wasm_out: Seq<char>) -> bool {
    &&& c.program@ == "cargo"@
    &&& c.current_dir matches Some(d) && d@ == "../soroban-cli"@
    &&& c.env@.len() == 0
    &&& c.args@.len() == 9
    &&& c.args@[0]@ == "run"@
    &&& c.args@[1]@ == "--features"@
    &&& c.args@[2]@ == "opt"@
    &&& c.args@[3]@ == "contract"@
    &&& c.args@[4]@ == "optimize"@
    &&& c.args@[5]@ == "--wasm"@
    &&& c.args@[6]@ == wasm
    &&& c.args@[7]@ == "--wasm-out"@
    &&& c.args@[8]@ == wasm_out
}

/// The external reproduction-checker invocation: rebuilds from `repo` and
/// compares against `wasm`.
pub open spec fn is_repro_command(c: CommandSpec, wasm: Seq<char>, repo: Seq<char>) -> bool {
    &&& c.program@ == "cargo"@
    &&& c.current_dir matches Some(d) && d@ == "../soroban-cli"@
    &&& c.env@.len() == 0
    &&& c.args@.len() == 9
    &&& c.args@[0]@ == "run"@
    &&& c.args@[1]@ == "--features"@
    &&& c.args@[2]@ == "opt"@
    &&& c.args@[3]@ == "contract"@
    &&& c.args@[4]@ == "repro"@
    &&& c.args@[5]@ == "--wasm"@
    &&& c.args@[6]@ == wasm
    &&& c.args@[7]@ == "--repo"@
    &&& c.args@[8]@ == repo
}

/// The source-control client invocation cloning `url` into `dest`.
pub open spec fn is_clone_command(c: CommandSpec, url: Seq<char>, dest: Seq<char>) -> bool {
    &&& c.program@ == "git"@
    &&& c.current_dir is None
    &&& c.env@.len() == 0
    &&& c.args@.len() == 3
    &&& c.args@[0]@ == "clone"@
    &&& c.args@[1]@ == url
    &&& c.args@[2]@ == dest
}

/// Constructs the build invocation for one package.
pub fn build_command(manifest_path: &str, package_name: &str, out_dir: &str, toolchain: &str) -> (r:
    CommandSpec)
    ensures
        is_build_command(r, manifest_path@, package_name@, out_dir@, toolchain@),
{
    let mut env: Vec<(String, String)> = Vec::new();
    env.push((String::from_str("RUSTUP_TOOLCHAIN"), String::from_str(toolchain)));
    let mut args: Vec<String> = Vec::new();
    args.push(String::from_str("run"));
    args.push(String::from_str("contract"));
    args.push(String::from_str("build"));
    args.push(String::from_str("--manifest-path"));
    args.push(String::from_str(manifest_path));
    args.push(String::from_str("--package"));
    args.push(String::from_str(package_name));
    args.push(String::from_str("--out-dir"));
    args.push(String::from_str(out_dir));
    CommandSpec {
        program: String::from_str("cargo"),
        current_dir: Some(String::from_str("../soroban-cli")),
        env,
        args,
    }
}

/// Constructs the optimizer invocation for one artifact.
pub fn optimize_command(wasm: &str, wasm_out: &str) -> (r: CommandSpec)
    ensures
        is_optimize_command(r, wasm@, wasm_out@),
{
    let mut args: Vec<String> = Vec::new();
    args.push(String::from_str("run"));
    args.push(String::from_str("--features"));
    args.push(String::from_str("opt"));
    args.push(String::from_str("contract"));
    args.push(String::from_str("optimize"));
    args.push(String::from_str("--wasm"));
    args.push(String::from_str(wasm));
    args.push(String::from_str("--wasm-out"));
    args.push(String::from_str(wasm_out));
    CommandSpec {
        program: String::from_str("cargo"),
        current_dir: Some(String::from_str("../soroban-cli")),
        env: Vec::new(),
        args,
    }
}

/// Constructs the reproduction-checker invocation for one artifact.
pub fn repro_command(wasm: &str, repo: &str) -> (r: CommandSpec)
    ensures
        is_repro_command(r, wasm@, repo@),
{
    let mut args: Vec<String> = Vec::new();
    args.push(String::from_str("run"));
    args.push(String::from_str("--features"));
    args.push(String::from_str("opt"));
    args.push(String::from_str("contract"));
    args.push(String::from_str("repro"));
    args.push(String::from_str("--wasm"));
    args.push(String::from_str(wasm));
    args.push(String::from_str("--repo"));
    args.push(String::from_str(repo));
    CommandSpec {
        program: String::from_str("cargo"),
        current_dir: Some(String::from_str("../soroban-cli")),
        env: Vec::new(),
        args,
    }
}

/// Constructs the source-control invocation cloning `url` into `dest`.
pub fn clone_command(url: &str, dest: &str) -> (r: CommandSpec)
    ensures
        is_clone_command(r, url@, dest@),
{
    let mut args: Vec<String> = Vec::new();
    args.push(String::from_str("clone"));
    args.push(String::from_str(url));
    args.push(String::from_str(dest));
    CommandSpec { program: String::from_str("git"), current_dir: None, env: Vec::new(), args }
}

// ---------------------------------------------------------------------------
// Exit-status interpretation: zero is success, anything else is fatal for
// the stage, carrying the observed status. No stage retries or downgrades.
// ---------------------------------------------------------------------------

/// Interprets the build tool's exit status.
pub fn build_outcome(exit_code: i32) -> (r: Result<(), RunError>)
    ensures
        exit_code == 0 ==> r is Ok,
        exit_code != 0 ==> r == Err::<(), RunError>(RunError::BuildFailedError { status: exit_code }),
{
    if exit_code == 0 {
        Ok(())
    } else {
        Err(RunError::BuildFailedError { status: exit_code })
    }
}

/// Interprets the optimizer's exit status.
pub fn optimize_outcome(exit_code: i32) -> (r: Result<(), RunError>)
    ensures
        exit_code == 0 ==> r is Ok,
        exit_code != 0 ==> r == Err::<(), RunError>(RunError::OptimizeFailedError { status: exit_code }),
{
    if exit_code == 0 {
        Ok(())
    } else {
        Err(RunError::OptimizeFailedError { status: exit_code })
    }
}

/// Interprets the reproduction checker's exit status. A non-zero status is
/// the primary signal of a non-reproducible build and is surfaced, never
/// retried.
pub fn reproduce_outcome(exit_code: i32) -> (r: Result<(), RunError>)
    ensures
        exit_code == 0 ==> r is Ok,
        exit_code != 0 ==> r == Err::<(), RunError>(RunError::ReproduceFailedError { status: exit_code }),
{
    if exit_code == 0 {
        Ok(())
    } else {
        Err(RunError::ReproduceFailedError { status: exit_code })
    }
}

/// Interprets the source-control client's exit status.
pub fn clone_outcome(exit_code: i32) -> (r: Result<(), RunError>)
    ensures
        exit_code == 0 ==> r is Ok,
        exit_code != 0 ==> r == Err::<(), RunError>(RunError::CloneFailedError { status: exit_code }),
{
    if exit_code == 0 {
        Ok(())
    } else {
        Err(RunError::CloneFailedError { status: exit_code })
    }
}

// ---------------------------------------------------------------------------
// The per-package pipeline as a state machine: build, then optimize, each
// gated on the previous stage's exit status.
// ---------------------------------------------------------------------------

/// Progress of one package through the staged pipeline.
pub enum PackagePhase {
    /// The build invocation is next; on success the artifact is expected at
    /// the recorded path.
    Building { artifact: String },
    /// The build succeeded; the optimize invocation is next.
    Optimizing { artifact: String, optimized: String },
    /// Both stages succeeded.
    Complete { artifact: String, optimized: String },
    /// A stage failed: no further stage runs for this package.
    Failed { error: RunError },
}

/// One package's run: the identifying arguments and the current phase.
pub struct PackageRun {
    pub manifest_path: String,
    pub package_name: String,
    pub out_dir: String,
    pub toolchain: String,
    pub phase: PackagePhase,
}

impl PackageRun {
    /// Starts a package at the build stage. The expected artifact path is
    /// derived from the package name, deterministically.
    pub fn new(manifest_path: String, package_name: String, out_dir: String, toolchain: String) -> (r:
        PackageRun)
        ensures
            r.manifest_path == manifest_path,
            r.package_name == package_name,
            r.out_dir == out_dir,
            r.toolchain == toolchain,
            r.phase matches PackagePhase::Building { artifact } && artifact@ == out_dir@ + "/"@
                + wasm_name_of(package_name@),
    {
        let artifact = expected_artifact_path(out_dir.as_str(), package_name.as_str());
        PackageRun {
            manifest_path,
            package_name,
            out_dir,
            toolchain,
            phase: PackagePhase::Building { artifact },
        }
    }

    /// The external invocation the current phase calls for: the build, then
    /// the optimize; none once complete or failed. In particular a failed
    /// build never reaches the optimizer.
    pub fn next_command(&self) -> (r: Option<CommandSpec>)
        ensures
            match self.phase {
                PackagePhase::Building { artifact } => r matches Some(c) && is_build_command(
                    c,
                    self.manifest_path@,
                    self.package_name@,
                    self.out_dir@,
                    self.toolchain@,
                ),
                PackagePhase::Optimizing { artifact, optimized } => r matches Some(c)
                    && is_optimize_command(c, artifact@, optimized@),
                PackagePhase::Complete { .. } => r is None,
                PackagePhase::Failed { .. } => r is None,
            },
    {
        match &self.phase {
            PackagePhase::Building { .. } => Some(
                build_command(
                    self.manifest_path.as_str(),
                    self.package_name.as_str(),
                    self.out_dir.as_str(),
                    self.toolchain.as_str(),
                ),
            ),
            PackagePhase::Optimizing { artifact, optimized } => Some(
                optimize_command(artifact.as_str(), optimized.as_str()),
            ),
            PackagePhase::Complete { .. } => None,
            PackagePhase::Failed { .. } => None,
        }
    }

    /// Advances the phase on the exit status of the invocation just run.
    /// A non-zero build status fails the package with the build error
    /// carrying that status, so the optimize stage is never entered; a
    /// successful build moves to optimizing the derived artifact path.
    pub fn observe_exit(self, exit_code: i32) -> (r: PackageRun)
        requires
            !(self.phase is Complete),
            !(self.phase is Failed),
        ensures
            r.manifest_path == self.manifest_path,
            r.package_name == self.package_name,
            r.out_dir == self.out_dir,
            r.toolchain == self.toolchain,
            self.phase matches PackagePhase::Building { artifact } ==> (if exit_code == 0 {
                r.phase matches PackagePhase::Optimizing { artifact: a, optimized } && a
                    == artifact && optimized@ == optimized_of(artifact@)
            } else {
                r.phase == (PackagePhase::Failed {
                    error: RunError::BuildFailedError { status: exit_code },
                })
            }),
            self.phase matches PackagePhase::Optimizing { artifact, optimized } ==> (if exit_code
                == 0 {
                r.phase == (PackagePhase::Complete { artifact, optimized })
            } else {
                r.phase == (PackagePhase::Failed {
                    error: RunError::OptimizeFailedError { status: exit_code },
                })
            }),
    {
        let PackageRun { manifest_path, package_name, out_dir, toolchain, phase } = self;
        let phase = match phase {
            PackagePhase::Building { artifact } => {
                if exit_code == 0 {
                    let optimized = optimized_path(artifact.as_str());
                    PackagePhase::Optimizing { artifact, optimized }
                } else {
                    PackagePhase::Failed {
                        error: RunError::BuildFailedError { status: exit_code },
                    }
                }
            },
            PackagePhase::Optimizing { artifact, optimized } => {
                if exit_code == 0 {
                    PackagePhase::Complete { artifact, optimized }
                } else {
                    PackagePhase::Failed {
                        error: RunError::OptimizeFailedError { status: exit_code },
                    }
                }
            },
            PackagePhase::Complete { artifact, optimized } => PackagePhase::Complete {
                artifact,
                optimized,
            },
            PackagePhase::Failed { error } => PackagePhase::Failed { error },
        };
        PackageRun { manifest_path, package_name, out_dir, toolchain, phase }
    }
}

} // verus!
