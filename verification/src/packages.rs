use vstd::prelude::*;
use vstd::string::*;
use crate::errors::RunError;

verus! {

/// One build target of a package, with the crate types it declares.
pub struct Target {
    pub name: String,
    pub crate_types: Vec<String>,
}

/// A buildable unit as the external metadata resolver reports it.
pub struct Package {
    pub name: String,
    pub manifest_path: String,
    pub targets: Vec<Target>,
}

/// The target declares the dynamically-loadable binary crate type.
pub open spec fn target_is_cdylib(t: Target) -> bool {
    exists|i: int| 0 <= i < t.crate_types@.len() && (#[trigger] t.crate_types@[i])@ == "cdylib"@
}

/// Some target of the package declares the dynamically-loadable binary
/// crate type: the package exposes a contract ABI surface.
pub open spec fn package_is_cdylib(p: Package) -> bool {
    exists|i: int| 0 <= i < p.targets@.len() && target_is_cdylib(#[trigger] p.targets@[i])
}

/// The packages worth building: those with a dynamically-loadable target.
pub open spec fn cdylib_only(ps: Seq<Package>) -> Seq<Package> {
    ps.filter(|p: Package| package_is_cdylib(p))
}

fn target_has_cdylib(t: &Target) -> (r: bool)
    ensures
        r == target_is_cdylib(*t),
{
    let mut i: usize = 0;
    while i < t.crate_types.len()
        invariant
            i <= t.crate_types@.len(),
            forall|j: int| 0 <= j < i ==> (#[trigger] t.crate_types@[j])@ != "cdylib"@,
        decreases t.crate_types@.len() - i,
    {
        if crate::strutil::str_eq(t.crate_types[i].as_str(), "cdylib") {
            return true;
        }
        i += 1;
    }
    false
}

/// Whether the package has a dynamically-loadable binary target.
pub fn is_cdylib_package(p: &Package) -> (r: bool)
    ensures
        r == package_is_cdylib(*p),
{
    let mut i: usize = 0;
    while i < p.targets.len()
        invariant
            i <= p.targets@.len(),
            forall|j: int| 0 <= j < i ==> !target_is_cdylib(#[trigger] p.targets@[j]),
        decreases p.targets@.len() - i,
    {
        if target_has_cdylib(&p.targets[i]) {
            return true;
        }
        i += 1;
    }
    false
}

/// Filters the resolver's package set down to the buildable contracts:
/// exactly those with a dynamically-loadable binary target, in order.
pub fn cdylib_packages(pkgs: Vec<Package>) -> (r: Vec<Package>)
    ensures
        r@ == cdylib_only(pkgs@),
{
    proof {
        reveal(Seq::filter);
    }
    let ghost orig = pkgs@;
    let mut pkgs = pkgs;
    let mut out: Vec<Package> = Vec::new();
    let ghost mut i: int = 0;
    while pkgs.len() > 0
        invariant
            0 <= i <= orig.len(),
            pkgs@ == orig.skip(i),
            out@ == cdylib_only(orig.take(i)),
        decreases pkgs@.len(),
    {
        let p = pkgs.remove(0);
        proof {
            reveal(Seq::filter);
            assert(p == orig[i]);
            assert(pkgs@ =~= orig.skip(i + 1));
            assert(orig.take(i + 1).drop_last() =~= orig.take(i));
            assert(orig.take(i + 1).last() == orig[i]);
        }
        if is_cdylib_package(&p) {
            out.push(p);
        }
        proof {
            i = i + 1;
        }
    }
    proof {
        assert(orig.take(orig.len() as int) =~= orig);
    }
    out
}

/// Where a contract's manifest must lie inside the project tree.
pub fn contract_manifest_path(project_dir: &str, contract: &str) -> (r: String)
    ensures
        r@ == project_dir@ + "/"@ + contract@ + "/Cargo.toml"@,
{
    let mut s = crate::paths::join_path(project_dir, contract);
    s.append("/Cargo.toml");
    s
}

/// The discovery contract: a catalog entry must have a manifest. A missing
/// manifest is fatal, surfaced at once, and names the contract; it is never
/// silently skipped.
pub fn manifest_requirement(contract: &str, manifest_exists: bool) -> (r: Result<(), RunError>)
    ensures
        manifest_exists ==> r is Ok,
        !manifest_exists ==> (r matches Err(e) && e matches RunError::MissingManifestError {
            contract: c,
        } && c@ == contract@),
{
    if manifest_exists {
        Ok(())
    } else {
        Err(RunError::MissingManifestError { contract: String::from_str(contract) })
    }
}

} // verus!
