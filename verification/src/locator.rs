use vstd::prelude::*;
use crate::errors::RunError;
use crate::paths::has_wasm_ext;
use crate::sort::paths_view;

verus! {

/// A directory tree as handed to the locator: what the scan reads of the
/// filesystem, as plain values.
pub enum FsTree {
    File { name: String },
    Dir { name: String, entries: Vec<FsTree> },
}

/// The artifact paths found under one entry whose parent directory is at
/// `prefix`: a file is collected when it carries the artifact extension; a
/// directory contributes everything under it.
pub open spec fn wasm_files_of(t: FsTree, prefix: Seq<char>) -> Seq<Seq<char>>
    decreases t,
{
    match t {
        FsTree::File { name } => if has_wasm_ext(name@) {
            seq![prefix + "/"@ + name@]
        } else {
            Seq::empty()
        },
        FsTree::Dir { name, entries } => wasm_files_in(entries@, prefix + "/"@ + name@),
    }
}

/// The artifact paths found under a list of entries, in traversal order.
pub open spec fn wasm_files_in(es: Seq<FsTree>, prefix: Seq<char>) -> Seq<Seq<char>>
    decreases es,
{
    if es.len() == 0 {
        Seq::empty()
    } else {
        wasm_files_in(es.drop_last(), prefix) + wasm_files_of(es.last(), prefix)
    }
}

proof fn lemma_files_in_take_step(es: Seq<FsTree>, i: int, prefix: Seq<char>)
    requires
        0 <= i < es.len(),
    ensures
        wasm_files_in(es.take(i + 1), prefix) == wasm_files_in(es.take(i), prefix)
            + wasm_files_of(es[i], prefix),
{
    assert(es.take(i + 1).drop_last() =~= es.take(i));
    assert(es.take(i + 1).last() == es[i]);
}

/// Appends to `out` every artifact path under `t`, whose parent directory is
/// at `prefix`.
fn collect_wasm(t: &FsTree, prefix: &str, out: &mut Vec<String>)
    ensures
        paths_view(final(out)@) == paths_view(old(out)@) + wasm_files_of(*t, prefix@),
    decreases *t,
{
    match t {
        FsTree::File { name } => {
            if crate::paths::has_wasm_extension(name.as_str()) {
                let p = crate::paths::join_path(prefix, name.as_str());
                out.push(p);
                proof {
                    assert(paths_view(out@) =~= paths_view(old(out)@) + wasm_files_of(
                        *t,
                        prefix@,
                    ));
                }
            } else {
                proof {
                    assert(paths_view(out@) =~= paths_view(old(out)@) + wasm_files_of(
                        *t,
                        prefix@,
                    ));
                }
            }
        },
        FsTree::Dir { name, entries } => {
            let child_prefix = crate::paths::join_path(prefix, name.as_str());
            let mut i: usize = 0;
            while i < entries.len()
                invariant
                    i <= entries@.len(),
                    *t == (FsTree::Dir { name: *name, entries: *entries }),
                    child_prefix@ == prefix@ + "/"@ + name@,
                    paths_view(out@) == paths_view(old(out)@) + wasm_files_in(
                        entries@.take(i as int),
                        child_prefix@,
                    ),
                decreases entries@.len() - i,
            {
                proof {
                    assert(decreases_to!(*t => (*t)->Dir_entries@[i as int]));
                }
                collect_wasm(&entries[i], child_prefix.as_str(), out);
                proof {
                    lemma_files_in_take_step(entries@, i as int, child_prefix@);
                }
                i += 1;
            }
            proof {
                assert(entries@.take(entries@.len() as int) =~= entries@);
                assert(wasm_files_of(*t, prefix@) == wasm_files_in(entries@, child_prefix@));
            }
        },
    }
}

/// Recursively locates every compiled artifact under the scan root at
/// `root_path`. `root` is what the filesystem shows there: no entry at all,
/// a plain file, or a directory with its entries; only a directory is
/// accepted, anything else is the invalid-directory error with no partial
/// results. The returned paths start at `root_path`; their order carries no
/// meaning until the dependency sort.
pub fn find_wasm_files(root: &Option<FsTree>, root_path: &str) -> (r: Result<Vec<String>, RunError>)
    ensures
        r is Ok <==> root matches Some(FsTree::Dir { .. }),
        r is Err ==> r == Err::<Vec<String>, RunError>(RunError::InvalidDirectoryError),
        root matches Some(FsTree::Dir { name, entries }) ==> (r matches Ok(files) && paths_view(
            files@,
        ) == wasm_files_in(entries@, root_path@)),
{
    match root {
        Some(FsTree::Dir { name: _, entries }) => {
            let mut out: Vec<String> = Vec::new();
            let mut i: usize = 0;
            while i < entries.len()
                invariant
                    i <= entries@.len(),
                    paths_view(out@) == wasm_files_in(entries@.take(i as int), root_path@),
                decreases entries@.len() - i,
            {
                collect_wasm(&entries[i], root_path, &mut out);
                proof {
                    lemma_files_in_take_step(entries@, i as int, root_path@);
                }
                i += 1;
            }
            proof {
                assert(entries@.take(entries@.len() as int) =~= entries@);
            }
            Ok(out)
        },
        _ => Err(RunError::InvalidDirectoryError),
    }
}

} // verus!
