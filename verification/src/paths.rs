use vstd::prelude::*;
use vstd::string::*;

verus! {

/// Punctuation normalization used for artifact file names: every hyphen in a
/// package name becomes an underscore.
pub open spec fn dash_to_underscore(s: Seq<char>) -> Seq<char> {
    s.map_values(|c: char| if c == '-' { '_' } else { c })
}

/// The artifact file name derived from a package name.
pub open spec fn wasm_name_of(name: Seq<char>) -> Seq<char> {
    dash_to_underscore(name) + ".wasm"@
}

/// The index of the last occurrence of `c` in `s`, if any.
pub open spec fn last_index_of(s: Seq<char>, c: char) -> Option<int>
    decreases s.len(),
{
    if s.len() == 0 {
        None
    } else if s.last() == c {
        Some(s.len() - 1)
    } else {
        last_index_of(s.drop_last(), c)
    }
}

pub proof fn lemma_last_index_of(s: Seq<char>, c: char)
    ensures
        match last_index_of(s, c) {
            Some(i) => 0 <= i < s.len() && s[i] == c && (forall|j: int|
                i < j < s.len() ==> s[j] != c),
            None => forall|j: int| 0 <= j < s.len() ==> s[j] != c,
        },
    decreases s.len(),
{
    if s.len() > 0 && s.last() != c {
        lemma_last_index_of(s.drop_last(), c);
        assert(forall|j: int| 0 <= j < s.len() - 1 ==> s.drop_last()[j] == s[j]);
    }
}

/// Where the file-name portion of a path begins: just after the last
/// separator, or at the start when there is none.
pub open spec fn file_start(p: Seq<char>) -> int {
    match last_index_of(p, '/') {
        Some(j) => j + 1,
        None => 0,
    }
}

/// The index of the dot that starts the path's extension, if the path has
/// one. A dot at the very start of the file name (a hidden file) does not
/// begin an extension.
pub open spec fn ext_dot(p: Seq<char>) -> Option<int> {
    match last_index_of(p, '.') {
        Some(i) => if i > file_start(p) {
            Some(i)
        } else {
            None
        },
        None => None,
    }
}

/// The optimize stage's output path: the extension (if any) is replaced by
/// `optimized.wasm`; a path without an extension gets it appended.
pub open spec fn optimized_of(p: Seq<char>) -> Seq<char> {
    match ext_dot(p) {
        Some(i) => p.subrange(0, i) + ".optimized.wasm"@,
        None => p + ".optimized.wasm"@,
    }
}

/// Whether a path's extension is exactly `wasm`.
pub open spec fn has_wasm_ext(p: Seq<char>) -> bool {
    match ext_dot(p) {
        Some(i) => p.subrange(i + 1, p.len() as int) == "wasm"@,
        None => false,
    }
}

/// The index of the last occurrence of `c` in `s`, if any.
pub fn find_last_char(s: &str, c: char) -> (r: Option<usize>)
    ensures
        match r {
            Some(i) => last_index_of(s@, c) == Some(i as int),
            None => last_index_of(s@, c) is None,
        },
{
    let len = s.unicode_len();
    let mut i: usize = len;
    while i > 0
        invariant
            len == s@.len(),
            i <= len,
            forall|j: int| i <= j < len ==> s@[j] != c,
        decreases i,
    {
        i -= 1;
        if s.get_char(i) == c {
            proof {
                lemma_last_index_of(s@, c);
            }
            return Some(i);
        }
    }
    proof {
        lemma_last_index_of(s@, c);
    }
    None
}

/// Derives the artifact file name for a package: hyphens replaced with
/// underscores, and the artifact extension appended.
pub fn wasm_file_name(name: &str) -> (r: String)
    ensures
        r@ == wasm_name_of(name@),
{
    let len = name.unicode_len();
    let mut out = String::new();
    let mut i: usize = 0;
    while i < len
        invariant
            len == name@.len(),
            i <= len,
            out@.len() == i,
            forall|k: int| 0 <= k < i ==> out@[k] == (if name@[k] == '-' {
                '_'
            } else {
                name@[k]
            }),
        decreases len - i,
    {
        if name.get_char(i) == '-' {
            out.append("_");
            proof {
                reveal_strlit("_");
            }
        } else {
            let piece = name.substring_char(i, i + 1);
            out.append(piece);
        }
        i += 1;
    }
    out.append(".wasm");
    proof {
        reveal_strlit(".wasm");
        assert(out@ =~= wasm_name_of(name@));
    }
    out
}

/// Joins a directory path and an entry name with the path separator.
pub fn join_path(dir: &str, name: &str) -> (r: String)
    ensures
        r@ == dir@ + "/"@ + name@,
{
    let mut out = String::from_str(dir);
    out.append("/");
    out.append(name);
    out
}

/// The path at which the build stage expects its output artifact: the derived
/// artifact file name placed directly under the output directory.
pub fn expected_artifact_path(out_dir: &str, package_name: &str) -> (r: String)
    ensures
        r@ == out_dir@ + "/"@ + wasm_name_of(package_name@),
{
    let fname = wasm_file_name(package_name);
    join_path(out_dir, fname.as_str())
}

/// Derives the optimize stage's output path from an artifact path.
pub fn optimized_path(path: &str) -> (r: String)
    ensures
        r@ == optimized_of(path@),
{
    let len = path.unicode_len();
    let slash = find_last_char(path, '/');
    let dot = find_last_char(path, '.');
    proof {
        lemma_last_index_of(path@, '/');
        lemma_last_index_of(path@, '.');
    }
    let fs: usize = match slash {
        Some(j) => j + 1,
        None => 0,
    };
    let stem_end: usize = match dot {
        Some(i) => if i > fs {
            i
        } else {
            len
        },
        None => len,
    };
    let stem = path.substring_char(0, stem_end);
    let mut out = String::from_str(stem);
    out.append(".optimized.wasm");
    proof {
        if ext_dot(path@) is None {
            assert(path@.subrange(0, len as int) =~= path@);
        }
    }
    out
}

/// Whether a path carries the compiled-artifact extension.
pub fn has_wasm_extension(path: &str) -> (r: bool)
    ensures
        r == has_wasm_ext(path@),
{
    let len = path.unicode_len();
    let slash = find_last_char(path, '/');
    let dot = find_last_char(path, '.');
    proof {
        lemma_last_index_of(path@, '/');
        lemma_last_index_of(path@, '.');
    }
    let fs: usize = match slash {
        Some(j) => j + 1,
        None => 0,
    };
    match dot {
        Some(i) => if i > fs {
            let suffix = path.substring_char(i + 1, len);
            crate::strutil::str_eq(suffix, "wasm")
        } else {
            false
        },
        None => false,
    }
}

/// Hyphen normalization is idempotent: applying it to an already normalized
/// name changes nothing.
pub proof fn lemma_dash_to_underscore_idempotent(s: Seq<char>)
    ensures
        dash_to_underscore(dash_to_underscore(s)) == dash_to_underscore(s),
{
    assert(dash_to_underscore(dash_to_underscore(s)) =~= dash_to_underscore(s));
}

} // verus!
