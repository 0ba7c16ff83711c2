use vstd::prelude::*;
use vstd::string::*;
use crate::errors::RunError;
use crate::sort::paths_view;
use crate::strutil::matches_at;

verus! {

// ---------------------------------------------------------------------------
// The grammar of the embedded catalog document, as a deterministic spec
// parser: optional whitespace, the key `contracts`, `=`, and a bracketed,
// comma-separated list of quoted names (a trailing comma is allowed).
// ---------------------------------------------------------------------------

pub open spec fn is_ws(c: char) -> bool {
    c == ' ' || c == '\t' || c == '\n' || c == '\r'
}

/// The first position at or after `i` holding a non-whitespace character.
pub open spec fn skip_ws(s: Seq<char>, i: int) -> int
    decreases s.len() - i when 0 <= i <= s.len()
{
    if i < s.len() && is_ws(s[i]) {
        skip_ws(s, i + 1)
    } else {
        i
    }
}

pub proof fn lemma_skip_ws_bounds(s: Seq<char>, i: int)
    requires
        0 <= i <= s.len(),
    ensures
        i <= skip_ws(s, i) <= s.len(),
    decreases s.len() - i,
{
    if i < s.len() && is_ws(s[i]) {
        lemma_skip_ws_bounds(s, i + 1);
    }
}

/// With `i` just after an opening quote: the position of the closing quote.
/// Escapes and raw newlines are not part of the accepted grammar.
pub open spec fn scan_string_end(s: Seq<char>, i: int) -> Option<int>
    decreases s.len() - i when 0 <= i <= s.len()
{
    if i >= s.len() {
        None
    } else if s[i] == '"' {
        Some(i)
    } else if s[i] == '\\' || s[i] == '\n' {
        None
    } else {
        scan_string_end(s, i + 1)
    }
}

pub proof fn lemma_scan_string_end_bounds(s: Seq<char>, i: int)
    requires
        0 <= i <= s.len(),
    ensures
        scan_string_end(s, i) matches Some(e) ==> i <= e < s.len(),
    decreases s.len() - i,
{
    if i < s.len() && s[i] != '"' && s[i] != '\\' && s[i] != '\n' {
        lemma_scan_string_end_bounds(s, i + 1);
    }
}

/// With `i` just inside the bracketed list: the names it holds in order,
/// and the position just after the closing bracket.
pub open spec fn parse_items(s: Seq<char>, i: int) -> Option<(Seq<Seq<char>>, int)>
    decreases s.len() - i when 0 <= i <= s.len() via parse_items_dec
{
    let j = skip_ws(s, i);
    if j < s.len() && s[j] == ']' {
        Some((Seq::empty(), j + 1))
    } else if j < s.len() && s[j] == '"' {
        match scan_string_end(s, j + 1) {
            Some(e) => {
                let item = s.subrange(j + 1, e);
                let k = skip_ws(s, e + 1);
                if k < s.len() && s[k] == ',' {
                    match parse_items(s, k + 1) {
                        Some((rest, done)) => Some((seq![item] + rest, done)),
                        None => None,
                    }
                } else if k < s.len() && s[k] == ']' {
                    Some((seq![item], k + 1))
                } else {
                    None
                }
            },
            None => None,
        }
    } else {
        None
    }
}

#[via_fn]
proof fn parse_items_dec(s: Seq<char>, i: int) {
    lemma_skip_ws_bounds(s, i);
    let j = skip_ws(s, i);
    if j < s.len() && s[j] == '"' {
        lemma_scan_string_end_bounds(s, j + 1);
        match scan_string_end(s, j + 1) {
            Some(e) => {
                lemma_skip_ws_bounds(s, e + 1);
            },
            None => {},
        }
    }
}

/// The whole catalog document: the names listed under the `contracts` key,
/// or nothing when the document is malformed.
pub open spec fn spec_parse_catalog(s: Seq<char>) -> Option<Seq<Seq<char>>> {
    let i = skip_ws(s, 0);
    if i + "contracts"@.len() <= s.len() && matches_at(s, "contracts"@, i) {
        let j = skip_ws(s, i + "contracts"@.len());
        if j < s.len() && s[j] == '=' {
            let k = skip_ws(s, j + 1);
            if k < s.len() && s[k] == '[' {
                match parse_items(s, k + 1) {
                    Some((items, e)) => if skip_ws(s, e) == s.len() {
                        Some(items)
                    } else {
                        None
                    },
                    None => None,
                }
            } else {
                None
            }
        } else {
            None
        }
    } else {
        None
    }
}

// ---------------------------------------------------------------------------
// The executable loader.
// ---------------------------------------------------------------------------

fn is_ws_char(c: char) -> (r: bool)
    ensures
        r == is_ws(c),
{
    c == ' ' || c == '\t' || c == '\n' || c == '\r'
}

fn skip_ws_exec(s: &str, i: usize) -> (r: usize)
    requires
        i <= s@.len(),
    ensures
        r == skip_ws(s@, i as int),
        i <= r <= s@.len(),
{
    let len = s.unicode_len();
    let mut j = i;
    while j < len && is_ws_char(s.get_char(j))
        invariant
            len == s@.len(),
            i <= j <= len,
            skip_ws(s@, i as int) == skip_ws(s@, j as int),
        decreases len - j,
    {
        j += 1;
    }
    j
}

fn scan_string_end_exec(s: &str, i: usize) -> (r: Option<usize>)
    requires
        i <= s@.len(),
    ensures
        match r {
            Some(e) => scan_string_end(s@, i as int) == Some(e as int) && i <= e < s@.len(),
            None => scan_string_end(s@, i as int) is None,
        },
{
    let len = s.unicode_len();
    let mut j = i;
    while j < len
        invariant
            len == s@.len(),
            i <= j <= len,
            scan_string_end(s@, i as int) == scan_string_end(s@, j as int),
        decreases len - j,
    {
        let c = s.get_char(j);
        if c == '"' {
            return Some(j);
        }
        if c == '\\' || c == '\n' {
            return None;
        }
        j += 1;
    }
    None
}

fn parse_items_exec(s: &str, i: usize) -> (r: Option<(Vec<String>, usize)>)
    requires
        i <= s@.len(),
    ensures
        match r {
            Some((items, e)) => parse_items(s@, i as int) == Some((paths_view(items@), e as int))
                && e <= s@.len(),
            None => parse_items(s@, i as int) is None,
        },
    decreases s@.len() - i,
{
    let len = s.unicode_len();
    let j = skip_ws_exec(s, i);
    if j < len && s.get_char(j) == ']' {
        let items: Vec<String> = Vec::new();
        proof {
            assert(paths_view(items@) =~= Seq::<Seq<char>>::empty());
        }
        return Some((items, j + 1));
    }
    if j < len && s.get_char(j) == '"' {
        match scan_string_end_exec(s, j + 1) {
            Some(e) => {
                let item = String::from_str(s.substring_char(j + 1, e));
                let k = skip_ws_exec(s, e + 1);
                if k < len && s.get_char(k) == ',' {
                    match parse_items_exec(s, k + 1) {
                        Some((rest, done)) => {
                            let ghost rest0 = rest@;
                            let mut items: Vec<String> = Vec::new();
                            items.push(item);
                            let mut rest = rest;
                            items.append(&mut rest);
                            proof {
                                assert(paths_view(items@) =~= seq![s@.subrange(
                                    j + 1,
                                    e as int,
                                )] + paths_view(rest0));
                            }
                            Some((items, done))
                        },
                        None => None,
                    }
                } else if k < len && s.get_char(k) == ']' {
                    let mut items: Vec<String> = Vec::new();
                    items.push(item);
                    proof {
                        assert(paths_view(items@) =~= seq![s@.subrange(j + 1, e as int)]);
                    }
                    Some((items, k + 1))
                } else {
                    None
                }
            },
            None => None,
        }
    } else {
        None
    }
}

/// Loads the contract catalog from the embedded configuration document.
/// Returns the listed contract names in order, or the configuration error
/// exactly when the document does not follow the catalog grammar.
pub fn parse_contract_list(s: &str) -> (r: Result<Vec<String>, RunError>)
    ensures
        match r {
            Ok(names) => spec_parse_catalog(s@) == Some(paths_view(names@)),
            Err(e) => e == RunError::ConfigError && spec_parse_catalog(s@) is None,
        },
{
    let len = s.unicode_len();
    let i = skip_ws_exec(s, 0);
    proof {
        reveal_strlit("contracts");
    }
    if len < 9 || i > len - 9 {
        return Err(RunError::ConfigError);
    }
    if !crate::strutil::occurs_at(s, "contracts", i) {
        return Err(RunError::ConfigError);
    }
    let j = skip_ws_exec(s, i + 9);
    if !(j < len) || s.get_char(j) != '=' {
        return Err(RunError::ConfigError);
    }
    let k = skip_ws_exec(s, j + 1);
    if !(k < len) || s.get_char(k) != '[' {
        return Err(RunError::ConfigError);
    }
    match parse_items_exec(s, k + 1) {
        Some((items, e)) => {
            let done = skip_ws_exec(s, e);
            if done == len {
                Ok(items)
            } else {
                Err(RunError::ConfigError)
            }
        },
        None => Err(RunError::ConfigError),
    }
}

} // verus!
