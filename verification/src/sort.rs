use vstd::prelude::*;
use crate::errors::RunError;

verus! {

// ---------------------------------------------------------------------------
// The graph model: nodes are indices 0..n, edges say "must come before".
// ---------------------------------------------------------------------------

/// `(a, b)` is one of the graph's edges: `a` must come before `b`.
pub open spec fn is_edge(edges: Seq<(usize, usize)>, a: usize, b: usize) -> bool {
    exists|k: int| 0 <= k < edges.len() && edges[k] == (a, b)
}

/// Every edge endpoint lies below `n`.
pub open spec fn edges_bounded(edges: Seq<(usize, usize)>, n: nat) -> bool {
    forall|k: int| 0 <= k < edges.len() ==> (#[trigger] edges[k]).0 < n && edges[k].1 < n
}

/// A cycle: a closed walk of length at least one edge.
pub open spec fn is_cycle(edges: Seq<(usize, usize)>, c: Seq<usize>) -> bool {
    &&& c.len() >= 2
    &&& c[0] == c[c.len() - 1]
    &&& forall|t: int| 0 <= t < c.len() - 1 ==> is_edge(edges, #[trigger] c[t], c[t + 1])
}

pub open spec fn has_cycle(edges: Seq<(usize, usize)>) -> bool {
    exists|c: Seq<usize>| is_cycle(edges, c)
}

/// `v` occurs somewhere in `ord`.
pub open spec fn appears(ord: Seq<usize>, v: usize) -> bool {
    exists|j: int| 0 <= j < ord.len() && ord[j] == v
}

/// `ord` lists every node below `n` exactly once, and every edge points
/// forward in it.
pub open spec fn valid_topo_order(n: nat, edges: Seq<(usize, usize)>, ord: Seq<usize>) -> bool {
    &&& ord.len() == n
    &&& forall|j: int| 0 <= j < ord.len() ==> (#[trigger] ord[j]) < n
    &&& forall|j: int, k: int| 0 <= j < k < ord.len() ==> #[trigger] ord[j] != #[trigger] ord[k]
    &&& forall|v: usize| v < n ==> #[trigger] appears(ord, v)
    &&& forall|e: int, j: int, k: int|
        0 <= e < edges.len() && 0 <= j < ord.len() && 0 <= k < ord.len() && #[trigger] ord[j]
            == (#[trigger] edges[e]).0 && #[trigger] ord[k] == edges[e].1 ==> j < k
}

/// Some edge still leads into `v` from a node marked remaining.
pub open spec fn blocked(edges: Seq<(usize, usize)>, remaining: Seq<bool>, v: usize) -> bool {
    exists|k: int|
        0 <= k < edges.len() && (#[trigger] edges[k]).1 == v && remaining[edges[k].0 as int]
}

// ---------------------------------------------------------------------------
// Counting helpers for termination and completeness.
// ---------------------------------------------------------------------------

pub open spec fn count_true(s: Seq<bool>) -> nat
    decreases s.len(),
{
    if s.len() == 0 {
        0
    } else {
        count_true(s.drop_last()) + if s.last() {
            1nat
        } else {
            0nat
        }
    }
}

proof fn lemma_count_true_le_len(s: Seq<bool>)
    ensures
        count_true(s) <= s.len(),
    decreases s.len(),
{
    if s.len() > 0 {
        lemma_count_true_le_len(s.drop_last());
    }
}

proof fn lemma_count_true_update(s: Seq<bool>, i: int, b: bool)
    requires
        0 <= i < s.len(),
    ensures
        count_true(s.update(i, b)) == count_true(s) - (if s[i] {
            1int
        } else {
            0int
        }) + (if b {
            1int
        } else {
            0int
        }),
    decreases s.len(),
{
    let t = s.update(i, b);
    if i == s.len() - 1 {
        assert(t.drop_last() =~= s.drop_last());
    } else {
        assert(t.drop_last() =~= s.drop_last().update(i, b));
        lemma_count_true_update(s.drop_last(), i, b);
        assert(t.last() == s.last());
    }
}

proof fn lemma_count_true_zero(s: Seq<bool>)
    requires
        count_true(s) == 0,
    ensures
        forall|i: int| 0 <= i < s.len() ==> !s[i],
    decreases s.len(),
{
    if s.len() > 0 {
        lemma_count_true_zero(s.drop_last());
        assert(forall|i: int| 0 <= i < s.len() - 1 ==> s[i] == s.drop_last()[i]);
    }
}

// ---------------------------------------------------------------------------
// Exec helpers.
// ---------------------------------------------------------------------------

/// A vector of `n` copies of `b`.
fn bool_vec(n: usize, b: bool) -> (r: Vec<bool>)
    ensures
        r@.len() == n,
        forall|i: int| 0 <= i < n ==> r@[i] == b,
        count_true(r@) == if b {
            n as nat
        } else {
            0nat
        },
{
    let mut r: Vec<bool> = Vec::new();
    let mut i: usize = 0;
    while i < n
        invariant
            i <= n,
            r@.len() == i,
            forall|j: int| 0 <= j < i ==> r@[j] == b,
            count_true(r@) == if b {
                i as nat
            } else {
                0nat
            },
        decreases n - i,
    {
        proof {
            assert(r@.push(b).drop_last() =~= r@);
        }
        r.push(b);
        i += 1;
    }
    r
}

/// Searches for an edge into `v` whose source is still remaining.
fn find_pred(v: usize, edges: &Vec<(usize, usize)>, remaining: &Vec<bool>) -> (r: Option<usize>)
    requires
        forall|k: int|
            0 <= k < edges@.len() ==> (#[trigger] edges@[k]).0 < remaining@.len(),
    ensures
        match r {
            Some(u) => is_edge(edges@, u, v) && u < remaining@.len() && remaining@[u as int],
            None => !blocked(edges@, remaining@, v),
        },
{
    let m = edges.len();
    let mut k: usize = 0;
    while k < m
        invariant
            m == edges@.len(),
            k <= m,
            forall|k2: int|
                0 <= k2 < edges@.len() ==> (#[trigger] edges@[k2]).0 < remaining@.len(),
            forall|k2: int|
                0 <= k2 < k ==> !((#[trigger] edges@[k2]).1 == v && remaining@[edges@[k2].0 as int]),
        decreases m - k,
    {
        let e = edges[k];
        if e.1 == v && remaining[e.0] {
            proof {
                assert(edges@[k as int] == (e.0, v));
            }
            return Some(e.0);
        }
        k += 1;
    }
    None
}

/// Searches for a remaining node with no remaining predecessor.
fn find_ready(n: usize, edges: &Vec<(usize, usize)>, remaining: &Vec<bool>) -> (r: Option<usize>)
    requires
        remaining@.len() == n,
        edges_bounded(edges@, n as nat),
    ensures
        match r {
            Some(v) => v < n && remaining@[v as int] && !blocked(edges@, remaining@, v),
            None => forall|v: usize|
                v < n && remaining@[v as int] ==> #[trigger] blocked(edges@, remaining@, v),
        },
{
    let mut v: usize = 0;
    while v < n
        invariant
            remaining@.len() == n,
            edges_bounded(edges@, n as nat),
            v <= n,
            forall|v2: usize|
                v2 < v && remaining@[v2 as int] ==> #[trigger] blocked(edges@, remaining@, v2),
        decreases n - v,
    {
        if remaining[v] {
            match find_pred(v, edges, remaining) {
                None => {
                    return Some(v);
                },
                Some(u) => {
                    proof {
                        let k = choose|k: int|
                            0 <= k < edges@.len() && edges@[k] == (u, v);
                        assert(edges@[k].1 == v && remaining@[edges@[k].0 as int]);
                        assert(blocked(edges@, remaining@, v));
                    }
                },
            }
        }
        v += 1;
    }
    None
}

/// Searches for any node still marked remaining.
fn find_remaining(n: usize, remaining: &Vec<bool>) -> (r: Option<usize>)
    requires
        remaining@.len() == n,
    ensures
        match r {
            Some(v) => v < n && remaining@[v as int],
            None => forall|j: int| 0 <= j < n ==> !remaining@[j],
        },
{
    let mut v: usize = 0;
    while v < n
        invariant
            remaining@.len() == n,
            v <= n,
            forall|j: int| 0 <= j < v ==> !remaining@[j],
        decreases n - v,
    {
        if remaining[v] {
            return Some(v);
        }
        v += 1;
    }
    None
}

/// At a stuck state every remaining node has a remaining predecessor, so
/// following predecessors must eventually close on itself: exhibits a cycle.
fn witness_cycle(n: usize, edges: &Vec<(usize, usize)>, remaining: &Vec<bool>)
    requires
        remaining@.len() == n,
        edges_bounded(edges@, n as nat),
        count_true(remaining@) > 0,
        forall|v: usize|
            v < n && remaining@[v as int] ==> #[trigger] blocked(edges@, remaining@, v),
    ensures
        has_cycle(edges@),
{
    // Pick any remaining node as the walk's start.
    let v0 = match find_remaining(n, remaining) {
        Some(v0) => v0,
        None => {
            proof {
                lemma_count_true_pos(remaining@);
                let i = choose|i: int| 0 <= i < remaining@.len() && remaining@[i];
                assert(!remaining@[i]);
            }
            return vstd::pervasive::unreached();
        },
    };
    let mut path: Vec<usize> = Vec::new();
    path.push(v0);
    let mut visited = bool_vec(n, false);
    let ghost visfresh = visited@;
    visited.set(v0, true);
    proof {
        lemma_count_true_update(visfresh, v0 as int, true);
        assert(count_true(visited@) == 1);
        assert(path@[0] == v0);
        assert forall|x: usize| x < n implies (visited@[x as int] <==> #[trigger] appears(
            path@,
            x,
        )) by {
            if x == v0 {
                assert(path@[0] == x);
            } else {
                if appears(path@, x) {
                    let j = choose|j: int| 0 <= j < path@.len() && path@[j] == x;
                    assert(false);
                }
            }
        }
    }
    loop
        invariant
            remaining@.len() == n,
            visited@.len() == n,
            edges_bounded(edges@, n as nat),
            forall|v: usize|
                v < n && remaining@[v as int] ==> #[trigger] blocked(edges@, remaining@, v),
            path@.len() >= 1,
            forall|m: int|
                0 <= m < path@.len() ==> (#[trigger] path@[m]) < n && remaining@[path@[m] as int],
            forall|m: int|
                0 <= m < path@.len() - 1 ==> is_edge(edges@, path@[m + 1], #[trigger] path@[m]),
            forall|x: usize| x < n ==> (visited@[x as int] <==> #[trigger] appears(path@, x)),
            count_true(visited@) == path@.len(),
        decreases n - count_true(visited@),
    {
        proof {
            lemma_count_true_le_len(visited@);
        }
        let cur = path[path.len() - 1];
        match find_pred(cur, edges, remaining) {
            None => {
                proof {
                    assert(path@[path@.len() - 1] == cur);
                    assert(blocked(edges@, remaining@, cur));
                }
                return vstd::pervasive::unreached();
            },
            Some(u) => {
                proof {
                    assert(cur == path@[path@.len() - 1]);
                    assert(is_edge(edges@, u, path@[path@.len() - 1]));
                }
                if visited[u] {
                    // The walk closed: path[m] == u for some m, and u has an
                    // edge to the walk's current end.
                    let mut m: usize = 0;
                    let plen = path.len();
                    while m < plen
                        invariant
                            plen == path@.len(),
                            m <= plen,
                            forall|m2: int| 0 <= m2 < m ==> path@[m2] != u,
                            is_edge(edges@, u, path@[path@.len() - 1]),
                            forall|t: int|
                                0 <= t < path@.len() - 1 ==> is_edge(
                                    edges@,
                                    path@[t + 1],
                                    #[trigger] path@[t],
                                ),
                        decreases plen - m,
                    {
                        if path[m] == u {
                            proof {
                                lemma_cycle_from_walk(edges@, path@, m as int, u);
                            }
                            return ;
                        }
                        m += 1;
                    }
                    proof {
                        assert(appears(path@, u));
                        let j = choose|j: int| 0 <= j < path@.len() && path@[j] == u;
                        assert(path@[j] != u);
                    }
                    return vstd::pervasive::unreached();
                } else {
                    let ghost vis0 = visited@;
                    let ghost path0 = path@;
                    proof {
                        lemma_count_true_update(vis0, u as int, true);
                    }
                    visited.set(u, true);
                    path.push(u);
                    proof {
                        lemma_count_true_le_len(visited@);
                        assert(path@.drop_last() =~= path0);
                        assert forall|x: usize| x < n implies (visited@[x as int]
                            <==> #[trigger] appears(path@, x)) by {
                            if x == u {
                                assert(path@[path@.len() - 1] == u);
                            } else {
                                if appears(path@, x) {
                                    let j = choose|j: int| 0 <= j < path@.len() && path@[j] == x;
                                    assert(j < path@.len() - 1);
                                    assert(path0[j] == x);
                                    assert(appears(path0, x));
                                } else {
                                    if appears(path0, x) {
                                        let j = choose|j: int|
                                            0 <= j < path0.len() && path0[j] == x;
                                        assert(path@[j] == x);
                                        assert(appears(path@, x));
                                    }
                                }
                            }
                        }
                    }
                }
            },
        }
    }
}

proof fn lemma_count_true_pos(s: Seq<bool>)
    requires
        count_true(s) > 0,
    ensures
        exists|i: int| 0 <= i < s.len() && s[i],
    decreases s.len(),
{
    if s.last() {
        assert(s[s.len() - 1]);
    } else {
        lemma_count_true_pos(s.drop_last());
        let i = choose|i: int| 0 <= i < s.drop_last().len() && s.drop_last()[i];
        assert(s[i]);
    }
}

/// From a predecessor walk that closes on itself, builds the cycle witness.
proof fn lemma_cycle_from_walk(edges: Seq<(usize, usize)>, p: Seq<usize>, m: int, u: usize)
    requires
        0 <= m < p.len(),
        p[m] == u,
        is_edge(edges, u, p[p.len() - 1]),
        forall|t: int| 0 <= t < p.len() - 1 ==> is_edge(edges, p[t + 1], #[trigger] p[t]),
    ensures
        has_cycle(edges),
{
    let l = p.len() as int;
    let c = Seq::new((l - m + 1) as nat, |t: int| if t == 0 { u } else { p[l - t] });
    assert(c.len() >= 2);
    assert(c[0] == u);
    assert(c[c.len() - 1] == p[m]);
    assert forall|t: int| 0 <= t < c.len() - 1 implies is_edge(edges, #[trigger] c[t], c[t + 1]) by {
        if t == 0 {
            assert(c[1] == p[l - 1]);
        } else {
            assert(c[t] == p[l - t]);
            assert(c[t + 1] == p[l - t - 1]);
            assert(is_edge(edges, p[(l - t - 1) + 1], p[l - t - 1]));
        }
    }
    assert(is_cycle(edges, c));
}

// ---------------------------------------------------------------------------
// The sorter itself.
// ---------------------------------------------------------------------------

/// Topologically sorts the nodes `0..n` under the given edges.
///
/// On success the returned order lists every node exactly once with every
/// edge pointing forward, and the graph is certainly acyclic. The sorter
/// fails, with the cycle error and never with a partial order, exactly when
/// the edges close a cycle.
pub fn toposort_indices(n: usize, edges: &Vec<(usize, usize)>) -> (r: Result<Vec<usize>, RunError>)
    requires
        edges_bounded(edges@, n as nat),
    ensures
        match r {
            Ok(ord) => valid_topo_order(n as nat, edges@, ord@) && !has_cycle(edges@),
            Err(e) => e == RunError::DependencyCycleError && has_cycle(edges@),
        },
{
    let mut remaining = bool_vec(n, true);
    let mut ordered: Vec<usize> = Vec::new();
    while ordered.len() < n
        invariant
            remaining@.len() == n,
            edges_bounded(edges@, n as nat),
            ordered@.len() + count_true(remaining@) == n,
            forall|j: int|
                0 <= j < ordered@.len() ==> (#[trigger] ordered@[j]) < n && !remaining@[ordered@[j] as int],
            forall|j: int, k: int|
                0 <= j < k < ordered@.len() ==> #[trigger] ordered@[j] != #[trigger] ordered@[k],
            forall|x: usize|
                x < n && !remaining@[x as int] ==> #[trigger] appears(ordered@, x),
            forall|e: int, j: int|
                0 <= e < edges@.len() && 0 <= j < ordered@.len() && (#[trigger] edges@[e]).1
                    == #[trigger] ordered@[j] ==> exists|k: int|
                    0 <= k < j && ordered@[k] == edges@[e].0,
        decreases count_true(remaining@),
    {
        match find_ready(n, edges, &remaining) {
            Some(v) => {
                let ghost rem0 = remaining@;
                let ghost ord0 = ordered@;
                proof {
                    lemma_count_true_update(rem0, v as int, false);
                }
                remaining.set(v, false);
                ordered.push(v);
                proof {
                    assert forall|j: int|
                        0 <= j < ordered@.len() implies (#[trigger] ordered@[j]) < n
                        && !remaining@[ordered@[j] as int] by {
                        if j < ord0.len() {
                            assert(ordered@[j] == ord0[j]);
                        } else {
                            assert(ordered@[j] == v);
                        }
                    }
                    assert forall|x: usize|
                        x < n && !remaining@[x as int] implies #[trigger] appears(ordered@, x) by {
                        if x == v {
                            assert(ordered@[ord0.len() as int] == v);
                        } else {
                            assert(!rem0[x as int]);
                            assert(appears(ord0, x));
                            let j = choose|j: int| 0 <= j < ord0.len() && ord0[j] == x;
                            assert(ordered@[j] == x);
                        }
                    }
                    assert forall|e: int, j: int|
                        0 <= e < edges@.len() && 0 <= j < ordered@.len() && (#[trigger] edges@[e]).1 == #[trigger] ordered@[j] implies exists|k: int|
                        0 <= k < j && ordered@[k] == edges@[e].0 by {
                        if j < ord0.len() {
                            assert(ordered@[j] == ord0[j]);
                            let k = choose|k: int| 0 <= k < j && ord0[k] == edges@[e].0;
                            assert(ordered@[k] == edges@[e].0);
                        } else {
                            // The pushed node was ready: its predecessors were
                            // already taken out of remaining, hence ordered.
                            assert(ordered@[j] == v);
                            assert(!blocked(edges@, rem0, v));
                            assert(!rem0[edges@[e].0 as int]);
                            assert(appears(ord0, edges@[e].0));
                            let k = choose|k: int| 0 <= k < ord0.len() && ord0[k] == edges@[e].0;
                            assert(ordered@[k] == edges@[e].0);
                        }
                    }
                }
            },
            None => {
                proof {
                    lemma_count_true_le_len(remaining@);
                }
                witness_cycle(n, edges, &remaining);
                return Err(RunError::DependencyCycleError);
            },
        }
    }
    proof {
        lemma_count_true_zero(remaining@);
        assert forall|v: usize| v < n implies #[trigger] appears(ordered@, v) by {
            assert(!remaining@[v as int]);
        }
        assert forall|e: int, j: int, k: int|
            0 <= e < edges@.len() && 0 <= j < ordered@.len() && 0 <= k < ordered@.len()
                && #[trigger] ordered@[j] == (#[trigger] edges@[e]).0 && #[trigger] ordered@[k]
                == edges@[e].1 implies j < k by {
            let k2 = choose|k2: int| 0 <= k2 < k && ordered@[k2] == edges@[e].0;
            if k2 != j {
                assert(ordered@[k2] == ordered@[j]);
                assert(false);
            }
        }
        assert(valid_topo_order(n as nat, edges@, ordered@));
        lemma_valid_order_no_cycle(n as nat, edges@, ordered@);
    }
    Ok(ordered)
}

// ---------------------------------------------------------------------------
// A valid order rules cycles out.
// ---------------------------------------------------------------------------

spec fn pos_of(ord: Seq<usize>, v: usize) -> int {
    choose|j: int| 0 <= j < ord.len() && ord[j] == v
}

proof fn lemma_pos_of(n: nat, edges: Seq<(usize, usize)>, ord: Seq<usize>, v: usize)
    requires
        valid_topo_order(n, edges, ord),
        v < n,
    ensures
        0 <= pos_of(ord, v) < ord.len(),
        ord[pos_of(ord, v)] == v,
{
    assert(appears(ord, v));
}

proof fn lemma_edge_pos(n: nat, edges: Seq<(usize, usize)>, ord: Seq<usize>, a: usize, b: usize)
    requires
        valid_topo_order(n, edges, ord),
        edges_bounded(edges, n),
        is_edge(edges, a, b),
    ensures
        pos_of(ord, a) < pos_of(ord, b),
{
    let e = choose|e: int| 0 <= e < edges.len() && edges[e] == (a, b);
    lemma_pos_of(n, edges, ord, a);
    lemma_pos_of(n, edges, ord, b);
    assert(ord[pos_of(ord, a)] == edges[e].0);
    assert(ord[pos_of(ord, b)] == edges[e].1);
}

proof fn lemma_walk_pos(n: nat, edges: Seq<(usize, usize)>, ord: Seq<usize>, c: Seq<usize>, t: int)
    requires
        valid_topo_order(n, edges, ord),
        edges_bounded(edges, n),
        forall|k: int| 0 <= k < c.len() - 1 ==> is_edge(edges, #[trigger] c[k], c[k + 1]),
        1 <= t < c.len(),
    ensures
        pos_of(ord, c[0]) < pos_of(ord, c[t]),
    decreases t,
{
    assert(is_edge(edges, c[t - 1], c[t]));
    lemma_edge_pos(n, edges, ord, c[t - 1], c[t]);
    if t > 1 {
        lemma_walk_pos(n, edges, ord, c, t - 1);
    }
}

/// Any order that satisfies `valid_topo_order` certifies the graph acyclic.
pub proof fn lemma_valid_order_no_cycle(n: nat, edges: Seq<(usize, usize)>, ord: Seq<usize>)
    requires
        valid_topo_order(n, edges, ord),
        edges_bounded(edges, n),
    ensures
        !has_cycle(edges),
{
    if has_cycle(edges) {
        let c = choose|c: Seq<usize>| is_cycle(edges, c);
        lemma_walk_pos(n, edges, ord, c, c.len() - 1);
        assert(c[0] == c[c.len() - 1]);
        assert(false);
    }
}

// ---------------------------------------------------------------------------
// Artifact paths and the declared dependency pairs.
// ---------------------------------------------------------------------------

/// One declared ordering constraint: the artifact whose path contains the
/// `before` substring must precede the one whose path contains `after`.
pub struct DepPair {
    pub before: String,
    pub after: String,
}

/// The identifying substrings of a pair table, as character sequences.
pub open spec fn pairs_view(ps: Seq<DepPair>) -> Seq<(Seq<char>, Seq<char>)> {
    ps.map_values(|p: DepPair| (p.before@, p.after@))
}

/// The character sequences of a path list.
pub open spec fn paths_view(ps: Seq<String>) -> Seq<Seq<char>> {
    ps.map_values(|s: String| s@)
}

/// The artifact matched by an identifying substring: the last path in the
/// list that contains it.
pub open spec fn last_match(paths: Seq<Seq<char>>, key: Seq<char>) -> Option<int>
    decreases paths.len(),
{
    if paths.len() == 0 {
        None
    } else if crate::strutil::contains_seq(paths.last(), key) {
        Some(paths.len() - 1)
    } else {
        last_match(paths.drop_last(), key)
    }
}

proof fn lemma_last_match(paths: Seq<Seq<char>>, key: Seq<char>)
    ensures
        match last_match(paths, key) {
            Some(i) => 0 <= i < paths.len() && crate::strutil::contains_seq(paths[i], key)
                && (forall|j: int|
                i < j < paths.len() ==> !crate::strutil::contains_seq(#[trigger] paths[j], key)),
            None => forall|j: int|
                0 <= j < paths.len() ==> !crate::strutil::contains_seq(#[trigger] paths[j], key),
        },
    decreases paths.len(),
{
    if paths.len() > 0 && !crate::strutil::contains_seq(paths.last(), key) {
        lemma_last_match(paths.drop_last(), key);
        assert(forall|j: int| 0 <= j < paths.len() - 1 ==> paths.drop_last()[j] == paths[j]);
    }
}

/// The edges induced over a path list by a pair table: one edge per pair
/// whose two identifying substrings both match some path.
pub open spec fn edges_of(paths: Seq<Seq<char>>, pairs: Seq<(Seq<char>, Seq<char>)>) -> Seq<
    (usize, usize),
>
    decreases pairs.len(),
{
    if pairs.len() == 0 {
        Seq::empty()
    } else {
        let rest = edges_of(paths, pairs.drop_last());
        let pr = pairs.last();
        match (last_match(paths, pr.0), last_match(paths, pr.1)) {
            (Some(a), Some(b)) => rest.push((a as usize, b as usize)),
            _ => rest,
        }
    }
}

proof fn lemma_edges_of_bounded(paths: Seq<Seq<char>>, pairs: Seq<(Seq<char>, Seq<char>)>)
    ensures
        edges_bounded(edges_of(paths, pairs), paths.len()),
    decreases pairs.len(),
{
    if pairs.len() > 0 {
        lemma_edges_of_bounded(paths, pairs.drop_last());
        let pr = pairs.last();
        lemma_last_match(paths, pr.0);
        lemma_last_match(paths, pr.1);
    }
}

proof fn lemma_edges_of_pairs(
    paths: Seq<Seq<char>>,
    pairs: Seq<(Seq<char>, Seq<char>)>,
    k: int,
    a: int,
    b: int,
)
    requires
        0 <= k < pairs.len(),
        last_match(paths, pairs[k].0) == Some(a),
        last_match(paths, pairs[k].1) == Some(b),
        0 <= a,
        0 <= b,
    ensures
        is_edge(edges_of(paths, pairs), a as usize, b as usize),
    decreases pairs.len(),
{
    let es = edges_of(paths, pairs);
    if k == pairs.len() - 1 {
        assert(pairs.last() == pairs[k]);
        let rest = edges_of(paths, pairs.drop_last());
        assert(es == rest.push((a as usize, b as usize)));
        assert(es[es.len() - 1] == (a as usize, b as usize));
    } else {
        assert(pairs.drop_last()[k] == pairs[k]);
        lemma_edges_of_pairs(paths, pairs.drop_last(), k, a, b);
        let rest = edges_of(paths, pairs.drop_last());
        let e = choose|e: int| 0 <= e < rest.len() && rest[e] == ((a as usize, b as usize));
        match (last_match(paths, pairs.last().0), last_match(paths, pairs.last().1)) {
            (Some(x), Some(y)) => {
                assert(es[e] == (a as usize, b as usize));
            },
            _ => {
                assert(es[e] == (a as usize, b as usize));
            },
        }
    }
}

/// Finds the last path containing the identifying substring, if any.
fn find_last_match(paths: &Vec<String>, key: &str) -> (r: Option<usize>)
    ensures
        match r {
            Some(i) => last_match(paths_view(paths@), key@) == Some(i as int),
            None => last_match(paths_view(paths@), key@) is None,
        },
{
    let mut i: usize = paths.len();
    while i > 0
        invariant
            i <= paths@.len(),
            forall|j: int|
                i <= j < paths@.len() ==> !crate::strutil::contains_seq(
                    #[trigger] paths_view(paths@)[j],
                    key@,
                ),
        decreases i,
    {
        i -= 1;
        let p: &String = &paths[i];
        if crate::strutil::str_contains(p.as_str(), key) {
            proof {
                assert(paths_view(paths@)[i as int] == paths@[i as int]@);
                lemma_last_match(paths_view(paths@), key@);
            }
            return Some(i);
        }
        proof {
            assert(paths_view(paths@)[i as int] == paths@[i as int]@);
        }
    }
    proof {
        lemma_last_match(paths_view(paths@), key@);
    }
    None
}

/// Builds the induced edge list over node indices.
fn build_edges(paths: &Vec<String>, pairs: &Vec<DepPair>) -> (r: Vec<(usize, usize)>)
    ensures
        r@ == edges_of(paths_view(paths@), pairs_view(pairs@)),
{
    let ghost pv = pairs_view(pairs@);
    let mut edges: Vec<(usize, usize)> = Vec::new();
    let mut i: usize = 0;
    while i < pairs.len()
        invariant
            pv == pairs_view(pairs@),
            i <= pairs@.len(),
            edges@ == edges_of(paths_view(paths@), pv.take(i as int)),
        decreases pairs@.len() - i,
    {
        let pr: &DepPair = &pairs[i];
        let a = find_last_match(paths, pr.before.as_str());
        let b = find_last_match(paths, pr.after.as_str());
        proof {
            assert(pv.take(i + 1).drop_last() =~= pv.take(i as int));
            assert(pv.take(i + 1).last() == pv[i as int]);
            assert(pv[i as int] == (pairs@[i as int].before@, pairs@[i as int].after@));
        }
        match (a, b) {
            (Some(a), Some(b)) => {
                edges.push((a, b));
            },
            _ => {},
        }
        i += 1;
    }
    proof {
        assert(pv.take(pairs@.len() as int) =~= pv);
    }
    edges
}

/// Whether the given order respects the pair at index `k`: when both of the
/// pair's substrings match a discovered path, the matched `before` path
/// stands strictly before the matched `after` path.
pub open spec fn pair_respected(
    paths: Seq<String>,
    pairs: Seq<DepPair>,
    k: int,
    ord: Seq<String>,
) -> bool {
    match (
        last_match(paths_view(paths), pairs[k].before@),
        last_match(paths_view(paths), pairs[k].after@),
    ) {
        (Some(a), Some(b)) => exists|j1: int, j2: int|
            0 <= j1 < j2 < ord.len() && ord[j1] == paths[a] && ord[j2] == paths[b],
        _ => true,
    }
}

/// Orders the discovered artifact paths so that every declared dependency
/// pair whose substrings both match points forward.
///
/// Fails with the cycle error, and never with a partial or arbitrary order,
/// exactly when the induced edges close a cycle.
pub fn sorted_artifacts(paths: &Vec<String>, pairs: &Vec<DepPair>) -> (r: Result<
    Vec<String>,
    RunError,
>)
    ensures
        match r {
            Ok(ord) => {
                &&& !has_cycle(edges_of(paths_view(paths@), pairs_view(pairs@)))
                &&& exists|ix: Seq<usize>|
                    valid_topo_order(
                        paths@.len() as nat,
                        edges_of(paths_view(paths@), pairs_view(pairs@)),
                        ix,
                    ) && ord@ == ix.map_values(|i: usize| paths@[i as int])
                &&& forall|k: int|
                    0 <= k < pairs@.len() ==> #[trigger] pair_respected(paths@, pairs@, k, ord@)
            },
            Err(e) => e == RunError::DependencyCycleError && has_cycle(
                edges_of(paths_view(paths@), pairs_view(pairs@)),
            ),
        },
{
    let n = paths.len();
    let edges = build_edges(paths, pairs);
    proof {
        lemma_edges_of_bounded(paths_view(paths@), pairs_view(pairs@));
        assert(paths_view(paths@).len() == paths@.len());
    }
    match toposort_indices(n, &edges) {
        Ok(ix) => {
            let mut out: Vec<String> = Vec::new();
            let mut j: usize = 0;
            while j < ix.len()
                invariant
                    valid_topo_order(n as nat, edges@, ix@),
                    n == paths@.len(),
                    j <= ix@.len(),
                    out@ == ix@.take(j as int).map_values(|i: usize| paths@[i as int]),
                decreases ix@.len() - j,
            {
                let idx = ix[j];
                proof {
                    assert(ix@[j as int] < n);
                }
                let s = paths[idx].clone();
                out.push(s);
                proof {
                    assert(ix@.take(j + 1).drop_last() =~= ix@.take(j as int));
                    assert(out@ =~= ix@.take(j + 1).map_values(|i: usize| paths@[i as int]));
                }
                j += 1;
            }
            proof {
                assert(ix@.take(ix@.len() as int) =~= ix@);
                let ghost es = edges_of(paths_view(paths@), pairs_view(pairs@));
                assert forall|k: int|
                    0 <= k < pairs@.len() implies #[trigger] pair_respected(
                    paths@,
                    pairs@,
                    k,
                    out@,
                ) by {
                    assert(pairs_view(pairs@)[k] == (pairs@[k].before@, pairs@[k].after@));
                    match (
                        last_match(paths_view(paths@), pairs@[k].before@),
                        last_match(paths_view(paths@), pairs@[k].after@),
                    ) {
                        (Some(a), Some(b)) => {
                            lemma_last_match(paths_view(paths@), pairs@[k].before@);
                            lemma_last_match(paths_view(paths@), pairs@[k].after@);
                            lemma_edges_of_pairs(
                                paths_view(paths@),
                                pairs_view(pairs@),
                                k,
                                a,
                                b,
                            );
                            lemma_edge_pos(n as nat, es, ix@, a as usize, b as usize);
                            lemma_pos_of(n as nat, es, ix@, a as usize);
                            lemma_pos_of(n as nat, es, ix@, b as usize);
                            let j1 = pos_of(ix@, a as usize);
                            let j2 = pos_of(ix@, b as usize);
                            assert(out@[j1] == paths@[a]);
                            assert(out@[j2] == paths@[b]);
                        },
                        _ => {},
                    }
                }
            }
            Ok(out)
        },
        Err(e) => Err(e),
    }
}

/// The built-in table of cross-contract dependency pairs: the caller example
/// follows its callee, a swap precedes the multiswap that drives it, and the
/// token precedes the liquidity pool that holds it.
pub fn known_dependency_pairs() -> (r: Vec<DepPair>)
    ensures
        r@.len() == 3,
        r@[0].before@ == "soroban_cross_contract_a_contract"@,
        r@[0].after@ == "soroban_cross_contract_b_contract"@,
        r@[1].before@ == "soroban_atomic_swap_contract"@,
        r@[1].after@ == "soroban_atomic_multiswap_contract"@,
        r@[2].before@ == "soroban_token_contract"@,
        r@[2].after@ == "soroban_liquidity_pool_contract"@,
{
    let mut v: Vec<DepPair> = Vec::new();
    v.push(
        DepPair {
            before: String::from_str("soroban_cross_contract_a_contract"),
            after: String::from_str("soroban_cross_contract_b_contract"),
        },
    );
    v.push(
        DepPair {
            before: String::from_str("soroban_atomic_swap_contract"),
            after: String::from_str("soroban_atomic_multiswap_contract"),
        },
    );
    v.push(
        DepPair {
            before: String::from_str("soroban_token_contract"),
            after: String::from_str("soroban_liquidity_pool_contract"),
        },
    );
    v
}


} // verus!
