//! Transitive closure of a directed graph of bibitem ids.
//!
//! Used to pre-compute `bibitem_further_refs` from the direct
//! `bibitem_refs` edges.
use vstd::prelude::*;

verus! {

/// Step `i` of `p` follows an edge.
pub open spec fn walk_step(edges: Seq<(i64, i64)>, p: Seq<i64>, i: int) -> bool {
    edges.contains((p[i], p[i + 1]))
}

/// `p` is a walk of at least one edge of `edges`.
pub open spec fn is_walk(edges: Seq<(i64, i64)>, p: Seq<i64>) -> bool {
    &&& p.len() >= 2
    &&& forall|i: int| 0 <= i < p.len() - 1 ==> #[trigger] walk_step(edges, p, i)
}

/// Membership after a push.
proof fn lemma_push_contains(s: Seq<i64>, x: i64)
    ensures
        forall|d: i64| #[trigger] s.push(x).contains(d) <==> (s.contains(d) || d == x),
        s.no_duplicates() && !s.contains(x) ==> s.push(x).no_duplicates(),
{
    assert forall|d: i64| #[trigger] s.push(x).contains(d) <==> (s.contains(d) || d == x) by {
        if s.push(x).contains(d) {
            let i = choose|i: int| 0 <= i < s.push(x).len() && s.push(x)[i] == d;
            if i < s.len() {
                assert(s[i] == d);
            }
        }
        if s.contains(d) {
            let i = choose|i: int| 0 <= i < s.len() && s[i] == d;
            assert(s.push(x)[i] == d);
        }
        if d == x {
            assert(s.push(x)[s.len() as int] == d);
        }
    }
}

/// `d` can be reached from `s` by following one or more edges.
pub open spec fn reaches(edges: Seq<(i64, i64)>, s: i64, d: i64) -> bool {
    exists|p: Seq<i64>| #[trigger] is_walk(edges, p) && p[0] == s && p.last() == d
}

/// `(s, d)` belongs to the closure: `d` is reachable from `s` and is not `s`.
pub open spec fn in_closure(edges: Seq<(i64, i64)>, s: i64, d: i64) -> bool {
    s != d && reaches(edges, s, d)
}

/// An edge is a walk.
proof fn lemma_edge_reaches(edges: Seq<(i64, i64)>, a: i64, b: i64)
    requires
        edges.contains((a, b)),
    ensures
        reaches(edges, a, b),
{
    let p = seq![a, b];
    assert(is_walk(edges, p)) by {
        assert forall|i: int| 0 <= i < p.len() - 1 implies #[trigger] walk_step(edges, p, i) by {
            assert(i == 0);
        }
    }
}

/// A walk extended by one edge.
proof fn lemma_reaches_step(edges: Seq<(i64, i64)>, s: i64, c: i64, d: i64)
    requires
        reaches(edges, s, c),
        edges.contains((c, d)),
    ensures
        reaches(edges, s, d),
{
    let p = choose|p: Seq<i64>| #[trigger] is_walk(edges, p) && p[0] == s && p.last() == c;
    let q = p.push(d);
    assert(is_walk(edges, q)) by {
        assert forall|i: int| 0 <= i < q.len() - 1 implies #[trigger] walk_step(edges, q, i) by {
            if i < p.len() - 1 {
                assert(q[i] == p[i] && q[i + 1] == p[i + 1]);
                assert(walk_step(edges, p, i));
            } else {
                assert(q[i] == c && q[i + 1] == d);
            }
        }
    }
    assert(q[0] == s && q.last() == d);
}

/// Every node after the first of a walk from `s` lies in a set that holds
/// the successors of `s` and is closed under the edges.
proof fn lemma_closed_set_holds_walk(edges: Seq<(i64, i64)>, s: i64, r: Seq<i64>, p: Seq<i64>, k: int)
    requires
        is_walk(edges, p),
        p[0] == s,
        1 <= k < p.len(),
        forall|d: i64| edges.contains((s, d)) ==> r.contains(d),
        forall|c: i64, d: i64| r.contains(c) && #[trigger] edges.contains((c, d)) ==> r.contains(d),
    ensures
        r.contains(p[k]),
    decreases k,
{
    if k == 1 {
        assert(walk_step(edges, p, 0));
    } else {
        lemma_closed_set_holds_walk(edges, s, r, p, k - 1);
        assert(walk_step(edges, p, k - 1));
    }
}

/// A walk starts at a node with an outgoing edge.
proof fn lemma_reaches_source(edges: Seq<(i64, i64)>, s: i64, d: i64)
    requires
        reaches(edges, s, d),
    ensures
        exists|j: int| 0 <= j < edges.len() && #[trigger] edges[j].0 == s,
{
    let p = choose|p: Seq<i64>| #[trigger] is_walk(edges, p) && p[0] == s && p.last() == d;
    assert(walk_step(edges, p, 0));
    let j = choose|j: int| 0 <= j < edges.len() && edges[j] == (p[0], p[1]);
    assert(edges[j].0 == s);
}

/// The targets of the edges.
pub open spec fn targets(edges: Seq<(i64, i64)>) -> Seq<i64> {
    edges.map_values(|e: (i64, i64)| e.1)
}

/// A duplicate-free list of edge targets is no longer than the edge list.
proof fn lemma_targets_bound(edges: Seq<(i64, i64)>, r: Seq<i64>)
    requires
        r.no_duplicates(),
        forall|i: int| 0 <= i < r.len() ==> targets(edges).contains(#[trigger] r[i]),
    ensures
        r.len() <= edges.len(),
{
    let t = targets(edges);
    r.unique_seq_to_set();
    t.lemma_cardinality_of_set();
    assert(r.to_set().subset_of(t.to_set())) by {
        assert forall|x: i64| r.to_set().contains(x) implies t.to_set().contains(x) by {
            let i = choose|i: int| 0 <= i < r.len() && r[i] == x;
            assert(targets(edges).contains(r[i]));
        }
    }
    vstd::seq_lib::seq_to_set_is_finite(t);
    vstd::set_lib::lemma_len_subset(r.to_set(), t.to_set());
}

fn contains_id(v: &Vec<i64>, x: i64) -> (r: bool)
    ensures
        r == v@.contains(x),
{
    let mut i: usize = 0;
    while i < v.len()
        invariant
            i <= v.len(),
            forall|j: int| 0 <= j < i ==> v@[j] != x,
        decreases v.len() - i,
    {
        if v[i] == x {
            assert(v@[i as int] == x);
            return true;
        }
        i += 1;
    }
    false
}

/// The nodes reachable from `s` (possibly `s` itself), without repeats.
fn reachable_from(edges: &[(i64, i64)], s: i64) -> (r: Vec<i64>)
    ensures
        r@.no_duplicates(),
        forall|d: i64| r@.contains(d) <==> reaches(edges@, s, d),
{
    let n = edges.len();
    let mut r: Vec<i64> = Vec::new();
    let mut j: usize = 0;
    while j < n
        invariant
            j <= n,
            n == edges.len(),
            r@.no_duplicates(),
            forall|i: int| 0 <= i < r.len() ==> targets(edges@).contains(#[trigger] r@[i]),
            forall|d: i64| r@.contains(d) ==> reaches(edges@, s, d),
            forall|k: int| 0 <= k < j && (#[trigger] edges@[k]).0 == s ==> r@.contains(edges@[k].1),
        decreases n - j,
    {
        let (a, b) = edges[j];
        assert(edges@.contains((a, b)));
        assert(targets(edges@)[j as int] == b);
        if a == s && !contains_id(&r, b) {
            proof {
                lemma_edge_reaches(edges@, a, b);
            }
            let ghost old_r = r@;
            proof {
                lemma_push_contains(old_r, b);
            }
            r.push(b);
        }
        j += 1;
    }
    loop
        invariant
            n == edges.len(),
            r@.no_duplicates(),
            forall|i: int| 0 <= i < r.len() ==> targets(edges@).contains(#[trigger] r@[i]),
            forall|d: i64| r@.contains(d) ==> reaches(edges@, s, d),
            forall|d: i64| edges@.contains((s, d)) ==> r@.contains(d),
        ensures
            forall|c: i64, d: i64| r@.contains(c) && #[trigger] edges@.contains((c, d)) ==> r@.contains(d),
        decreases n - r.len(),
    {
        proof {
            lemma_targets_bound(edges@, r@);
        }
        let ghost start = r@;
        let mut changed = false;
        let mut j: usize = 0;
        while j < n
            invariant
                j <= n,
                n == edges.len(),
                r@.no_duplicates(),
                start.len() <= r.len(),
                forall|d: i64| edges@.contains((s, d)) ==> start.contains(d),
                forall|i: int| 0 <= i < r.len() ==> targets(edges@).contains(#[trigger] r@[i]),
                forall|d: i64| r@.contains(d) ==> reaches(edges@, s, d),
                forall|d: i64| start.contains(d) ==> r@.contains(d),
                !changed ==> r@ == start,
                changed ==> r.len() > start.len(),
                !changed ==> forall|k: int|
                    0 <= k < j && start.contains((#[trigger] edges@[k]).0) ==> start.contains(
                        edges@[k].1,
                    ),
            decreases n - j,
        {
            let (c, d) = edges[j];
            assert(edges@.contains((c, d)));
            assert(targets(edges@)[j as int] == d);
            if contains_id(&r, c) && !contains_id(&r, d) {
                proof {
                    lemma_reaches_step(edges@, s, c, d);
                }
                let ghost old_r = r@;
                proof {
                    lemma_push_contains(old_r, d);
                }
                r.push(d);
                changed = true;
            }
            j += 1;
        }
        if !changed {
            assert forall|c: i64, d: i64| r@.contains(c) && #[trigger] edges@.contains((c, d)) implies r@.contains(d) by {
                let k = choose|k: int| 0 <= k < edges@.len() && edges@[k] == (c, d);
                assert(start.contains(edges@[k].0));
            }
            break ;
        }
        assert forall|d: i64| edges@.contains((s, d)) implies r@.contains(d) by {
            assert(start.contains(d));
        }
        proof {
            lemma_targets_bound(edges@, r@);
        }
    }
    assert forall|d: i64| reaches(edges@, s, d) implies r@.contains(d) by {
        let p = choose|p: Seq<i64>| #[trigger] is_walk(edges@, p) && p[0] == s && p.last() == d;
        lemma_closed_set_holds_walk(edges@, s, r@, p, p.len() - 1);
    }
    r
}

/// Compute the transitive closure of a directed graph.
///
/// Given edges as `(source, dep)` pairs, returns every `(source, dep)` pair
/// with `dep` reachable from `source` through one or more edges, each pair
/// once. Self-loops (`source == dep`) are excluded from the output; cycles
/// are handled.
pub fn transitive_closure(edges: &[(i64, i64)]) -> (r: Vec<(i64, i64)>)
    ensures
        r@.no_duplicates(),
        forall|s: i64, d: i64| r@.contains((s, d)) <==> in_closure(edges@, s, d),
{
    let n = edges.len();
    let mut sources: Vec<i64> = Vec::new();
    let mut result: Vec<(i64, i64)> = Vec::new();
    let mut j: usize = 0;
    while j < n
        invariant
            j <= n,
            n == edges.len(),
            sources@.no_duplicates(),
            result@.no_duplicates(),
            forall|k: int| 0 <= k < j ==> sources@.contains((#[trigger] edges@[k]).0),
            forall|s: i64, d: i64| #[trigger] result@.contains((s, d)) <==> (sources@.contains(s) && in_closure(edges@, s, d)),
        decreases n - j,
    {
        let s = edges[j].0;
        if !contains_id(&sources, s) {
            let reach = reachable_from(edges, s);
            let ghost before = result@;
            assert(forall|x: i64, d: i64| #[trigger] before.contains((x, d)) <==> (sources@.contains(x) && in_closure(edges@, x, d)));
            let mut i: usize = 0;
            while i < reach.len()
                invariant
                    i <= reach.len(),
                    reach@.no_duplicates(),
                    !sources@.contains(s),
                    forall|d: i64| reach@.contains(d) <==> reaches(edges@, s, d),
                    result@.no_duplicates(),
                    forall|x: i64, d: i64| #[trigger] before.contains((x, d)) ==> x != s,
                    forall|x: i64, d: i64| #[trigger] result@.contains((x, d)) <==> (before.contains((x, d)) || (x == s && d != s && exists|t: int| 0 <= t < i && reach@[t] == d)),
                decreases reach.len() - i,
            {
                let d = reach[i];
                if d != s {
                    let ghost prev = result@;
                    assert(!prev.contains((s, d))) by {
                        if prev.contains((s, d)) {
                            let t = choose|t: int| 0 <= t < i && reach@[t] == d;
                            assert(reach@[t] == reach@[i as int]);
                        }
                    }
                    result.push((s, d));
                    assert forall|x: i64, y: i64| #[trigger] result@.contains((x, y)) <==> (before.contains((x, y)) || (x == s && y != s && exists|t: int| 0 <= t < i + 1 && reach@[t] == y)) by {
                        if result@.contains((x, y)) {
                            let q = choose|q: int| 0 <= q < result@.len() && result@[q] == (x, y);
                            if q < prev.len() {
                                assert(prev[q] == (x, y));
                                assert(prev.contains((x, y)));
                            }
                        }
                        if x == s && y != s && (exists|t: int| 0 <= t < i + 1 && reach@[t] == y) {
                            let t = choose|t: int| 0 <= t < i + 1 && reach@[t] == y;
                            if t == i {
                                assert(result@[result@.len() - 1] == (x, y));
                            } else {
                                assert(prev.contains((x, y)));
                                let q = choose|q: int| 0 <= q < prev.len() && prev[q] == (x, y);
                                assert(result@[q] == (x, y));
                            }
                        }
                        if before.contains((x, y)) {
                            assert(prev.contains((x, y)));
                            let q = choose|q: int| 0 <= q < prev.len() && prev[q] == (x, y);
                            assert(result@[q] == (x, y));
                        }
                    }
                } else {
                    assert forall|x: i64, y: i64| #[trigger] result@.contains((x, y)) <==> (before.contains((x, y)) || (x == s && y != s && exists|t: int| 0 <= t < i + 1 && reach@[t] == y)) by {
                        if x == s && y != s && (exists|t: int| 0 <= t < i + 1 && reach@[t] == y) {
                            let t = choose|t: int| 0 <= t < i + 1 && reach@[t] == y;
                            assert(t != i);
                        }
                    }
                }
                i += 1;
            }
            let ghost old_sources = sources@;
            proof {
                lemma_push_contains(old_sources, s);
            }
            sources.push(s);
            assert forall|x: i64, d: i64| #[trigger] result@.contains((x, d)) <==> (sources@.contains(x) && in_closure(edges@, x, d)) by {
                if x == s {
                    assert(!before.contains((x, d)));
                    assert(result@.contains((x, d)) <==> (d != s && reach@.contains(d)));
                } else {
                    assert(result@.contains((x, d)) <==> before.contains((x, d)));
                    assert(sources@.contains(x) <==> old_sources.contains(x));
                }
            }
            assert forall|k: int| 0 <= k < j + 1 implies sources@.contains((#[trigger] edges@[k]).0) by {
                if k < j {
                    let q = choose|q: int| 0 <= q < old_sources.len() && old_sources[q] == edges@[k].0;
                    assert(sources@[q] == edges@[k].0);
                } else {
                    assert(sources@[sources@.len() - 1] == s);
                }
            }
        }
        j += 1;
    }
    assert forall|s: i64, d: i64| in_closure(edges@, s, d) implies sources@.contains(s) by {
        lemma_reaches_source(edges@, s, d);
    }
    result
}

/// Every edge between two different nodes belongs to the closure.
pub proof fn lemma_closure_contains_edges(edges: Seq<(i64, i64)>, s: i64, d: i64)
    requires
        edges.contains((s, d)),
        s != d,
    ensures
        in_closure(edges, s, d),
{
    lemma_edge_reaches(edges, s, d);
}

/// The closure is transitive: from `s` to `m` and from `m` to `d` gives
/// from `s` to `d`, unless that would be a self-loop.
pub proof fn lemma_closure_transitive(edges: Seq<(i64, i64)>, s: i64, m: i64, d: i64)
    requires
        in_closure(edges, s, m),
        in_closure(edges, m, d),
        s != d,
    ensures
        in_closure(edges, s, d),
{
    let p = choose|p: Seq<i64>| #[trigger] is_walk(edges, p) && p[0] == s && p.last() == m;
    let q = choose|q: Seq<i64>| #[trigger] is_walk(edges, q) && q[0] == m && q.last() == d;
    let w = p + q.drop_first();
    assert(is_walk(edges, w)) by {
        assert forall|i: int| 0 <= i < w.len() - 1 implies #[trigger] walk_step(edges, w, i) by {
            if i < p.len() - 1 {
                assert(walk_step(edges, p, i));
            } else if i == p.len() - 1 {
                assert(walk_step(edges, q, 0));
                assert(w[i] == p.last());
                assert(w[i + 1] == q[1]);
            } else {
                let k = i - p.len() + 1;
                assert(walk_step(edges, q, k));
                assert(w[i] == q[k]);
                assert(w[i + 1] == q[k + 1]);
            }
        }
    }
    assert(w[0] == s);
    assert(w.last() == d);
}

} // verus!
