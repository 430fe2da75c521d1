//! Dependency graphs over service indices: topological orders, cycles, and
//! the two ordering algorithms (depth-first search, and Kahn's algorithm
//! taking the smallest ready service first).

use vstd::prelude::*;

verus! {

/// The adjacency lists of `adj` as sequences: `g[i]` are the dependencies of node `i`.
pub open spec fn adj_seq(adj: Seq<Vec<usize>>) -> Seq<Seq<usize>> {
    adj.map_values(|v: Vec<usize>| v@)
}

/// Every dependency names a node of the graph.
pub open spec fn valid_adj(g: Seq<Seq<usize>>) -> bool {
    forall|i: int, k: int| 0 <= i < g.len() && 0 <= k < g[i].len() ==> #[trigger] g[i][k] < g.len()
}

/// `r` lists distinct nodes, each after all of its dependencies, and every
/// dependency of a listed node is listed.
pub open spec fn ordered_prefix(g: Seq<Seq<usize>>, r: Seq<usize>) -> bool {
    &&& r.no_duplicates()
    &&& forall|a: int| 0 <= a < r.len() ==> #[trigger] r[a] < g.len()
    &&& forall|a: int, b: int|
        #![trigger r[a], r[b]]
        0 <= a < r.len() && 0 <= b < r.len() && g[r[b] as int].contains(r[a]) ==> a < b
    &&& forall|b: int, k: int|
        0 <= b < r.len() && 0 <= k < g[r[b] as int].len() ==> r.contains(#[trigger] g[r[b] as int][k])
}

/// `r` is a topological order of `g`: every node appears once, after its dependencies.
pub open spec fn is_topo(g: Seq<Seq<usize>>, r: Seq<usize>) -> bool {
    &&& ordered_prefix(g, r)
    &&& forall|v: usize| v < g.len() ==> #[trigger] r.contains(v)
}

/// The edge from `a` to its dependency `b` closes a cycle: there is a chain
/// of dependencies from `b` back to `a`.
pub open spec fn closes_cycle(g: Seq<Seq<usize>>, a: usize, b: usize) -> bool {
    exists|q: Seq<usize>| #[trigger] is_chain(g, q) && q.len() > 0 && q[0] == b && q.last() == a
}

/// `g` has a topological order, i.e. no dependency cycle.
pub open spec fn acyclic(g: Seq<Seq<usize>>) -> bool {
    exists|r: Seq<usize>| is_topo(g, r)
}

/// Each node of `p` after the first is a dependency of the node before it.
pub open spec fn is_chain(g: Seq<Seq<usize>>, p: Seq<usize>) -> bool {
    &&& forall|k: int| 0 <= k < p.len() ==> #[trigger] p[k] < g.len()
    &&& forall|k: int| 1 <= k < p.len() ==> g[p[k - 1] as int].contains(#[trigger] p[k])
}

/// The index of `v` in `r`.
pub open spec fn pos(r: Seq<usize>, v: usize) -> int {
    choose|a: int| 0 <= a < r.len() && r[a] == v
}

proof fn lemma_pos(r: Seq<usize>, v: usize)
    requires
        r.contains(v),
    ensures
        0 <= pos(r, v) < r.len(),
        r[pos(r, v)] == v,
{
}

proof fn lemma_chain_pos(g: Seq<Seq<usize>>, r: Seq<usize>, q: Seq<usize>, j: int, k: int)
    requires
        is_topo(g, r),
        is_chain(g, q),
        0 <= j <= k < q.len(),
    ensures
        pos(r, q[k]) <= pos(r, q[j]),
    decreases k - j,
{
    lemma_pos(r, q[j]);
    if j < k {
        lemma_chain_pos(g, r, q, j, k - 1);
        assert(g[q[k - 1] as int].contains(q[k]));
        lemma_pos(r, q[k]);
        lemma_pos(r, q[k - 1]);
        let a = pos(r, q[k]);
        let b = pos(r, q[k - 1]);
        assert(g[r[b] as int].contains(r[a]));
    }
}

/// A chain that leads back to one of its own nodes rules out every topological order.
pub proof fn lemma_cycle_not_acyclic(g: Seq<Seq<usize>>, q: Seq<usize>, j: int)
    requires
        is_chain(g, q),
        0 <= j < q.len(),
        g[q.last() as int].contains(q[j]),
    ensures
        !acyclic(g),
{
    if acyclic(g) {
        let r = choose|r: Seq<usize>| is_topo(g, r);
        lemma_chain_pos(g, r, q, j, q.len() - 1);
        lemma_pos(r, q[j]);
        lemma_pos(r, q.last());
        let a = pos(r, q[j]);
        let b = pos(r, q.last());
        assert(g[r[b] as int].contains(r[a]));
    }
}

/// The number of `false` entries of `s`.
pub open spec fn count_false(s: Seq<bool>) -> nat
    decreases s.len(),
{
    if s.len() == 0 {
        0
    } else {
        count_false(s.drop_last()) + if s.last() {
            0nat
        } else {
            1nat
        }
    }
}

proof fn lemma_count_false_set(s: Seq<bool>, i: int)
    requires
        0 <= i < s.len(),
        !s[i],
    ensures
        count_false(s.update(i, true)) < count_false(s),
    decreases s.len(),
{
    let t = s.update(i, true);
    if i < s.len() - 1 {
        assert(t.drop_last() =~= s.drop_last().update(i, true));
        lemma_count_false_set(s.drop_last(), i);
    } else {
        assert(t.drop_last() =~= s.drop_last());
    }
}

// ============ depth-first search ============

/// The depth-first search from `v`, with the nodes of `path` on the stack
/// and `res` finished: the finished nodes after it (its unfinished
/// dependencies first, in their order, then `v`), or the first edge found to
/// lead back onto the stack.
pub open spec fn dfs_visit(g: Seq<Seq<usize>>, v: usize, path: Seq<usize>, res: Seq<usize>) -> Result<
    Seq<usize>,
    (usize, usize),
>
    decreases count_unplaced(g.len(), path), 1nat, 0nat,
{
    if v < g.len() && !path.contains(v) {
        proof {
            lemma_count_unplaced_push(g.len(), path, v);
        }
        dfs_deps(g, v, 0, path.push(v), res)
    } else {
        Ok(res)
    }
}

/// The search through the dependencies of `v` from its `k`-th on, `p` being
/// the stack (with `v` on top).
pub open spec fn dfs_deps(g: Seq<Seq<usize>>, v: usize, k: nat, p: Seq<usize>, res: Seq<usize>) -> Result<
    Seq<usize>,
    (usize, usize),
>
    decreases count_unplaced(g.len(), p) + 1, 0nat, (if v < g.len() && k < g[v as int].len() {
        g[v as int].len() - k
    } else {
        0
    }) as nat,
{
    if v < g.len() && k < g[v as int].len() {
        let d = g[v as int][k as int];
        if p.contains(d) {
            Err((v, d))
        } else if res.contains(d) {
            dfs_deps(g, v, k + 1, p, res)
        } else {
            match dfs_visit(g, d, p, res) {
                Ok(r2) => dfs_deps(g, v, k + 1, p, r2),
                Err(e) => Err(e),
            }
        }
    } else {
        Ok(res.push(v))
    }
}

/// The search from each node in index order that is not finished yet.
pub open spec fn dfs_roots(g: Seq<Seq<usize>>, i: nat, res: Seq<usize>) -> Result<Seq<usize>, (usize, usize)>
    decreases g.len() - i,
{
    if i < g.len() {
        if res.contains(i as usize) {
            dfs_roots(g, i + 1, res)
        } else {
            match dfs_visit(g, i as usize, Seq::empty(), res) {
                Ok(r2) => dfs_roots(g, i + 1, r2),
                Err(e) => Err(e),
            }
        }
    } else {
        Ok(res)
    }
}

/// The outcome of the depth-first search of the whole graph: the nodes in
/// the order they finish, or the first edge found to close a cycle.
pub open spec fn dfs_result(g: Seq<Seq<usize>>) -> Result<Seq<usize>, (usize, usize)> {
    dfs_roots(g, 0, Seq::empty())
}

/// Depth-first visit of `node`: its dependencies are visited first, then the
/// node is appended to `result`. Meeting a node that is still being visited
/// means a cycle; the offending edge is returned.
fn dfs(
    node: usize,
    adj: &Vec<Vec<usize>>,
    visited: &mut Vec<bool>,
    visiting: &mut Vec<bool>,
    result: &mut Vec<usize>,
    Ghost(path): Ghost<Seq<usize>>,
) -> (r: Result<(), (usize, usize)>)
    requires
        valid_adj(adj_seq(adj@)),
        old(visited)@.len() == adj@.len(),
        old(visiting)@.len() == adj@.len(),
        node < adj@.len(),
        !old(visited)@[node as int],
        !old(visiting)@[node as int],
        ordered_prefix(adj_seq(adj@), old(result)@),
        forall|v: int| 0 <= v < adj@.len() ==> (#[trigger] old(visited)@[v] <==> old(result)@.contains(v as usize)),
        forall|v: int| 0 <= v < adj@.len() ==> (#[trigger] old(visiting)@[v] <==> path.contains(v as usize)),
        forall|v: int| 0 <= v < adj@.len() && #[trigger] old(visited)@[v] ==> !old(visiting)@[v],
        is_chain(adj_seq(adj@), path),
        path.len() > 0 ==> adj@[path.last() as int]@.contains(node),
    ensures
        r is Ok ==> {
            &&& final(visiting)@ == old(visiting)@
            &&& final(visited)@.len() == adj@.len()
            &&& ordered_prefix(adj_seq(adj@), final(result)@)
            &&& final(result)@.subrange(0, old(result)@.len() as int) == old(result)@
            &&& old(result)@.len() <= final(result)@.len()
            &&& forall|v: int| 0 <= v < adj@.len() ==> (#[trigger] final(visited)@[v] <==> final(result)@.contains(v as usize))
            &&& forall|v: int| 0 <= v < adj@.len() && #[trigger] final(visited)@[v] ==> !final(visiting)@[v]
            &&& final(result)@.contains(node)
        },
        r is Err ==> !acyclic(adj_seq(adj@)),
        r matches Err((a, b)) ==> a < adj@.len() && adj_seq(adj@)[a as int].contains(b) && closes_cycle(
            adj_seq(adj@),
            a,
            b,
        ),
        match dfs_visit(adj_seq(adj@), node, path, old(result)@) {
            Ok(x) => r is Ok && final(result)@ == x,
            Err(e) => r == Err::<(), (usize, usize)>(e),
        },
    decreases count_false(old(visiting)@),
{
    let ghost g = adj_seq(adj@);
    let nn = adj.len();
    let ghost n = adj@.len();
    assert(n == nn as nat);
    let ghost old_visiting = visiting@;
    let ghost old_result = result@;
    let ghost p2 = path.push(node);
    proof {
        lemma_count_false_set(visiting@, node as int);
        assert forall|k: int| 1 <= k < p2.len() implies g[p2[k - 1] as int].contains(#[trigger] p2[k]) by {
            if k < path.len() {
                assert(p2[k] == path[k]);
                assert(p2[k - 1] == path[k - 1]);
            } else {
                assert(g[path.last() as int] == adj@[path.last() as int]@);
            }
        }
        assert(is_chain(g, p2));
    }
    proof {
        assert(!path.contains(node));
        assert(dfs_visit(g, node, path, old_result) == dfs_deps(g, node, 0, p2, old_result));
    }
    visiting.set(node, true);
    proof {
        assert forall|v: int| 0 <= v < n implies (#[trigger] visiting@[v] <==> p2.contains(v as usize)) by {
            assert(v as usize as int == v);
            if v == node {
                assert(p2[p2.len() - 1] == node);
            } else {
                if p2.contains(v as usize) {
                    let j = choose|j: int| 0 <= j < p2.len() && p2[j] == v as usize;
                    assert(p2[path.len() as int] == node);
                    assert(j < path.len());
                    assert(path[j] == v as usize);
                }
                if path.contains(v as usize) {
                    let j = choose|j: int| 0 <= j < path.len() && path[j] == v as usize;
                    assert(p2[j] == v as usize);
                }
            }
        }
    }
    let deps = &adj[node];
    assert(g[node as int] == deps@);
    let mut k: usize = 0;
    while k < deps.len()
        invariant
            g == adj_seq(adj@),
            n == adj@.len(),
            valid_adj(g),
            deps@ == g[node as int],
            node < n,
            k <= deps.len(),
            visited@.len() == n,
            visiting@ == old_visiting.update(node as int, true),
            old_visiting.len() == n,
            !old_visiting[node as int],
            count_false(visiting@) < count_false(old_visiting),
            ordered_prefix(g, result@),
            result@.subrange(0, old_result.len() as int) == old_result,
            old_result.len() <= result@.len(),
            forall|v: int| 0 <= v < n ==> (#[trigger] visited@[v] <==> result@.contains(v as usize)),
            forall|v: int| 0 <= v < n ==> (#[trigger] visiting@[v] <==> p2.contains(v as usize)),
            forall|v: int| 0 <= v < n && #[trigger] visited@[v] ==> !visiting@[v],
            is_chain(g, p2),
            p2 == path.push(node),
            old_visiting == old(visiting)@,
            old_result == old(result)@,
            forall|j: int| 0 <= j < k ==> result@.contains(#[trigger] deps@[j]),
            dfs_deps(g, node, 0, p2, old_result) == dfs_deps(g, node, k as nat, p2, result@),
            dfs_visit(g, node, path, old_result) == dfs_deps(g, node, 0, p2, old_result),
        decreases deps.len() - k,
    {
        let dep = deps[k];
        assert(g[node as int][k as int] == dep);
        if visiting[dep] {
            proof {
                assert(p2.contains(dep));
                let j = choose|j: int| 0 <= j < p2.len() && p2[j] == dep;
                assert(p2.last() == node);
                lemma_cycle_not_acyclic(g, p2, j);
                assert(g[node as int][k as int] == dep);
                let q = p2.subrange(j, p2.len() as int);
                assert(is_chain(g, q)) by {
                    assert forall|m: int| 0 <= m < q.len() implies #[trigger] q[m] < g.len() by {
                        assert(q[m] == p2[j + m]);
                    }
                    assert forall|m: int| 1 <= m < q.len() implies g[q[m - 1] as int].contains(#[trigger] q[m]) by {
                        assert(q[m] == p2[j + m]);
                        assert(q[m - 1] == p2[j + m - 1]);
                    }
                }
                assert(q[0] == dep && q.last() == node);
                assert(dfs_deps(g, node, k as nat, p2, result@) == Err::<Seq<usize>, (usize, usize)>((node, dep)));
                assert(old_result == old(result)@);
                assert(dfs_visit(g, node, path, old(result)@) == Err::<Seq<usize>, (usize, usize)>((node, dep)));
            }
            return Err((node, dep));
        }
        proof {
            assert(visiting@[dep as int] <==> p2.contains(dep));
            assert(visited@[dep as int] <==> result@.contains(dep));
        }
        if !visited[dep] {
            let ghost before = result@;
            proof {
                assert(p2.last() == node);
                assert(adj@[node as int]@.contains(dep)) by {
                    assert(adj@[node as int]@[k as int] == dep);
                }
            }
            match dfs(dep, adj, visited, visiting, result, Ghost(p2)) {
                Ok(()) => {
                    proof {
                        assert forall|j: int| 0 <= j <= k implies result@.contains(#[trigger] deps@[j]) by {
                            if j < k {
                                assert(before.contains(deps@[j]));
                                let a = choose|a: int| 0 <= a < before.len() && before[a] == deps@[j];
                                assert(result@[a] == before[a]);
                            }
                        }
                        assert(result@.subrange(0, old_result.len() as int) =~= old_result) by {
                            assert forall|a: int| 0 <= a < old_result.len() implies result@[a] == old_result[a] by {
                                assert(result@[a] == before[a]);
                                assert(before[a] == old_result[a]);
                            }
                        }
                    }
                },
                Err(e) => {
                    proof {
                        assert(dfs_visit(g, dep, p2, before) == Err::<Seq<usize>, (usize, usize)>(e));
                        assert(dfs_deps(g, node, k as nat, p2, before) == Err::<Seq<usize>, (usize, usize)>(e));
                        assert(old_result == old(result)@);
                        assert(dfs_visit(g, node, path, old(result)@) == Err::<Seq<usize>, (usize, usize)>(e));
                    }
                    return Err(e);
                },
            }
        } else {
            proof {
                assert(result@.contains(dep));
            }
        }
        k = k + 1;
    }
    assert(visiting@[node as int]);
    assert(!visited@[node as int]);
    assert(!result@.contains(node));
    visiting.set(node, false);
    assert(visiting@ =~= old_visiting);
    let ghost mid = result@;
    visited.set(node, true);
    result.push(node);
    proof {
        let r = result@;
        assert(r.last() == node);
        assert(r.drop_last() =~= mid);
        assert(r.no_duplicates()) by {
            assert forall|a: int, b: int| 0 <= a < r.len() && 0 <= b < r.len() && a != b implies r[a] != r[b] by {
                if a < mid.len() && b < mid.len() {
                    assert(r[a] == mid[a] && r[b] == mid[b]);
                } else if a < mid.len() {
                    assert(mid.contains(r[a]));
                } else {
                    assert(mid.contains(r[b]));
                }
            }
        }
        assert forall|a: int, b: int|
            #![trigger r[a], r[b]]
            0 <= a < r.len() && 0 <= b < r.len() && g[r[b] as int].contains(r[a]) implies a < b by {
            if b < mid.len() && a == mid.len() {
                assert(r[b] == mid[b]);
                let kk = choose|kk: int| 0 <= kk < g[mid[b] as int].len() && g[mid[b] as int][kk] == node;
                assert(mid.contains(g[mid[b] as int][kk]));
            } else if b < mid.len() && a < mid.len() {
                assert(r[a] == mid[a] && r[b] == mid[b]);
            }
        }
        assert forall|b: int, kk: int| 0 <= b < r.len() && 0 <= kk < g[r[b] as int].len() implies r.contains(
            #[trigger] g[r[b] as int][kk],
        ) by {
            if b < mid.len() {
                assert(r[b] == mid[b]);
                assert(mid.contains(g[mid[b] as int][kk]));
                let a = choose|a: int| 0 <= a < mid.len() && mid[a] == g[mid[b] as int][kk];
                assert(r[a] == mid[a]);
            } else {
                assert(r[b] == node);
                assert(mid.contains(deps@[kk]));
                let a = choose|a: int| 0 <= a < mid.len() && mid[a] == deps@[kk];
                assert(r[a] == mid[a]);
            }
        }
        assert forall|v: int| 0 <= v < n implies (#[trigger] visited@[v] <==> r.contains(v as usize)) by {
            assert(v as usize as int == v);
            if v != node {
                if mid.contains(v as usize) {
                    let a = choose|a: int| 0 <= a < mid.len() && mid[a] == v as usize;
                    assert(r[a] == mid[a]);
                }
                if r.contains(v as usize) {
                    let a = choose|a: int| 0 <= a < r.len() && r[a] == v as usize;
                    assert(r[mid.len() as int] == node);
                    assert(a < mid.len());
                    assert(mid[a] == r[a]);
                }
            } else {
                assert(r[r.len() - 1] == node);
            }
        }
        assert(r.subrange(0, old_result.len() as int) =~= old_result) by {
            assert forall|a: int| 0 <= a < old_result.len() implies r[a] == old_result[a] by {
                assert(r[a] == mid[a]);
                assert(mid.subrange(0, old_result.len() as int)[a] == old_result[a]);
            }
        }
        assert(r.contains(node)) by {
            assert(r[r.len() - 1] == node);
        }
    }
    Ok(())
}

/// A topological order of the graph found by depth-first search from each
/// node in index order, or an edge that closes a cycle.
pub fn dfs_order(adj: &Vec<Vec<usize>>) -> (r: Result<Vec<usize>, (usize, usize)>)
    requires
        valid_adj(adj_seq(adj@)),
    ensures
        match r {
            Ok(order) => is_topo(adj_seq(adj@), order@),
            Err((a, b)) => !acyclic(adj_seq(adj@)) && a < adj@.len() && adj_seq(adj@)[a as int].contains(b)
                && closes_cycle(adj_seq(adj@), a, b),
        },
        match dfs_result(adj_seq(adj@)) {
            Ok(x) => r matches Ok(o) && o@ == x,
            Err(e) => r matches Err(e2) && e2 == e,
        },
{
    let ghost g = adj_seq(adj@);
    let n = adj.len();
    let mut visited: Vec<bool> = Vec::new();
    let mut visiting: Vec<bool> = Vec::new();
    let mut j: usize = 0;
    while j < n
        invariant
            j <= n,
            visited@.len() == j,
            visiting@.len() == j,
            forall|v: int| 0 <= v < j ==> !(#[trigger] visited@[v]),
            forall|v: int| 0 <= v < j ==> !(#[trigger] visiting@[v]),
        decreases n - j,
    {
        visited.push(false);
        visiting.push(false);
        j = j + 1;
    }
    let mut result: Vec<usize> = Vec::new();
    let mut i: usize = 0;
    assert(result@ =~= Seq::<usize>::empty());
    while i < n
        invariant
            g == adj_seq(adj@),
            n == adj@.len(),
            valid_adj(g),
            i <= n,
            visited@.len() == n,
            visiting@.len() == n,
            forall|v: int| 0 <= v < n ==> !(#[trigger] visiting@[v]),
            ordered_prefix(g, result@),
            forall|v: int| 0 <= v < n ==> (#[trigger] visited@[v] <==> result@.contains(v as usize)),
            forall|v: int| 0 <= v < i ==> #[trigger] visited@[v],
            dfs_result(g) == dfs_roots(g, i as nat, result@),
        decreases n - i,
    {
        proof {
            assert(visited@[i as int] <==> result@.contains(i as usize));
        }
        if !visited[i] {
            let ghost before = result@;
            let ghost vis_before = visited@;
            proof {
                assert forall|v: int| 0 <= v < n implies (#[trigger] visiting@[v] <==> Seq::<usize>::empty().contains(v as usize)) by {}
            }
            match dfs(i, adj, &mut visited, &mut visiting, &mut result, Ghost(Seq::empty())) {
                Ok(()) => {
                    proof {
                        assert forall|v: int| 0 <= v <= i implies #[trigger] visited@[v] by {
                            if v < i {
                                assert(vis_before[v]);
                                assert(before.contains(v as usize));
                                let a = choose|a: int| 0 <= a < before.len() && before[a] == v as usize;
                                assert(result@.subrange(0, before.len() as int)[a] == before[a]);
                                assert(result@[a] == v as usize);
                            }
                        }
                    }
                },
                Err(e) => {
                    proof {
                        assert(dfs_visit(g, i, Seq::empty(), before) == Err::<Seq<usize>, (usize, usize)>(e));
                    }
                    return Err(e);
                },
            }
        }
        i = i + 1;
    }
    assert forall|v: usize| v < g.len() implies #[trigger] result@.contains(v) by {
        assert(visited@[v as int]);
    }
    Ok(result)
}

} // verus!

verus! {

// ============ Kahn's algorithm, smallest ready node first ============

/// `v` is not yet placed and all of its dependencies are.
pub open spec fn ready(g: Seq<Seq<usize>>, placed: Seq<usize>, v: usize) -> bool {
    &&& v < g.len()
    &&& !placed.contains(v)
    &&& forall|k: int| 0 <= k < g[v as int].len() ==> placed.contains(#[trigger] g[v as int][k])
}

/// Some node is ready.
pub open spec fn has_ready(g: Seq<Seq<usize>>, placed: Seq<usize>) -> bool {
    exists|v: usize| ready(g, placed, v)
}

/// `v` is the smallest ready node.
pub open spec fn is_min_ready(g: Seq<Seq<usize>>, placed: Seq<usize>, v: usize) -> bool {
    ready(g, placed, v) && forall|u: usize| u < v ==> !ready(g, placed, u)
}

/// The smallest ready node (meaningful when `has_ready`).
pub open spec fn min_ready(g: Seq<Seq<usize>>, placed: Seq<usize>) -> usize {
    choose|v: usize| is_min_ready(g, placed, v)
}

proof fn lemma_min_ready_from(g: Seq<Seq<usize>>, placed: Seq<usize>, w: usize)
    requires
        ready(g, placed, w),
    ensures
        exists|v: usize| is_min_ready(g, placed, v),
    decreases w,
{
    if exists|u: usize| u < w && ready(g, placed, u) {
        let u = choose|u: usize| u < w && ready(g, placed, u);
        lemma_min_ready_from(g, placed, u);
    } else {
        assert(is_min_ready(g, placed, w));
    }
}

/// When a node is ready, the smallest ready node exists and is unique.
pub proof fn lemma_min_ready(g: Seq<Seq<usize>>, placed: Seq<usize>)
    requires
        has_ready(g, placed),
    ensures
        is_min_ready(g, placed, min_ready(g, placed)),
        forall|v: usize| is_min_ready(g, placed, v) ==> v == min_ready(g, placed),
{
    let w = choose|v: usize| ready(g, placed, v);
    lemma_min_ready_from(g, placed, w);
    let m = min_ready(g, placed);
    assert forall|v: usize| is_min_ready(g, placed, v) implies v == m by {
        if v < m {
        } else if m < v {
        }
    }
}

/// The number of nodes below `n` that `placed` does not hold.
pub open spec fn count_unplaced(n: nat, placed: Seq<usize>) -> nat
    decreases n,
{
    if n == 0 {
        0
    } else {
        count_unplaced((n - 1) as nat, placed) + if placed.contains((n - 1) as usize) {
            0nat
        } else {
            1nat
        }
    }
}

pub proof fn lemma_count_unplaced_push(n: nat, placed: Seq<usize>, v: usize)
    requires
        !placed.contains(v),
    ensures
        count_unplaced(n, placed.push(v)) <= count_unplaced(n, placed),
        (v as nat) < n ==> count_unplaced(n, placed.push(v)) < count_unplaced(n, placed),
    decreases n,
{
    if n > 0 {
        lemma_count_unplaced_push((n - 1) as nat, placed, v);
        let w = (n - 1) as usize;
        if placed.contains(w) {
            let a = choose|a: int| 0 <= a < placed.len() && placed[a] == w;
            assert(placed.push(v)[a] == w);
        }
        if w == v {
            assert(placed.push(v)[placed.len() as int] == v);
        } else if placed.push(v).contains(w) {
            let a = choose|a: int| 0 <= a < placed.push(v).len() && placed.push(v)[a] == w;
            assert(a < placed.len());
            assert(placed[a] == w);
        }
    }
}

/// The nodes appended after `placed` by repeatedly taking the smallest ready node.
pub open spec fn greedy_from(g: Seq<Seq<usize>>, placed: Seq<usize>) -> Seq<usize>
    decreases count_unplaced(g.len(), placed),
{
    if has_ready(g, placed) {
        let v = min_ready(g, placed);
        proof {
            lemma_min_ready(g, placed);
            lemma_count_unplaced_push(g.len(), placed, v);
        }
        seq![v] + greedy_from(g, placed.push(v))
    } else {
        Seq::empty()
    }
}

/// The order of Kahn's algorithm that always takes the smallest ready node.
pub open spec fn kahn_order(g: Seq<Seq<usize>>) -> Seq<usize> {
    greedy_from(g, Seq::empty())
}

proof fn lemma_greedy_props(g: Seq<Seq<usize>>, placed: Seq<usize>)
    requires
        ordered_prefix(g, placed),
    ensures
        ordered_prefix(g, placed + greedy_from(g, placed)),
        !has_ready(g, placed + greedy_from(g, placed)),
    decreases count_unplaced(g.len(), placed),
{
    if has_ready(g, placed) {
        let v = min_ready(g, placed);
        lemma_min_ready(g, placed);
        lemma_count_unplaced_push(g.len(), placed, v);
        let p2 = placed.push(v);
        assert(ordered_prefix(g, p2)) by {
            assert(p2.no_duplicates()) by {
                assert forall|a: int, b: int| 0 <= a < p2.len() && 0 <= b < p2.len() && a != b implies p2[a] != p2[b] by {
                    if a < placed.len() && b < placed.len() {
                    } else if a < placed.len() {
                        assert(p2[b] == v);
                        assert(placed.contains(p2[a]));
                    } else {
                        assert(p2[a] == v);
                        assert(placed.contains(p2[b]));
                    }
                }
            }
            assert forall|a: int, b: int|
                #![trigger p2[a], p2[b]]
                0 <= a < p2.len() && 0 <= b < p2.len() && g[p2[b] as int].contains(p2[a]) implies a < b by {
                if b < placed.len() && a == placed.len() {
                    let k = choose|k: int| 0 <= k < g[placed[b] as int].len() && g[placed[b] as int][k] == v;
                    assert(placed.contains(g[placed[b] as int][k]));
                } else if b < placed.len() {
                    assert(p2[a] == placed[a] && p2[b] == placed[b]);
                } else if b == placed.len() && a == placed.len() {
                    let k = choose|k: int| 0 <= k < g[v as int].len() && g[v as int][k] == v;
                    assert(placed.contains(g[v as int][k]));
                }
            }
            assert forall|b: int, k: int| 0 <= b < p2.len() && 0 <= k < g[p2[b] as int].len() implies p2.contains(
                #[trigger] g[p2[b] as int][k],
            ) by {
                let d = g[p2[b] as int][k];
                if b < placed.len() {
                    assert(p2[b] == placed[b]);
                    assert(placed.contains(d));
                } else {
                    assert(p2[b] == v);
                    assert(placed.contains(d));
                }
                let a = choose|a: int| 0 <= a < placed.len() && placed[a] == d;
                assert(p2[a] == d);
            }
        }
        lemma_greedy_props(g, p2);
        assert(placed + greedy_from(g, placed) =~= p2 + greedy_from(g, p2));
    } else {
        assert(placed + greedy_from(g, placed) =~= placed);
    }
}

/// When no node is ready after `r`, a node outside `r` rules out every topological order.
proof fn lemma_stuck_not_acyclic(g: Seq<Seq<usize>>, r: Seq<usize>, u: usize)
    requires
        ordered_prefix(g, r),
        !has_ready(g, r),
        u < g.len(),
        !r.contains(u),
    ensures
        !acyclic(g),
{
    if acyclic(g) {
        let t = choose|t: Seq<usize>| is_topo(g, t);
        lemma_all_placed(g, r, t, t.len() as int);
        lemma_pos(t, u);
        assert(r.contains(t[pos(t, u)]));
    }
}

proof fn lemma_all_placed(g: Seq<Seq<usize>>, r: Seq<usize>, t: Seq<usize>, m: int)
    requires
        ordered_prefix(g, r),
        !has_ready(g, r),
        is_topo(g, t),
        0 <= m <= t.len(),
    ensures
        forall|a: int| 0 <= a < m ==> r.contains(#[trigger] t[a]),
    decreases m,
{
    if m > 0 {
        lemma_all_placed(g, r, t, m - 1);
        let w = t[m - 1];
        if !r.contains(w) {
            assert(!ready(g, r, w));
            let k = choose|k: int| 0 <= k < g[w as int].len() && !r.contains(#[trigger] g[w as int][k]);
            let d = g[w as int][k];
            assert(t.contains(d));
            lemma_pos(t, d);
            let a = pos(t, d);
            assert(g[t[m - 1] as int].contains(t[a]));
            assert(a < m - 1);
        }
    }
}

/// Kahn's order lists distinct nodes after their dependencies; it holds every
/// node exactly when the graph has no cycle.
pub proof fn lemma_kahn_order(g: Seq<Seq<usize>>)
    ensures
        ordered_prefix(g, kahn_order(g)),
        (forall|v: usize| v < g.len() ==> #[trigger] kahn_order(g).contains(v)) <==> acyclic(g),
{
    lemma_greedy_props(g, Seq::empty());
    let r = kahn_order(g);
    assert(Seq::<usize>::empty() + r =~= r);
    if forall|v: usize| v < g.len() ==> #[trigger] r.contains(v) {
        assert(is_topo(g, r));
    } else {
        let u = choose|u: usize| u < g.len() && !r.contains(u);
        lemma_stuck_not_acyclic(g, r, u);
    }
}

/// The smallest node that is ready after `order` (whose membership `placed` records).
fn find_min_ready(adj: &Vec<Vec<usize>>, placed: &Vec<bool>, Ghost(order): Ghost<Seq<usize>>) -> (r: Option<usize>)
    requires
        valid_adj(adj_seq(adj@)),
        placed@.len() == adj@.len(),
        forall|v: int| 0 <= v < adj@.len() ==> (#[trigger] placed@[v] <==> order.contains(v as usize)),
    ensures
        match r {
            Some(v) => has_ready(adj_seq(adj@), order) && v == min_ready(adj_seq(adj@), order),
            None => !has_ready(adj_seq(adj@), order),
        },
{
    let ghost g = adj_seq(adj@);
    let n = adj.len();
    let mut v: usize = 0;
    while v < n
        invariant
            n == adj@.len(),
            g == adj_seq(adj@),
            valid_adj(g),
            placed@.len() == n,
            forall|x: int| 0 <= x < n ==> (#[trigger] placed@[x] <==> order.contains(x as usize)),
            v <= n,
            forall|u: usize| u < v ==> !ready(g, order, u),
        decreases n - v,
    {
        if !placed[v] {
            let deps = &adj[v];
            assert(deps@ == g[v as int]);
            assert forall|j: int| 0 <= j < deps.len() implies #[trigger] deps@[j] < n by {
                assert(g[v as int][j] < g.len());
            }
            let mut k: usize = 0;
            let mut ok = true;
            while k < deps.len() && ok
                invariant
                    n == adj@.len(),
                    v < n,
                    placed@.len() == n,
                    deps@ == g[v as int],
                    forall|x: int| 0 <= x < n ==> (#[trigger] placed@[x] <==> order.contains(x as usize)),
                    k <= deps.len(),
                    ok ==> forall|j: int| 0 <= j < k ==> order.contains(#[trigger] deps@[j]),
                    !ok ==> k > 0 && !order.contains(deps@[k - 1]),
                    forall|j: int| 0 <= j < deps.len() ==> #[trigger] deps@[j] < n,
                decreases deps.len() - k + if ok { 1int } else { 0int },
            {
                let d = deps[k];
                assert(d as int as usize == d);
                if !placed[d] {
                    ok = false;
                }
                k = k + 1;
            }
            if ok {
                proof {
                    assert(v as int as usize == v);
                    assert(ready(g, order, v));
                    assert(is_min_ready(g, order, v));
                    lemma_min_ready(g, order);
                }
                return Some(v);
            }
        }
        proof {
            assert(v as int as usize == v);
        }
        v = v + 1;
    }
    assert forall|u: usize| !ready(g, order, u) by {
        if u < n {
        }
    }
    None
}

/// Kahn's algorithm, taking the smallest ready node at each step: returns
/// the placed nodes in order and the nodes left unplaced, in index order.
pub fn kahn(adj: &Vec<Vec<usize>>) -> (r: (Vec<usize>, Vec<usize>))
    requires
        valid_adj(adj_seq(adj@)),
    ensures
        r.0@ == kahn_order(adj_seq(adj@)),
        forall|j: int| 0 <= j < r.1@.len() ==> #[trigger] r.1@[j] < adj@.len(),
        forall|j: int, l: int| 0 <= j < l < r.1@.len() ==> r.1@[j] < r.1@[l],
        forall|v: usize| v < adj@.len() ==> (#[trigger] r.1@.contains(v) <==> !r.0@.contains(v)),
{
    let ghost g = adj_seq(adj@);
    let n = adj.len();
    let mut placed: Vec<bool> = Vec::new();
    let mut j: usize = 0;
    while j < n
        invariant
            j <= n,
            placed@.len() == j,
            forall|v: int| 0 <= v < j ==> !(#[trigger] placed@[v]),
        decreases n - j,
    {
        placed.push(false);
        j = j + 1;
    }
    let mut order: Vec<usize> = Vec::new();
    let mut stop = false;
    assert(Seq::<usize>::empty() + greedy_from(g, Seq::empty()) =~= kahn_order(g));
    while !stop
        invariant
            n == adj@.len(),
            g == adj_seq(adj@),
            valid_adj(g),
            placed@.len() == n,
            forall|x: int| 0 <= x < n ==> (#[trigger] placed@[x] <==> order@.contains(x as usize)),
            !stop ==> order@ + greedy_from(g, order@) == kahn_order(g),
            stop ==> order@ == kahn_order(g),
        decreases count_unplaced(g.len(), order@) + if stop { 0int } else { 1int },
    {
        match find_min_ready(adj, &placed, Ghost(order@)) {
            Some(v) => {
                let ghost before = order@;
                proof {
                    lemma_min_ready(g, before);
                    lemma_count_unplaced_push(g.len(), before, v);
                    assert(before + greedy_from(g, before) =~= before.push(v) + greedy_from(g, before.push(v)));
                }
                placed.set(v, true);
                order.push(v);
                proof {
                    assert forall|x: int| 0 <= x < n implies (#[trigger] placed@[x] <==> order@.contains(x as usize)) by {
                        assert(x as usize as int == x);
                        if x == v {
                            assert(order@[order@.len() - 1] == v);
                        } else {
                            if before.contains(x as usize) {
                                let a = choose|a: int| 0 <= a < before.len() && before[a] == x as usize;
                                assert(order@[a] == before[a]);
                            }
                            if order@.contains(x as usize) {
                                let a = choose|a: int| 0 <= a < order@.len() && order@[a] == x as usize;
                                assert(a < before.len());
                                assert(before[a] == order@[a]);
                            }
                        }
                    }
                }
            },
            None => {
                assert(order@ + greedy_from(g, order@) =~= order@);
                stop = true;
            },
        }
    }
    let mut rest: Vec<usize> = Vec::new();
    let mut v: usize = 0;
    while v < n
        invariant
            n == adj@.len(),
            placed@.len() == n,
            forall|x: int| 0 <= x < n ==> (#[trigger] placed@[x] <==> order@.contains(x as usize)),
            v <= n,
            forall|j: int| 0 <= j < rest@.len() ==> #[trigger] rest@[j] < v,
            forall|j: int, l: int| 0 <= j < l < rest@.len() ==> rest@[j] < rest@[l],
            forall|x: usize| x < v ==> (#[trigger] rest@.contains(x) <==> !order@.contains(x)),
        decreases n - v,
    {
        let ghost before = rest@;
        assert(v as int as usize == v);
        if !placed[v] {
            rest.push(v);
        }
        proof {
            assert forall|x: usize| x < v + 1 implies (#[trigger] rest@.contains(x) <==> !order@.contains(x)) by {
                if x < v {
                    if before.contains(x) {
                        let a = choose|a: int| 0 <= a < before.len() && before[a] == x;
                        assert(rest@[a] == before[a]);
                    }
                    if rest@.contains(x) {
                        let a = choose|a: int| 0 <= a < rest@.len() && rest@[a] == x;
                        if a == before.len() {
                            assert(rest@[a] == v);
                        } else {
                            assert(before[a] == x);
                        }
                    }
                } else {
                    assert(x as int == v as int);
                    if !placed@[v as int] {
                        assert(rest@[rest@.len() - 1] == v);
                    } else {
                        if rest@.contains(x) {
                            let a = choose|a: int| 0 <= a < rest@.len() && rest@[a] == x;
                            assert(before[a] < v);
                        }
                    }
                }
            }
        }
        v = v + 1;
    }
    (order, rest)
}

/// `a` equals `b` or comes first in lexicographic order.
pub open spec fn lex_le(a: Seq<usize>, b: Seq<usize>) -> bool {
    a == b || exists|p: int| 0 <= p < a.len() && p < b.len() && a.take(p) == b.take(p) && a[p] < b[p]
}

proof fn lemma_greedy_least(g: Seq<Seq<usize>>, placed: Seq<usize>, r: Seq<usize>)
    requires
        is_topo(g, placed + r),
    ensures
        lex_le(greedy_from(g, placed), r),
    decreases count_unplaced(g.len(), placed),
{
    let s = placed + r;
    let n = placed.len() as int;
    if r.len() == 0 {
        assert(s =~= placed);
        assert(!has_ready(g, placed)) by {
            if has_ready(g, placed) {
                let v = choose|v: usize| ready(g, placed, v);
                assert(s.contains(v));
            }
        }
        assert(greedy_from(g, placed) =~= r);
    } else {
        let x = r[0];
        assert(s[n] == x);
        assert(!placed.contains(x)) by {
            if placed.contains(x) {
                let i = choose|i: int| 0 <= i < placed.len() && placed[i] == x;
                assert(s[i] == s[n]);
            }
        }
        assert forall|k: int| 0 <= k < g[x as int].len() implies placed.contains(#[trigger] g[x as int][k]) by {
            assert(s.contains(g[s[n] as int][k]));
            let a = choose|a: int| 0 <= a < s.len() && s[a] == g[x as int][k];
            assert(g[s[n] as int].contains(s[a]));
            assert(a < n);
            assert(placed[a] == s[a]);
        }
        assert(ready(g, placed, x));
        assert(has_ready(g, placed));
        lemma_min_ready(g, placed);
        let v = min_ready(g, placed);
        assert(v <= x);
        let tail = greedy_from(g, placed.push(v));
        assert(greedy_from(g, placed) == seq![v] + tail);
        if v < x {
            let gr = greedy_from(g, placed);
            assert(gr.take(0) =~= r.take(0));
            assert(gr[0] == v);
        } else {
            let r2 = r.drop_first();
            assert(placed.push(v) + r2 =~= s);
            lemma_count_unplaced_push(g.len(), placed, v);
            lemma_greedy_least(g, placed.push(v), r2);
            let gr = greedy_from(g, placed);
            assert(r =~= seq![x] + r2);
            if tail == r2 {
                assert(gr =~= r);
            } else {
                let p = choose|p: int| 0 <= p < tail.len() && p < r2.len() && tail.take(p) == r2.take(p) && tail[p] < r2[p];
                assert(gr.take(p + 1) =~= seq![v] + tail.take(p));
                assert(r.take(p + 1) =~= seq![x] + r2.take(p));
                assert(gr[p + 1] == tail[p]);
                assert(r[p + 1] == r2[p]);
            }
        }
    }
}

/// Kahn's order with the smallest ready node first is the lexicographically
/// least topological order.
pub proof fn lemma_kahn_least(g: Seq<Seq<usize>>, r: Seq<usize>)
    requires
        is_topo(g, r),
    ensures
        lex_le(kahn_order(g), r),
{
    assert(Seq::<usize>::empty() + r =~= r);
    lemma_greedy_least(g, Seq::empty(), r);
}

} // verus!
