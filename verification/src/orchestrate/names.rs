//! Dependency graphs over service names: the name-level notions of a
//! topological order and of a cycle, and their correspondence with the
//! index-level graph that the ordering algorithms work on.

use vstd::prelude::*;
use crate::strs::{seq_lt, lemma_seq_lt_irreflexive};
use crate::orchestrate::graph::{adj_seq, valid_adj, is_topo, acyclic, is_chain, closes_cycle};
use crate::strmap::{keys_distinct, keys_sorted, seq_has, seq_get, seq_index_of, lemma_get_at, lemma_seq_insert, lemma_sorted_distinct, listing, insert_sorted};
use crate::strs::clone_strings;

verus! {

/// A service graph: each service's name with the names of its dependencies.
pub type NameGraph = Seq<(Seq<char>, Seq<Seq<char>>)>;

/// Service names strictly ascending.
pub open spec fn names_sorted(gr: NameGraph) -> bool {
    forall|i: int, j: int| 0 <= i < j < gr.len() ==> seq_lt(#[trigger] gr[i].0, #[trigger] gr[j].0)
}

/// Some service is named `x`.
pub open spec fn has_name(gr: NameGraph, x: Seq<char>) -> bool {
    exists|j: int| 0 <= j < gr.len() && #[trigger] gr[j].0 == x
}

/// The index of the service named `x`.
pub open spec fn name_index(gr: NameGraph, x: Seq<char>) -> int {
    choose|j: int| 0 <= j < gr.len() && #[trigger] gr[j].0 == x
}

/// Every dependency names a defined service.
pub open spec fn deps_defined(gr: NameGraph) -> bool {
    forall|i: int, k: int| 0 <= i < gr.len() && 0 <= k < gr[i].1.len() ==> has_name(gr, #[trigger] gr[i].1[k])
}

/// `o` is a topological order of the services: each service appears once,
/// nothing else appears, and every service comes after its dependencies.
pub open spec fn name_topo(gr: NameGraph, o: Seq<Seq<char>>) -> bool {
    &&& o.no_duplicates()
    &&& forall|a: int| 0 <= a < o.len() ==> has_name(gr, #[trigger] o[a])
    &&& forall|i: int| 0 <= i < gr.len() ==> o.contains(#[trigger] gr[i].0)
    &&& forall|i: int, k: int, a: int, b: int|
        #![trigger gr[i].1[k], o[a], o[b]]
        0 <= i < gr.len() && 0 <= k < gr[i].1.len() && 0 <= a < o.len() && 0 <= b < o.len()
            && gr[i].0 == o[b] && gr[i].1[k] == o[a] ==> a < b
}

/// The services can be ordered, i.e. their dependencies form no cycle.
pub open spec fn name_acyclic(gr: NameGraph) -> bool {
    exists|o: Seq<Seq<char>>| name_topo(gr, o)
}

/// The index graph of `gr`: node `i` depends on the indices of its dependencies' names.
pub open spec fn index_graph_of(gr: NameGraph) -> Seq<Seq<usize>> {
    Seq::new(gr.len(), |i: int| Seq::new(gr[i].1.len(), |k: int| name_index(gr, gr[i].1[k]) as usize))
}

/// The names of the nodes listed in `r`.
pub open spec fn names_of(gr: NameGraph, r: Seq<usize>) -> Seq<Seq<char>> {
    r.map_values(|v: usize| gr[v as int].0)
}

/// A service's own name is found at its own index.
pub proof fn lemma_name_index(gr: NameGraph, j: int)
    requires
        names_sorted(gr),
        0 <= j < gr.len(),
    ensures
        has_name(gr, gr[j].0),
        name_index(gr, gr[j].0) == j,
{
    let x = gr[j].0;
    assert(gr[j].0 == x);
    let m = name_index(gr, x);
    if m != j {
        if m < j {
            assert(seq_lt(gr[m].0, gr[j].0));
        } else {
            assert(seq_lt(gr[j].0, gr[m].0));
        }
        lemma_seq_lt_irreflexive(x);
    }
}

proof fn lemma_index_graph_valid(gr: NameGraph)
    requires
        deps_defined(gr),
        gr.len() <= usize::MAX,
    ensures
        valid_adj(index_graph_of(gr)),
{
    let g = index_graph_of(gr);
    assert forall|i: int, k: int| 0 <= i < g.len() && 0 <= k < g[i].len() implies #[trigger] g[i][k] < g.len() by {
        assert(has_name(gr, gr[i].1[k]));
        let j = name_index(gr, gr[i].1[k]);
        assert(0 <= j < gr.len());
        assert(j as usize as int == j);
    }
}

/// A topological order of the index graph names a topological order of the services.
pub proof fn lemma_topo_to_names(gr: NameGraph, r: Seq<usize>)
    requires
        names_sorted(gr),
        deps_defined(gr),
        gr.len() <= usize::MAX,
        is_topo(index_graph_of(gr), r),
    ensures
        name_topo(gr, names_of(gr, r)),
{
    let g = index_graph_of(gr);
    let o = names_of(gr, r);
    assert(o.no_duplicates()) by {
        assert forall|a: int, b: int| 0 <= a < o.len() && 0 <= b < o.len() && a != b implies o[a] != o[b] by {
            if o[a] == o[b] {
                lemma_name_index(gr, r[a] as int);
                lemma_name_index(gr, r[b] as int);
            }
        }
    }
    assert forall|a: int| 0 <= a < o.len() implies has_name(gr, #[trigger] o[a]) by {
        assert(gr[r[a] as int].0 == o[a]);
    }
    assert forall|i: int| 0 <= i < gr.len() implies o.contains(#[trigger] gr[i].0) by {
        assert(i as usize as int == i);
        assert(r.contains(i as usize));
        let a = choose|a: int| 0 <= a < r.len() && r[a] == i as usize;
        assert(o[a] == gr[i].0);
    }
    assert forall|i: int, k: int, a: int, b: int|
        #![trigger gr[i].1[k], o[a], o[b]]
        0 <= i < gr.len() && 0 <= k < gr[i].1.len() && 0 <= a < o.len() && 0 <= b < o.len()
            && gr[i].0 == o[b] && gr[i].1[k] == o[a] implies a < b by {
        lemma_name_index(gr, r[b] as int);
        lemma_name_index(gr, i);
        lemma_name_index(gr, r[a] as int);
        assert(r[b] as int == i);
        assert(has_name(gr, gr[i].1[k]));
        assert(g[i][k] == name_index(gr, gr[i].1[k]) as usize);
        assert(g[i][k] == r[a]);
        assert(g[r[b] as int].contains(r[a]));
    }
}

/// The indices of the names listed in `o`.
pub open spec fn indices_of(gr: NameGraph, o: Seq<Seq<char>>) -> Seq<usize> {
    o.map_values(|x: Seq<char>| name_index(gr, x) as usize)
}

/// A topological order of the services gives one of the index graph.
pub proof fn lemma_names_to_topo(gr: NameGraph, o: Seq<Seq<char>>)
    requires
        names_sorted(gr),
        deps_defined(gr),
        gr.len() <= usize::MAX,
        name_topo(gr, o),
    ensures
        is_topo(index_graph_of(gr), indices_of(gr, o)),
{
    let g = index_graph_of(gr);
    let r = indices_of(gr, o);
    assert forall|a: int| 0 <= a < o.len() implies 0 <= name_index(gr, #[trigger] o[a]) < gr.len()
        && gr[name_index(gr, o[a])].0 == o[a] by {
        assert(has_name(gr, o[a]));
    }
    assert(r.no_duplicates()) by {
        assert forall|a: int, b: int| 0 <= a < r.len() && 0 <= b < r.len() && a != b implies r[a] != r[b] by {
            assert(0 <= name_index(gr, o[a]) < gr.len());
            assert(0 <= name_index(gr, o[b]) < gr.len());
        }
    }
    assert forall|a: int| 0 <= a < r.len() implies #[trigger] r[a] < g.len() by {
        assert(0 <= name_index(gr, o[a]) < gr.len());
    }
    assert forall|a: int, b: int|
        #![trigger r[a], r[b]]
        0 <= a < r.len() && 0 <= b < r.len() && g[r[b] as int].contains(r[a]) implies a < b by {
        let i = r[b] as int;
        assert(0 <= name_index(gr, o[b]) < gr.len());
        assert(0 <= name_index(gr, o[a]) < gr.len());
        let k = choose|k: int| 0 <= k < g[i].len() && g[i][k] == r[a];
        assert(has_name(gr, gr[i].1[k]));
        lemma_name_index(gr, name_index(gr, gr[i].1[k]));
        assert(gr[name_index(gr, gr[i].1[k])].0 == gr[i].1[k]);
        assert(gr[i].1[k] == o[a]);
        assert(gr[i].0 == o[b]);
    }
    assert forall|b: int, k: int| 0 <= b < r.len() && 0 <= k < g[r[b] as int].len() implies r.contains(
        #[trigger] g[r[b] as int][k],
    ) by {
        let i = r[b] as int;
        assert(0 <= name_index(gr, o[b]) < gr.len());
        let x = gr[i].1[k];
        assert(has_name(gr, x));
        let j = name_index(gr, x);
        lemma_name_index(gr, j);
        assert(gr[j].0 == x);
        assert(o.contains(gr[j].0));
        let a = choose|a: int| 0 <= a < o.len() && o[a] == gr[j].0;
        assert(r[a] == g[i][k]);
    }
    assert forall|v: usize| v < g.len() implies #[trigger] r.contains(v) by {
        assert(o.contains(gr[v as int].0));
        let a = choose|a: int| 0 <= a < o.len() && o[a] == gr[v as int].0;
        lemma_name_index(gr, v as int);
        assert(r[a] == v);
    }
}

/// The services admit an order exactly when the index graph does.
pub proof fn lemma_acyclic_iff(gr: NameGraph)
    requires
        names_sorted(gr),
        deps_defined(gr),
        gr.len() <= usize::MAX,
    ensures
        valid_adj(index_graph_of(gr)),
        name_acyclic(gr) <==> acyclic(index_graph_of(gr)),
{
    lemma_index_graph_valid(gr);
    if name_acyclic(gr) {
        let o = choose|o: Seq<Seq<char>>| name_topo(gr, o);
        lemma_names_to_topo(gr, o);
    }
    if acyclic(index_graph_of(gr)) {
        let r = choose|r: Seq<usize>| is_topo(index_graph_of(gr), r);
        lemma_topo_to_names(gr, r);
    }
}

/// The name graph of parallel lists of service names and dependency names.
pub open spec fn name_graph(names: Seq<String>, deps: Seq<Vec<String>>) -> NameGraph {
    Seq::new(names.len(), |i: int| (names[i]@, deps[i]@.map_values(|d: String| d@)))
}

/// The index graph of the services, or the first `(service, dependency)`
/// position whose dependency names no service.
pub fn build_index_graph(names: &Vec<String>, deps: &Vec<Vec<String>>) -> (r: Result<
    Vec<Vec<usize>>,
    (usize, usize),
>)
    requires
        names@.len() == deps@.len(),
        names_sorted(name_graph(names@, deps@)),
    ensures
        match r {
            Ok(adj) => deps_defined(name_graph(names@, deps@)) && adj_seq(adj@) == index_graph_of(
                name_graph(names@, deps@),
            ) && valid_adj(adj_seq(adj@)),
            Err((i, k)) => i < names@.len() && k < deps@[i as int]@.len() && !has_name(
                name_graph(names@, deps@),
                deps@[i as int]@[k as int]@,
            ) && !deps_defined(name_graph(names@, deps@)),
        },
{
    let ghost gr = name_graph(names@, deps@);
    let n = names.len();
    let mut adj: Vec<Vec<usize>> = Vec::new();
    let mut i: usize = 0;
    while i < n
        invariant
            gr == name_graph(names@, deps@),
            n == names@.len(),
            n == deps@.len(),
            names_sorted(gr),
            i <= n,
            adj@.len() == i,
            forall|a: int, k: int| 0 <= a < i && 0 <= k < gr[a].1.len() ==> has_name(gr, #[trigger] gr[a].1[k]),
            forall|a: int| 0 <= a < i ==> #[trigger] adj@[a]@ == index_graph_of(gr)[a],
        decreases n - i,
    {
        let ds = &deps[i];
        let mut row: Vec<usize> = Vec::new();
        let mut k: usize = 0;
        while k < ds.len()
            invariant
                gr == name_graph(names@, deps@),
                n == names@.len(),
                n == deps@.len(),
                names_sorted(gr),
                i < n,
                ds@ == deps@[i as int]@,
                k <= ds.len(),
                row@.len() == k,
                forall|m: int| 0 <= m < k ==> has_name(gr, #[trigger] gr[i as int].1[m]),
                forall|m: int| 0 <= m < k ==> #[trigger] row@[m] == name_index(gr, gr[i as int].1[m]) as usize,
            decreases ds.len() - k,
        {
            let mut j: usize = 0;
            let mut found = false;
            while j < n && !found
                invariant
                    gr == name_graph(names@, deps@),
                    n == names@.len(),
                    j <= n,
                    k < ds.len(),
                    found ==> j < n && names@[j as int]@ == ds@[k as int]@,
                    !found ==> forall|m: int| 0 <= m < j ==> names@[m]@ != ds@[k as int]@,
                decreases n - j + if found { 0int } else { 1int },
            {
                if names[j] == ds[k] {
                    found = true;
                } else {
                    j = j + 1;
                }
            }
            assert(gr[i as int].1[k as int] == ds@[k as int]@);
            if !found {
                proof {
                    assert forall|m: int| !(0 <= m < gr.len() && #[trigger] gr[m].0 == ds@[k as int]@) by {
                        if 0 <= m < gr.len() {
                            assert(gr[m].0 == names@[m]@);
                        }
                    }
                }
                return Err((i, k));
            }
            proof {
                assert(gr[j as int].0 == names@[j as int]@);
                lemma_name_index(gr, j as int);
            }
            row.push(j);
            k = k + 1;
        }
        proof {
            assert(row@ =~= index_graph_of(gr)[i as int]);
        }
        adj.push(row);
        i = i + 1;
    }
    proof {
        assert(adj_seq(adj@) =~= index_graph_of(gr));
        lemma_index_graph_valid(gr);
    }
    Ok(adj)
}

/// The names of the services listed by index in `r`.
pub fn names_at(names: &Vec<String>, r: &Vec<usize>) -> (o: Vec<String>)
    requires
        forall|a: int| 0 <= a < r@.len() ==> #[trigger] r@[a] < names@.len(),
    ensures
        o@.len() == r@.len(),
        forall|a: int| 0 <= a < r@.len() ==> #[trigger] o@[a]@ == names@[r@[a] as int]@,
{
    let mut o: Vec<String> = Vec::new();
    let mut a: usize = 0;
    while a < r.len()
        invariant
            a <= r@.len(),
            o@.len() == a,
            forall|b: int| 0 <= b < r@.len() ==> #[trigger] r@[b] < names@.len(),
            forall|b: int| 0 <= b < a ==> #[trigger] o@[b]@ == names@[r@[b] as int]@,
        decreases r@.len() - a,
    {
        o.push(names[r[a]].clone());
        a = a + 1;
    }
    o
}

// ============ a graph in name order ============

/// Two graphs give every service name the same dependencies.
pub open spec fn same_deps(a: NameGraph, b: NameGraph) -> bool {
    forall|x: Seq<char>| #[trigger] seq_get(a, x) == seq_get(b, x)
}

/// `gs` lists the services of `gr` by ascending name, each with its
/// dependencies.
pub open spec fn sorted_copy(gs: NameGraph, gr: NameGraph) -> bool {
    &&& names_sorted(gs)
    &&& gs.len() == gr.len()
    &&& same_deps(gs, gr)
}

/// In graphs with distinct names and the same dependencies, each service of
/// `a` is a service of `b`.
pub proof fn lemma_entry_in(a: NameGraph, b: NameGraph, i: int)
    requires
        keys_distinct(a),
        keys_distinct(b),
        same_deps(a, b),
        0 <= i < a.len(),
    ensures
        0 <= seq_index_of(b, a[i].0) < b.len(),
        b[seq_index_of(b, a[i].0)] == a[i],
{
    lemma_get_at(a, i);
    assert(seq_get(b, a[i].0) == seq_get(a, a[i].0));
    assert(seq_has(b, a[i].0));
    let j = seq_index_of(b, a[i].0);
    assert(b[j].0 == a[i].0);
}

proof fn lemma_topo_moves(a: NameGraph, b: NameGraph, o: Seq<Seq<char>>)
    requires
        keys_distinct(a),
        keys_distinct(b),
        same_deps(a, b),
        name_topo(a, o),
    ensures
        name_topo(b, o),
{
    assert forall|p: int| 0 <= p < o.len() implies has_name(b, #[trigger] o[p]) by {
        assert(has_name(a, o[p]));
        assert(seq_has(a, o[p]));
        assert(seq_get(a, o[p]) == seq_get(b, o[p]));
        assert(seq_has(b, o[p]));
    }
    assert forall|i: int| 0 <= i < b.len() implies o.contains(#[trigger] b[i].0) by {
        lemma_entry_in(b, a, i);
        let j = seq_index_of(a, b[i].0);
        assert(o.contains(a[j].0));
    }
    assert forall|i: int, k: int, p: int, q: int|
        #![trigger b[i].1[k], o[p], o[q]]
        0 <= i < b.len() && 0 <= k < b[i].1.len() && 0 <= p < o.len() && 0 <= q < o.len() && b[i].0 == o[q]
            && b[i].1[k] == o[p] implies p < q by {
        lemma_entry_in(b, a, i);
        let j = seq_index_of(a, b[i].0);
        assert(a[j].1[k] == o[p]);
        assert(a[j].0 == o[q]);
    }
}

/// Graphs with distinct names and the same dependencies have the same
/// defined dependencies, orders and cycles.
pub proof fn lemma_same_graph(a: NameGraph, b: NameGraph)
    requires
        keys_distinct(a),
        keys_distinct(b),
        same_deps(a, b),
    ensures
        deps_defined(a) == deps_defined(b),
        name_acyclic(a) == name_acyclic(b),
        forall|o: Seq<Seq<char>>| #[trigger] name_topo(a, o) == name_topo(b, o),
{
    assert(same_deps(b, a)) by {
        assert forall|x: Seq<char>| #[trigger] seq_get(b, x) == seq_get(a, x) by {
            assert(seq_get(a, x) == seq_get(b, x));
        }
    }
    assert forall|o: Seq<Seq<char>>| #[trigger] name_topo(a, o) == name_topo(b, o) by {
        if name_topo(a, o) {
            lemma_topo_moves(a, b, o);
        }
        if name_topo(b, o) {
            lemma_topo_moves(b, a, o);
        }
    }
    if name_acyclic(a) {
        let o = choose|o: Seq<Seq<char>>| name_topo(a, o);
        assert(name_topo(b, o));
    }
    if name_acyclic(b) {
        let o = choose|o: Seq<Seq<char>>| name_topo(b, o);
        assert(name_topo(a, o));
    }
    lemma_defined_moves(a, b);
    lemma_defined_moves(b, a);
}

proof fn lemma_defined_moves(a: NameGraph, b: NameGraph)
    requires
        keys_distinct(a),
        keys_distinct(b),
        same_deps(a, b),
        same_deps(b, a),
    ensures
        deps_defined(a) ==> deps_defined(b),
{
    if deps_defined(a) {
        assert forall|i: int, k: int| 0 <= i < b.len() && 0 <= k < b[i].1.len() implies has_name(b, #[trigger] b[i].1[k]) by {
            lemma_entry_in(b, a, i);
            let j = seq_index_of(a, b[i].0);
            let x = b[i].1[k];
            assert(a[j].1[k] == x);
            assert(has_name(a, x));
            assert(seq_has(a, x));
            assert(seq_get(a, x) == seq_get(b, x));
            assert(seq_has(b, x));
        }
    }
}

/// The entries of a list of (name, dependency list) pairs as a name graph.
pub open spec fn graph_of_pairs(s: Seq<(Seq<char>, Vec<String>)>) -> NameGraph {
    s.map_values(|e: (Seq<char>, Vec<String>)| (e.0, e.1@.map_values(|d: String| d@)))
}

proof fn lemma_graph_of_pairs(s: Seq<(Seq<char>, Vec<String>)>)
    requires
        keys_distinct(s),
    ensures
        keys_distinct(graph_of_pairs(s)),
        forall|x: Seq<char>|
            #[trigger] seq_get(graph_of_pairs(s), x) == match seq_get(s, x) {
                Some(v) => Some(v@.map_values(|d: String| d@)),
                None => None,
            },
{
    let g = graph_of_pairs(s);
    assert(keys_distinct(g)) by {
        assert forall|i: int, j: int| 0 <= i < j < g.len() implies #[trigger] g[i].0 != #[trigger] g[j].0 by {
            assert(s[i].0 != s[j].0);
        }
    }
    assert forall|x: Seq<char>|
        #[trigger] seq_get(g, x) == match seq_get(s, x) {
            Some(v) => Some(v@.map_values(|d: String| d@)),
            None => None,
        } by {
        if seq_has(s, x) {
            let i = choose|i: int| 0 <= i < s.len() && #[trigger] s[i].0 == x;
            lemma_get_at(s, i);
            lemma_get_at(g, i);
        } else if seq_has(g, x) {
            let i = choose|i: int| 0 <= i < g.len() && #[trigger] g[i].0 == x;
            assert(s[i].0 == x);
        }
    }
}

/// The services of parallel name and dependency lists, reordered by
/// ascending name.
pub fn sort_graph(names: &Vec<String>, deps: &Vec<Vec<String>>) -> (r: (Vec<String>, Vec<Vec<String>>))
    requires
        names@.len() == deps@.len(),
        keys_distinct(name_graph(names@, deps@)),
    ensures
        r.0@.len() == r.1@.len(),
        sorted_copy(name_graph(r.0@, r.1@), name_graph(names@, deps@)),
{
    let ghost gr = name_graph(names@, deps@);
    let n = names.len();
    let mut sv: Vec<(String, Vec<String>)> = Vec::new();
    let mut i: usize = 0;
    proof {
        assert forall|x: Seq<char>| #[trigger] seq_get(graph_of_pairs(listing(sv@)), x) == seq_get(gr.take(0), x) by {
            assert(!seq_has(graph_of_pairs(listing(sv@)), x));
            assert(!seq_has(gr.take(0), x));
        }
    }
    while i < n
        invariant
            n == names@.len(),
            n == deps@.len(),
            gr == name_graph(names@, deps@),
            keys_distinct(gr),
            i <= n,
            sv@.len() == i,
            keys_sorted(listing(sv@)),
            forall|x: Seq<char>| #[trigger] seq_get(graph_of_pairs(listing(sv@)), x) == seq_get(gr.take(i as int), x),
        decreases n - i,
    {
        let ghost before = listing(sv@);
        let key = names[i].clone();
        let value = clone_strings(&deps[i]);
        let ghost kv = key@;
        let ghost vv = value;
        insert_sorted(&mut sv, key, value);
        proof {
            let t = gr.take(i as int);
            let t1 = gr.take(i + 1);
            assert(t1 =~= t.push(gr[i as int]));
            assert(gr[i as int].0 == kv);
            assert(!seq_has(t, kv)) by {
                if seq_has(t, kv) {
                    let j = choose|j: int| 0 <= j < t.len() && #[trigger] t[j].0 == kv;
                    assert(gr[j].0 != gr[i as int].0);
                }
            }
            assert(keys_distinct(t)) by {
                assert forall|a: int, b: int| 0 <= a < b < t.len() implies #[trigger] t[a].0 != #[trigger] t[b].0 by {
                    assert(gr[a].0 != gr[b].0);
                }
            }
            assert(seq_insert_is_push(t, kv, gr[i as int].1));
            lemma_sorted_distinct(before);
            lemma_graph_of_pairs(before);
            assert(seq_get(graph_of_pairs(before), kv) == seq_get(t, kv));
            assert(!seq_has(before, kv));
            lemma_seq_insert(t, kv, gr[i as int].1);
            lemma_sorted_distinct(before);
            lemma_sorted_distinct(listing(sv@));
            lemma_graph_of_pairs(before);
            lemma_graph_of_pairs(listing(sv@));
            assert(vv@.map_values(|d: String| d@) =~= gr[i as int].1);
            assert forall|x: Seq<char>| #[trigger] seq_get(graph_of_pairs(listing(sv@)), x) == seq_get(t1, x) by {
                assert(seq_get(graph_of_pairs(before), x) == seq_get(t, x));
                assert(seq_get(t1, x) == seq_get(crate::strmap::seq_insert(t, kv, gr[i as int].1), x));
            }
        }
        i = i + 1;
    }
    let mut sn: Vec<String> = Vec::new();
    let mut sd: Vec<Vec<String>> = Vec::new();
    let mut j: usize = 0;
    while j < n
        invariant
            n == sv@.len(),
            j <= n,
            sn@.len() == j,
            sd@.len() == j,
            forall|m: int| 0 <= m < j ==> #[trigger] sn@[m]@ == sv@[m].0@,
            forall|m: int| 0 <= m < j ==> #[trigger] sd@[m]@ == sv@[m].1@,
        decreases n - j,
    {
        let name = sv[j].0.clone();
        let ds = clone_strings(&sv[j].1);
        assert(name@ == sv@[j as int].0@);
        sn.push(name);
        sd.push(ds);
        j = j + 1;
    }
    proof {
        let gs = name_graph(sn@, sd@);
        assert(j == n);
        assert forall|m: int| 0 <= m < gs.len() implies #[trigger] gs[m] == graph_of_pairs(listing(sv@))[m] by {
            assert(0 <= m < j);
            assert(sn@[m]@ == sv@[m].0@);
            assert(sd@[m]@ == sv@[m].1@);
        }
        assert(gs =~= graph_of_pairs(listing(sv@)));
        assert(gr.take(n as int) =~= gr);
        assert(names_sorted(gs)) by {
            assert forall|a: int, b: int| 0 <= a < b < gs.len() implies seq_lt(#[trigger] gs[a].0, #[trigger] gs[b].0) by {
                assert(seq_lt(listing(sv@)[a].0, listing(sv@)[b].0));
            }
        }
    }
    (sn, sd)
}

/// Storing under a new key appends.
pub open spec fn seq_insert_is_push(s: NameGraph, k: Seq<char>, v: Seq<Seq<char>>) -> bool {
    !seq_has(s, k) ==> crate::strmap::seq_insert(s, k, v) == s.push((k, v))
}

/// `(i, k)` is the first dependency, in service order and then in the
/// service's dependency order, that names no service.
pub open spec fn first_missing(gr: NameGraph, i: int, k: int) -> bool {
    &&& 0 <= i < gr.len()
    &&& 0 <= k < gr[i].1.len()
    &&& !has_name(gr, gr[i].1[k])
    &&& forall|i2: int, k2: int|
        0 <= i2 < gr.len() && 0 <= k2 < gr[i2].1.len() && (i2 < i || (i2 == i && k2 < k)) ==> has_name(
            gr,
            #[trigger] gr[i2].1[k2],
        )
}

/// The first dependency that names no service, if there is one.
pub fn first_missing_dep(names: &Vec<String>, deps: &Vec<Vec<String>>) -> (r: Option<(usize, usize)>)
    requires
        names@.len() == deps@.len(),
    ensures
        match r {
            Some((i, k)) => first_missing(name_graph(names@, deps@), i as int, k as int),
            None => deps_defined(name_graph(names@, deps@)),
        },
{
    let ghost gr = name_graph(names@, deps@);
    let n = names.len();
    let mut i: usize = 0;
    while i < n
        invariant
            gr == name_graph(names@, deps@),
            n == names@.len(),
            n == deps@.len(),
            i <= n,
            forall|i2: int, k2: int|
                0 <= i2 < i && 0 <= k2 < gr[i2].1.len() ==> has_name(gr, #[trigger] gr[i2].1[k2]),
        decreases n - i,
    {
        let ds = &deps[i];
        let mut k: usize = 0;
        while k < ds.len()
            invariant
                gr == name_graph(names@, deps@),
                n == names@.len(),
                n == deps@.len(),
                i < n,
                ds@ == deps@[i as int]@,
                k <= ds.len(),
                forall|i2: int, k2: int|
                    0 <= i2 < i && 0 <= k2 < gr[i2].1.len() ==> has_name(gr, #[trigger] gr[i2].1[k2]),
                forall|k2: int| 0 <= k2 < k ==> has_name(gr, #[trigger] gr[i as int].1[k2]),
            decreases ds.len() - k,
        {
            let mut j: usize = 0;
            let mut found = false;
            while j < n && !found
                invariant
                    gr == name_graph(names@, deps@),
                    n == names@.len(),
                    j <= n,
                    k < ds.len(),
                    found ==> j < n && names@[j as int]@ == ds@[k as int]@,
                    !found ==> forall|m: int| 0 <= m < j ==> names@[m]@ != ds@[k as int]@,
                decreases n - j + if found { 0int } else { 1int },
            {
                if names[j] == ds[k] {
                    found = true;
                } else {
                    j = j + 1;
                }
            }
            assert(gr[i as int].1[k as int] == ds@[k as int]@);
            if !found {
                proof {
                    assert forall|m: int| !(0 <= m < gr.len() && #[trigger] gr[m].0 == ds@[k as int]@) by {
                        if 0 <= m < gr.len() {
                            assert(gr[m].0 == names@[m]@);
                        }
                    }
                }
                return Some((i, k));
            }
            assert(gr[j as int].0 == names@[j as int]@);
            k = k + 1;
        }
        i = i + 1;
    }
    None
}

/// Service `x` depends on `y`.
pub open spec fn name_depends(gr: NameGraph, x: Seq<char>, y: Seq<char>) -> bool {
    exists|i: int| 0 <= i < gr.len() && #[trigger] gr[i].0 == x && gr[i].1.contains(y)
}

/// The edge from `a` to its dependency `b` closes a cycle of services: a
/// chain of dependencies leads from `b` back to `a`.
pub open spec fn name_closes_cycle(gr: NameGraph, a: Seq<char>, b: Seq<char>) -> bool {
    exists|q: Seq<Seq<char>>|
        #![trigger q.len(), q[0]]
        q.len() > 0 && q[0] == b && q.last() == a && forall|m: int|
            1 <= m < q.len() ==> name_depends(gr, #[trigger] q[m - 1], q[m])
}

/// A cycle of the index graph of the name-ordered copy is a cycle of the services.
pub proof fn lemma_cycle_to_names(gs: NameGraph, gr: NameGraph, a: usize, b: usize)
    requires
        names_sorted(gs),
        keys_distinct(gs),
        keys_distinct(gr),
        same_deps(gs, gr),
        deps_defined(gs),
        gs.len() <= usize::MAX,
        a < gs.len(),
        b < gs.len(),
        closes_cycle(index_graph_of(gs), a, b),
    ensures
        name_closes_cycle(gr, gs[a as int].0, gs[b as int].0),
{
    let g = index_graph_of(gs);
    let qi = choose|q: Seq<usize>| #[trigger] is_chain(g, q) && q.len() > 0 && q[0] == b && q.last() == a;
    let q = names_of(gs, qi);
    assert forall|m: int| 1 <= m < q.len() implies name_depends(gr, #[trigger] q[m - 1], q[m]) by {
        let u = qi[m - 1] as int;
        let v = qi[m];
        assert(g[u].contains(v));
        assert(0 <= u < gs.len());
        let kk = choose|kk: int| 0 <= kk < g[u].len() && g[u][kk] == v;
        let y = gs[u].1[kk];
        assert(has_name(gs, y));
        let j = name_index(gs, y);
        assert(0 <= j < gs.len() && gs[j].0 == y);
        assert(j as usize == v);
        assert(gs[v as int].0 == y);
        lemma_entry_in(gs, gr, u);
        let i = crate::strmap::seq_index_of(gr, gs[u].0);
        assert(gr[i] == gs[u]);
        assert(gr[i].1[kk] == y);
        assert(gr[i].1.contains(y));
        assert(q[m - 1] == gs[u].0);
        assert(q[m] == y);
    }
    assert(q[0] == gs[b as int].0);
    assert(q.last() == gs[a as int].0);
}

} // verus!
