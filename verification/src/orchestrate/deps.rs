//! Start order of the services of a compose document: a depth-first
//! topological sort of the `depends_on` graph, with validation of the
//! dependency names and cycle detection.

use vstd::prelude::*;
use crate::entities::compose::Compose;
use crate::entities::service::Service;
use crate::error::ComposeError;
use crate::strs::push_str;
use crate::orchestrate::graph::{adj_seq, dfs_order, dfs_result};
use crate::orchestrate::names::{
    NameGraph, name_graph, has_name, name_index, deps_defined, name_topo,
    name_acyclic, names_of, index_graph_of, build_index_graph, names_at, lemma_topo_to_names,
    lemma_acyclic_iff, sort_graph, sorted_copy, lemma_same_graph, lemma_entry_in, first_missing,
    first_missing_dep, name_closes_cycle, lemma_cycle_to_names,
};
use crate::strmap::{keys_distinct, lemma_sorted_distinct, seq_index_of};

verus! {

/// The names of the services that `s` depends on.
pub open spec fn service_deps(s: Service) -> Seq<Seq<char>> {
    match s.depends_on {
        Some(d) => d.spec_names(),
        None => Seq::empty(),
    }
}

/// The dependency graph of a compose document: its services in document order,
/// each with the names it depends on.
pub open spec fn compose_graph(c: Compose) -> NameGraph {
    c.services@.map_values(|e: (Seq<char>, Service)| (e.0, service_deps(e.1)))
}

/// The message reported when service `svc` depends on the undefined `dep`.
pub open spec fn undefined_dep_message(svc: Seq<char>, dep: Seq<char>) -> Seq<char> {
    "Service '"@ + svc + "' depends on '"@ + dep + "', which is not defined in the compose file"@
}

/// The text naming a dependency edge, `"a -> b"`.
pub open spec fn edge_text(a: Seq<char>, b: Seq<char>) -> Seq<char> {
    a + " -> "@ + b
}

/// A topological order of the services of `compose`: each service appears
/// after all of the services it depends on: the order in which a
/// depth-first search finishes them, started from each service by ascending
/// name and following each service's dependencies in their written order.
///
/// A dependency on an undefined service gives `ValidationError` for the first
/// such dependency in document order; a cycle among the dependencies gives
/// `CircularDependency` naming a dependency edge that lies on a cycle.
pub fn topological_order(compose: &Compose) -> (r: Result<Vec<String>, ComposeError>)
    ensures
        r is Ok <==> deps_defined(compose_graph(*compose)) && name_acyclic(compose_graph(*compose)),
        match r {
            Ok(order) => deps_defined(compose_graph(*compose)) && name_topo(
                compose_graph(*compose),
                order@.map_values(|s: String| s@),
            ) && exists|gs: NameGraph|
                #[trigger] sorted_copy(gs, compose_graph(*compose)) && match dfs_result(index_graph_of(gs)) {
                    Ok(x) => order@.map_values(|s: String| s@) == names_of(gs, x),
                    Err(_) => false,
                },
            Err(ComposeError::ValidationError { message }) => exists|i: int, k: int|
                #[trigger] first_missing(compose_graph(*compose), i, k) && message@ == undefined_dep_message(
                    compose_graph(*compose)[i].0,
                    compose_graph(*compose)[i].1[k],
                ),
            Err(ComposeError::CircularDependency { cycle }) => deps_defined(compose_graph(*compose))
                && !name_acyclic(compose_graph(*compose)) && exists|i: int, k: int|
                #![trigger compose_graph(*compose)[i].1[k]]
                0 <= i < compose_graph(*compose).len() && 0 <= k < compose_graph(*compose)[i].1.len()
                    && cycle@ == edge_text(compose_graph(*compose)[i].0, compose_graph(*compose)[i].1[k])
                    && name_closes_cycle(
                    compose_graph(*compose),
                    compose_graph(*compose)[i].0,
                    compose_graph(*compose)[i].1[k],
                ) && exists|gs: NameGraph|
                    #[trigger] sorted_copy(gs, compose_graph(*compose)) && match dfs_result(index_graph_of(gs)) {
                        Err((a, b)) => a < gs.len() && b < gs.len() && cycle@ == edge_text(
                            gs[a as int].0,
                            gs[b as int].0,
                        ),
                        Ok(_) => false,
                    },
            Err(_) => false,
        },
{
    let ghost gr = compose_graph(*compose);
    let names = compose.services.keys();
    let n = compose.services.len();
    let mut deps: Vec<Vec<String>> = Vec::new();
    let mut i: usize = 0;
    while i < n
        invariant
            n == compose.services@.len(),
            gr == compose_graph(*compose),
            i <= n,
            deps@.len() == i,
            forall|j: int| #![trigger deps@[j]] 0 <= j < i ==> deps@[j]@.map_values(|d: String| d@) == gr[j].1,
        decreases n - i,
    {
        let d = match &compose.services.value_at(i).depends_on {
            Some(d) => d.service_names(),
            None => Vec::new(),
        };
        assert(d@.map_values(|s: String| s@) =~= gr[i as int].1);
        deps.push(d);
        i = i + 1;
    }
    proof {
        assert(name_graph(names@, deps@) =~= gr);
        assert(keys_distinct(gr)) by {
            assert forall|a: int, b: int| 0 <= a < b < gr.len() implies #[trigger] gr[a].0 != #[trigger] gr[b].0 by {
                assert(compose.services@[a].0 != compose.services@[b].0);
            }
        }
    }
    if let Some((i, k)) = first_missing_dep(&names, &deps) {
        let mut message = String::new();
        push_str(&mut message, "Service '");
        push_str(&mut message, names[i].as_str());
        push_str(&mut message, "' depends on '");
        push_str(&mut message, deps[i][k].as_str());
        push_str(&mut message, "', which is not defined in the compose file");
        proof {
            assert(gr[i as int].1[k as int] == deps@[i as int]@[k as int]@);
            assert(message@ =~= undefined_dep_message(gr[i as int].0, gr[i as int].1[k as int]));
            assert(first_missing(gr, i as int, k as int));
            assert(!deps_defined(gr));
        }
        return Err(ComposeError::ValidationError { message });
    }
    let (sn, sd) = sort_graph(&names, &deps);
    let ghost gs = name_graph(sn@, sd@);
    proof {
        lemma_sorted_distinct(gs);
        lemma_same_graph(gs, gr);
        assert(sorted_copy(gs, gr));
    }
    match build_index_graph(&sn, &sd) {
        Err(_) => {
            proof {
                assert(false);
            }
            Err(ComposeError::ValidationError { message: String::new() })
        },
        Ok(adj) => {
            proof {
                assert(adj_seq(adj@).len() == gs.len());
                lemma_acyclic_iff(gs);
            }
            match dfs_order(&adj) {
                Ok(order) => {
                    proof {
                        lemma_topo_to_names(gs, order@);
                        assert forall|a: int| 0 <= a < order@.len() implies #[trigger] order@[a] < sn@.len() by {}
                    }
                    let o = names_at(&sn, &order);
                    proof {
                        assert(o@.map_values(|s: String| s@) =~= names_of(gs, order@));
                    }
                    Ok(o)
                },
                Err((a, b)) => {
                    let ghost g = index_graph_of(gs);
                    proof {
                        assert(adj_seq(adj@)[a as int] == g[a as int]);
                    }
                    let ghost k = choose|k: int| 0 <= k < g[a as int].len() && g[a as int][k] == b;
                    proof {
                        assert(g[a as int][k] == name_index(gs, gs[a as int].1[k]) as usize);
                        assert(has_name(gs, gs[a as int].1[k]));
                        let j = name_index(gs, gs[a as int].1[k]);
                        assert(0 <= j < gs.len() && gs[j].0 == gs[a as int].1[k]);
                        assert(j as usize as int == j);
                        assert(b as int == j);
                        assert(gs[a as int].0 == sn@[a as int]@);
                        assert(gs[j].0 == sn@[j]@);
                    }
                    let mut cycle = String::new();
                    push_str(&mut cycle, sn[a].as_str());
                    push_str(&mut cycle, " -> ");
                    push_str(&mut cycle, sn[b].as_str());
                    proof {
                        lemma_entry_in(gs, gr, a as int);
                        let i = seq_index_of(gr, gs[a as int].0);
                        assert(gr[i] == gs[a as int]);
                        assert(cycle@ =~= edge_text(gr[i].0, gr[i].1[k]));
                        assert(0 <= k < gr[i].1.len());
                        lemma_cycle_to_names(gs, gr, a, b);
                        assert(gs[b as int].0 == gr[i].1[k]);
                    }
                    Err(ComposeError::CircularDependency { cycle })
                },
            }
        },
    }
}

} // verus!
