//! Compose engine logic: the start order of a document's services (Kahn's
//! algorithm, smallest ready name first) and the decisions the engine makes
//! around each backend call.

use vstd::prelude::*;
use crate::error::ComposeError;
use crate::strs::{push_str, seq_lt};
use crate::types::{
    ComposeSpec, ComposeService, ComposeHandle, ComposeNetwork, ComposeVolume, ContainerInfo, ContainerSpec, ListOrDict, CommandValue,
    list_pairs,
};
use crate::strmap::{StrMap, seq_get};
use crate::strs::str_eq;
use crate::args::views;
use crate::entities::service::{DictValue, dict_text, dict_value_text};
use crate::orchestrate::env::{map_of_pairs, lemma_map_push};
use crate::orchestrate::steps::{project_key, service_key};
use crate::service::{service_container_name, spec_generated, name_source, opt_text, is_name_shape};
use crate::orchestrate::graph::{adj_seq, kahn, kahn_order, lemma_kahn_order, is_topo, acyclic, lemma_kahn_least};
use crate::orchestrate::names::{
    NameGraph, name_graph, names_sorted, has_name, name_index, lemma_name_index, deps_defined, name_topo, name_acyclic, names_of,
    index_graph_of, build_index_graph, names_at, lemma_topo_to_names, lemma_acyclic_iff, sorted_copy, sort_graph,
    lemma_same_graph, first_missing, first_missing_dep, lemma_names_to_topo, indices_of,
};
use crate::strmap::{keys_distinct, lemma_sorted_distinct, lemma_sorted_unique};

verus! {

/// The names of the services that `s` depends on.
pub open spec fn spec_service_deps(s: ComposeService) -> Seq<Seq<char>> {
    match s.depends_on {
        Some(d) => d.spec_names(),
        None => Seq::empty(),
    }
}

/// The dependency graph of a compose document: services in document order, each
/// with the names it depends on.
pub open spec fn spec_graph(spec: ComposeSpec) -> NameGraph {
    spec.services@.map_values(|e: (Seq<char>, ComposeService)| (e.0, spec_service_deps(e.1)))
}

/// The message reported when service `svc` depends on the undefined `dep`.
pub open spec fn missing_dep_message(svc: Seq<char>, dep: Seq<char>) -> Seq<char> {
    "Service '"@ + svc + "' depends on '"@ + dep + "' which is not defined"@
}

/// The names of the services of `gr`, in `gr`'s order, whose place in the
/// name-ordered graph `gs` is not in `placed`.
pub open spec fn unplaced_names(gr: NameGraph, gs: NameGraph, placed: Seq<usize>) -> Seq<Seq<char>>
    decreases gr.len(),
{
    if gr.len() == 0 {
        Seq::empty()
    } else {
        let t = unplaced_names(gr.drop_last(), gs, placed);
        if placed.contains(name_index(gs, gr.last().0) as usize) {
            t
        } else {
            t.push(gr.last().0)
        }
    }
}

/// The start order: Kahn's algorithm over the services by ascending name,
/// taking at each step the alphabetically smallest service whose
/// dependencies have all started.
///
/// A dependency on an undefined service gives `ValidationError` for the first
/// such dependency in document order; when some services can never start,
/// `DependencyCycle` lists them in document order.
pub fn resolve_startup_order(spec: &ComposeSpec) -> (r: Result<Vec<String>, ComposeError>)
    ensures
        r is Ok <==> deps_defined(spec_graph(*spec)) && name_acyclic(spec_graph(*spec)),
        match r {
            Ok(order) => {
                &&& deps_defined(spec_graph(*spec))
                &&& name_acyclic(spec_graph(*spec))
                &&& name_topo(spec_graph(*spec), order@.map_values(|s: String| s@))
                &&& exists|gs: NameGraph|
                    #[trigger] sorted_copy(gs, spec_graph(*spec)) && order@.map_values(|s: String| s@)
                        == names_of(gs, kahn_order(index_graph_of(gs)))
            },
            Err(ComposeError::ValidationError { message }) => exists|i: int, k: int|
                #[trigger] first_missing(spec_graph(*spec), i, k) && message@ == missing_dep_message(
                    spec_graph(*spec)[i].0,
                    spec_graph(*spec)[i].1[k],
                ),
            Err(ComposeError::DependencyCycle { services }) => {
                &&& deps_defined(spec_graph(*spec))
                &&& !name_acyclic(spec_graph(*spec))
                &&& exists|gs: NameGraph|
                    #[trigger] sorted_copy(gs, spec_graph(*spec)) && services@.map_values(|s: String| s@)
                        == unplaced_names(spec_graph(*spec), gs, kahn_order(index_graph_of(gs)))
            },
            Err(_) => false,
        },
{
    let ghost gr = spec_graph(*spec);
    let names = spec.services.keys();
    let n = spec.services.len();
    let mut deps: Vec<Vec<String>> = Vec::new();
    let mut i: usize = 0;
    while i < n
        invariant
            n == spec.services@.len(),
            gr == spec_graph(*spec),
            i <= n,
            deps@.len() == i,
            forall|j: int| #![trigger deps@[j]] 0 <= j < i ==> deps@[j]@.map_values(|d: String| d@) == gr[j].1,
        decreases n - i,
    {
        let d = match &spec.services.value_at(i).depends_on {
            Some(d) => d.service_names(),
            None => Vec::new(),
        };
        assert(d@.map_values(|s: String| s@) =~= gr[i as int].1);
        deps.push(d);
        i = i + 1;
    }
    proof {
        assert(name_graph(names@, deps@) =~= gr);
        assert(keys_distinct(gr)) by {
            assert forall|a: int, b: int| 0 <= a < b < gr.len() implies #[trigger] gr[a].0 != #[trigger] gr[b].0 by {
                assert(spec.services@[a].0 != spec.services@[b].0);
            }
        }
    }
    if let Some((i, k)) = first_missing_dep(&names, &deps) {
        let mut message = String::new();
        push_str(&mut message, "Service '");
        push_str(&mut message, names[i].as_str());
        push_str(&mut message, "' depends on '");
        push_str(&mut message, deps[i][k].as_str());
        push_str(&mut message, "' which is not defined");
        proof {
            assert(gr[i as int].1[k as int] == deps@[i as int]@[k as int]@);
            assert(message@ =~= missing_dep_message(gr[i as int].0, gr[i as int].1[k as int]));
            assert(first_missing(gr, i as int, k as int));
            assert(!deps_defined(gr));
        }
        return Err(ComposeError::ValidationError { message });
    }
    let (sn, sd) = sort_graph(&names, &deps);
    let ghost gs = name_graph(sn@, sd@);
    proof {
        lemma_sorted_distinct(gs);
        lemma_same_graph(gs, gr);
        assert(sorted_copy(gs, gr));
    }
    let adj = match build_index_graph(&sn, &sd) {
        Err(_) => {
            proof {
                assert(false);
            }
            return Err(ComposeError::ValidationError { message: String::new() });
        },
        Ok(adj) => adj,
    };
    let ghost g = index_graph_of(gs);
    proof {
        assert(adj_seq(adj@).len() == gs.len());
        lemma_acyclic_iff(gs);
        lemma_kahn_order(g);
    }
    let (order, unplaced) = kahn(&adj);
    if unplaced.len() == 0 {
        proof {
            assert forall|v: usize| v < g.len() implies #[trigger] order@.contains(v) by {
                if !order@.contains(v) {
                    assert(unplaced@.contains(v));
                }
            }
            assert(is_topo(g, order@));
            assert(acyclic(g));
            assert(name_acyclic(gs));
            assert(order@ == kahn_order(g));
            lemma_topo_to_names(gs, order@);
            assert forall|a: int| 0 <= a < order@.len() implies #[trigger] order@[a] < sn@.len() by {}
        }
        let o = names_at(&sn, &order);
        proof {
            assert(o@.map_values(|s: String| s@) =~= names_of(gs, order@));
            assert(name_topo(gr, o@.map_values(|s: String| s@)));
        }
        Ok(o)
    } else {
        let ghost u = unplaced@[0];
        proof {
            assert(unplaced@.contains(u));
            assert(!order@.contains(u));
            if name_acyclic(gs) {
                assert(acyclic(g));
                assert(order@ == kahn_order(g));
                assert(u < g.len());
            }
            assert(!name_acyclic(gs));
            assert(order@ == kahn_order(g));
        }
        // Which places of the name-ordered graph have started.
        let mut placed: Vec<bool> = Vec::new();
        let mut j: usize = 0;
        while j < n
            invariant
                j <= n,
                placed@.len() == j,
                forall|v: int| 0 <= v < j ==> #[trigger] placed@[v] == order@.contains(v as usize),
            decreases n - j,
        {
            let mut t: usize = 0;
            let mut hit = false;
            while t < order.len() && !hit
                invariant
                    t <= order@.len(),
                    hit ==> t < order@.len() && order@[t as int] == j,
                    !hit ==> forall|m: int| 0 <= m < t ==> order@[m] != j,
                decreases order@.len() - t + if hit { 0int } else { 1int },
            {
                if order[t] == j {
                    hit = true;
                } else {
                    t = t + 1;
                }
            }
            placed.push(hit);
            j = j + 1;
        }
        let mut services: Vec<String> = Vec::new();
        let mut i: usize = 0;
        assert(gr.take(0) =~= Seq::<(Seq<char>, Seq<Seq<char>>)>::empty());
        while i < n
            invariant
                n == names@.len(),
                n == sn@.len(),
                n == gr.len(),
                n == placed@.len(),
                i <= n,
                gs == name_graph(sn@, sd@),
                names_sorted(gs),
                sorted_copy(gs, gr),
                keys_distinct(gr),
                keys_distinct(gs),
                forall|m: int| 0 <= m < n ==> #[trigger] gr[m].0 == names@[m]@,
                forall|v: int| 0 <= v < n ==> #[trigger] placed@[v] == order@.contains(v as usize),
                services@.map_values(|s: String| s@) == unplaced_names(gr.take(i as int), gs, order@),
            decreases n - i,
        {
            let mut j: usize = 0;
            let mut found = false;
            proof {
                crate::orchestrate::names::lemma_entry_in(gr, gs, i as int);
            }
            while j < n && !found
                invariant
                    n == sn@.len(),
                    n == names@.len(),
                    gs == name_graph(sn@, sd@),
                    j <= n,
                    i < n,
                    found ==> j < n && sn@[j as int]@ == names@[i as int]@,
                    !found ==> forall|m: int| 0 <= m < j ==> sn@[m]@ != names@[i as int]@,
                decreases n - j + if found { 0int } else { 1int },
            {
                if sn[j] == names[i] {
                    found = true;
                } else {
                    j = j + 1;
                }
            }
            proof {
                let x = gr[i as int].0;
                let m = crate::strmap::seq_index_of(gs, x);
                if !found {
                    assert(gs[m].0 == x);
                    assert(sn@[m]@ == x);
                }
                assert(gs[j as int].0 == x);
                lemma_name_index(gs, j as int);
                assert(gr.take(i + 1).drop_last() =~= gr.take(i as int));
                assert(gr.take(i + 1).last() == gr[i as int]);
            }
            if !placed[j] {
                services.push(names[i].clone());
            }
            proof {
                assert(services@.map_values(|s: String| s@) =~= unplaced_names(gr.take(i + 1), gs, order@));
            }
            i = i + 1;
        }
        proof {
            assert(gr.take(n as int) =~= gr);
        }
        Err(ComposeError::DependencyCycle { services })
    }
}


// ============ networks and volumes ============

/// What `up` does with a network or volume of the document.
#[derive(Debug, Clone, Copy, PartialEq, Eq, Structural)]
pub enum ResourceAction {
    /// An external one that does not exist: `up` fails.
    Fail,
    /// It exists already (external or not): nothing to do.
    Keep,
    /// It does not exist and is not external: create it and record it for rollback.
    Create,
}

/// The action for a network or volume that is `external` or not and that
/// the backend reports as `present` or not.
pub fn resource_action(external: bool, present: bool) -> (r: ResourceAction)
    ensures
        r == if present {
            ResourceAction::Keep
        } else if external {
            ResourceAction::Fail
        } else {
            ResourceAction::Create
        },
{
    if present {
        ResourceAction::Keep
    } else if external {
        ResourceAction::Fail
    } else {
        ResourceAction::Create
    }
}

/// `e` reports that the external `kind` (network or volume) named `name` does not exist.
pub open spec fn missing_external_error(e: ComposeError, kind: Seq<char>, name: Seq<char>) -> bool {
    e matches ComposeError::ValidationError { message } && message@ == "External "@ + kind + " '"@ + name
        + "' not found"@
}

/// The error for an external `kind` (network or volume) named `name` that does not exist.
pub fn missing_external(kind: &str, name: &str) -> (r: ComposeError)
    ensures
        missing_external_error(r, kind@, name@),
{
    let mut message = "External ".to_owned();
    push_str(&mut message, kind);
    push_str(&mut message, " '");
    push_str(&mut message, name);
    push_str(&mut message, "' not found");
    ComposeError::ValidationError { message }
}

// ============ containers of a service ============

/// The container carries the labels of project `project` and service `service`.
pub open spec fn labeled_for(info: ContainerInfo, project: Seq<char>, service: Seq<char>) -> bool {
    &&& seq_get(info.labels@, project_key()) matches Some(p) && p@ == project
    &&& seq_get(info.labels@, service_key()) matches Some(s) && s@ == service
}

fn label_is(m: &StrMap<String>, key: &str, value: &str) -> (b: bool)
    ensures
        b == (seq_get(m@, key@) matches Some(v) && v@ == value@),
{
    match m.get(key) {
        Some(v) => str_eq(v.as_str(), value),
        None => false,
    }
}

fn is_labeled_for(info: &ContainerInfo, project: &str, service: &str) -> (b: bool)
    ensures
        b == labeled_for(*info, project@, service@),
{
    proof {
        reveal_strlit("perry.compose.project");
        reveal_strlit("perry.compose.service");
    }
    label_is(&info.labels, "perry.compose.project", project) && label_is(&info.labels, "perry.compose.service", service)
}

/// The first listed container that belongs to service `service` of project `project`.
pub fn find_labeled(containers: &Vec<ContainerInfo>, project: &str, service: &str) -> (r: Option<usize>)
    ensures
        match r {
            Some(i) => i < containers@.len() && labeled_for(containers@[i as int], project@, service@) && forall|j: int|
                0 <= j < i ==> !labeled_for(#[trigger] containers@[j], project@, service@),
            None => forall|j: int| 0 <= j < containers@.len() ==> !labeled_for(#[trigger] containers@[j], project@, service@),
        },
{
    let mut i: usize = 0;
    while i < containers.len()
        invariant
            i <= containers@.len(),
            forall|j: int| 0 <= j < i ==> !labeled_for(#[trigger] containers@[j], project@, service@),
        decreases containers@.len() - i,
    {
        if is_labeled_for(&containers[i], project, service) {
            return Some(i);
        }
        i = i + 1;
    }
    None
}

/// The ids of the listed containers of service `service` of project `project`, in order.
pub open spec fn labeled_ids(c: Seq<ContainerInfo>, project: Seq<char>, service: Seq<char>) -> Seq<Seq<char>>
    decreases c.len(),
{
    if c.len() == 0 {
        Seq::empty()
    } else {
        let rest = labeled_ids(c.drop_last(), project, service);
        if labeled_for(c.last(), project, service) {
            rest.push(c.last().id@)
        } else {
            rest
        }
    }
}

/// The ids of the listed containers that belong to service `service` of project `project`.
pub fn containers_of_service(containers: &Vec<ContainerInfo>, project: &str, service: &str) -> (r: Vec<String>)
    ensures
        views(r@) == labeled_ids(containers@, project@, service@),
{
    let mut r: Vec<String> = Vec::new();
    let mut i: usize = 0;
    assert(views(r@) =~= labeled_ids(containers@.take(0), project@, service@));
    while i < containers.len()
        invariant
            i <= containers@.len(),
            views(r@) == labeled_ids(containers@.take(i as int), project@, service@),
        decreases containers@.len() - i,
    {
        assert(containers@.take(i + 1).drop_last() =~= containers@.take(i as int));
        assert(containers@.take(i + 1).last() == containers@[i as int]);
        if is_labeled_for(&containers[i], project, service) {
            let ghost before = r@;
            r.push(containers[i].id.clone());
            assert(views(r@) =~= views(before).push(containers@[i as int].id@));
        }
        i = i + 1;
    }
    assert(containers@.take(containers@.len() as int) =~= containers@);
    r
}

/// `r` is the container name of service `service`: the cached name; else,
/// for a service the document defines, its `container_name` or a generated
/// `{md5_8}-{random_hex8}` name; else `{service}-unknown`.
pub open spec fn resolved_as(
    r: Seq<char>,
    cached: Option<Seq<char>>,
    svc: Option<ComposeService>,
    service: Seq<char>,
    rendered: Option<Seq<char>>,
) -> bool {
    match cached {
        Some(c) => r == c,
        None => match svc {
            None => r == service + "-unknown"@,
            Some(s) => match s.container_name {
                Some(n) => r == n@,
                None => is_name_shape(r) && exists|x: u32| r == #[trigger] spec_generated(name_source(s, service, rendered), x),
            },
        },
    }
}

/// The container name of a service: the one recorded by `up` when there is
/// one; otherwise the service's own (see `service_container_name`); for a
/// service the document does not define, `{service}-unknown`.
pub fn resolve_container_name(
    cached: Option<String>,
    svc: Option<&ComposeService>,
    service_name: &str,
    rendered: Option<&str>,
) -> (r: String)
    ensures
        cached matches Some(c) ==> r == c,
        resolved_as(
            r@,
            match cached {
                Some(c) => Some(c@),
                None => None,
            },
            match svc {
                Some(s) => Some(*s),
                None => None,
            },
            service_name@,
            opt_text(rendered),
        ),
        cached is None && svc is None ==> r@ == service_name@ + "-unknown"@,
        cached is None ==> (svc matches Some(s) ==> match s.container_name {
            Some(n) => r@ == n@,
            None => is_name_shape(r@) && exists|x: u32|
                r@ == #[trigger] spec_generated(name_source(*s, service_name@, opt_text(rendered)), x),
        }),
{
    match cached {
        Some(c) => c,
        None => match svc {
            Some(s) => service_container_name(s, service_name, rendered),
            None => {
                let mut n = service_name.to_owned();
                push_str(&mut n, "-unknown");
                n
            },
        },
    }
}

// ============ what runs for a service ============

/// The environment a service's container gets: every mapping entry (an
/// entry without a value gets the empty string) or the `KEY=VALUE` list
/// entries that hold `=`.
pub open spec fn engine_env_pairs(e: Option<ListOrDict>) -> Seq<(Seq<char>, Seq<char>)> {
    match e {
        Some(ListOrDict::Dict(m)) => m@.map_values(|x: (Seq<char>, Option<DictValue>)| (x.0, dict_text(x.1))),
        Some(ListOrDict::List(l)) => list_pairs(l@),
        None => Seq::empty(),
    }
}

/// The environment of a service's container as a flat map.
pub fn engine_env(e: &Option<ListOrDict>) -> (r: StrMap<String>)
    ensures
        map_of_pairs(r, engine_env_pairs(*e)),
{
    match e {
        Some(ListOrDict::Dict(m)) => {
            let mut r: StrMap<String> = StrMap::new();
            let ghost pairs = engine_env_pairs(*e);
            let n = m.len();
            let mut i: usize = 0;
            while i < n
                invariant
                    n == m@.len(),
                    pairs.len() == n,
                    pairs == engine_env_pairs(*e),
                    *e == Some(ListOrDict::Dict(*m)),
                    i <= n,
                    map_of_pairs(r, pairs.take(i as int)),
                decreases n - i,
            {
                let k = m.key_at(i).clone();
                let val = dict_value_text(m.value_at(i));
                let ghost old_r = r;
                let ghost kv = k@;
                let ghost vv = val@;
                r.insert(k, val);
                proof {
                    lemma_map_push(old_r, r, pairs.take(i as int), kv, vv);
                    assert(pairs.take(i as int).push((kv, vv)) =~= pairs.take(i + 1));
                }
                i = i + 1;
            }
            assert(pairs.take(n as int) =~= pairs);
            r
        },
        Some(l) => {
            let r = l.to_map();
            r
        },
        None => StrMap::new(),
    }
}

/// The command of a service's container: a string command as a single
/// word, each item of a list (non-string items as empty words), nothing
/// for any other value.
pub open spec fn engine_cmd(c: Option<CommandValue>) -> Seq<Seq<char>> {
    match c {
        Some(CommandValue::Text(s)) => seq![s@],
        Some(CommandValue::Items(v)) => v@.map_values(|o: Option<String>| match o {
            Some(s) => s@,
            None => Seq::<char>::empty(),
        }),
        _ => Seq::empty(),
    }
}

fn engine_cmd_exec(c: &Option<CommandValue>) -> (r: Vec<String>)
    ensures
        views(r@) == engine_cmd(*c),
{
    let mut r: Vec<String> = Vec::new();
    match c {
        Some(CommandValue::Text(s)) => {
            r.push(s.clone());
            assert(views(r@) =~= engine_cmd(*c));
        },
        Some(CommandValue::Items(v)) => {
            let mut i: usize = 0;
            while i < v.len()
                invariant
                    *c == Some(CommandValue::Items(*v)),
                    i <= v@.len(),
                    r@.len() == i,
                    forall|j: int| 0 <= j < i ==> #[trigger] r@[j]@ == match v@[j] {
                        Some(s) => s@,
                        None => Seq::<char>::empty(),
                    },
                decreases v@.len() - i,
            {
                match &v[i] {
                    Some(s) => r.push(s.clone()),
                    None => r.push(String::new()),
                }
                i = i + 1;
            }
            assert(views(r@) =~= engine_cmd(*c));
        },
        _ => {
            assert(views(r@) =~= engine_cmd(*c));
        },
    }
    r
}

/// `r` runs service `svc` under `container_name`: its image (empty when none
/// is given), the name, its ports, volumes, environment and command, and its
/// first network.
pub open spec fn runs_as(r: ContainerSpec, svc: ComposeService, container_name: String) -> bool {
    &&& r.image@ == match svc.image {
        Some(i) => i@,
        None => Seq::<char>::empty(),
    }
    &&& r.name == Some(container_name)
    &&& r.ports matches Some(p) && p@ == match svc.ports {
        Some(q) => q@,
        None => Seq::<String>::empty(),
    }
    &&& r.volumes matches Some(v) && v@ == match svc.volumes {
        Some(q) => q@,
        None => Seq::<String>::empty(),
    }
    &&& r.env matches Some(e) && map_of_pairs(e, engine_env_pairs(svc.environment))
    &&& r.cmd matches Some(c) && views(c@) == engine_cmd(svc.command)
    &&& r.entrypoint is None
    &&& r.rm is None
    &&& r.network == match svc.networks {
        Some(n) if n@.len() > 0 => Some(n@[0]),
        _ => None,
    }
}

/// The container a service runs in: its image (empty when none is given),
/// the chosen name, its ports, volumes, environment and command, its first
/// network, and the given labels.
pub fn container_spec_for(svc: &ComposeService, container_name: &String, labels: StrMap<String>) -> (r: ContainerSpec)
    ensures
        runs_as(r, *svc, *container_name),
        r.labels == Some(labels),
{
    let image = match &svc.image {
        Some(i) => i.clone(),
        None => String::new(),
    };
    let network = match &svc.networks {
        Some(n) => if n.len() > 0 {
            Some(n[0].clone())
        } else {
            None
        },
        None => None,
    };
    ContainerSpec {
        image,
        name: Some(container_name.clone()),
        ports: Some(svc.port_strings()),
        volumes: Some(svc.volume_strings()),
        env: Some(engine_env(&svc.environment)),
        labels: Some(labels),
        cmd: Some(engine_cmd_exec(&svc.command)),
        entrypoint: None,
        network,
        rm: None,
    }
}

/// `m` with the project and service labels set.
pub fn with_compose_labels(m: StrMap<String>, project: &str, service: &str) -> (r: StrMap<String>)
    ensures
        r.wf(),
        forall|k: Seq<char>|
            #[trigger] r.spec_get(k) == if k == service_key() || k == project_key() {
                r.spec_get(k)
            } else {
                m.spec_get(k)
            },
        r.spec_get(project_key()) matches Some(p) && p@ == project@,
        r.spec_get(service_key()) matches Some(s) && s@ == service@,
{
    let mut r = m;
    let ghost m0 = r;
    r.insert("perry.compose.project".to_owned(), project.to_owned());
    let ghost m1 = r;
    r.insert("perry.compose.service".to_owned(), service.to_owned());
    proof {
        reveal_strlit("perry.compose.project");
        reveal_strlit("perry.compose.service");
        assert(project_key()[14] != service_key()[14]);
        assert forall|k: Seq<char>| #[trigger] r.spec_get(k) == if k == service_key() || k == project_key() {
            r.spec_get(k)
        } else {
            m.spec_get(k)
        } by {
            assert(r.spec_get(k) == seq_get(r@, k));
            assert(m1.spec_get(k) == seq_get(m1@, k));
            assert(m0.spec_get(k) == seq_get(m0@, k));
        }
        assert(r.spec_get(project_key()) == seq_get(r@, project_key()));
        assert(m1.spec_get(project_key()) == seq_get(m1@, project_key()));
    }
    r
}

// ============ starting a container ============

/// What `up` does with a service's container once its name is known.
#[derive(Debug, Clone, Copy, PartialEq, Eq, Structural)]
pub enum StartAction {
    /// It is running already.
    Skip,
    /// It exists but is not running: start it.
    StartExisting,
    /// There is none: run a new one.
    Run,
}

/// The action for a container whose inspection gave `status` (none when
/// the inspection failed).
pub fn start_action(status: Option<&str>) -> (r: StartAction)
    ensures
        r == match status {
            Some(s) => if s@ == "running"@ {
                StartAction::Skip
            } else {
                StartAction::StartExisting
            },
            None => StartAction::Run,
        },
{
    match status {
        Some(s) => if str_eq(s, "running") {
            StartAction::Skip
        } else {
            StartAction::StartExisting
        },
        None => StartAction::Run,
    }
}

/// `r` reports that running the container of `service` failed with `cause`.
pub open spec fn startup_failure(r: ComposeError, service: Seq<char>, cause: ComposeError) -> bool {
    r matches ComposeError::ServiceStartupFailed { service: s, error: m } && s@ == service && (
    match cause {
        ComposeError::NoBackendFound { .. } => crate::error::spec_message(cause).is_prefix_of(m@),
        _ => m@ == crate::error::spec_message(cause),
    })
}

/// The error reported when running the container of `service` failed with `cause`.
pub fn startup_failed(service: &str, cause: &ComposeError) -> (r: ComposeError)
    ensures
        startup_failure(r, service@, *cause),
{
    ComposeError::ServiceStartupFailed { service: service.to_owned(), error: cause.to_string() }
}

/// The logs of a container as one text: `STDOUT:`, its output, `STDERR:`,
/// its error output.
pub fn format_logs(stdout: &str, stderr: &str) -> (r: String)
    ensures
        r@ == "STDOUT:\n"@ + stdout@ + "\nSTDERR:\n"@ + stderr@,
{
    let mut s = "STDOUT:\n".to_owned();
    push_str(&mut s, stdout);
    push_str(&mut s, "\nSTDERR:\n");
    push_str(&mut s, stderr);
    s
}

/// The error when a command names a service the document does not define.
pub fn require_service(spec: &ComposeSpec, service: &str) -> (r: Result<(), ComposeError>)
    ensures
        r is Ok <==> crate::strmap::seq_has(spec.services@, service@),
        r matches Err(e) ==> e matches ComposeError::NotFound(s) && s@ == service@,
{
    if spec.services.contains_key(service) {
        Ok(())
    } else {
        Err(ComposeError::NotFound(service.to_owned()))
    }
}

/// The handle of a started stack: its id, project name and service names.
pub fn compose_handle(stack_id: u64, project_name: &str, spec: &ComposeSpec) -> (r: ComposeHandle)
    ensures
        r.stack_id == stack_id,
        r.project_name@ == project_name@,
        views(r.services@) == spec.services@.map_values(|e: (Seq<char>, ComposeService)| e.0),
{
    let services = spec.services.keys();
    assert(views(services@) =~= spec.services@.map_values(|e: (Seq<char>, ComposeService)| e.0));
    ComposeHandle { stack_id, project_name: project_name.to_owned(), services }
}

// ============ what one session created ============

/// What the current session of an engine created, in creation order:
/// containers (by id), networks and volumes.
#[derive(Debug, Clone)]
pub struct Session {
    pub containers: Vec<String>,
    pub networks: Vec<String>,
    pub volumes: Vec<String>,
}

/// The removals of a rollback, each list newest first.
#[derive(Debug, Clone)]
pub struct RollbackPlan {
    pub containers: Vec<String>,
    pub networks: Vec<String>,
    pub volumes: Vec<String>,
}

fn reverse_all(v: &Vec<String>) -> (r: Vec<String>)
    ensures
        r@ == v@.reverse(),
{
    let mut r: Vec<String> = Vec::new();
    let mut i: usize = v.len();
    while i > 0
        invariant
            i <= v@.len(),
            r@ == v@.subrange(i as int, v@.len() as int).reverse(),
        decreases i,
    {
        i = i - 1;
        r.push(v[i].clone());
        assert(r@ =~= v@.subrange(i as int, v@.len() as int).reverse());
    }
    assert(v@.subrange(0, v@.len() as int) =~= v@);
    r
}

impl Session {
    /// A session that has created nothing.
    pub fn new() -> (r: Session)
        ensures
            r.containers@.len() == 0 && r.networks@.len() == 0 && r.volumes@.len() == 0,
    {
        Session { containers: Vec::new(), networks: Vec::new(), volumes: Vec::new() }
    }

    /// Records a container the session ran.
    pub fn record_container(&mut self, id: String)
        ensures
            final(self).containers@ == old(self).containers@.push(id),
            final(self).networks@ == old(self).networks@,
            final(self).volumes@ == old(self).volumes@,
    {
        self.containers.push(id);
    }

    /// Records a network the session created.
    pub fn record_network(&mut self, name: String)
        ensures
            final(self).networks@ == old(self).networks@.push(name),
            final(self).containers@ == old(self).containers@,
            final(self).volumes@ == old(self).volumes@,
    {
        self.networks.push(name);
    }

    /// Records a volume the session created.
    pub fn record_volume(&mut self, name: String)
        ensures
            final(self).volumes@ == old(self).volumes@.push(name),
            final(self).containers@ == old(self).containers@,
            final(self).networks@ == old(self).networks@,
    {
        self.volumes.push(name);
    }

    /// Undoes the session: the removals to make, each newest first, and the
    /// session emptied.
    pub fn rollback(&mut self) -> (plan: RollbackPlan)
        ensures
            plan.containers@ == old(self).containers@.reverse(),
            plan.networks@ == old(self).networks@.reverse(),
            plan.volumes@ == old(self).volumes@.reverse(),
            final(self).containers@.len() == 0 && final(self).networks@.len() == 0 && final(self).volumes@.len()
                == 0,
    {
        let plan = RollbackPlan {
            containers: reverse_all(&self.containers),
            networks: reverse_all(&self.networks),
            volumes: reverse_all(&self.volumes),
        };
        self.containers = Vec::new();
        self.networks = Vec::new();
        self.volumes = Vec::new();
        plan
    }

    /// The session's part of `down`: a rollback that, unless `remove_volumes`,
    /// removes no volume and keeps the recorded volumes in the session.
    pub fn down(&mut self, remove_volumes: bool) -> (plan: RollbackPlan)
        ensures
            plan.containers@ == old(self).containers@.reverse(),
            plan.networks@ == old(self).networks@.reverse(),
            final(self).containers@.len() == 0 && final(self).networks@.len() == 0,
            remove_volumes ==> plan.volumes@ == old(self).volumes@.reverse() && final(self).volumes@.len() == 0,
            !remove_volumes ==> plan.volumes@.len() == 0 && final(self).volumes@ == old(self).volumes@,
    {
        if remove_volumes {
            self.rollback()
        } else {
            let mut saved: Vec<String> = Vec::new();
            std::mem::swap(&mut saved, &mut self.volumes);
            let plan = self.rollback();
            self.volumes = saved;
            plan
        }
    }
}

/// `a` equals `b` or comes first when the names are compared one by one.
pub open spec fn names_lex_le(a: Seq<Seq<char>>, b: Seq<Seq<char>>) -> bool {
    a == b || exists|p: int| 0 <= p < a.len() && p < b.len() && a.take(p) == b.take(p) && seq_lt(a[p], b[p])
}

/// The start order is the least of the services' dependency orders: every
/// order that puts each service after its dependencies is equal to it or
/// comes after it, comparing names one by one.
pub proof fn lemma_startup_order_least(spec: ComposeSpec, order: Seq<Seq<char>>, o: Seq<Seq<char>>)
    requires
        spec.services.wf(),
        spec.services@.len() <= usize::MAX,
        deps_defined(spec_graph(spec)),
        exists|gs: NameGraph|
            #[trigger] sorted_copy(gs, spec_graph(spec)) && order == names_of(gs, kahn_order(index_graph_of(gs))),
        name_topo(spec_graph(spec), o),
    ensures
        names_lex_le(order, o),
{
    let gr = spec_graph(spec);
    let gs = choose|gs: NameGraph|
        #[trigger] sorted_copy(gs, gr) && order == names_of(gs, kahn_order(index_graph_of(gs)));
    assert(keys_distinct(gr)) by {
        assert forall|a: int, b: int| 0 <= a < b < gr.len() implies #[trigger] gr[a].0 != #[trigger] gr[b].0 by {
            assert(spec.services@[a].0 != spec.services@[b].0);
        }
    }
    lemma_sorted_distinct(gs);
    lemma_same_graph(gs, gr);
    assert(name_topo(gs, o));
    assert(deps_defined(gs));
    lemma_names_to_topo(gs, o);
    let g = index_graph_of(gs);
    let k = kahn_order(g);
    let ri = indices_of(gs, o);
    lemma_kahn_least(g, ri);
    lemma_kahn_order(g);
    assert forall|a: int| 0 <= a < o.len() implies #[trigger] names_of(gs, ri)[a] == o[a] by {
        assert(has_name(gs, o[a]));
        let j = name_index(gs, o[a]);
        assert(0 <= j < gs.len() && gs[j].0 == o[a]);
        assert(j as usize as int == j);
    }
    assert(names_of(gs, ri) =~= o);
    if k != ri {
        let p = choose|p: int| 0 <= p < k.len() && p < ri.len() && k.take(p) == ri.take(p) && k[p] < ri[p];
        assert(order.take(p) =~= o.take(p)) by {
            assert forall|a: int| 0 <= a < p implies order[a] == o[a] by {
                assert(k.take(p)[a] == ri.take(p)[a]);
            }
        }
        assert(k[p] < gs.len());
        assert(ri[p] < g.len());
        assert(seq_lt(gs[k[p] as int].0, gs[ri[p] as int].0));
        assert(order[p] == gs[k[p] as int].0);
        assert(o[p] == names_of(gs, ri)[p]);
    }
}

/// The start order does not depend on the order in which the services are
/// written: two documents whose services have the same dependencies get the
/// same start order.
pub proof fn lemma_startup_order_independent(
    spec1: ComposeSpec,
    spec2: ComposeSpec,
    order1: Seq<Seq<char>>,
    order2: Seq<Seq<char>>,
)
    requires
        spec_graph(spec1).len() == spec_graph(spec2).len(),
        forall|x: Seq<char>| #[trigger] seq_get(spec_graph(spec1), x) == seq_get(spec_graph(spec2), x),
        exists|gs: NameGraph|
            #[trigger] sorted_copy(gs, spec_graph(spec1)) && order1 == names_of(gs, kahn_order(index_graph_of(gs))),
        exists|gs: NameGraph|
            #[trigger] sorted_copy(gs, spec_graph(spec2)) && order2 == names_of(gs, kahn_order(index_graph_of(gs))),
    ensures
        order1 == order2,
{
    let gs1 = choose|gs: NameGraph|
        #[trigger] sorted_copy(gs, spec_graph(spec1)) && order1 == names_of(gs, kahn_order(index_graph_of(gs)));
    let gs2 = choose|gs: NameGraph|
        #[trigger] sorted_copy(gs, spec_graph(spec2)) && order2 == names_of(gs, kahn_order(index_graph_of(gs)));
    assert forall|x: Seq<char>| #[trigger] seq_get(gs1, x) == seq_get(gs2, x) by {
        assert(seq_get(gs1, x) == seq_get(spec_graph(spec1), x));
        assert(seq_get(gs2, x) == seq_get(spec_graph(spec2), x));
    }
    lemma_sorted_unique(gs1, gs2);
}

// ============ what `down` removes ============

/// The keys, in document order, of the networks not marked external.
pub open spec fn non_external_networks(s: Seq<(Seq<char>, Option<ComposeNetwork>)>) -> Seq<Seq<char>>
    decreases s.len(),
{
    if s.len() == 0 {
        Seq::empty()
    } else {
        let t = non_external_networks(s.drop_last());
        if s.last().1 matches Some(c) && c.external == Some(true) {
            t
        } else {
            t.push(s.last().0)
        }
    }
}

/// The keys, in document order, of the volumes not marked external.
pub open spec fn non_external_volumes(s: Seq<(Seq<char>, Option<ComposeVolume>)>) -> Seq<Seq<char>>
    decreases s.len(),
{
    if s.len() == 0 {
        Seq::empty()
    } else {
        let t = non_external_volumes(s.drop_last());
        if s.last().1 matches Some(c) && c.external == Some(true) {
            t
        } else {
            t.push(s.last().0)
        }
    }
}

/// The keys of the networks of `m` not marked external, in order.
pub fn non_external_network_names(m: &StrMap<Option<ComposeNetwork>>) -> (r: Vec<String>)
    ensures
        views(r@) == non_external_networks(m@),
{
    let mut r: Vec<String> = Vec::new();
    let mut i: usize = 0;
    assert(m@.take(0) =~= Seq::<(Seq<char>, Option<ComposeNetwork>)>::empty());
    while i < m.len()
        invariant
            i <= m@.len(),
            views(r@) == non_external_networks(m@.take(i as int)),
        decreases m@.len() - i,
    {
        let external = match m.value_at(i) {
            Some(c) => c.external == Some(true),
            None => false,
        };
        proof {
            assert(m@.take(i + 1).drop_last() =~= m@.take(i as int));
            assert(m@.take(i + 1).last() == m@[i as int]);
        }
        if !external {
            r.push(m.key_at(i).clone());
        }
        proof {
            assert(views(r@) =~= non_external_networks(m@.take(i + 1)));
        }
        i = i + 1;
    }
    assert(m@.take(m@.len() as int) =~= m@);
    r
}

/// The keys of the volumes of `m` not marked external, in order.
pub fn non_external_volume_names(m: &StrMap<Option<ComposeVolume>>) -> (r: Vec<String>)
    ensures
        views(r@) == non_external_volumes(m@),
{
    let mut r: Vec<String> = Vec::new();
    let mut i: usize = 0;
    assert(m@.take(0) =~= Seq::<(Seq<char>, Option<ComposeVolume>)>::empty());
    while i < m.len()
        invariant
            i <= m@.len(),
            views(r@) == non_external_volumes(m@.take(i as int)),
        decreases m@.len() - i,
    {
        let external = match m.value_at(i) {
            Some(c) => c.external == Some(true),
            None => false,
        };
        proof {
            assert(m@.take(i + 1).drop_last() =~= m@.take(i as int));
            assert(m@.take(i + 1).last() == m@[i as int]);
        }
        if !external {
            r.push(m.key_at(i).clone());
        }
        proof {
            assert(views(r@) =~= non_external_volumes(m@.take(i + 1)));
        }
        i = i + 1;
    }
    assert(m@.take(m@.len() as int) =~= m@);
    r
}

/// The networks `down` removes: those of the document not marked external.
pub fn removable_networks(spec: &ComposeSpec) -> (r: Vec<String>)
    ensures
        views(r@) == match spec.networks {
            Some(m) => non_external_networks(m@),
            None => Seq::empty(),
        },
{
    match &spec.networks {
        Some(m) => non_external_network_names(m),
        None => {
            let r: Vec<String> = Vec::new();
            assert(views(r@) =~= Seq::<Seq<char>>::empty());
            r
        },
    }
}

/// The volumes `down` removes when asked to: those of the document not
/// marked external.
pub fn removable_volumes(spec: &ComposeSpec) -> (r: Vec<String>)
    ensures
        views(r@) == match spec.volumes {
            Some(m) => non_external_volumes(m@),
            None => Seq::empty(),
        },
{
    match &spec.volumes {
        Some(m) => non_external_volume_names(m),
        None => {
            let r: Vec<String> = Vec::new();
            assert(views(r@) =~= Seq::<Seq<char>>::empty());
            r
        },
    }
}

} // verus!
