//! Workload graphs: nodes with images, ports, environment and dependencies,
//! and their translation into a compose document.

use vstd::prelude::*;
use crate::strmap::{StrMap, seq_has};
use crate::strs::{clone_opt, clone_strings};
use crate::types::{ComposeSpec, ComposeService, DependsOnSpec};

verus! {

/// A graph of workloads, keyed by node id.
#[derive(Debug, Clone)]
pub struct WorkloadGraph {
    pub name: String,
    pub nodes: StrMap<WorkloadNode>,
    pub edges: Vec<WorkloadEdge>,
}

/// One workload.
#[derive(Debug, Clone)]
pub struct WorkloadNode {
    pub id: String,
    pub name: String,
    pub image: Option<String>,
    pub ports: Vec<String>,
    pub env: StrMap<WorkloadEnvValue>,
    pub depends_on: Vec<String>,
}

/// An environment value: a literal, or a reference to another node.
#[derive(Debug, Clone)]
pub enum WorkloadEnvValue {
    Literal(String),
    Ref(WorkloadRef),
}

/// A reference to a projection (`endpoint`, `ip` or `internalUrl`) of a node.
#[derive(Debug, Clone)]
pub struct WorkloadRef {
    pub node_id: String,
    pub projection: String,
    pub port: Option<String>,
}

/// A dependency edge between two nodes.
#[derive(Debug, Clone)]
pub struct WorkloadEdge {
    pub from: String,
    pub to: String,
}

/// The service a node becomes: its image, its ports, and its dependencies as a list.
pub open spec fn node_service_ok(s: ComposeService, n: WorkloadNode) -> bool {
    &&& s.image == n.image
    &&& s.ports matches Some(p) && p@ == n.ports@
    &&& s.depends_on matches Some(DependsOnSpec::List(d)) && d@ == n.depends_on@
    &&& s.build is None && s.command is None && s.entrypoint is None && s.environment is None
    &&& s.volumes is None && s.networks is None && s.container_name is None && s.labels is None
}

fn node_service(n: &WorkloadNode) -> (s: ComposeService)
    ensures
        node_service_ok(s, *n),
{
    ComposeService {
        image: clone_opt(&n.image),
        build: None,
        command: None,
        entrypoint: None,
        environment: None,
        ports: Some(clone_strings(&n.ports)),
        volumes: None,
        networks: None,
        depends_on: Some(DependsOnSpec::List(clone_strings(&n.depends_on))),
        container_name: None,
        labels: None,
    }
}

/// The compose document of a workload graph: named after the graph, with
/// one service per node under the node's key.
pub fn translate(graph: &WorkloadGraph) -> (r: ComposeSpec)
    ensures
        r.name == Some(graph.name),
        r.version is None && r.networks is None && r.volumes is None,
        r.services.wf(),
        r.services@.len() == graph.nodes@.len(),
        forall|i: int|
            0 <= i < r.services@.len() ==> (#[trigger] r.services@[i]).0 == graph.nodes@[i].0 && node_service_ok(
                r.services@[i].1,
                graph.nodes@[i].1,
            ),
{
    let mut services: StrMap<ComposeService> = StrMap::new();
    let n = graph.nodes.len();
    let mut i: usize = 0;
    while i < n
        invariant
            n == graph.nodes@.len(),
            graph.nodes.wf(),
            i <= n,
            services.wf(),
            services@.len() == i,
            forall|j: int|
                0 <= j < i ==> (#[trigger] services@[j]).0 == graph.nodes@[j].0 && node_service_ok(
                    services@[j].1,
                    graph.nodes@[j].1,
                ),
        decreases n - i,
    {
        let k = graph.nodes.key_at(i).clone();
        let s = node_service(graph.nodes.value_at(i));
        proof {
            if seq_has(services@, k@) {
                let j = choose|j: int| 0 <= j < services@.len() && #[trigger] services@[j].0 == k@;
                assert(graph.nodes@[j].0 != graph.nodes@[i as int].0);
            }
        }
        services.push_new(k, s);
        i = i + 1;
    }
    ComposeSpec {
        version: None,
        name: Some(graph.name.clone()),
        services,
        networks: None,
        volumes: None,
    }
}

} // verus!
