//! The decisions of the orchestrator around each backend call: which
//! services a command touches and in what order, what is created for each
//! network, volume and service, and what a container's status calls for.

use vstd::prelude::*;
use crate::strmap::{StrMap, seq_get};
use crate::strs::{clone_opt, clone_strings, str_eq, push_str};
use crate::args::views;
use crate::entities::compose::{Compose, opt_listing};
use crate::entities::service::{
    Service, BuildEntry, ListOrDict, spec_port_string, spec_volume_string, spec_generated_name,
};
use crate::container_cli::ContainerStatus;
use crate::error::ComposeError;
use crate::orchestrate::env::{map_of_pairs, last_value};

verus! {

// ============ which services ============

/// The services of `order` that a command touches, in that order: all of
/// them when none are named, otherwise those named in `wanted`.
pub open spec fn selected(order: Seq<Seq<char>>, wanted: Seq<Seq<char>>) -> Seq<Seq<char>>
    decreases order.len(),
{
    if wanted.len() == 0 {
        order
    } else if order.len() == 0 {
        Seq::empty()
    } else {
        let rest = selected(order.drop_last(), wanted);
        if wanted.contains(order.last()) {
            rest.push(order.last())
        } else {
            rest
        }
    }
}

/// With services named, a command touches exactly the services of `order`
/// that are named, each once as often as `order` lists it and in `order`'s
/// order: the selection is `order` filtered by membership in `wanted`, so
/// every selected service equals a named one. With none named, it touches
/// all of `order`.
pub proof fn lemma_selected_filters(order: Seq<Seq<char>>, wanted: Seq<Seq<char>>)
    ensures
        wanted.len() > 0 ==> selected(order, wanted) == order.filter(|x: Seq<char>| wanted.contains(x)),
        wanted.len() > 0 ==> forall|x: Seq<char>|
            #[trigger] selected(order, wanted).contains(x) <==> (order.contains(x) && wanted.contains(x)),
        wanted.len() == 0 ==> selected(order, wanted) == order,
    decreases order.len(),
{
    reveal(Seq::filter);
    if wanted.len() > 0 && order.len() > 0 {
        lemma_selected_filters(order.drop_last(), wanted);
        let f = |x: Seq<char>| wanted.contains(x);
        assert(order.filter(f) == {
            let sub = order.drop_last().filter(f);
            if f(order.last()) {
                sub.push(order.last())
            } else {
                sub
            }
        });
        let r = selected(order, wanted);
        let r0 = selected(order.drop_last(), wanted);
        assert forall|x: Seq<char>| #[trigger] r.contains(x) <==> (order.contains(x) && wanted.contains(x)) by {
            if r.contains(x) {
                let k = choose|k: int| 0 <= k < r.len() && r[k] == x;
                if k < r0.len() {
                    assert(r0[k] == x);
                    assert(r0.contains(x));
                    let m = choose|m: int| 0 <= m < order.drop_last().len() && order.drop_last()[m] == x;
                    assert(order[m] == x);
                } else {
                    assert(x == order.last());
                    assert(order[order.len() - 1] == x);
                }
            }
            if order.contains(x) && wanted.contains(x) {
                let m = choose|m: int| 0 <= m < order.len() && order[m] == x;
                if m < order.len() - 1 {
                    assert(order.drop_last()[m] == x);
                    assert(r0.contains(x));
                    let k = choose|k: int| 0 <= k < r0.len() && r0[k] == x;
                    assert(r[k] == x);
                } else {
                    assert(r[r.len() - 1] == x);
                }
            }
        }
    } else if wanted.len() > 0 {
        assert forall|x: Seq<char>| #[trigger] selected(order, wanted).contains(x) <==> (order.contains(x)
            && wanted.contains(x)) by {}
    }
}

/// Whether `v` holds a string equal to `s`.
pub fn list_contains(v: &Vec<String>, s: &str) -> (b: bool)
    ensures
        b == views(v@).contains(s@),
{
    let mut i: usize = 0;
    while i < v.len()
        invariant
            i <= v@.len(),
            forall|j: int| 0 <= j < i ==> v@[j]@ != s@,
        decreases v@.len() - i,
    {
        if str_eq(v[i].as_str(), s) {
            assert(views(v@)[i as int] == s@);
            return true;
        }
        i = i + 1;
    }
    assert forall|j: int| 0 <= j < views(v@).len() implies views(v@)[j] != s@ by {
        assert(views(v@)[j] == v@[j]@);
    }
    false
}

/// The services of `order` to act on: all when `services` is empty,
/// otherwise those that `services` names, in start order.
pub fn select_targets(order: &Vec<String>, services: &Vec<String>) -> (r: Vec<String>)
    ensures
        views(r@) == selected(views(order@), views(services@)),
{
    if services.len() == 0 {
        return clone_strings(order);
    }
    let mut r: Vec<String> = Vec::new();
    let mut i: usize = 0;
    assert(views(order@.take(0)) =~= Seq::<Seq<char>>::empty());
    while i < order.len()
        invariant
            i <= order@.len(),
            services@.len() > 0,
            views(r@) == selected(views(order@.take(i as int)), views(services@)),
        decreases order@.len() - i,
    {
        assert(views(order@.take(i + 1)).drop_last() =~= views(order@.take(i as int)));
        assert(views(order@.take(i + 1)).last() == order@[i as int]@);
        if list_contains(services, order[i].as_str()) {
            let ghost before = r@;
            r.push(order[i].clone());
            assert(views(r@) =~= views(before).push(order@[i as int]@));
        }
        i = i + 1;
    }
    assert(order@.take(order@.len() as int) =~= order@);
    r
}

/// `v` in reverse order.
pub fn reversed(v: &Vec<String>) -> (r: Vec<String>)
    ensures
        r@.len() == v@.len(),
        forall|j: int| 0 <= j < v@.len() ==> #[trigger] r@[j]@ == v@[v@.len() - 1 - j]@,
{
    let mut r: Vec<String> = Vec::new();
    let mut i: usize = v.len();
    while i > 0
        invariant
            i <= v@.len(),
            r@.len() == v@.len() - i,
            forall|j: int| 0 <= j < r@.len() ==> #[trigger] r@[j]@ == v@[v@.len() - 1 - j]@,
        decreases i,
    {
        i = i - 1;
        r.push(v[i].clone());
    }
    r
}

// ============ networks and volumes ============

/// One network or volume of the document and what `up` does with it: an
/// external one is skipped; any other is created under `name`.
#[derive(Debug, Clone)]
pub struct ResourceStep {
    /// The key the document gives it.
    pub key: String,
    /// Its `name`, or else its key.
    pub name: String,
    /// Whether it is external, and so neither created nor removed.
    pub skip: bool,
    pub driver: Option<String>,
    /// Its labels, when there are any.
    pub labels: Option<StrMap<String>>,
}

/// `out` is the flat map of the labels `l`, absent when there are none.
pub open spec fn labels_ok(l: Option<ListOrDict>, out: Option<StrMap<String>>) -> bool {
    match l {
        None => out is None,
        Some(l) => match out {
            Some(m) => map_of_pairs(m, l.spec_pairs()) && m@.len() > 0,
            None => forall|k: Seq<char>| #[trigger] last_value(l.spec_pairs(), k) is None,
        },
    }
}

fn labels_of(l: &Option<ListOrDict>) -> (r: Option<StrMap<String>>)
    ensures
        labels_ok(*l, r),
{
    match l {
        Some(l) => {
            let m = l.to_map();
            if m.len() == 0 {
                proof {
                    assert forall|k: Seq<char>| #[trigger] last_value(l.spec_pairs(), k) is None by {
                        assert(m.spec_get(k) is None);
                    }
                }
                None
            } else {
                Some(m)
            }
        },
        None => None,
    }
}

/// The step for one network or volume.
pub open spec fn step_ok(
    r: ResourceStep,
    key: Seq<char>,
    name: Option<String>,
    external: Option<bool>,
    driver: Option<String>,
    labels: Option<ListOrDict>,
) -> bool {
    &&& r.key@ == key
    &&& r.name@ == match name {
        Some(n) => n@,
        None => key,
    }
    &&& r.skip == (external == Some(true))
    &&& r.driver == driver
    &&& labels_ok(labels, r.labels)
}

fn resource_step(
    key: &String,
    name: &Option<String>,
    external: Option<bool>,
    driver: &Option<String>,
    labels: &Option<ListOrDict>,
) -> (r: ResourceStep)
    ensures
        step_ok(r, key@, *name, external, *driver, *labels),
{
    ResourceStep {
        key: key.clone(),
        name: match name {
            Some(n) => n.clone(),
            None => key.clone(),
        },
        skip: external == Some(true),
        driver: clone_opt(driver),
        labels: labels_of(labels),
    }
}

/// The steps for the document's networks, in document order.
pub fn network_steps(compose: &Compose) -> (r: Vec<ResourceStep>)
    ensures
        r@.len() == opt_listing(compose.networks).len(),
        forall|i: int|
            0 <= i < r@.len() ==> step_ok(
                #[trigger] r@[i],
                opt_listing(compose.networks)[i].0,
                opt_listing(compose.networks)[i].1.name,
                opt_listing(compose.networks)[i].1.external,
                opt_listing(compose.networks)[i].1.driver,
                opt_listing(compose.networks)[i].1.labels,
            ),
{
    let mut r: Vec<ResourceStep> = Vec::new();
    if let Some(nets) = &compose.networks {
        let mut i: usize = 0;
        while i < nets.len()
            invariant
                compose.networks == Some(*nets),
                i <= nets@.len(),
                r@.len() == i,
                forall|j: int|
                    0 <= j < i ==> step_ok(
                        #[trigger] r@[j],
                        nets@[j].0,
                        nets@[j].1.name,
                        nets@[j].1.external,
                        nets@[j].1.driver,
                        nets@[j].1.labels,
                    ),
            decreases nets@.len() - i,
        {
            let n = nets.value_at(i);
            r.push(resource_step(nets.key_at(i), &n.name, n.external, &n.driver, &n.labels));
            i = i + 1;
        }
    }
    r
}

/// The steps for the document's volumes, in document order.
pub fn volume_steps(compose: &Compose) -> (r: Vec<ResourceStep>)
    ensures
        r@.len() == opt_listing(compose.volumes).len(),
        forall|i: int|
            0 <= i < r@.len() ==> step_ok(
                #[trigger] r@[i],
                opt_listing(compose.volumes)[i].0,
                opt_listing(compose.volumes)[i].1.name,
                opt_listing(compose.volumes)[i].1.external,
                opt_listing(compose.volumes)[i].1.driver,
                opt_listing(compose.volumes)[i].1.labels,
            ),
{
    let mut r: Vec<ResourceStep> = Vec::new();
    if let Some(vols) = &compose.volumes {
        let mut i: usize = 0;
        while i < vols.len()
            invariant
                compose.volumes == Some(*vols),
                i <= vols@.len(),
                r@.len() == i,
                forall|j: int|
                    0 <= j < i ==> step_ok(
                        #[trigger] r@[j],
                        vols@[j].0,
                        vols@[j].1.name,
                        vols@[j].1.external,
                        vols@[j].1.driver,
                        vols@[j].1.labels,
                    ),
            decreases vols@.len() - i,
        {
            let v = vols.value_at(i);
            r.push(resource_step(vols.key_at(i), &v.name, v.external, &v.driver, &v.labels));
            i = i + 1;
        }
    }
    r
}

// ============ what runs for a service ============

/// How to build a service's image.
#[derive(Debug, Clone)]
pub struct BuildRequest {
    /// The build context, `.` when none is given.
    pub context: String,
    pub dockerfile: Option<String>,
    /// The tag of the image built.
    pub tag: String,
    pub args: Option<StrMap<String>>,
    pub target: Option<String>,
    pub network: Option<String>,
}

/// What is run for a service that has no container yet.
#[derive(Debug, Clone)]
pub struct RunRequest {
    pub container_name: String,
    pub image: String,
    /// The port mappings, when there are any.
    pub ports: Option<Vec<String>>,
    /// The environment, when it is not empty.
    pub env: Option<StrMap<String>>,
    /// The volume mounts, when there are any.
    pub volumes: Option<Vec<String>>,
    /// The service's labels with the project and service labels added.
    pub labels: StrMap<String>,
    pub cmd: Option<Vec<String>>,
    /// How to build the image first, for a service that builds it.
    pub build: Option<BuildRequest>,
}

/// The label key that holds the project name.
pub open spec fn project_key() -> Seq<char> {
    "perry.compose.project"@
}

/// The label key that holds the service name.
pub open spec fn service_key() -> Seq<char> {
    "perry.compose.service"@
}

/// `m` is the service's labels `pairs` with the project and service
/// labels set to `project` and `service`.
pub open spec fn run_labels_ok(
    m: StrMap<String>,
    pairs: Seq<(Seq<char>, Seq<char>)>,
    project: Seq<char>,
    service: Seq<char>,
) -> bool {
    &&& m.wf()
    &&& forall|k: Seq<char>|
        #[trigger] m.spec_get(k) is Some <==> (k == project_key() || k == service_key() || last_value(pairs, k) is Some)
    &&& forall|k: Seq<char>|
        #[trigger] m.spec_get(k) is Some ==> m.spec_get(k)->0@ == if k == service_key() {
            service
        } else if k == project_key() {
            project
        } else {
            last_value(pairs, k)->0
        }
}

/// The assignments of an optional label list.
pub open spec fn opt_pairs(l: Option<ListOrDict>) -> Seq<(Seq<char>, Seq<char>)> {
    match l {
        Some(l) => l.spec_pairs(),
        None => Seq::empty(),
    }
}

/// The labels put on a service's container: its own, then the project and
/// service labels.
pub fn container_labels(labels: &Option<ListOrDict>, project: &str, service: &str) -> (r: StrMap<String>)
    ensures
        run_labels_ok(r, opt_pairs(*labels), project@, service@),
{
    let mut m = match labels {
        Some(l) => l.to_map(),
        None => StrMap::new(),
    };
    let ghost m0 = m;
    m.insert("perry.compose.project".to_owned(), project.to_owned());
    let ghost m1 = m;
    m.insert("perry.compose.service".to_owned(), service.to_owned());
    proof {
        reveal_strlit("perry.compose.project");
        reveal_strlit("perry.compose.service");
        assert(project_key()[14] != service_key()[14]);
        assert(project_key() != service_key());
        assert forall|k: Seq<char>| #[trigger] m.spec_get(k) is Some <==> (k == project_key() || k
            == service_key() || last_value(opt_pairs(*labels), k) is Some) by {
            assert(m.spec_get(k) == seq_get(m@, k));
            assert(m1.spec_get(k) == seq_get(m1@, k));
            assert(m0.spec_get(k) == seq_get(m0@, k));
        }
        assert forall|k: Seq<char>| #[trigger] m.spec_get(k) is Some implies m.spec_get(k)->0@ == if k
            == service_key() {
            service@
        } else if k == project_key() {
            project@
        } else {
            last_value(opt_pairs(*labels), k)->0
        } by {
            assert(m.spec_get(k) == seq_get(m@, k));
            assert(m1.spec_get(k) == seq_get(m1@, k));
            assert(m0.spec_get(k) == seq_get(m0@, k));
        }
    }
    m
}

fn build_request(entry: &BuildEntry, tag: String) -> (r: BuildRequest)
    ensures
        r.tag == tag,
        match entry {
            BuildEntry::String(c) => {
                &&& r.context@ == c@
                &&& r.dockerfile is None && r.args is None && r.target is None && r.network is None
            },
            BuildEntry::Object(b) => {
                &&& r.context@ == match b.context {
                    Some(c) => c@,
                    None => "."@,
                }
                &&& r.dockerfile == b.dockerfile
                &&& r.target == b.target
                &&& r.network == b.network
                &&& match b.args {
                    Some(a) => r.args is Some && map_of_pairs(r.args->0, a.spec_pairs()),
                    None => r.args is None,
                }
            },
        },
{
    match entry {
        BuildEntry::String(c) => BuildRequest {
            context: c.clone(),
            dockerfile: None,
            tag,
            args: None,
            target: None,
            network: None,
        },
        BuildEntry::Object(b) => BuildRequest {
            context: match &b.context {
                Some(c) => c.clone(),
                None => ".".to_owned(),
            },
            dockerfile: clone_opt(&b.dockerfile),
            tag,
            args: match &b.args {
                Some(a) => Some(a.to_map()),
                None => None,
            },
            target: clone_opt(&b.target),
            network: clone_opt(&b.network),
        },
    }
}

/// The image a service runs: its `image`, or `{service}-image`.
pub open spec fn spec_image_ref(svc: Service, service_name: Seq<char>) -> Seq<char> {
    match svc.image {
        Some(i) => i@,
        None => service_name + "-image"@,
    }
}

/// What is run for service `svc_name` of project `project`: its container
/// name, image, ports, environment, volumes, labels and command, each left
/// out when empty, and how to build the image when the service builds it.
pub fn run_request(svc: &Service, svc_name: &str, project: &str) -> (r: RunRequest)
    ensures
        r.container_name@ == match svc.name {
            Some(n) => n@,
            None => spec_generated_name(svc_name@, svc.spec_image_or(svc_name@)),
        },
        r.image@ == spec_image_ref(*svc, svc_name@),
        match svc.ports {
            Some(p) if p@.len() > 0 => r.ports is Some && r.ports->0@.len() == p@.len() && forall|i: int|
                0 <= i < p@.len() ==> #[trigger] r.ports->0@[i]@ == spec_port_string(p@[i]),
            _ => r.ports is None,
        },
        match svc.volumes {
            Some(v) if v@.len() > 0 => r.volumes is Some && r.volumes->0@.len() == v@.len() && forall|i: int|
                0 <= i < v@.len() ==> #[trigger] r.volumes->0@[i]@ == spec_volume_string(v@[i]),
            _ => r.volumes is None,
        },
        labels_ok(svc.environment, r.env),
        run_labels_ok(r.labels, opt_pairs(svc.labels), project@, svc_name@),
        match svc.command {
            Some(c) => r.cmd is Some && r.cmd->0@ == c.spec_list(),
            None => r.cmd is None,
        },
        match svc.build {
            Some(b) if svc.image is None => r.build is Some && r.build->0.tag@ == spec_image_ref(*svc, svc_name@),
            _ => r.build is None,
        },
        r.build matches Some(req) ==> svc.build matches Some(b) && match b {
            BuildEntry::String(c) => req.context@ == c@ && req.dockerfile is None && req.args is None,
            BuildEntry::Object(o) => req.dockerfile == o.dockerfile && req.target == o.target && req.network
                == o.network && req.context@ == match o.context {
                Some(c) => c@,
                None => "."@,
            },
        },
{
    let container_name = match svc.generate_name(svc_name) {
        Ok(n) => n,
        Err(_) => String::new(),
    };
    let image = svc.image_ref(svc_name);
    let ports_all = svc.port_strings();
    let ports = if ports_all.len() == 0 {
        None
    } else {
        Some(ports_all)
    };
    let vols_all = svc.volume_strings();
    let volumes = if vols_all.len() == 0 {
        None
    } else {
        Some(vols_all)
    };
    let env = labels_of(&svc.environment);
    let labels = container_labels(&svc.labels, project, svc_name);
    let cmd = match &svc.command {
        Some(c) => Some(c.to_list()),
        None => None,
    };
    let build = if svc.needs_build() {
        match &svc.build {
            Some(b) => Some(build_request(b, svc.image_ref(svc_name))),
            None => None,
        }
    } else {
        None
    };
    RunRequest { container_name, image, ports, env, volumes, labels, cmd, build }
}

// ============ what a status calls for ============

/// What `up` does with a service's container.
#[derive(Debug, Clone, Copy, PartialEq, Eq, Structural)]
pub enum UpStep {
    /// It is running: nothing to do.
    Keep,
    /// It exists but is stopped: start it.
    Start,
    /// There is none: build the image if needed and run one.
    Create,
}

/// The step `up` takes for a container in `status`.
pub fn up_step(status: ContainerStatus) -> (r: UpStep)
    ensures
        r == match status {
            ContainerStatus::Running => UpStep::Keep,
            ContainerStatus::Stopped => UpStep::Start,
            ContainerStatus::NotFound => UpStep::Create,
        },
{
    match status {
        ContainerStatus::Running => UpStep::Keep,
        ContainerStatus::Stopped => UpStep::Start,
        ContainerStatus::NotFound => UpStep::Create,
    }
}

/// What `down` does with a container in `status`: stop it when it runs,
/// remove it when it exists.
pub fn down_step(status: ContainerStatus) -> (r: (bool, bool))
    ensures
        r.0 == (status == ContainerStatus::Running),
        r.1 == (status != ContainerStatus::NotFound),
{
    (status.is_running(), status.is_present())
}

/// A command can be run in a service's container only while it runs;
/// otherwise the error names the container.
pub fn exec_gate(status: ContainerStatus, service: &str, container_name: &str) -> (r: Result<(), ComposeError>)
    ensures
        status == ContainerStatus::Running ==> r is Ok,
        status != ContainerStatus::Running ==> (r matches Err(ComposeError::ExecError { service: s, message: m })
            && s@ == service@ && m@ == "container '"@ + container_name@ + "' is not running"@),
{
    if status.is_running() {
        Ok(())
    } else {
        let mut message = "container '".to_owned();
        push_str(&mut message, container_name);
        push_str(&mut message, "' is not running");
        Err(ComposeError::ExecError { service: service.to_owned(), message })
    }
}

/// The error reported when a backend call for `service` fails with `cause`.
pub fn exec_error(service: &str, cause: &ComposeError) -> (r: ComposeError)
    ensures
        r matches ComposeError::ExecError { service: s, message: m } && s@ == service@ && (
        match *cause {
            ComposeError::NoBackendFound { .. } => crate::error::spec_message(*cause).is_prefix_of(m@),
            _ => m@ == crate::error::spec_message(*cause),
        }),
{
    ComposeError::ExecError { service: service.to_owned(), message: cause.to_string() }
}

/// The status of one service, as `ps` reports it.
#[derive(Debug, Clone)]
pub struct ServiceStatus {
    pub service_name: String,
    pub container_name: String,
    pub status: ContainerStatus,
}

/// The label under which a failure to create the network or volume `key`
/// is reported: `kind/key`.
pub fn resource_label(kind: &str, key: &str) -> (r: String)
    ensures
        r@ == kind@ + "/"@ + key@,
{
    let mut s = kind.to_owned();
    push_str(&mut s, "/");
    push_str(&mut s, key);
    s
}

} // verus!
