//! The sequence of `up`: networks, then volumes, then each service in start
//! order (build, name, inspect, start or run), as a step function from the
//! engine's state and the outcome of the last backend call to the next call
//! to make. The caller performs each call and reports how it went.

use vstd::prelude::*;
use crate::error::ComposeError;
use crate::types::{ComposeService, ComposeSpec, ComposeNetwork, ComposeVolume, ContainerInfo, ContainerSpec};
use crate::strmap::{StrMap, seq_get, seq_insert};
use crate::args::views;
use crate::orchestrate::env::last_value;
use crate::orchestrate::steps::{project_key, service_key};
use crate::service::{spec_generated, name_source, opt_text, is_name_shape};
use crate::compose::{
    labeled_for, find_labeled, resolve_container_name, with_compose_labels, container_spec_for, runs_as, start_action,
    StartAction, missing_external, missing_external_error, startup_failed, startup_failure, Session, RollbackPlan,
};

verus! {

// ============ single decisions ============

/// Whether `up` builds a service's image before running it: the service
/// builds its image (`build` and no `image`), and either a build was asked
/// for or the image is not present.
pub fn up_needs_build(svc: &ComposeService, build: bool, image_present: bool) -> (b: bool)
    ensures
        b == (svc.build is Some && svc.image is None && (build || !image_present)),
{
    svc.needs_build() && (build || !image_present)
}

/// Container `i` of `listed` is the first that carries the labels of
/// project `project` and service `service`.
pub open spec fn first_labeled_at(listed: Seq<ContainerInfo>, project: Seq<char>, service: Seq<char>, i: int) -> bool {
    &&& 0 <= i < listed.len()
    &&& labeled_for(listed[i], project, service)
    &&& forall|j: int| 0 <= j < i ==> !labeled_for(#[trigger] listed[j], project, service)
}

/// `r` is a name the service could get of its own: its `container_name`,
/// or a generated `{md5_8}-{random_hex8}` name.
pub open spec fn own_name(r: Seq<char>, svc: ComposeService, service: Seq<char>, rendered: Option<Seq<char>>) -> bool {
    match svc.container_name {
        Some(n) => r == n@,
        None => is_name_shape(r) && exists|x: u32| r == #[trigger] spec_generated(name_source(svc, service, rendered), x),
    }
}

/// `r` is the container name `up` settles on for service `service`: the
/// cached one; else the name of the first listed container labelled for the
/// project and the service; else a name of the service's own.
pub open spec fn chosen_name(
    r: Seq<char>,
    cached: Option<Seq<char>>,
    listed: Seq<ContainerInfo>,
    project: Seq<char>,
    service: Seq<char>,
    svc: ComposeService,
    rendered: Option<Seq<char>>,
) -> bool {
    match cached {
        Some(c) => r == c,
        None => if exists|i: int| first_labeled_at(listed, project, service, i) {
            exists|i: int| first_labeled_at(listed, project, service, i) && r == listed[i].name@
        } else {
            own_name(r, svc, service, rendered)
        },
    }
}

/// The container name `up` uses for service `service` of project `project`:
/// the cached name when there is one; else the name of the first listed
/// container labelled for the project and the service; else the service's
/// own name (see `resolve_container_name`).
pub fn up_container_name(
    cached: Option<String>,
    listed: &Vec<ContainerInfo>,
    project: &str,
    service: &str,
    svc: &ComposeService,
    rendered: Option<&str>,
) -> (r: String)
    ensures
        cached matches Some(c) ==> r == c,
        chosen_name(
            r@,
            match cached {
                Some(c) => Some(c@),
                None => None,
            },
            listed@,
            project@,
            service@,
            *svc,
            opt_text(rendered),
        ),
{
    match cached {
        Some(c) => c,
        None => match find_labeled(listed, project, service) {
            Some(i) => {
                let r = listed[i].name.clone();
                assert(first_labeled_at(listed@, project@, service@, i as int));
                r
            },
            None => {
                let r = resolve_container_name(None, Some(svc), service, rendered);
                assert(!exists|i: int| first_labeled_at(listed@, project@, service@, i));
                r
            },
        },
    }
}

// ============ what runs for a service ============

/// The label assignments a service's definition makes.
pub open spec fn label_pairs(svc: ComposeService) -> Seq<(Seq<char>, Seq<char>)> {
    match svc.labels {
        Some(l) => l.spec_pairs(),
        None => Seq::empty(),
    }
}

/// `l` holds the service's own labels, and the project and service labels
/// of project `project` and service `service` over them.
pub open spec fn compose_labels(l: StrMap<String>, svc: ComposeService, project: Seq<char>, service: Seq<char>) -> bool {
    &&& l.wf()
    &&& l.spec_get(project_key()) matches Some(p) && p@ == project
    &&& l.spec_get(service_key()) matches Some(s) && s@ == service
    &&& forall|k: Seq<char>|
        k != project_key() && k != service_key() ==> (#[trigger] l.spec_get(k) is Some <==> last_value(
            label_pairs(svc),
            k,
        ) is Some)
    &&& forall|k: Seq<char>|
        k != project_key() && k != service_key() && #[trigger] l.spec_get(k) is Some ==> l.spec_get(k)->0@
            == last_value(label_pairs(svc), k)->0
}

/// The labels of the container of service `service` of project `project`.
pub fn service_labels(svc: &ComposeService, project: &str, service: &str) -> (r: StrMap<String>)
    ensures
        compose_labels(r, *svc, project@, service@),
{
    let base = match &svc.labels {
        Some(l) => l.to_map(),
        None => {
            let m: StrMap<String> = StrMap::new();
            proof {
                assert forall|k: Seq<char>| #[trigger] m.spec_get(k) is None by {}
                assert forall|k: Seq<char>| #[trigger] last_value(label_pairs(*svc), k) is None by {}
            }
            m
        },
    };
    with_compose_labels(base, project, service)
}

/// `cs` runs service `svc` of project `project` (named `service`) under `name`.
pub open spec fn runs_service(cs: ContainerSpec, svc: ComposeService, name: String, project: Seq<char>, service: Seq<char>) -> bool {
    &&& runs_as(cs, svc, name)
    &&& cs.labels matches Some(l) && compose_labels(l, svc, project, service)
}

/// The container `up` runs for service `service` of project `project` under `name`.
pub fn service_run_spec(svc: &ComposeService, name: &String, project: &str, service: &str) -> (r: ContainerSpec)
    ensures
        runs_service(r, *svc, *name, project@, service@),
{
    container_spec_for(svc, name, service_labels(svc, project, service))
}

// ============ the sequence ============

/// Where `up` stands: which network, volume or target service it is at and
/// which backend call it waits on.
#[derive(Debug, Clone, Copy, PartialEq, Eq, Structural)]
pub enum UpStage {
    /// Nothing asked yet.
    Begin,
    /// Waits to learn whether network `i` exists.
    Network(usize),
    /// Waits for network `i` to be created.
    CreatingNetwork(usize),
    /// Waits to learn whether volume `i` exists.
    Volume(usize),
    /// Waits for volume `i` to be created.
    CreatingVolume(usize),
    /// Waits to learn whether the image of target `i` exists.
    CheckingImage(usize),
    /// Waits for the image of target `i` to be built.
    Building(usize),
    /// Waits for the list of all containers, to name target `i`.
    Listing(usize),
    /// Waits for the inspection of the container of target `i`.
    Inspecting(usize),
    /// Waits for the stopped container of target `i` to start.
    Starting(usize),
    /// Waits for a new container of target `i` to run.
    Running(usize),
    /// Every target is up.
    Finished,
    /// `up` failed.
    Stopped,
}

/// How the last backend call went.
pub enum UpEvent {
    /// The start of `up`.
    Begin,
    /// Whether the network, volume or image asked about exists.
    Present(bool),
    /// The creation, build or start succeeded.
    Done,
    /// The call failed.
    Failed(ComposeError),
    /// All containers, and the rendered definition of the service being named.
    Listed(Vec<ContainerInfo>, Option<String>),
    /// The status of the inspected container; none when the inspection failed.
    Status(Option<String>),
    /// The id of the container that was run.
    Ran(String),
}

/// The next thing `up` does.
pub enum UpAction {
    InspectNetwork(String),
    CreateNetwork(String),
    InspectVolume(String),
    CreateVolume(String),
    InspectImage(String),
    /// Build the image of the service (first) under the reference (second).
    Build(String, String),
    ListContainers,
    Inspect(String),
    Start(String),
    Run(ContainerSpec),
    /// Make the removals of the plan, then fail with the error.
    Rollback(RollbackPlan, ComposeError),
    Fail(ComposeError),
    /// Register the stack.
    Finish,
}

/// The state of one `up`: the document's networks, volumes and services,
/// the target services in start order (or the error ordering them gave),
/// where it stands, the container name of the current target, what the
/// session created, and the container names chosen per service.
pub struct UpState {
    pub project: String,
    pub build: bool,
    pub networks: StrMap<Option<ComposeNetwork>>,
    pub volumes: StrMap<Option<ComposeVolume>>,
    pub services: StrMap<ComposeService>,
    pub targets: Vec<String>,
    pub order_error: Option<ComposeError>,
    pub stage: UpStage,
    pub current: String,
    pub session: Session,
    pub names: StrMap<String>,
}

/// The name of target `i`.
pub open spec fn target(s: UpState, i: int) -> Seq<char> {
    s.targets@[i]@
}

/// The service of target `i`.
pub open spec fn service_at(s: UpState, i: int) -> Option<ComposeService> {
    seq_get(s.services@, target(s, i))
}

/// Network `i` is marked external.
pub open spec fn net_external(s: UpState, i: int) -> bool {
    s.networks@[i].1 matches Some(c) && c.external == Some(true)
}

/// Volume `i` is marked external.
pub open spec fn vol_external(s: UpState, i: int) -> bool {
    s.volumes@[i].1 matches Some(c) && c.external == Some(true)
}

/// The image a service runs: its `image`, or else its name.
pub open spec fn image_of(svc: ComposeService, name: Seq<char>) -> Seq<char> {
    match svc.image {
        Some(i) => i@,
        None => name,
    }
}

/// Once the image of target `i` is there: inspect its cached container, or
/// list the containers to name it.
pub open spec fn after_build(s: UpState, i: int) -> UpStage {
    if seq_get(s.names@, target(s, i)) is Some {
        UpStage::Inspecting(i as usize)
    } else {
        UpStage::Listing(i as usize)
    }
}

/// The first step for targets `i` on: targets that name no service are
/// passed over; a service that builds its image is built (with `build`) or
/// its image looked up; after the last target, `up` is finished.
pub open spec fn enter_service(s: UpState, i: int) -> UpStage
    decreases s.targets@.len() - i,
{
    if i < 0 || i >= s.targets@.len() {
        UpStage::Finished
    } else {
        match service_at(s, i) {
            None => enter_service(s, i + 1),
            Some(svc) => if svc.build is Some && svc.image is None {
                if s.build {
                    UpStage::Building(i as usize)
                } else {
                    UpStage::CheckingImage(i as usize)
                }
            } else {
                after_build(s, i)
            },
        }
    }
}

/// The first step for volumes `j` on; after the last, the services, unless
/// ordering them failed.
pub open spec fn enter_volume(s: UpState, j: int) -> UpStage {
    if 0 <= j < s.volumes@.len() {
        UpStage::Volume(j as usize)
    } else if s.order_error is Some {
        UpStage::Stopped
    } else {
        enter_service(s, 0)
    }
}

/// The first step for networks `i` on; after the last, the volumes.
pub open spec fn enter_network(s: UpState, i: int) -> UpStage {
    if 0 <= i < s.networks@.len() {
        UpStage::Network(i as usize)
    } else {
        enter_volume(s, 0)
    }
}

/// What is done with a container whose inspection gave `status`.
pub open spec fn status_action(status: Option<String>) -> StartAction {
    match status {
        Some(x) => if x@ == "running"@ {
            StartAction::Skip
        } else {
            StartAction::StartExisting
        },
        None => StartAction::Run,
    }
}

/// The events each stage waits for.
pub open spec fn expects(stage: UpStage, ev: UpEvent) -> bool {
    match stage {
        UpStage::Begin => ev is Begin,
        UpStage::Network(_) => ev is Present,
        UpStage::Volume(_) => ev is Present,
        UpStage::CheckingImage(_) => ev is Present,
        UpStage::CreatingNetwork(_) => ev is Done || ev is Failed,
        UpStage::CreatingVolume(_) => ev is Done || ev is Failed,
        UpStage::Building(_) => ev is Done || ev is Failed,
        UpStage::Starting(_) => ev is Done || ev is Failed,
        UpStage::Listing(_) => ev is Listed || ev is Failed,
        UpStage::Inspecting(_) => ev is Status,
        UpStage::Running(_) => ev is Ran || ev is Failed,
        UpStage::Finished => false,
        UpStage::Stopped => false,
    }
}

/// The stage after event `ev`: a missing network or volume is created
/// unless it is external (then `up` stops); a missing image is built; a
/// running container is left alone, a stopped one started and a missing one
/// run; a failed call stops `up`.
pub open spec fn next_stage(s: UpState, ev: UpEvent) -> UpStage {
    match s.stage {
        UpStage::Begin => enter_network(s, 0),
        UpStage::Network(i) => if ev == UpEvent::Present(true) {
            enter_network(s, i + 1)
        } else if net_external(s, i as int) {
            UpStage::Stopped
        } else {
            UpStage::CreatingNetwork(i)
        },
        UpStage::CreatingNetwork(i) => if ev is Done {
            enter_network(s, i + 1)
        } else {
            UpStage::Stopped
        },
        UpStage::Volume(j) => if ev == UpEvent::Present(true) {
            enter_volume(s, j + 1)
        } else if vol_external(s, j as int) {
            UpStage::Stopped
        } else {
            UpStage::CreatingVolume(j)
        },
        UpStage::CreatingVolume(j) => if ev is Done {
            enter_volume(s, j + 1)
        } else {
            UpStage::Stopped
        },
        UpStage::CheckingImage(i) => if ev == UpEvent::Present(true) {
            after_build(s, i as int)
        } else {
            UpStage::Building(i)
        },
        UpStage::Building(i) => if ev is Done {
            after_build(s, i as int)
        } else {
            UpStage::Stopped
        },
        UpStage::Listing(i) => if ev is Listed {
            UpStage::Inspecting(i)
        } else {
            UpStage::Stopped
        },
        UpStage::Inspecting(i) => match ev {
            UpEvent::Status(st) => match status_action(st) {
                StartAction::Skip => enter_service(s, i + 1),
                StartAction::StartExisting => UpStage::Starting(i),
                StartAction::Run => UpStage::Running(i),
            },
            _ => UpStage::Stopped,
        },
        UpStage::Starting(i) => if ev is Done {
            enter_service(s, i + 1)
        } else {
            UpStage::Stopped
        },
        UpStage::Running(i) => if ev is Ran {
            enter_service(s, i + 1)
        } else {
            UpStage::Stopped
        },
        UpStage::Finished => UpStage::Finished,
        UpStage::Stopped => UpStage::Stopped,
    }
}

/// The call a stage makes.
pub open spec fn asks(t: UpState, a: UpAction) -> bool {
    match t.stage {
        UpStage::Network(i) => a matches UpAction::InspectNetwork(n) && n@ == t.networks@[i as int].0,
        UpStage::CreatingNetwork(i) => a matches UpAction::CreateNetwork(n) && n@ == t.networks@[i as int].0,
        UpStage::Volume(j) => a matches UpAction::InspectVolume(n) && n@ == t.volumes@[j as int].0,
        UpStage::CreatingVolume(j) => a matches UpAction::CreateVolume(n) && n@ == t.volumes@[j as int].0,
        UpStage::CheckingImage(i) => a matches UpAction::InspectImage(r) && service_at(t, i as int) matches Some(svc)
            && r@ == image_of(svc, target(t, i as int)),
        UpStage::Building(i) => a matches UpAction::Build(n, r) && n@ == target(t, i as int) && (service_at(
            t,
            i as int,
        ) matches Some(svc) && r@ == image_of(svc, target(t, i as int))),
        UpStage::Listing(_) => a is ListContainers,
        UpStage::Inspecting(_) => a matches UpAction::Inspect(n) && n == t.current,
        UpStage::Starting(_) => a matches UpAction::Start(n) && n == t.current,
        UpStage::Running(i) => a matches UpAction::Run(cs) && service_at(t, i as int) matches Some(svc) && runs_service(
            cs,
            svc,
            t.current,
            t.project@,
            target(t, i as int),
        ),
        UpStage::Finished => a is Finish,
        UpStage::Begin => false,
        UpStage::Stopped => false,
    }
}

/// How `up` fails: a failed container run rolls the session back, newest
/// first, and reports the service; another failed call is reported as it
/// is; a missing external network or volume is reported by name; otherwise
/// the error ordering the services gave is reported.
pub open spec fn stopped_with(s: UpState, ev: UpEvent, a: UpAction) -> bool {
    match ev {
        UpEvent::Failed(e) => match s.stage {
            UpStage::Running(i) => a matches UpAction::Rollback(plan, err) && plan.containers@
                == s.session.containers@.reverse() && plan.networks@ == s.session.networks@.reverse()
                && plan.volumes@ == s.session.volumes@.reverse() && startup_failure(err, target(s, i as int), e),
            _ => a == UpAction::Fail(e),
        },
        UpEvent::Present(false) => match s.stage {
            UpStage::Network(i) => a matches UpAction::Fail(e) && missing_external_error(
                e,
                "network"@,
                s.networks@[i as int].0,
            ),
            UpStage::Volume(j) => a matches UpAction::Fail(e) && missing_external_error(
                e,
                "volume"@,
                s.volumes@[j as int].0,
            ),
            _ => false,
        },
        _ => s.order_error matches Some(e) && a == UpAction::Fail(e),
    }
}

/// The parts of the state that `up` does not change.
pub open spec fn kept_plan(s: UpState, t: UpState) -> bool {
    &&& t.project == s.project
    &&& t.build == s.build
    &&& t.networks == s.networks
    &&& t.volumes == s.volumes
    &&& t.services == s.services
    &&& t.targets == s.targets
}

/// What the session records: a created network or volume, a run container;
/// a failed run empties it.
pub open spec fn session_after(s: UpState, ev: UpEvent, t: UpState) -> bool {
    match s.stage {
        UpStage::CreatingNetwork(i) => match ev {
            UpEvent::Done => views(t.session.networks@) == views(s.session.networks@).push(s.networks@[i as int].0)
                && t.session.containers@ == s.session.containers@ && t.session.volumes@ == s.session.volumes@,
            _ => t.session == s.session,
        },
        UpStage::CreatingVolume(j) => match ev {
            UpEvent::Done => views(t.session.volumes@) == views(s.session.volumes@).push(s.volumes@[j as int].0)
                && t.session.containers@ == s.session.containers@ && t.session.networks@ == s.session.networks@,
            _ => t.session == s.session,
        },
        UpStage::Running(_) => match ev {
            UpEvent::Ran(id) => t.session.containers@ == s.session.containers@.push(id) && t.session.networks@
                == s.session.networks@ && t.session.volumes@ == s.session.volumes@,
            UpEvent::Failed(_) => t.session.containers@.len() == 0 && t.session.networks@.len() == 0
                && t.session.volumes@.len() == 0,
            _ => t.session == s.session,
        },
        _ => t.session == s.session,
    }
}

/// The text of an optional string.
pub open spec fn opt_string(o: Option<String>) -> Option<Seq<char>> {
    match o {
        Some(t) => Some(t@),
        None => None,
    }
}

/// The container names `up` records: the one it settles on for the target
/// it lists the containers for.
pub open spec fn named_after(s: UpState, ev: UpEvent, t: UpState) -> bool {
    match s.stage {
        UpStage::Listing(i) => match ev {
            UpEvent::Listed(c, r) => service_at(s, i as int) matches Some(svc) && chosen_name(
                t.current@,
                None,
                c@,
                s.project@,
                target(s, i as int),
                svc,
                opt_string(r),
            ) && t.names@ == seq_insert(s.names@, target(s, i as int), t.current),
            _ => t.names == s.names,
        },
        _ => t.names == s.names,
    }
}

/// The stage reached by entering `stage`: the call it makes, or, when
/// ordering the services failed, that error; the cached name of a target
/// about to be inspected.
pub open spec fn entered(s: UpState, stage: UpStage, t: UpState, a: UpAction) -> bool {
    &&& kept_plan(s, t)
    &&& t.session == s.session
    &&& t.names == s.names
    &&& t.stage == stage
    &&& t.wf()
    &&& t.stage !is Stopped ==> asks(t, a) && t.order_error == s.order_error
    &&& t.stage is Stopped ==> (s.order_error matches Some(e) && a == UpAction::Fail(e))
    &&& t.stage matches UpStage::Inspecting(i) ==> seq_get(t.names@, target(t, i as int)) == Some(t.current)
    &&& !(t.stage is Inspecting) ==> t.current == s.current
}

impl UpState {
    /// Stage indices are in range, and a target being worked on names a service.
    pub open spec fn wf(&self) -> bool {
        match self.stage {
            UpStage::Network(i) => i < self.networks@.len(),
            UpStage::CreatingNetwork(i) => i < self.networks@.len(),
            UpStage::Volume(j) => j < self.volumes@.len(),
            UpStage::CreatingVolume(j) => j < self.volumes@.len(),
            UpStage::CheckingImage(i) => self.serves(i),
            UpStage::Building(i) => self.serves(i),
            UpStage::Listing(i) => self.serves(i),
            UpStage::Inspecting(i) => self.serves(i),
            UpStage::Starting(i) => self.serves(i),
            UpStage::Running(i) => self.serves(i),
            _ => true,
        }
    }

    /// Target `i` exists and names a service.
    pub open spec fn serves(&self, i: usize) -> bool {
        i < self.targets@.len() && service_at(*self, i as int) is Some
    }

    /// The state at the start of `up` on document `spec` for project
    /// `project`, with the target services in start order (or the error
    /// ordering them gave), whether images are built, the engine's session
    /// and its container names.
    pub fn new(
        spec: ComposeSpec,
        project: String,
        targets: Result<Vec<String>, ComposeError>,
        build: bool,
        session: Session,
        names: StrMap<String>,
    ) -> (r: UpState)
        ensures
            r.wf(),
            r.project == project,
            r.build == build,
            r.networks@ == match spec.networks {
                Some(m) => m@,
                None => Seq::empty(),
            },
            r.volumes@ == match spec.volumes {
                Some(m) => m@,
                None => Seq::empty(),
            },
            r.services == spec.services,
            match targets {
                Ok(t) => r.targets == t && r.order_error is None,
                Err(e) => r.targets@.len() == 0 && r.order_error == Some(e),
            },
            r.stage == UpStage::Begin,
            r.current@ == Seq::<char>::empty(),
            r.session == session,
            r.names == names,
    {
        let networks = match spec.networks {
            Some(m) => m,
            None => StrMap::new(),
        };
        let volumes = match spec.volumes {
            Some(m) => m,
            None => StrMap::new(),
        };
        let (targets, order_error) = match targets {
            Ok(t) => (t, None),
            Err(e) => (Vec::new(), Some(e)),
        };
        UpState {
            project,
            build,
            networks,
            volumes,
            services: spec.services,
            targets,
            order_error,
            stage: UpStage::Begin,
            current: String::new(),
            session,
            names,
        }
    }
}

/// The first target from `i` on that names a service, or the end.
fn first_defined(services: &StrMap<ComposeService>, targets: &Vec<String>, i: usize) -> (k: usize)
    requires
        i <= targets@.len(),
    ensures
        i <= k <= targets@.len(),
        k < targets@.len() ==> seq_get(services@, targets@[k as int]@) is Some,
        forall|j: int| i <= j < k ==> seq_get(services@, #[trigger] targets@[j]@) is None,
{
    let mut k = i;
    while k < targets.len()
        invariant
            i <= k <= targets@.len(),
            forall|j: int| i <= j < k ==> seq_get(services@, #[trigger] targets@[j]@) is None,
        decreases targets@.len() - k,
    {
        if services.get(targets[k].as_str()).is_some() {
            return k;
        }
        k = k + 1;
    }
    k
}

proof fn lemma_enter_skip(s: UpState, i: int, k: int)
    requires
        0 <= i <= k <= s.targets@.len(),
        forall|j: int| i <= j < k ==> service_at(s, j) is None,
    ensures
        enter_service(s, i) == enter_service(s, k),
    decreases k - i,
{
    if i < k {
        lemma_enter_skip(s, i + 1, k);
    }
}

proof fn lemma_service_same(s: UpState, t: UpState, i: int)
    requires
        kept_plan(s, t),
        s.names == t.names,
    ensures
        enter_service(s, i) == enter_service(t, i),
    decreases s.targets@.len() - i,
{
    if 0 <= i < s.targets@.len() {
        lemma_service_same(s, t, i + 1);
    }
}

/// The steps entered from two states that differ only in what the session
/// recorded and in the current name are the same.
proof fn lemma_enter_same(s: UpState, t: UpState, i: int)
    requires
        kept_plan(s, t),
        s.names == t.names,
        s.order_error == t.order_error,
    ensures
        enter_service(s, i) == enter_service(t, i),
        enter_volume(s, i) == enter_volume(t, i),
        enter_network(s, i) == enter_network(t, i),
{
    lemma_service_same(s, t, i);
    lemma_service_same(s, t, 0);
}

impl UpState {
    /// Moves to the step after the image of target `i` is settled.
    fn go_after_build(&mut self, i: usize) -> (a: UpAction)
        requires
            old(self).serves(i),
        ensures
            entered(*old(self), after_build(*old(self), i as int), *final(self), a),
    {
        let cached = match self.names.get(self.targets[i].as_str()) {
            Some(n) => Some(n.clone()),
            None => None,
        };
        match cached {
            Some(n) => {
                self.current = n;
                self.stage = UpStage::Inspecting(i);
                UpAction::Inspect(self.current.clone())
            },
            None => {
                self.stage = UpStage::Listing(i);
                UpAction::ListContainers
            },
        }
    }

    /// Moves to the first step for targets `i` on.
    fn go_service(&mut self, i: usize) -> (a: UpAction)
        requires
            i <= old(self).targets@.len(),
        ensures
            entered(*old(self), enter_service(*old(self), i as int), *final(self), a),
    {
        let k = first_defined(&self.services, &self.targets, i);
        proof {
            lemma_enter_skip(*self, i as int, k as int);
        }
        if k >= self.targets.len() {
            self.stage = UpStage::Finished;
            return UpAction::Finish;
        }
        let (needs, image) = match self.services.get(self.targets[k].as_str()) {
            Some(svc) => (svc.needs_build(), svc.image_ref(self.targets[k].as_str())),
            None => (false, String::new()),
        };
        if needs {
            if self.build {
                let n = self.targets[k].clone();
                self.stage = UpStage::Building(k);
                UpAction::Build(n, image)
            } else {
                self.stage = UpStage::CheckingImage(k);
                UpAction::InspectImage(image)
            }
        } else {
            self.go_after_build(k)
        }
    }

    /// Moves to the first step for volumes `j` on.
    fn go_volume(&mut self, j: usize) -> (a: UpAction)
        requires
            j <= old(self).volumes@.len(),
        ensures
            entered(*old(self), enter_volume(*old(self), j as int), *final(self), a),
    {
        if j < self.volumes.len() {
            let n = self.volumes.key_at(j).clone();
            self.stage = UpStage::Volume(j);
            return UpAction::InspectVolume(n);
        }
        match self.order_error.take() {
            Some(e) => {
                self.stage = UpStage::Stopped;
                UpAction::Fail(e)
            },
            None => self.go_service(0),
        }
    }

    /// Moves to the first step for networks `i` on.
    fn go_network(&mut self, i: usize) -> (a: UpAction)
        requires
            i <= old(self).networks@.len(),
        ensures
            entered(*old(self), enter_network(*old(self), i as int), *final(self), a),
    {
        if i < self.networks.len() {
            let n = self.networks.key_at(i).clone();
            self.stage = UpStage::Network(i);
            return UpAction::InspectNetwork(n);
        }
        self.go_volume(0)
    }
}

/// One step of `up`: from where it stands and how the last backend call
/// went, the next call to make. Networks are looked at in document order: an
/// existing one is kept, a missing external one stops `up`, a missing other
/// one is created and recorded; volumes likewise. Then, unless ordering the
/// services failed, each target in start order: a service that builds its
/// image is built when asked to or when its image is missing; its container
/// name is the cached one, else the name of an existing container labelled
/// for the project and service, else its own name, and is then cached; a
/// running container is left alone, a stopped one started, a missing one run
/// and recorded. A failed run rolls back what the session created, newest
/// first, and reports the service; any other failed call stops `up` with its
/// error.
pub fn up_next(state: &mut UpState, event: UpEvent) -> (a: UpAction)
    requires
        old(state).wf(),
        expects(old(state).stage, event),
    ensures
        final(state).wf(),
        kept_plan(*old(state), *final(state)),
        final(state).stage == next_stage(*old(state), event),
        final(state).stage !is Stopped ==> asks(*final(state), a) && final(state).order_error == old(state).order_error,
        final(state).stage is Stopped ==> stopped_with(*old(state), event, a),
        final(state).stage matches UpStage::Inspecting(i) ==> seq_get(final(state).names@, target(*final(state), i as int))
            == Some(final(state).current),
        !(final(state).stage is Inspecting) ==> final(state).current == old(state).current,
        named_after(*old(state), event, *final(state)),
        session_after(*old(state), event, *final(state)),
{
    let ghost s0 = *state;
    match state.stage {
        UpStage::Begin => state.go_network(0),
        UpStage::Network(i) => {
            let present = match event {
                UpEvent::Present(p) => p,
                _ => false,
            };
            if present {
                let _ = state.networks.len();
                state.go_network(i + 1)
            } else {
                let external = match state.networks.value_at(i) {
                    Some(c) => c.external == Some(true),
                    None => false,
                };
                if external {
                    let e = missing_external("network", state.networks.key_at(i).as_str());
                    state.stage = UpStage::Stopped;
                    UpAction::Fail(e)
                } else {
                    let n = state.networks.key_at(i).clone();
                    state.stage = UpStage::CreatingNetwork(i);
                    UpAction::CreateNetwork(n)
                }
            }
        },
        UpStage::CreatingNetwork(i) => match event {
            UpEvent::Failed(e) => {
                state.stage = UpStage::Stopped;
                UpAction::Fail(e)
            },
            _ => {
                let _ = state.networks.len();
                let n = state.networks.key_at(i).clone();
                state.session.record_network(n);
                proof {
                    lemma_enter_same(s0, *state, i + 1);
                    assert(views(state.session.networks@) =~= views(s0.session.networks@).push(s0.networks@[i as int].0));
                }
                state.go_network(i + 1)
            },
        },
        UpStage::Volume(j) => {
            let present = match event {
                UpEvent::Present(p) => p,
                _ => false,
            };
            if present {
                let _ = state.volumes.len();
                state.go_volume(j + 1)
            } else {
                let external = match state.volumes.value_at(j) {
                    Some(c) => c.external == Some(true),
                    None => false,
                };
                if external {
                    let e = missing_external("volume", state.volumes.key_at(j).as_str());
                    state.stage = UpStage::Stopped;
                    UpAction::Fail(e)
                } else {
                    let n = state.volumes.key_at(j).clone();
                    state.stage = UpStage::CreatingVolume(j);
                    UpAction::CreateVolume(n)
                }
            }
        },
        UpStage::CreatingVolume(j) => match event {
            UpEvent::Failed(e) => {
                state.stage = UpStage::Stopped;
                UpAction::Fail(e)
            },
            _ => {
                let _ = state.volumes.len();
                let n = state.volumes.key_at(j).clone();
                state.session.record_volume(n);
                proof {
                    lemma_enter_same(s0, *state, j + 1);
                    assert(views(state.session.volumes@) =~= views(s0.session.volumes@).push(s0.volumes@[j as int].0));
                }
                state.go_volume(j + 1)
            },
        },
        UpStage::CheckingImage(i) => {
            let present = match event {
                UpEvent::Present(p) => p,
                _ => false,
            };
            if present {
                state.go_after_build(i)
            } else {
                let image = match state.services.get(state.targets[i].as_str()) {
                    Some(svc) => svc.image_ref(state.targets[i].as_str()),
                    None => String::new(),
                };
                let n = state.targets[i].clone();
                state.stage = UpStage::Building(i);
                UpAction::Build(n, image)
            }
        },
        UpStage::Building(i) => match event {
            UpEvent::Failed(e) => {
                state.stage = UpStage::Stopped;
                UpAction::Fail(e)
            },
            _ => state.go_after_build(i),
        },
        UpStage::Listing(i) => match event {
            UpEvent::Listed(listed, rendered) => {
                let name = match state.services.get(state.targets[i].as_str()) {
                    Some(svc) => match &rendered {
                        Some(r) => up_container_name(
                            None,
                            &listed,
                            state.project.as_str(),
                            state.targets[i].as_str(),
                            svc,
                            Some(r.as_str()),
                        ),
                        None => up_container_name(None, &listed, state.project.as_str(), state.targets[i].as_str(), svc, None),
                    },
                    None => String::new(),
                };
                let key = state.targets[i].clone();
                state.names.insert(key, name.clone());
                state.current = name;
                state.stage = UpStage::Inspecting(i);
                UpAction::Inspect(state.current.clone())
            },
            UpEvent::Failed(e) => {
                state.stage = UpStage::Stopped;
                UpAction::Fail(e)
            },
            _ => {
                state.stage = UpStage::Stopped;
                UpAction::Finish
            },
        },
        UpStage::Inspecting(i) => match event {
            UpEvent::Status(st) => {
                let act = match &st {
                    Some(x) => start_action(Some(x.as_str())),
                    None => start_action(None),
                };
                match act {
                    StartAction::Skip => {
                        let _ = state.targets.len();
                        state.go_service(i + 1)
                    },
                    StartAction::StartExisting => {
                        state.stage = UpStage::Starting(i);
                        UpAction::Start(state.current.clone())
                    },
                    StartAction::Run => {
                        let cs = match state.services.get(state.targets[i].as_str()) {
                            Some(svc) => service_run_spec(svc, &state.current, state.project.as_str(), state.targets[i].as_str()),
                            None => {
                                state.stage = UpStage::Stopped;
                                return UpAction::Finish;
                            },
                        };
                        state.stage = UpStage::Running(i);
                        UpAction::Run(cs)
                    },
                }
            },
            _ => {
                state.stage = UpStage::Stopped;
                UpAction::Finish
            },
        },
        UpStage::Starting(i) => match event {
            UpEvent::Failed(e) => {
                state.stage = UpStage::Stopped;
                UpAction::Fail(e)
            },
            _ => {
                let _ = state.targets.len();
                state.go_service(i + 1)
            },
        },
        UpStage::Running(i) => match event {
            UpEvent::Ran(id) => {
                let _ = state.targets.len();
                state.session.record_container(id);
                proof {
                    lemma_enter_same(s0, *state, i + 1);
                }
                state.go_service(i + 1)
            },
            UpEvent::Failed(e) => {
                let plan = state.session.rollback();
                let err = startup_failed(state.targets[i].as_str(), &e);
                state.stage = UpStage::Stopped;
                UpAction::Rollback(plan, err)
            },
            _ => {
                state.stage = UpStage::Stopped;
                UpAction::Finish
            },
        },
        UpStage::Finished => UpAction::Finish,
        UpStage::Stopped => UpAction::Finish,
    }
}

// ============ laws ============

/// A stage that neither creates, builds, starts nor runs anything.
pub open spec fn quiet(stage: UpStage) -> bool {
    !(stage is CreatingNetwork || stage is CreatingVolume || stage is Building || stage is Starting
        || stage is Running)
}

proof fn lemma_enter_service_quiet(s: UpState, i: int)
    requires
        !s.build,
    ensures
        quiet(enter_service(s, i)),
    decreases s.targets@.len() - i,
{
    if 0 <= i < s.targets@.len() {
        lemma_enter_service_quiet(s, i + 1);
    }
}

/// A second `up` of a stack that is up changes nothing: when builds are not
/// forced, and every network, volume and image `up` asks about exists and
/// every container it inspects is running, each step from a quiet stage
/// (`Begin` is one) leads to a quiet stage, so `up` creates, builds, starts
/// and runs nothing.
pub proof fn lemma_up_on_running_stack(s: UpState, ev: UpEvent)
    requires
        !s.build,
        quiet(s.stage),
        expects(s.stage, ev),
        ev is Present ==> ev == UpEvent::Present(true),
        ev matches UpEvent::Status(st) ==> (st matches Some(x) && x@ == "running"@),
    ensures
        quiet(next_stage(s, ev)),
{
    lemma_enter_service_quiet(s, 0);
    match s.stage {
        UpStage::Inspecting(i) => {
            lemma_enter_service_quiet(s, i + 1);
        },
        _ => {},
    }
}

/// A failed run undoes exactly what the session created, newest first: the
/// plan handed out lists the session's containers, networks and volumes in
/// reverse creation order, and the session is left empty.
pub proof fn lemma_failed_run_rolls_back(s: UpState, e: ComposeError, t: UpState, a: UpAction)
    requires
        s.stage is Running,
        t.stage == next_stage(s, UpEvent::Failed(e)),
        stopped_with(s, UpEvent::Failed(e), a),
        session_after(s, UpEvent::Failed(e), t),
    ensures
        t.stage is Stopped,
        a matches UpAction::Rollback(plan, _) && plan.containers@ == s.session.containers@.reverse()
            && plan.networks@ == s.session.networks@.reverse() && plan.volumes@ == s.session.volumes@.reverse(),
        t.session.containers@.len() == 0 && t.session.networks@.len() == 0 && t.session.volumes@.len() == 0,
{
}

/// Services come up in start order: from target `i` a step only ever moves
/// on to a later target, never back to an earlier one.
pub proof fn lemma_targets_in_order(s: UpState, ev: UpEvent, i: int, k: int)
    requires
        s.targets@.len() <= usize::MAX,
        target_index(s.stage) == Some(i),
        target_index(next_stage(s, ev)) == Some(k),
    ensures
        i <= k,
{
    match s.stage {
        UpStage::Inspecting(j) => lemma_enter_service_from(s, j + 1),
        UpStage::Starting(j) => lemma_enter_service_from(s, j + 1),
        UpStage::Running(j) => lemma_enter_service_from(s, j + 1),
        _ => {},
    }
}

/// The target a stage works on, if any.
pub open spec fn target_index(stage: UpStage) -> Option<int> {
    match stage {
        UpStage::CheckingImage(i) => Some(i as int),
        UpStage::Building(i) => Some(i as int),
        UpStage::Listing(i) => Some(i as int),
        UpStage::Inspecting(i) => Some(i as int),
        UpStage::Starting(i) => Some(i as int),
        UpStage::Running(i) => Some(i as int),
        _ => None,
    }
}

proof fn lemma_enter_service_from(s: UpState, i: int)
    requires
        s.targets@.len() <= usize::MAX,
    ensures
        target_index(enter_service(s, i)) matches Some(k) ==> i <= k,
    decreases s.targets@.len() - i,
{
    if 0 <= i < s.targets@.len() {
        lemma_enter_service_from(s, i + 1);
    }
}


/// `up` names a service once: when its container name is cached, reaching
/// the service goes straight to inspecting that container, with no listing
/// and no new name.
pub proof fn lemma_cached_name_reused(s: UpState, i: int)
    requires
        0 <= i < s.targets@.len(),
        seq_get(s.names@, target(s, i)) is Some,
    ensures
        after_build(s, i) == UpStage::Inspecting(i as usize),
{
}

} // verus!
