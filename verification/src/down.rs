//! The sequence of `down`: undo what the session created, then remove the
//! containers of each target service in reverse start order, then the
//! networks and (when asked) the volumes of the document. Removals are made
//! whatever they give; only listing the containers can fail.

use vstd::prelude::*;
use crate::error::ComposeError;
use crate::types::{ComposeService, ComposeSpec, ComposeNetwork, ComposeVolume, ContainerInfo};
use crate::strmap::{StrMap, seq_get};
use crate::args::views;
use crate::orchestrate::steps::reversed;
use crate::up::opt_string;
use crate::compose::{
    containers_of_service, labeled_ids, resolve_container_name, resolved_as, non_external_networks,
    non_external_volumes, non_external_network_names, non_external_volume_names, Session, RollbackPlan,
};

verus! {

/// Where `down` stands.
#[derive(Debug, Clone, Copy, PartialEq, Eq, Structural)]
pub enum DownStage {
    /// Nothing asked yet.
    Begin,
    /// The session's creations are being removed.
    Clearing,
    /// Waits for the list of all containers, for target `i`.
    Listing(usize),
    /// The containers of target `i` are being removed.
    Removing(usize),
    /// The networks and volumes are being removed.
    Releasing,
    /// Everything asked for is removed.
    Finished,
    /// `down` failed.
    Stopped,
}

/// How the last backend call went.
pub enum DownEvent {
    /// The start of `down`.
    Begin,
    /// The removals asked for were made (whether or not each succeeded).
    Done,
    /// Listing the containers failed.
    Failed(ComposeError),
    /// All containers, and the rendered definition of the current target.
    Listed(Vec<ContainerInfo>, Option<String>),
}

/// The next thing `down` does.
pub enum DownAction {
    /// Remove what the plan lists: containers, then networks, then volumes.
    Teardown(RollbackPlan),
    ListContainers,
    /// Stop and remove these containers.
    RemoveContainers(Vec<String>),
    /// Remove these networks, then these volumes.
    RemoveResources(Vec<String>, Vec<String>),
    Fail(ComposeError),
    Finish,
}

/// The state of one `down`: the document's networks, volumes and services,
/// the target services in reverse start order (or the error ordering them
/// gave), whether volumes go too, where it stands, the engine's session and
/// its container names.
pub struct DownState {
    pub project: String,
    pub remove_volumes: bool,
    pub networks: StrMap<Option<ComposeNetwork>>,
    pub volumes: StrMap<Option<ComposeVolume>>,
    pub services: StrMap<ComposeService>,
    pub targets: Vec<String>,
    pub order_error: Option<ComposeError>,
    pub stage: DownStage,
    pub session: Session,
    pub names: StrMap<String>,
}

/// The name of target `i` (in removal order).
pub open spec fn down_target(s: DownState, i: int) -> Seq<char> {
    s.targets@[i]@
}

/// The step for targets `i` on: list the containers for target `i`, or,
/// after the last, remove the networks and volumes.
pub open spec fn enter_down(s: DownState, i: int) -> DownStage {
    if 0 <= i < s.targets@.len() {
        DownStage::Listing(i as usize)
    } else {
        DownStage::Releasing
    }
}

/// The events each stage waits for: a removal stage takes any outcome.
pub open spec fn down_expects(stage: DownStage, ev: DownEvent) -> bool {
    match stage {
        DownStage::Begin => ev is Begin,
        DownStage::Listing(_) => ev is Listed || ev is Failed,
        DownStage::Clearing => true,
        DownStage::Removing(_) => true,
        DownStage::Releasing => true,
        DownStage::Finished => false,
        DownStage::Stopped => false,
    }
}

/// The stage after event `ev`. What a removal gave does not matter.
pub open spec fn next_down(s: DownState, ev: DownEvent) -> DownStage {
    match s.stage {
        DownStage::Begin => DownStage::Clearing,
        DownStage::Clearing => if s.order_error is Some {
            DownStage::Stopped
        } else {
            enter_down(s, 0)
        },
        DownStage::Listing(i) => if ev is Listed {
            DownStage::Removing(i)
        } else {
            DownStage::Stopped
        },
        DownStage::Removing(i) => enter_down(s, i + 1),
        DownStage::Releasing => DownStage::Finished,
        DownStage::Finished => DownStage::Finished,
        DownStage::Stopped => DownStage::Stopped,
    }
}

/// The containers removed for target `i` given the listing `c`: those
/// labelled for the project and the service, in listing order, then the
/// service's own container name.
pub open spec fn service_removals(s: DownState, i: int, c: Seq<ContainerInfo>, r: Option<Seq<char>>, ids: Seq<String>) -> bool {
    let found = labeled_ids(c, s.project@, down_target(s, i));
    &&& ids.len() == found.len() + 1
    &&& views(ids).take(found.len() as int) == found
    &&& resolved_as(
        ids.last()@,
        match seq_get(s.names@, down_target(s, i)) {
            Some(n) => Some(n@),
            None => None,
        },
        seq_get(s.services@, down_target(s, i)),
        down_target(s, i),
        r,
    )
}

/// The call a step makes, from the state before it, its event and the stage reached.
pub open spec fn down_asks(s: DownState, ev: DownEvent, stage: DownStage, a: DownAction) -> bool {
    match stage {
        DownStage::Clearing => a matches DownAction::Teardown(plan) && plan.containers@ == s.session.containers@.reverse()
            && plan.networks@ == s.session.networks@.reverse() && plan.volumes@ == if s.remove_volumes {
            s.session.volumes@.reverse()
        } else {
            Seq::empty()
        },
        DownStage::Listing(_) => a is ListContainers,
        DownStage::Removing(i) => a matches DownAction::RemoveContainers(ids) && (ev matches DownEvent::Listed(c, r)
            && service_removals(s, i as int, c@, opt_string(r), ids@)),
        DownStage::Releasing => a matches DownAction::RemoveResources(ns, vs) && views(ns@) == non_external_networks(
            s.networks@,
        ) && views(vs@) == if s.remove_volumes {
            non_external_volumes(s.volumes@)
        } else {
            Seq::empty()
        },
        DownStage::Finished => a is Finish,
        DownStage::Stopped => if s.stage is Listing {
            ev matches DownEvent::Failed(e) && a == DownAction::Fail(e)
        } else {
            s.order_error matches Some(e) && a == DownAction::Fail(e)
        },
        DownStage::Begin => false,
    }
}

impl DownState {
    /// Stage indices are in range.
    pub open spec fn wf(&self) -> bool {
        match self.stage {
            DownStage::Listing(i) => i < self.targets@.len(),
            DownStage::Removing(i) => i < self.targets@.len(),
            _ => true,
        }
    }

    /// The state at the start of `down` on document `spec` for project
    /// `project`, with the target services in start order (or the error
    /// ordering them gave), whether volumes are removed, the engine's
    /// session and its container names.
    pub fn new(
        spec: ComposeSpec,
        project: String,
        targets: Result<Vec<String>, ComposeError>,
        remove_volumes: bool,
        session: Session,
        names: StrMap<String>,
    ) -> (r: DownState)
        ensures
            r.wf(),
            r.project == project,
            r.remove_volumes == remove_volumes,
            r.networks@ == match spec.networks {
                Some(m) => m@,
                None => Seq::empty(),
            },
            r.volumes@ == match spec.volumes {
                Some(m) => m@,
                None => Seq::empty(),
            },
            r.services == spec.services,
            match targets {
                Ok(t) => views(r.targets@) == views(t@).reverse() && r.order_error is None,
                Err(e) => r.targets@.len() == 0 && r.order_error == Some(e),
            },
            r.stage == DownStage::Begin,
            r.session == session,
            r.names == names,
    {
        let networks = match spec.networks {
            Some(m) => m,
            None => StrMap::new(),
        };
        let volumes = match spec.volumes {
            Some(m) => m,
            None => StrMap::new(),
        };
        let (targets, order_error) = match targets {
            Ok(t) => {
                let r = reversed(&t);
                assert(views(r@) =~= views(t@).reverse());
                (r, None)
            },
            Err(e) => (Vec::new(), Some(e)),
        };
        DownState {
            project,
            remove_volumes,
            networks,
            volumes,
            services: spec.services,
            targets,
            order_error,
            stage: DownStage::Begin,
            session,
            names,
        }
    }

    /// Moves to the step for targets `i` on.
    fn go_target(&mut self, i: usize) -> (a: DownAction)
        requires
            i <= old(self).targets@.len(),
        ensures
            final(self).stage == enter_down(*old(self), i as int),
            final(self).wf(),
            final(self).stage is Listing ==> a is ListContainers,
            final(self).stage is Releasing ==> (a matches DownAction::RemoveResources(ns, vs) && views(ns@)
                == non_external_networks(old(self).networks@) && views(vs@) == if old(self).remove_volumes {
                non_external_volumes(old(self).volumes@)
            } else {
                Seq::empty()
            }),
            final(self).project == old(self).project,
            final(self).remove_volumes == old(self).remove_volumes,
            final(self).networks == old(self).networks,
            final(self).volumes == old(self).volumes,
            final(self).services == old(self).services,
            final(self).targets == old(self).targets,
            final(self).order_error == old(self).order_error,
            final(self).session == old(self).session,
            final(self).names == old(self).names,
    {
        if i < self.targets.len() {
            self.stage = DownStage::Listing(i);
            return DownAction::ListContainers;
        }
        let ns = non_external_network_names(&self.networks);
        let vs = if self.remove_volumes {
            non_external_volume_names(&self.volumes)
        } else {
            let v: Vec<String> = Vec::new();
            assert(views(v@) =~= Seq::<Seq<char>>::empty());
            v
        };
        self.stage = DownStage::Releasing;
        DownAction::RemoveResources(ns, vs)
    }
}

/// One step of `down`: from where it stands and how the last backend call
/// went, the next call to make. First the session is undone (its volumes
/// only when volumes go too); then, unless ordering the services failed,
/// for each target in reverse start order, the containers labelled for the
/// project and the service, and the service's own container, are stopped
/// and removed; last, the networks not marked external and, when asked, the
/// volumes not marked external are removed. A failed listing stops `down`;
/// what a removal gives never changes the course.
pub fn down_next(state: &mut DownState, event: DownEvent) -> (a: DownAction)
    requires
        old(state).wf(),
        down_expects(old(state).stage, event),
    ensures
        final(state).wf(),
        final(state).project == old(state).project,
        final(state).remove_volumes == old(state).remove_volumes,
        final(state).networks == old(state).networks,
        final(state).volumes == old(state).volumes,
        final(state).services == old(state).services,
        final(state).targets == old(state).targets,
        final(state).names == old(state).names,
        final(state).stage == next_down(*old(state), event),
        down_asks(*old(state), event, final(state).stage, a),
        old(state).stage is Begin ==> final(state).session.containers@.len() == 0 && final(state).session.networks@.len()
            == 0 && (old(state).remove_volumes ==> final(state).session.volumes@.len() == 0) && (!old(
            state,
        ).remove_volumes ==> final(state).session.volumes@ == old(state).session.volumes@),
        !(old(state).stage is Begin) ==> final(state).session == old(state).session,
{
    match state.stage {
        DownStage::Begin => {
            let plan = state.session.down(state.remove_volumes);
            proof {
                if !state.remove_volumes {
                    assert(plan.volumes@ =~= Seq::<String>::empty());
                }
            }
            state.stage = DownStage::Clearing;
            DownAction::Teardown(plan)
        },
        DownStage::Clearing => match state.order_error.take() {
            Some(e) => {
                state.stage = DownStage::Stopped;
                DownAction::Fail(e)
            },
            None => state.go_target(0),
        },
        DownStage::Listing(i) => match event {
            DownEvent::Listed(listed, rendered) => {
                let target = state.targets[i].as_str();
                let mut ids = containers_of_service(&listed, state.project.as_str(), target);
                let ghost found = views(ids@);
                let cached = match state.names.get(target) {
                    Some(n) => Some(n.clone()),
                    None => None,
                };
                let own = match &rendered {
                    Some(r) => resolve_container_name(cached, state.services.get(target), target, Some(r.as_str())),
                    None => resolve_container_name(cached, state.services.get(target), target, None),
                };
                ids.push(own);
                proof {
                    assert(views(ids@).take(found.len() as int) =~= found);
                }
                state.stage = DownStage::Removing(i);
                DownAction::RemoveContainers(ids)
            },
            DownEvent::Failed(e) => {
                state.stage = DownStage::Stopped;
                DownAction::Fail(e)
            },
            _ => {
                state.stage = DownStage::Stopped;
                DownAction::Finish
            },
        },
        DownStage::Removing(i) => {
            let _ = state.targets.len();
            state.go_target(i + 1)
        },
        DownStage::Releasing => {
            state.stage = DownStage::Finished;
            DownAction::Finish
        },
        DownStage::Finished => DownAction::Finish,
        DownStage::Stopped => DownAction::Finish,
    }
}

/// What a removal gives never changes the course of `down`: from a stage
/// that removes, every event leads to the same stage.
pub proof fn lemma_removal_outcome_ignored(s: DownState, e1: DownEvent, e2: DownEvent)
    requires
        s.stage is Clearing || s.stage is Removing || s.stage is Releasing,
    ensures
        next_down(s, e1) == next_down(s, e2),
{
}

/// `down` removes the targets' containers in reverse start order: target
/// `i` of the state is target `n - 1 - i` of the start order.
pub proof fn lemma_down_reverse_order(start: Seq<Seq<char>>, s: DownState, i: int)
    requires
        views(s.targets@) == start.reverse(),
        0 <= i < start.len(),
    ensures
        down_target(s, i) == start[start.len() - 1 - i],
{
    assert(views(s.targets@).len() == s.targets@.len());
    assert(views(s.targets@)[i] == s.targets@[i]@);
}

} // verus!
