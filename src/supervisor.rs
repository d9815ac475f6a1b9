use vstd::prelude::*;

use crate::events::InstanceId;
use crate::registry::InstanceRegistry;

verus! {

/// The long-lived loops that run side by side, and the interrupt listener.
#[derive(Debug, Clone, Copy, PartialEq, Eq, Structural)]
pub enum LoopKind {
    EventArchive,
    EventHistory,
    Monitor,
    HttpServer,
    Interrupt,
}

/// Decides shutdown: the first loop to finish, for whatever reason, ends
/// them all, and the cleanup that stops every instance is planned once.
pub struct TaskSupervisor {
    trigger: Option<LoopKind>,
}

pub open spec fn plan_view(r: Option<Vec<InstanceId>>) -> Option<Seq<InstanceId>> {
    match r {
        Some(v) => Some(v@),
        None => None,
    }
}

/// The stop plan `plan` names every identifier of `dom` exactly once.
pub open spec fn stops_each_once(plan: Seq<InstanceId>, dom: Set<InstanceId>) -> bool {
    plan.no_duplicates() && plan.to_set() == dom
}

/// How one loop's exit moves the supervisor, given the registry's
/// identifiers at that moment.
pub open spec fn exit_step(
    before: Option<LoopKind>,
    after: Option<LoopKind>,
    which: LoopKind,
    dom: Set<InstanceId>,
    plan: Option<Seq<InstanceId>>,
) -> bool {
    match before {
        None => after == Some(which) && (plan matches Some(p) && stops_each_once(p, dom)),
        Some(_) => after == before && plan is None,
    }
}

impl TaskSupervisor {
    /// The loop whose exit started the shutdown, if one did.
    pub closed spec fn trigger_spec(&self) -> Option<LoopKind> {
        self.trigger
    }

    pub fn new() -> (r: Self)
        ensures
            r.trigger_spec() is None,
    {
        TaskSupervisor { trigger: None }
    }

    pub fn trigger(&self) -> (r: Option<LoopKind>)
        ensures
            r == self.trigger_spec(),
    {
        self.trigger
    }

    pub fn is_shutting_down(&self) -> (r: bool)
        ensures
            r == self.trigger_spec() is Some,
    {
        self.trigger.is_some()
    }

    /// Records that `which` finished. The first exit returns the plan: the
    /// identifiers of every instance of `registry`, each once, to be
    /// stopped whether it runs or not. Every later exit returns `None`.
    pub fn on_exit(&mut self, which: LoopKind, registry: &InstanceRegistry) -> (r: Option<Vec<InstanceId>>)
        requires
            registry.wf(),
        ensures
            exit_step(old(self).trigger_spec(), final(self).trigger_spec(), which, registry@.dom(), plan_view(r)),
    {
        if self.trigger.is_some() {
            None
        } else {
            self.trigger = Some(which);
            Some(registry.ids())
        }
    }
}

/// However many loops exit, and in whatever order: starting from a
/// supervisor that has seen no exit, the first exit plans the cleanup, it
/// stops each instance exactly once, and no later exit plans it again.
pub proof fn lemma_cleanup_runs_once(
    triggers: Seq<Option<LoopKind>>,
    exits: Seq<LoopKind>,
    doms: Seq<Set<InstanceId>>,
    plans: Seq<Option<Seq<InstanceId>>>,
)
    requires
        triggers.len() == exits.len() + 1,
        doms.len() == exits.len(),
        plans.len() == exits.len(),
        triggers[0] is None,
        forall|k: int| 0 <= k < exits.len() ==> exit_step(triggers[k], triggers[k + 1], #[trigger] exits[k], doms[k], plans[k]),
    ensures
        exits.len() > 0 ==> (plans[0] matches Some(p) && stops_each_once(p, doms[0])),
        forall|k: int| 0 < k < plans.len() ==> #[trigger] plans[k] is None,
{
    assert forall|k: int| 0 < k < plans.len() implies #[trigger] plans[k] is None by {
        lemma_triggered_after_first(triggers, exits, doms, plans, k);
        assert(exit_step(triggers[k], triggers[k + 1], exits[k], doms[k], plans[k]));
    }
    if exits.len() > 0 {
        assert(exit_step(triggers[0], triggers[1], exits[0], doms[0], plans[0]));
    }
}

proof fn lemma_triggered_after_first(
    triggers: Seq<Option<LoopKind>>,
    exits: Seq<LoopKind>,
    doms: Seq<Set<InstanceId>>,
    plans: Seq<Option<Seq<InstanceId>>>,
    k: int,
)
    requires
        triggers.len() == exits.len() + 1,
        doms.len() == exits.len(),
        plans.len() == exits.len(),
        forall|k: int| 0 <= k < exits.len() ==> exit_step(triggers[k], triggers[k + 1], #[trigger] exits[k], doms[k], plans[k]),
        0 < k < triggers.len(),
    ensures
        triggers[k] is Some,
    decreases k,
{
    let j = k - 1;
    assert(exit_step(triggers[j], triggers[j + 1], exits[j], doms[j], plans[j]));
    if k > 1 {
        lemma_triggered_after_first(triggers, exits, doms, plans, k - 1);
    }
}

} // verus!
