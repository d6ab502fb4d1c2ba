//! The engine: the registry of workflow instances and the operations on them.
use std::collections::HashMap;
use vstd::prelude::*;

use crate::clock::now_millis;
use crate::graph::{endpoints_known, is_acyclic, StepId};
use crate::instance::{
    advanced, advanced_from, definition_rejection, submit_outcome, submitted_status, WorkflowDefinition, WorkflowError, WorkflowId,
    WorkflowInstance,
};
use crate::status::StepStatus;
use crate::steps::StepResult;

verus! {

/// Owns every workflow instance, by id.
#[derive(Debug)]
pub struct WorkflowEngine {
    instances: HashMap<WorkflowId, WorkflowInstance>,
}

impl WorkflowEngine {
    /// The registered instances, by id.
    pub closed spec fn spec_instances(&self) -> Map<WorkflowId, WorkflowInstance> {
        self.instances@
    }

    /// Every instance keeps its invariant and is registered under its own id.
    pub open spec fn wf(&self) -> bool {
        forall|id: WorkflowId|
            #[trigger] self.spec_instances().contains_key(id) ==> self.spec_instances()[id].wf()
                && self.spec_instances()[id].spec_id() == id
    }

    /// An engine with no workflow.
    pub fn new() -> (r: WorkflowEngine)
        ensures
            r.wf(),
            r.spec_instances().is_empty(),
    {
        WorkflowEngine { instances: HashMap::new() }
    }

    /// The number of registered workflows.
    pub fn len(&self) -> (r: usize)
        ensures
            r == self.spec_instances().len(),
    {
        self.instances.len()
    }

    /// Whether no workflow is registered.
    pub fn is_empty(&self) -> (r: bool)
        ensures
            r == self.spec_instances().is_empty(),
    {
        self.instances.is_empty()
    }

    /// Validates `definition` and registers a new instance of it, all of
    /// whose steps are `Pending`, under the definition's id. Fails,
    /// registering nothing, with `AlreadyExists` when that id is taken, and
    /// otherwise with `StepNotFound` when an edge names an unknown step or
    /// `CircularDependency`, naming a step on a cycle, when the edges form one.
    pub fn create_workflow(&mut self, definition: WorkflowDefinition) -> (r: Result<WorkflowId, WorkflowError>)
        requires
            old(self).wf(),
        ensures
            final(self).wf(),
            old(self).spec_instances().contains_key(definition.id) ==> r == Err::<WorkflowId, WorkflowError>(
                WorkflowError::AlreadyExists(definition.id),
            ),
            !old(self).spec_instances().contains_key(definition.id) ==> {
                &&& r is Ok <==> endpoints_known(definition.step_ids(), definition.dependencies@)
                    && is_acyclic(definition.step_ids(), definition.dependencies@)
                &&& r matches Err(e) ==> definition_rejection(definition, e)
                &&& !endpoints_known(definition.step_ids(), definition.dependencies@) ==> r matches Err(
                    WorkflowError::StepNotFound(_),
                )
            },
            r is Err ==> final(self).spec_instances() == old(self).spec_instances(),
            r matches Ok(id) ==> {
                &&& id == definition.id
                &&& final(self).spec_instances().contains_key(id)
                &&& final(self).spec_instances() == old(self).spec_instances().insert(
                    id,
                    final(self).spec_instances()[id],
                )
                &&& final(self).spec_instances()[id].spec_definition() == definition
                &&& final(self).spec_instances()[id].spec_status() is Pending
                &&& forall|s: StepId|
                    #[trigger] final(self).spec_instances()[id].statuses().contains_key(s)
                        ==> final(self).spec_instances()[id].statuses()[s] is Pending
            },
    {
        if self.instances.contains_key(&definition.id) {
            return Err(WorkflowError::AlreadyExists(definition.id));
        }
        let instance = match WorkflowInstance::new(definition) {
            Ok(w) => w,
            Err(e) => {
                return Err(e);
            },
        };
        let id = instance.id();
        let ghost old_map = self.spec_instances();
        self.instances.insert(id, instance);
        proof {
            assert forall|k: WorkflowId| #[trigger] self.spec_instances().contains_key(k) implies self.spec_instances()[k].wf()
                && self.spec_instances()[k].spec_id() == k by {
                if k != id {
                    assert(old_map.contains_key(k));
                }
            }
        }
        Ok(id)
    }

    /// The instance registered under `id`, if any.
    pub fn get_workflow(&self, id: WorkflowId) -> (r: Option<&WorkflowInstance>)
        ensures
            r matches Some(w) ==> self.spec_instances().contains_key(id) && *w == self.spec_instances()[id],
            r is None ==> !self.spec_instances().contains_key(id),
    {
        self.instances.get(&id)
    }

    /// Starts workflow `id` now; see `start_workflow_at`.
    pub fn start_workflow(&mut self, id: WorkflowId) -> (r: Result<(), WorkflowError>)
        requires
            old(self).wf(),
        ensures
            final(self).wf(),
            r is Err <==> !old(self).spec_instances().contains_key(id) || !(
            old(self).spec_instances()[id].spec_status() is Pending),
            r is Err ==> final(self).spec_instances() == old(self).spec_instances(),
            !old(self).spec_instances().contains_key(id) ==> r == Err::<(), WorkflowError>(
                WorkflowError::NotFound(id),
            ),
            old(self).spec_instances().contains_key(id) && r is Err ==> r == Err::<(), WorkflowError>(
                WorkflowError::InvalidState(id),
            ),
            r is Ok ==> {
                let w = final(self).spec_instances()[id];
                &&& final(self).spec_instances() == old(self).spec_instances().insert(id, w)
                &&& w.spec_started_at() is Some
                &&& exists|now: i64| advanced(&old(self).spec_instances()[id], &w, now)
            },
    {
        let now = now_millis();
        self.start_workflow_at(id, now)
    }

    /// Starts workflow `id` at time `now`: it becomes `Running`, and its
    /// steps run in dependency order as far as they go without outside
    /// input; the overall status is then what the steps add up to. Fails
    /// with `NotFound` if no workflow has this id and with `InvalidState` if
    /// it is not `Pending`, changing nothing.
    pub fn start_workflow_at(&mut self, id: WorkflowId, now: i64) -> (r: Result<(), WorkflowError>)
        requires
            old(self).wf(),
        ensures
            final(self).wf(),
            r is Err <==> !old(self).spec_instances().contains_key(id) || !(
            old(self).spec_instances()[id].spec_status() is Pending),
            r is Err ==> final(self).spec_instances() == old(self).spec_instances(),
            !old(self).spec_instances().contains_key(id) ==> r == Err::<(), WorkflowError>(
                WorkflowError::NotFound(id),
            ),
            old(self).spec_instances().contains_key(id) && r is Err ==> r == Err::<(), WorkflowError>(
                WorkflowError::InvalidState(id),
            ),
            r is Ok ==> {
                let w = final(self).spec_instances()[id];
                &&& final(self).spec_instances() == old(self).spec_instances().insert(id, w)
                &&& w.spec_started_at() == Some(now)
                &&& advanced(&old(self).spec_instances()[id], &w, now)
            },
    {
        let mut w = match self.instances.remove(&id) {
            Some(w) => w,
            None => {
                return Err(WorkflowError::NotFound(id));
            },
        };
        let ghost old_map = old(self).spec_instances();
        let r = w.start(now);
        self.instances.insert(id, w);
        proof {
            if r is Err {
                assert(self.spec_instances() =~= old_map);
            } else {
                assert(self.spec_instances() =~= old_map.insert(id, w));
            }
        }
        r
    }

    /// Cancels workflow `id` now; see `cancel_workflow_at`.
    pub fn cancel_workflow(&mut self, id: WorkflowId) -> (r: Result<(), WorkflowError>)
        requires
            old(self).wf(),
        ensures
            final(self).wf(),
            r is Err <==> !old(self).spec_instances().contains_key(id)
                || old(self).spec_instances()[id].spec_status().spec_is_terminal(),
            r is Err ==> final(self).spec_instances() == old(self).spec_instances(),
            !old(self).spec_instances().contains_key(id) ==> r == Err::<(), WorkflowError>(
                WorkflowError::NotFound(id),
            ),
            old(self).spec_instances().contains_key(id) && r is Err ==> r == Err::<(), WorkflowError>(
                WorkflowError::AlreadyFinished(id),
            ),
            r is Ok ==> {
                let w = final(self).spec_instances()[id];
                &&& final(self).spec_instances() == old(self).spec_instances().insert(id, w)
                &&& w.spec_status() is Cancelled
                &&& w.spec_completed_at() is Some
                &&& w.statuses() == old(self).spec_instances()[id].statuses()
            },
    {
        let now = now_millis();
        self.cancel_workflow_at(id, now)
    }

    /// Cancels workflow `id` at time `now`: it becomes `Cancelled` with
    /// completion time `now`, and no step of it starts afterwards. Fails
    /// with `NotFound` if no workflow has this id and with `AlreadyFinished`
    /// if it is already terminal, changing nothing.
    pub fn cancel_workflow_at(&mut self, id: WorkflowId, now: i64) -> (r: Result<(), WorkflowError>)
        requires
            old(self).wf(),
        ensures
            final(self).wf(),
            r is Err <==> !old(self).spec_instances().contains_key(id)
                || old(self).spec_instances()[id].spec_status().spec_is_terminal(),
            r is Err ==> final(self).spec_instances() == old(self).spec_instances(),
            !old(self).spec_instances().contains_key(id) ==> r == Err::<(), WorkflowError>(
                WorkflowError::NotFound(id),
            ),
            old(self).spec_instances().contains_key(id) && r is Err ==> r == Err::<(), WorkflowError>(
                WorkflowError::AlreadyFinished(id),
            ),
            r is Ok ==> {
                let w = final(self).spec_instances()[id];
                &&& final(self).spec_instances() == old(self).spec_instances().insert(id, w)
                &&& w.spec_status() is Cancelled
                &&& w.spec_completed_at() == Some(now)
                &&& w.statuses() == old(self).spec_instances()[id].statuses()
                &&& w.outputs() == old(self).spec_instances()[id].outputs()
                &&& w.spec_definition() == old(self).spec_instances()[id].spec_definition()
                &&& w.spec_started_at() == old(self).spec_instances()[id].spec_started_at()
            },
    {
        let mut w = match self.instances.remove(&id) {
            Some(w) => w,
            None => {
                return Err(WorkflowError::NotFound(id));
            },
        };
        let ghost old_map = old(self).spec_instances();
        let r = w.cancel(now);
        self.instances.insert(id, w);
        proof {
            if r is Err {
                assert(self.spec_instances() =~= old_map);
            } else {
                assert(self.spec_instances() =~= old_map.insert(id, w));
            }
        }
        r
    }

    /// Supplies now the outcome of step `step_id` of workflow `id`, which
    /// waits for input; see `submit_step_result_at`.
    pub fn submit_step_result(&mut self, id: WorkflowId, step_id: StepId, result: StepResult) -> (r: Result<(), WorkflowError>)
        requires
            old(self).wf(),
        ensures
            final(self).wf(),
            !old(self).spec_instances().contains_key(id) ==> r == Err::<(), WorkflowError>(
                WorkflowError::NotFound(id),
            ),
            old(self).spec_instances().contains_key(id) ==> r == submit_outcome(&old(self).spec_instances()[id], step_id),
            r is Err ==> final(self).spec_instances() == old(self).spec_instances(),
            r is Ok ==> {
                let w = final(self).spec_instances()[id];
                let mid = old(self).spec_instances()[id].statuses().insert(
                    step_id,
                    submitted_status(result),
                );
                &&& final(self).spec_instances() == old(self).spec_instances().insert(id, w)
                &&& exists|now: i64| advanced_from(&old(self).spec_instances()[id], mid, &w, now)
                &&& result.status is Completed ==> w.outputs().contains_key(step_id)
                    && w.outputs()[step_id] == result.output
                &&& !(result.status is Completed) ==> w.statuses()[step_id] is Failed
            },
    {
        let now = now_millis();
        let ghost completed = result.status is Completed;
        let ghost res = result;
        let r = self.submit_step_result_at(id, step_id, result, now);
        proof {
            if r is Ok {
                let mid = old(self).spec_instances()[id].statuses().insert(
                    step_id,
                    submitted_status(res),
                );
                let w = self.spec_instances()[id];
                assert(advanced_from(&old(self).spec_instances()[id], mid, &w, now));
                assert(exists|n: i64| advanced_from(&old(self).spec_instances()[id], mid, &w, n));
                assert(completed ==> w.outputs().contains_key(step_id) && w.outputs()[step_id] == res.output);
                assert(!completed ==> w.statuses()[step_id] is Failed);
                assert(self.spec_instances() == old(self).spec_instances().insert(id, w));
            }
        }
        r
    }

    /// Supplies, at time `now`, the outcome of step `step_id` of workflow
    /// `id`, which waits for input: a `Completed` result records its output,
    /// any other a failure. The workflow then moves forward as far as it
    /// goes. Fails with `NotFound` if no workflow has this id, else as
    /// `WorkflowInstance::submit_result` does, changing nothing.
    pub fn submit_step_result_at(
        &mut self,
        id: WorkflowId,
        step_id: StepId,
        result: StepResult,
        now: i64,
    ) -> (r: Result<(), WorkflowError>)
        requires
            old(self).wf(),
        ensures
            final(self).wf(),
            !old(self).spec_instances().contains_key(id) ==> r == Err::<(), WorkflowError>(
                WorkflowError::NotFound(id),
            ),
            old(self).spec_instances().contains_key(id) ==> r == submit_outcome(&old(self).spec_instances()[id], step_id),
            r is Err ==> final(self).spec_instances() == old(self).spec_instances(),
            r is Ok ==> {
                let w = final(self).spec_instances()[id];
                let mid = old(self).spec_instances()[id].statuses().insert(
                    step_id,
                    submitted_status(result),
                );
                &&& final(self).spec_instances() == old(self).spec_instances().insert(id, w)
                &&& advanced_from(&old(self).spec_instances()[id], mid, &w, now)
                &&& result.status is Completed ==> w.outputs().contains_key(step_id)
                    && w.outputs()[step_id] == result.output
                &&& !(result.status is Completed) ==> w.statuses()[step_id] is Failed
            },
    {
        let mut w = match self.instances.remove(&id) {
            Some(w) => w,
            None => {
                return Err(WorkflowError::NotFound(id));
            },
        };
        let ghost old_map = old(self).spec_instances();
        let r = w.submit_result(step_id, result, now);
        self.instances.insert(id, w);
        proof {
            if r is Err {
                assert(self.spec_instances() =~= old_map);
            } else {
                assert(self.spec_instances() =~= old_map.insert(id, w));
            }
        }
        r
    }
}

impl Default for WorkflowEngine {
    fn default() -> (r: WorkflowEngine)
        ensures
            r.wf(),
            r.spec_instances().is_empty(),
    {
        WorkflowEngine::new()
    }
}

} // verus!
