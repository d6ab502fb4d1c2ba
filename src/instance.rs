//! The runtime state of one workflow execution and the rules that drive it.
use std::collections::HashMap;
use vstd::prelude::*;

use crate::clock::now_millis;
use crate::graph::{has_edge, is_topological_order, DependencyGraph, Edge, GraphError, StepId};
use crate::payload::null_value;
use crate::status::{StepStatus, WorkflowStatus};
use crate::steps::{StepContext, StepResult, WorkflowStep};

verus! {

/// The identity of a workflow.
pub type WorkflowId = u128;

/// A workflow as submitted: its steps and the dependency edges between them.
#[derive(Debug, Clone)]
pub struct WorkflowDefinition {
    /// The workflow's identity.
    pub id: WorkflowId,
    /// The workflow's name.
    pub name: String,
    /// What the workflow does.
    pub description: String,
    /// The steps, in the order given.
    pub steps: Vec<WorkflowStep>,
    /// Edges `(from, to)`: `from` must complete before `to` may start.
    pub dependencies: Vec<Edge>,
}

impl WorkflowDefinition {
    /// The ids of the steps, in the order given.
    pub open spec fn step_ids(&self) -> Seq<StepId> {
        self.steps@.map_values(|s: WorkflowStep| s.spec_id())
    }
}

/// Why an operation on a workflow was refused.
#[derive(Debug, Clone, Copy, PartialEq, Eq, Structural)]
pub enum WorkflowError {
    /// No workflow has this id.
    NotFound(WorkflowId),
    /// The workflow is not in a state the operation applies to.
    InvalidState(WorkflowId),
    /// The workflow has already reached a terminal status.
    AlreadyFinished(WorkflowId),
    /// A dependency edge names a step that the workflow does not have.
    StepNotFound(StepId),
    /// The dependency edges form a cycle through this step.
    CircularDependency(StepId),
    /// The step is not waiting for input.
    StepNotWaiting(StepId),
    /// A workflow with this id is already registered.
    AlreadyExists(WorkflowId),
}

/// `e` is a reason to refuse `def`: an edge endpoint that names no step, or,
/// when every endpoint names a step, a step on a cycle of the edges.
pub open spec fn definition_rejection(def: WorkflowDefinition, e: WorkflowError) -> bool {
    match e {
        WorkflowError::StepNotFound(x) => !def.step_ids().contains(x) && exists|k: int|
            0 <= k < def.dependencies@.len() && (def.dependencies@[k].0 == x || def.dependencies@[k].1 == x),
        WorkflowError::CircularDependency(x) => crate::graph::endpoints_known(def.step_ids(), def.dependencies@)
            && def.step_ids().contains(x) && crate::graph::on_cycle(def.dependencies@, x),
        _ => false,
    }
}

/// Every prerequisite of `s` has completed.
pub open spec fn prereqs_completed(st: Map<StepId, StepStatus>, edges: Seq<Edge>, s: StepId) -> bool {
    forall|k: int| 0 <= k < edges.len() && (#[trigger] edges[k]).1 == s ==> st[edges[k].0] is Completed
}

/// Some prerequisite of `s` failed or was skipped.
pub open spec fn prereq_blocked(st: Map<StepId, StepStatus>, edges: Seq<Edge>, s: StepId) -> bool {
    exists|k: int|
        0 <= k < edges.len() && (#[trigger] edges[k]).1 == s && (st[edges[k].0] is Failed
            || st[edges[k].0] is Skipped)
}

/// The status of `s` agrees with its prerequisites, and `s` has an output
/// exactly when it completed.
pub open spec fn step_consistent(
    st: Map<StepId, StepStatus>,
    outs: Map<StepId, serde_json::Value>,
    edges: Seq<Edge>,
    s: StepId,
) -> bool {
    &&& (st[s] is Running || st[s] is WaitingForInput || st[s] is Completed || st[s] is Failed)
        ==> prereqs_completed(st, edges, s)
    &&& st[s] is Skipped ==> prereq_blocked(st, edges, s)
    &&& outs.contains_key(s) <==> st[s] is Completed
}

/// Nothing more can happen to `s` until outside input arrives: it is not
/// pending while it could start or be skipped, not running, and waits only
/// if it is a step that asks for input.
pub open spec fn step_settled(
    st: Map<StepId, StepStatus>,
    edges: Seq<Edge>,
    needs_input: bool,
    s: StepId,
) -> bool {
    &&& st[s] is Pending ==> !prereqs_completed(st, edges, s) && !prereq_blocked(st, edges, s)
    &&& !(st[s] is Running)
    &&& st[s] is WaitingForInput ==> needs_input
}

/// The workflow status that the step statuses add up to: once every step is
/// terminal, `Failed` if one failed and `Completed` otherwise; before that,
/// `WaitingForInput` if a step waits and `Running` otherwise.
pub open spec fn overall_status(st: Map<StepId, StepStatus>, ids: Seq<StepId>) -> WorkflowStatus {
    if forall|i: int| 0 <= i < ids.len() ==> (#[trigger] st[ids[i]]).spec_is_terminal() {
        if exists|i: int| 0 <= i < ids.len() && (#[trigger] st[ids[i]]) is Failed {
            WorkflowStatus::Failed
        } else {
            WorkflowStatus::Completed
        }
    } else if exists|i: int| 0 <= i < ids.len() && (#[trigger] st[ids[i]]) is WaitingForInput {
        WorkflowStatus::WaitingForInput
    } else {
        WorkflowStatus::Running
    }
}

/// Whether the first step of `steps` with id `s` waits for outside input.
pub open spec fn first_needs_input(steps: Seq<WorkflowStep>, s: StepId) -> bool {
    exists|i: int|
        0 <= i < steps.len() && (#[trigger] steps[i]).spec_id() == s && steps[i].spec_requires_human_input()
            && forall|j: int| 0 <= j < i ==> (#[trigger] steps[j]).spec_id() != s
}

/// Position `i` holds the first step of `steps` with id `s`.
pub open spec fn is_first_step(steps: Seq<WorkflowStep>, s: StepId, i: int) -> bool {
    &&& 0 <= i < steps.len()
    &&& steps[i].spec_id() == s
    &&& forall|j: int| 0 <= j < i ==> (#[trigger] steps[j]).spec_id() != s
}

/// The output the first step of `steps` with id `s` produces when it runs.
pub open spec fn run_output(steps: Seq<WorkflowStep>, s: StepId) -> serde_json::Value {
    steps[choose|i: int| is_first_step(steps, s, i)].spec_run_output()
}

/// The outputs of the completed prerequisites of `s`.
pub open spec fn prior_outputs(
    outs: Map<StepId, serde_json::Value>,
    edges: Seq<Edge>,
    s: StepId,
) -> Map<StepId, serde_json::Value> {
    outs.restrict(Set::new(|a: StepId| has_edge(edges, a, s)))
}

/// Step `s` moved on from `before` to `after` as the driver moves steps: it
/// was pending and is now skipped, or waits if it asks for input, or has
/// run to completion if it does not.
pub open spec fn steps_moved_on(before: &WorkflowInstance, after: &WorkflowInstance, s: StepId) -> bool {
    &&& before.statuses()[s] is Pending
    &&& after.needs_input(s) ==> (after.statuses()[s] is WaitingForInput || after.statuses()[s] is Skipped)
    &&& !after.needs_input(s) ==> (after.statuses()[s] is Completed || after.statuses()[s] is Skipped)
    &&& after.statuses()[s] is Completed ==> after.outputs().contains_key(s) && after.outputs()[s]
        == run_output(after.spec_definition().steps@, s)
}

/// `after` is `before` moved forward by the driver at time `now`, from the
/// step statuses `mid`: every step that changed was pending and moved on as
/// the driver moves steps, nothing else can move, and the overall status is
/// what the steps add up to.
pub open spec fn advanced_from(
    before: &WorkflowInstance,
    mid: Map<StepId, StepStatus>,
    after: &WorkflowInstance,
    now: i64,
) -> bool {
    &&& after.spec_definition() == before.spec_definition()
    &&& after.spec_global() == before.spec_global()
    &&& after.spec_created_at() == before.spec_created_at()
    &&& after.settled()
    &&& after.spec_status() == overall_status(after.statuses(), after.step_ids())
    &&& after.spec_completed_at() == (if after.spec_status().spec_is_terminal() {
        Some(now)
    } else {
        None::<i64>
    })
    &&& forall|s: StepId|
        #![trigger after.statuses()[s]]
        after.statuses()[s] != mid[s] ==> {
            &&& mid[s] is Pending
            &&& after.needs_input(s) ==> (after.statuses()[s] is WaitingForInput || after.statuses()[s] is Skipped)
            &&& !after.needs_input(s) ==> (after.statuses()[s] is Completed || after.statuses()[s] is Skipped)
            &&& after.statuses()[s] is Completed ==> after.outputs().contains_key(s) && after.outputs()[s]
                == run_output(after.spec_definition().steps@, s)
        }
}

/// `after` is `before` moved forward by the driver at time `now`.
pub open spec fn advanced(before: &WorkflowInstance, after: &WorkflowInstance, now: i64) -> bool {
    advanced_from(before, before.statuses(), after, now)
}

/// What submitting a result for step `s` to `w` returns.
pub open spec fn submit_outcome(w: &WorkflowInstance, s: StepId) -> Result<(), WorkflowError> {
    if w.spec_status().spec_is_terminal() {
        Err(WorkflowError::AlreadyFinished(w.spec_id()))
    } else if w.spec_status() is Pending {
        Err(WorkflowError::InvalidState(w.spec_id()))
    } else if !(w.statuses().contains_key(s) && w.statuses()[s] is WaitingForInput) {
        Err(WorkflowError::StepNotWaiting(s))
    } else {
        Ok(())
    }
}

/// The status a step takes when `result` is submitted for it.
pub open spec fn submitted_status(result: StepResult) -> StepStatus {
    if result.status is Completed {
        StepStatus::Completed
    } else {
        StepStatus::Failed
    }
}

/// Among the first `k` edges is `a -> s`.
pub open spec fn edge_among(edges: Seq<Edge>, k: int, a: StepId, s: StepId) -> bool {
    exists|q: int| 0 <= q < k && #[trigger] edges[q] == (a, s)
}

/// The mutable state of one execution of a workflow.
#[derive(Debug)]
pub struct WorkflowInstance {
    definition: WorkflowDefinition,
    status: WorkflowStatus,
    steps_statuses: HashMap<StepId, StepStatus>,
    graph: DependencyGraph,
    outputs: HashMap<StepId, serde_json::Value>,
    errors: HashMap<StepId, String>,
    global: HashMap<String, serde_json::Value>,
    created_at: i64,
    started_at: Option<i64>,
    completed_at: Option<i64>,
}

impl WorkflowInstance {
    /// The definition the instance runs.
    pub closed spec fn spec_definition(&self) -> WorkflowDefinition {
        self.definition
    }

    /// The workflow's id.
    pub open spec fn spec_id(&self) -> WorkflowId {
        self.spec_definition().id
    }

    /// The ids of the steps, in the order the definition gives them.
    pub open spec fn step_ids(&self) -> Seq<StepId> {
        self.spec_definition().step_ids()
    }

    /// The dependency edges.
    pub open spec fn edges(&self) -> Seq<Edge> {
        self.spec_definition().dependencies@
    }

    /// Whether step `s` waits for outside input.
    pub open spec fn needs_input(&self, s: StepId) -> bool {
        first_needs_input(self.spec_definition().steps@, s)
    }

    /// The overall status.
    pub closed spec fn spec_status(&self) -> WorkflowStatus {
        self.status
    }

    /// The status of each step, by id.
    pub closed spec fn statuses(&self) -> Map<StepId, StepStatus> {
        self.steps_statuses@
    }

    /// The recorded output of each completed step, by id.
    pub closed spec fn outputs(&self) -> Map<StepId, serde_json::Value> {
        self.outputs@
    }

    /// The recorded error of each failed step that reported one, by id.
    pub closed spec fn step_errors(&self) -> Map<StepId, String> {
        self.errors@
    }

    /// The values shared by all steps.
    pub closed spec fn spec_global(&self) -> Map<String, serde_json::Value> {
        self.global@
    }

    /// The order in which steps are considered, each step once, every edge
    /// going forward.
    pub closed spec fn order(&self) -> Seq<StepId> {
        self.graph.order_ids()
    }

    /// When the instance was created.
    pub closed spec fn spec_created_at(&self) -> i64 {
        self.created_at
    }

    /// When the workflow was started.
    pub closed spec fn spec_started_at(&self) -> Option<i64> {
        self.started_at
    }

    /// When the workflow reached a terminal status.
    pub closed spec fn spec_completed_at(&self) -> Option<i64> {
        self.completed_at
    }

    /// The graph is that of the definition, and has an order.
    pub closed spec fn graph_wf(&self) -> bool {
        &&& self.graph.wf()
        &&& forall|x: StepId| self.graph.node_seq().contains(x) <==> self.step_ids().contains(x)
        &&& self.graph.edge_ids() == self.edges()
    }

    /// Every step of the workflow is consistent with its prerequisites.
    pub open spec fn consistent(&self) -> bool {
        forall|s: StepId|
            #![trigger self.statuses()[s]]
            self.step_ids().contains(s) ==> step_consistent(self.statuses(), self.outputs(), self.edges(), s)
    }

    /// Every step of the workflow is settled.
    pub open spec fn settled(&self) -> bool {
        forall|s: StepId|
            #![trigger self.statuses()[s]]
            self.step_ids().contains(s) ==> step_settled(self.statuses(), self.edges(), self.needs_input(s), s)
    }

    /// The part of the invariant that holds at every step of execution: the
    /// graph, the status table and the recorded outputs and errors agree.
    pub open spec fn core_wf(&self) -> bool {
        &&& self.graph_wf()
        &&& is_topological_order(self.order(), self.step_ids(), self.edges())
        &&& forall|s: StepId| self.statuses().contains_key(s) <==> self.step_ids().contains(s)
        &&& forall|s: StepId| #[trigger] self.outputs().contains_key(s) ==> self.step_ids().contains(s)
        &&& forall|s: StepId| #[trigger] self.step_errors().contains_key(s) ==> self.statuses()[s] is Failed
        &&& self.consistent()
        &&& self.steps_at_rest()
    }

    /// No step is left running, and only steps that ask for input wait.
    pub open spec fn steps_at_rest(&self) -> bool {
        forall|s: StepId|
            #![trigger self.statuses()[s]]
            self.step_ids().contains(s) ==> !(self.statuses()[s] is Running) && (self.statuses()[s] is WaitingForInput
                ==> self.needs_input(s))
    }

    /// The overall status agrees with the steps and the timestamps.
    pub open spec fn status_wf(&self) -> bool {
        &&& self.spec_status() is Pending ==> self.spec_started_at() is None && self.spec_completed_at() is None
        &&& !(self.spec_status() is Pending || self.spec_status() is Cancelled) ==> {
            &&& self.settled()
            &&& self.spec_status() == overall_status(self.statuses(), self.step_ids())
            &&& self.spec_started_at() is Some
        }
        &&& self.spec_status().spec_is_terminal() ==> self.spec_completed_at() is Some
        &&& !self.spec_status().spec_is_terminal() ==> self.spec_completed_at() is None
    }

    /// The instance's invariant.
    pub open spec fn wf(&self) -> bool {
        self.core_wf() && self.status_wf()
    }

    /// Builds an instance of `definition`: every step and the workflow
    /// itself start `Pending`. Fails, creating nothing, when an edge names an
    /// unknown step or the edges form a cycle.
    pub fn new(definition: WorkflowDefinition) -> (r: Result<WorkflowInstance, WorkflowError>)
        ensures
            r is Ok <==> crate::graph::endpoints_known(definition.step_ids(), definition.dependencies@)
                && crate::graph::is_acyclic(definition.step_ids(), definition.dependencies@),
            r matches Ok(w) ==> {
                &&& w.wf()
                &&& w.spec_definition() == definition
                &&& w.spec_status() is Pending
                &&& forall|s: StepId| #[trigger] w.statuses().contains_key(s) ==> w.statuses()[s] is Pending
                &&& w.outputs().is_empty()
                &&& w.spec_global().is_empty()
                &&& w.spec_started_at() is None
                &&& w.spec_completed_at() is None
            },
            r matches Err(e) ==> definition_rejection(definition, e),
            !crate::graph::endpoints_known(definition.step_ids(), definition.dependencies@) ==> r matches Err(
                WorkflowError::StepNotFound(_),
            ),
    {
        let ids = step_id_list(&definition.steps);
        let graph = match DependencyGraph::build(&ids, &definition.dependencies) {
            Ok(g) => g,
            Err(GraphError::StepNotFound(x)) => {
                return Err(WorkflowError::StepNotFound(x));
            },
            Err(GraphError::CircularDependency(x)) => {
                return Err(WorkflowError::CircularDependency(x));
            },
        };
        let mut steps_statuses: HashMap<StepId, StepStatus> = HashMap::new();
        let mut i: usize = 0;
        while i < ids.len()
            invariant
                i <= ids@.len(),
                forall|s: StepId|
                    steps_statuses@.contains_key(s) <==> ids@.subrange(0, i as int).contains(s),
                forall|s: StepId| #[trigger] steps_statuses@.contains_key(s) ==> steps_statuses@[s] is Pending,
            decreases ids@.len() - i,
        {
            let ghost pre = ids@.subrange(0, i as int);
            steps_statuses.insert(ids[i], StepStatus::Pending);
            proof {
                assert(ids@.subrange(0, i + 1) =~= pre.push(ids@[i as int]));
                assert forall|s: StepId| steps_statuses@.contains_key(s) <==> pre.push(ids@[i as int]).contains(s) by {
                    if pre.push(ids@[i as int]).contains(s) && s != ids@[i as int] {
                        let q = choose|q: int| 0 <= q < pre.len() + 1 && pre.push(ids@[i as int])[q] == s;
                        assert(pre[q] == s);
                    }
                    if steps_statuses@.contains_key(s) && s != ids@[i as int] {
                        assert(pre.contains(s));
                        let q = choose|q: int| 0 <= q < pre.len() && pre[q] == s;
                        assert(pre.push(ids@[i as int])[q] == s);
                    }
                    if s == ids@[i as int] {
                        assert(pre.push(ids@[i as int])[pre.len() as int] == s);
                    }
                }
            }
            i = i + 1;
        }
        assert(ids@.subrange(0, ids@.len() as int) == ids@);
        let w = WorkflowInstance {
            definition,
            status: WorkflowStatus::Pending,
            steps_statuses,
            graph,
            outputs: HashMap::new(),
            errors: HashMap::new(),
            global: HashMap::new(),
            created_at: now_millis(),
            started_at: None,
            completed_at: None,
        };
        proof {
            assert(w.step_ids() == ids@);
            assert forall|s: StepId| #![trigger w.statuses()[s]] w.step_ids().contains(s) implies !(w.statuses()[s] is Running) && (w.statuses()[s] is WaitingForInput
                ==> w.needs_input(s)) by {
                assert(w.statuses().contains_key(s));
            }
            assert forall|s: StepId| #![trigger w.statuses()[s]] w.step_ids().contains(s) implies step_consistent(
                w.statuses(),
                w.outputs(),
                w.edges(),
                s,
            ) by {
                assert(w.statuses().contains_key(s));
            }
        }
        Ok(w)
    }

    /// The workflow's id.
    pub fn id(&self) -> (r: WorkflowId)
        ensures
            r == self.spec_id(),
    {
        self.definition.id
    }

    /// The definition the instance runs.
    pub fn definition(&self) -> (r: &WorkflowDefinition)
        ensures
            *r == self.spec_definition(),
    {
        &self.definition
    }

    /// The validated dependency graph.
    pub fn dependency_graph(&self) -> (r: &DependencyGraph)
        requires
            self.core_wf(),
        ensures
            r.wf(),
            r.order_ids() == self.order(),
            forall|x: StepId| r.node_seq().contains(x) <==> self.step_ids().contains(x),
            r.edge_ids() == self.edges(),
    {
        &self.graph
    }

    /// The overall status.
    pub fn status(&self) -> (r: WorkflowStatus)
        ensures
            r == self.spec_status(),
    {
        self.status
    }

    /// The status of step `step_id`, or `None` if the workflow has no such step.
    pub fn step_status(&self, step_id: StepId) -> (r: Option<StepStatus>)
        ensures
            r == (if self.statuses().contains_key(step_id) {
                Some(self.statuses()[step_id])
            } else {
                None::<StepStatus>
            }),
    {
        match self.steps_statuses.get(&step_id) {
            Some(s) => Some(*s),
            None => None,
        }
    }

    /// The status of every step, by id.
    pub fn all_step_statuses(&self) -> (r: &HashMap<StepId, StepStatus>)
        ensures
            r@ == self.statuses(),
    {
        &self.steps_statuses
    }

    /// The recorded output of step `step_id`, if it completed.
    pub fn step_output(&self, step_id: StepId) -> (r: Option<&serde_json::Value>)
        ensures
            r matches Some(v) ==> self.outputs().contains_key(step_id) && *v == self.outputs()[step_id],
            r is None ==> !self.outputs().contains_key(step_id),
    {
        self.outputs.get(&step_id)
    }

    /// The recorded error of step `step_id`, if it failed with one.
    pub fn step_error(&self, step_id: StepId) -> (r: Option<&String>)
        ensures
            r matches Some(v) ==> self.step_errors().contains_key(step_id) && *v == self.step_errors()[step_id],
            r is None ==> !self.step_errors().contains_key(step_id),
    {
        self.errors.get(&step_id)
    }

    /// When the instance was created, in milliseconds since the Unix epoch.
    pub fn created_at(&self) -> (r: i64)
        ensures
            r == self.spec_created_at(),
    {
        self.created_at
    }

    /// When the workflow was started, in milliseconds since the Unix epoch.
    pub fn started_at(&self) -> (r: Option<i64>)
        ensures
            r == self.spec_started_at(),
    {
        self.started_at
    }

    /// When the workflow reached a terminal status, in milliseconds since the Unix epoch.
    pub fn completed_at(&self) -> (r: Option<i64>)
        ensures
            r == self.spec_completed_at(),
    {
        self.completed_at
    }

    /// The status of step `id`, which the workflow has.
    fn status_of(&self, id: StepId) -> (r: StepStatus)
        requires
            self.statuses().contains_key(id),
        ensures
            r == self.statuses()[id],
    {
        match self.steps_statuses.get(&id) {
            Some(st) => *st,
            None => vstd::pervasive::unreached(),
        }
    }

    /// Whether all prerequisites of `id` completed, and whether one failed
    /// or was skipped.
    fn prereq_state(&self, id: StepId) -> (r: (bool, bool))
        requires
            self.core_wf(),
        ensures
            r.0 == prereqs_completed(self.statuses(), self.edges(), id),
            r.1 == prereq_blocked(self.statuses(), self.edges(), id),
    {
        let ghost edges = self.edges();
        let ghost st = self.statuses();
        let mut done = true;
        let mut blocked = false;
        let mut k: usize = 0;
        while k < self.definition.dependencies.len()
            invariant
                self.core_wf(),
                edges == self.edges(),
                st == self.statuses(),
                k <= edges.len(),
                done == forall|q: int| 0 <= q < k && (#[trigger] edges[q]).1 == id ==> st[edges[q].0] is Completed,
                blocked == exists|q: int|
                    0 <= q < k && (#[trigger] edges[q]).1 == id && (st[edges[q].0] is Failed
                        || st[edges[q].0] is Skipped),
            decreases edges.len() - k,
        {
            let (a, b) = self.definition.dependencies[k];
            proof {
                assert(edges[k as int] == (a, b));
                self.lemma_edge_endpoints(k as int);
            }
            if b == id {
                let sa = self.status_of(a);
                match sa {
                    StepStatus::Completed => {},
                    StepStatus::Failed | StepStatus::Skipped => {
                        done = false;
                        blocked = true;
                    },
                    _ => {
                        done = false;
                    },
                }
            }
            k = k + 1;
        }
        (done, blocked)
    }

    /// Both endpoints of edge `k` are steps of the workflow.
    proof fn lemma_edge_endpoints(&self, k: int)
        requires
            self.core_wf(),
            0 <= k < self.edges().len(),
        ensures
            self.statuses().contains_key(self.edges()[k].0),
            self.statuses().contains_key(self.edges()[k].1),
    {
        let e = self.graph.edge_seq()[k];
        assert(self.graph.edge_ids().len() == self.graph.edge_seq().len());
        assert(self.graph.edge_ids()[k] == self.edges()[k]);
        assert(e.0 < self.graph.node_seq().len() && e.1 < self.graph.node_seq().len());
        let a = self.graph.node_seq()[e.0 as int];
        let b = self.graph.node_seq()[e.1 as int];
        assert(self.graph.node_seq().contains(a));
        assert(self.graph.node_seq().contains(b));
        assert(self.edges()[k] == (a, b));
        assert(self.step_ids().contains(a));
        assert(self.step_ids().contains(b));
    }

    /// The position of the first step with id `id`.
    fn first_step(&self, id: StepId) -> (r: usize)
        requires
            self.step_ids().contains(id),
        ensures
            r < self.spec_definition().steps@.len(),
            self.spec_definition().steps@[r as int].spec_id() == id,
            self.needs_input(id) == self.spec_definition().steps@[r as int].spec_requires_human_input(),
            is_first_step(self.spec_definition().steps@, id, r as int),
    {
        let ghost steps = self.definition.steps@;
        let mut i: usize = 0;
        while i < self.definition.steps.len()
            invariant
                steps == self.definition.steps@,
                self.step_ids().contains(id),
                i <= steps.len(),
                forall|j: int| 0 <= j < i ==> (#[trigger] steps[j]).spec_id() != id,
            decreases steps.len() - i,
        {
            if self.definition.steps[i].step_id() == id {
                proof {
                    if steps[i as int].spec_requires_human_input() {
                        assert(first_needs_input(steps, id));
                    }
                }
                return i;
            }
            i = i + 1;
        }
        proof {
            let q = choose|q: int| 0 <= q < self.step_ids().len() && self.step_ids()[q] == id;
            assert(steps[q].spec_id() == id);
        }
        vstd::pervasive::unreached()
    }

    /// Runs step `id`, which does not wait for input, with its context.
    fn run_step(&self, id: StepId) -> (r: StepResult)
        requires
            self.core_wf(),
            self.step_ids().contains(id),
            !self.needs_input(id),
        ensures
            r.status == StepStatus::Completed,
            r.output == run_output(self.spec_definition().steps@, id),
    {
        let i = self.first_step(id);
        proof {
            let steps = self.spec_definition().steps@;
            let c = choose|c: int| is_first_step(steps, id, c);
            assert(is_first_step(steps, id, c));
            if c < i {
                assert(steps[c].spec_id() != id);
            }
            if i < c {
                assert(steps[i as int].spec_id() != id);
            }
        }
        let context = match self.step_context(id) {
            Some(c) => c,
            None => vstd::pervasive::unreached(),
        };
        self.definition.steps[i].run(&context)
    }

    /// Records `result` as the outcome of step `id`: its output if it
    /// completed, else a failure with its error.
    fn record(&mut self, id: StepId, result: StepResult)
        ensures
            final(self).definition == old(self).definition,
            final(self).graph == old(self).graph,
            final(self).status == old(self).status,
            final(self).global == old(self).global,
            final(self).created_at == old(self).created_at,
            final(self).started_at == old(self).started_at,
            final(self).completed_at == old(self).completed_at,
            result.status is Completed ==> {
                &&& final(self).statuses() == old(self).statuses().insert(id, StepStatus::Completed)
                &&& final(self).outputs() == old(self).outputs().insert(id, result.output)
                &&& final(self).step_errors() == old(self).step_errors()
            },
            !(result.status is Completed) ==> {
                &&& final(self).statuses() == old(self).statuses().insert(id, StepStatus::Failed)
                &&& final(self).outputs() == old(self).outputs()
                &&& final(self).step_errors() == match result.error {
                    Some(e) => old(self).step_errors().insert(id, e),
                    None => old(self).step_errors(),
                }
            },
    {
        match result.status {
            StepStatus::Completed => {
                self.outputs.insert(id, result.output);
                self.steps_statuses.insert(id, StepStatus::Completed);
            },
            _ => {
                self.steps_statuses.insert(id, StepStatus::Failed);
                match result.error {
                    Some(e) => {
                        self.errors.insert(id, e);
                    },
                    None => {},
                }
            },
        }
    }

    /// Step `x` changed from a status that no step waits on; every other
    /// step stays consistent.
    proof fn lemma_change_keeps_others(
        st: Map<StepId, StepStatus>,
        outs: Map<StepId, serde_json::Value>,
        st2: Map<StepId, StepStatus>,
        outs2: Map<StepId, serde_json::Value>,
        edges: Seq<Edge>,
        x: StepId,
        s: StepId,
    )
        requires
            step_consistent(st, outs, edges, s),
            st[x] is Pending || st[x] is Running || st[x] is WaitingForInput,
            s != x,
            forall|y: StepId| y != x ==> st2[y] == st[y],
            outs2.contains_key(s) == outs.contains_key(s),
        ensures
            step_consistent(st2, outs2, edges, s),
    {
        if st[s] is Running || st[s] is WaitingForInput || st[s] is Completed || st[s] is Failed {
            assert forall|k: int| 0 <= k < edges.len() && (#[trigger] edges[k]).1 == s implies st2[edges[k].0] is Completed by {
                assert(st[edges[k].0] is Completed);
            }
        }
        if st[s] is Skipped {
            let k = choose|k: int|
                0 <= k < edges.len() && (#[trigger] edges[k]).1 == s && (st[edges[k].0] is Failed
                    || st[edges[k].0] is Skipped);
            assert(st2[edges[k].0] == st[edges[k].0]);
        }
    }

    /// A change to a step that is no prerequisite of `s` leaves what `s`
    /// depends on as it was.
    proof fn lemma_change_outside_prereqs(
        st: Map<StepId, StepStatus>,
        st2: Map<StepId, StepStatus>,
        edges: Seq<Edge>,
        x: StepId,
        s: StepId,
    )
        requires
            !has_edge(edges, x, s),
            forall|y: StepId| y != x ==> st2[y] == st[y],
        ensures
            prereqs_completed(st2, edges, s) == prereqs_completed(st, edges, s),
            prereq_blocked(st2, edges, s) == prereq_blocked(st, edges, s),
    {
        assert forall|k: int| 0 <= k < edges.len() && (#[trigger] edges[k]).1 == s implies st2[edges[k].0]
            == st[edges[k].0] by {
            if edges[k].0 == x {
                assert(edges[k] == (x, s));
            }
        }
        if prereq_blocked(st, edges, s) {
            let k = choose|k: int|
                0 <= k < edges.len() && (#[trigger] edges[k]).1 == s && (st[edges[k].0] is Failed
                    || st[edges[k].0] is Skipped);
            assert(st2[edges[k].0] == st[edges[k].0]);
        }
        if prereq_blocked(st2, edges, s) {
            let k = choose|k: int|
                0 <= k < edges.len() && (#[trigger] edges[k]).1 == s && (st2[edges[k].0] is Failed
                    || st2[edges[k].0] is Skipped);
            assert(st2[edges[k].0] == st[edges[k].0]);
        }
    }

    /// No step of the workflow is its own prerequisite.
    proof fn lemma_no_self_edge(&self, x: StepId)
        requires
            self.core_wf(),
            self.step_ids().contains(x),
        ensures
            !has_edge(self.edges(), x, x),
    {
        let o = self.order();
        assert(o.contains(x));
        let i = choose|i: int| 0 <= i < o.len() && o[i] == x;
        assert(!has_edge(self.edges(), o[i], o[i]));
    }

    /// Moves every step forward as far as it can go without outside input,
    /// in the graph's order: a pending step whose prerequisite failed or was
    /// skipped is skipped; one whose prerequisites all completed waits for
    /// input if it asks for it, else runs and records its result. Then the
    /// overall status is derived from the steps.
    fn advance(&mut self, now: i64)
        requires
            old(self).core_wf(),
            old(self).spec_started_at() is Some,
            old(self).spec_completed_at() is None,
        ensures
            final(self).wf(),
            final(self).spec_definition() == old(self).spec_definition(),
            final(self).spec_global() == old(self).spec_global(),
            final(self).spec_created_at() == old(self).spec_created_at(),
            final(self).spec_started_at() == old(self).spec_started_at(),
            final(self).settled(),
            final(self).spec_status() == overall_status(final(self).statuses(), final(self).step_ids()),
            final(self).spec_completed_at() == (if final(self).spec_status().spec_is_terminal() {
                Some(now)
            } else {
                None::<i64>
            }),
            forall|s: StepId|
                #![trigger final(self).statuses()[s]]
                final(self).statuses()[s] != old(self).statuses()[s] ==> steps_moved_on(old(self), final(self), s),
            forall|s: StepId|
                #[trigger] old(self).outputs().contains_key(s) ==> final(self).outputs().contains_key(s)
                    && final(self).outputs()[s] == old(self).outputs()[s],
    {
        let ghost st0 = self.statuses();
        let ghost outs0 = self.outputs();
        let ghost s0 = *self;
        let n = self.graph.order_len();
        let mut t: usize = 0;
        while t < n
            invariant
                self.core_wf(),
                n == self.order().len(),
                t <= n,
                st0 == s0.statuses(),
                outs0 == s0.outputs(),
                self.definition == s0.definition,
                self.graph == s0.graph,
                self.global == s0.global,
                self.created_at == s0.created_at,
                self.started_at == s0.started_at,
                self.completed_at == s0.completed_at,
                self.status == s0.status,
                forall|q: int|
                    #![trigger self.order()[q]]
                    0 <= q < t ==> step_settled(
                        self.statuses(),
                        self.edges(),
                        self.needs_input(self.order()[q]),
                        self.order()[q],
                    ),
                forall|y: StepId|
                    #![trigger self.statuses()[y]]
                    self.statuses()[y] != st0[y] ==> steps_moved_on(&s0, self, y),
                forall|y: StepId|
                    #[trigger] outs0.contains_key(y) ==> self.outputs().contains_key(y) && self.outputs()[y]
                        == outs0[y],
            decreases n - t,
        {
            let x = self.graph.order_id(t);
            let ghost before = *self;
            proof {
                let o = self.order();
                assert(o.contains(o[t as int]));
                assert(self.step_ids().contains(x));
                assert(self.statuses().contains_key(x));
                self.lemma_no_self_edge(x);
            }
            let cur = self.status_of(x);
            if cur == StepStatus::Pending {
                let (done, blocked) = self.prereq_state(x);
                if blocked {
                    self.steps_statuses.insert(x, StepStatus::Skipped);
                    assert(self.statuses()[x] is Skipped);
                } else if done {
                    let i = self.first_step(x);
                    if self.definition.steps[i].needs_human_input() {
                        self.steps_statuses.insert(x, StepStatus::WaitingForInput);
                        assert(self.needs_input(x));
                        assert(self.statuses()[x] is WaitingForInput);
                    } else {
                        let result = self.run_step(x);
                        self.record(x, result);
                        assert(!self.needs_input(x));
                        assert(self.statuses()[x] is Completed);
                    }
                }
                proof {
                    let st = before.statuses();
                    let st2 = self.statuses();
                    let edges = self.edges();
                    assert(st[x] is Pending);
                    assert forall|y: StepId| y != x implies st2[y] == st[y] by {}
                    assert(!before.outputs().contains_key(x));
                    assert(!before.step_errors().contains_key(x));
                    assert(st0[x] is Pending) by {
                        if st0[x] != st[x] {
                            assert(steps_moved_on(&s0, &before, x));
                        }
                    }
                    assert(self.needs_input(x) == s0.needs_input(x));
                    assert(self.statuses()[x] != st0[x] ==> steps_moved_on(&s0, self, x));
                    assert forall|y: StepId|
                        #![trigger self.statuses()[y]]
                        self.statuses()[y] != st0[y] implies steps_moved_on(&s0, self, y) by {
                        if y != x {
                            assert(before.statuses()[y] == self.statuses()[y]);
                            assert(steps_moved_on(&s0, &before, y));
                        }
                    }
                    assert forall|y: StepId| y != x implies st2[y] == st[y] by {}
                    Self::lemma_change_outside_prereqs(st, st2, edges, x, x);
                    assert forall|y: StepId|
                        #![trigger self.statuses()[y]]
                        self.step_ids().contains(y) implies step_consistent(self.statuses(), self.outputs(), self.edges(), y) by {
                        if y != x {
                            Self::lemma_change_keeps_others(st, before.outputs(), st2, self.outputs(), edges, x, y);
                        }
                    }
                    assert forall|q: int|
                        #![trigger self.order()[q]]
                        0 <= q < t + 1 implies step_settled(
                            self.statuses(),
                            self.edges(),
                            self.needs_input(self.order()[q]),
                            self.order()[q],
                        ) by {
                        let o = self.order();
                        if q < t {
                            assert(!has_edge(edges, o[t as int], o[q]));
                            assert(o[q] != o[t as int]);
                            Self::lemma_change_outside_prereqs(st, st2, edges, x, o[q]);
                        }
                    }
                    assert forall|y: StepId| #[trigger] self.step_errors().contains_key(y) implies self.statuses()[y] is Failed by {
                        if y != x {
                            assert(before.step_errors().contains_key(y));
                        }
                    }
                    assert forall|y: StepId|
                        #![trigger self.statuses()[y]]
                        self.step_ids().contains(y) implies !(self.statuses()[y] is Running) && (self.statuses()[y] is WaitingForInput
                            ==> self.needs_input(y)) by {
                        if y != x {
                            assert(before.statuses()[y] == self.statuses()[y]);
                        }
                    }
                    assert forall|y: StepId| #[trigger] self.outputs().contains_key(y) implies self.step_ids().contains(y) by {
                        if y != x {
                            assert(before.outputs().contains_key(y));
                        }
                    }
                    assert forall|y: StepId| self.statuses().contains_key(y) <==> self.step_ids().contains(y) by {
                        if y != x {
                            assert(self.statuses().contains_key(y) == before.statuses().contains_key(y));
                        }
                    }
                }
            } else {
                proof {
                    let o = self.order();
                    assert(self.statuses()[o[t as int]] == cur);
                    assert(self.step_ids().contains(x));
                    assert(step_consistent(self.statuses(), self.outputs(), self.edges(), x));
                }
            }
            t = t + 1;
        }
        proof {
            assert forall|y: StepId|
                #![trigger self.statuses()[y]]
                self.step_ids().contains(y) implies step_settled(self.statuses(), self.edges(), self.needs_input(y), y) by {
                let o = self.order();
                assert(o.contains(y));
                let q = choose|q: int| 0 <= q < o.len() && o[q] == y;
                assert(o[q] == y);
            }
        }
        let st = self.overall();
        let ghost looped = *self;
        self.status = st;
        if st.is_terminal() {
            self.completed_at = Some(now);
        }
        proof {
            assert(self.statuses() == looped.statuses());
            assert(self.outputs() == looped.outputs());
            assert(self.step_errors() == looped.step_errors());
            assert(self.order() == looped.order());
            assert(self.graph_wf() == looped.graph_wf());
            assert(self.core_wf());
            assert(self.settled());
            assert(self.status_wf());
        }
    }

    /// The overall status that the step statuses add up to.
    fn overall(&self) -> (r: WorkflowStatus)
        requires
            self.core_wf(),
        ensures
            r == overall_status(self.statuses(), self.step_ids()),
    {
        let ghost ids = self.step_ids();
        let ghost st = self.statuses();
        let mut all_terminal = true;
        let mut any_failed = false;
        let mut any_waiting = false;
        let mut i: usize = 0;
        while i < self.definition.steps.len()
            invariant
                self.core_wf(),
                ids == self.step_ids(),
                st == self.statuses(),
                i <= ids.len(),
                all_terminal == forall|q: int| 0 <= q < i ==> (#[trigger] st[ids[q]]).spec_is_terminal(),
                any_failed == exists|q: int| 0 <= q < i && (#[trigger] st[ids[q]]) is Failed,
                any_waiting == exists|q: int| 0 <= q < i && (#[trigger] st[ids[q]]) is WaitingForInput,
            decreases ids.len() - i,
        {
            let id = self.definition.steps[i].step_id();
            proof {
                assert(ids[i as int] == id);
                assert(ids.contains(id));
            }
            let s = self.status_of(id);
            if !s.is_terminal() {
                all_terminal = false;
            }
            if s == StepStatus::Failed {
                any_failed = true;
            }
            if s == StepStatus::WaitingForInput {
                any_waiting = true;
            }
            i = i + 1;
        }
        if all_terminal {
            if any_failed {
                WorkflowStatus::Failed
            } else {
                WorkflowStatus::Completed
            }
        } else if any_waiting {
            WorkflowStatus::WaitingForInput
        } else {
            WorkflowStatus::Running
        }
    }

    /// Starts a pending workflow at time `now`: it becomes `Running` and its
    /// steps are moved forward as far as they go without outside input.
    /// Refused with `InvalidState` unless the workflow is `Pending`.
    pub fn start(&mut self, now: i64) -> (r: Result<(), WorkflowError>)
        requires
            old(self).wf(),
        ensures
            final(self).wf(),
            r is Err <==> !(old(self).spec_status() is Pending),
            r is Err ==> r == Err::<(), WorkflowError>(WorkflowError::InvalidState(old(self).spec_id()))
                && *final(self) == *old(self),
            r is Ok ==> advanced(old(self), final(self), now) && final(self).spec_started_at() == Some(now),
    {
        if self.status != WorkflowStatus::Pending {
            return Err(WorkflowError::InvalidState(self.definition.id));
        }
        let ghost before = *self;
        self.status = WorkflowStatus::Running;
        self.started_at = Some(now);
        proof {
            assert(self.statuses() == before.statuses());
            assert(self.outputs() == before.outputs());
            assert(self.step_errors() == before.step_errors());
            assert(self.order() == before.order());
            assert(self.graph_wf() == before.graph_wf());
            assert(self.core_wf());
        }
        self.advance(now);
        Ok(())
    }

    /// Supplies the outcome of step `step_id`, which waits for input, at
    /// time `now`: a `Completed` result records its output, any other
    /// records a failure with the result's error. The workflow then moves
    /// forward as far as it goes. Refused with `AlreadyFinished` if the
    /// workflow is terminal, `InvalidState` if it has not started, and
    /// `StepNotWaiting` if the step does not wait for input.
    pub fn submit_result(&mut self, step_id: StepId, result: StepResult, now: i64) -> (r: Result<(), WorkflowError>)
        requires
            old(self).wf(),
        ensures
            final(self).wf(),
            r == submit_outcome(old(self), step_id),
            r is Err ==> *final(self) == *old(self),
            r is Ok ==> {
                let mid = old(self).statuses().insert(
                    step_id,
                    submitted_status(result),
                );
                &&& advanced_from(old(self), mid, final(self), now)
                &&& result.status is Completed ==> final(self).outputs().contains_key(step_id)
                    && final(self).outputs()[step_id] == result.output
                &&& !(result.status is Completed) ==> final(self).statuses()[step_id] is Failed
            },
    {
        if self.status.is_terminal() {
            return Err(WorkflowError::AlreadyFinished(self.definition.id));
        }
        if self.status == WorkflowStatus::Pending {
            return Err(WorkflowError::InvalidState(self.definition.id));
        }
        match self.steps_statuses.get(&step_id) {
            Some(StepStatus::WaitingForInput) => {},
            _ => {
                return Err(WorkflowError::StepNotWaiting(step_id));
            },
        }
        let ghost before = *self;
        let completed = result.status == StepStatus::Completed;
        let ghost out = result.output;
        self.record(step_id, result);
        proof {
            let st = before.statuses();
            let st2 = self.statuses();
            let edges = self.edges();
            assert(self.step_ids().contains(step_id));
            before.lemma_no_self_edge(step_id);
            assert(!before.step_errors().contains_key(step_id));
            assert forall|y: StepId| y != step_id implies st2[y] == st[y] by {}
            Self::lemma_change_outside_prereqs(st, st2, edges, step_id, step_id);
            assert forall|y: StepId|
                #![trigger self.statuses()[y]]
                self.step_ids().contains(y) implies step_consistent(self.statuses(), self.outputs(), self.edges(), y) by {
                if y != step_id {
                    Self::lemma_change_keeps_others(st, before.outputs(), st2, self.outputs(), edges, step_id, y);
                }
            }
            assert forall|y: StepId| #[trigger] self.step_errors().contains_key(y) implies self.statuses()[y] is Failed by {
                if y != step_id {
                    assert(before.step_errors().contains_key(y));
                }
            }
            assert forall|y: StepId|
                #![trigger self.statuses()[y]]
                self.step_ids().contains(y) implies !(self.statuses()[y] is Running) && (self.statuses()[y] is WaitingForInput
                    ==> self.needs_input(y)) by {
                if y != step_id {
                    assert(before.statuses()[y] == self.statuses()[y]);
                }
            }
            assert forall|y: StepId| #[trigger] self.outputs().contains_key(y) implies self.step_ids().contains(y) by {
                if y != step_id {
                    assert(before.outputs().contains_key(y));
                }
            }
            assert forall|y: StepId| self.statuses().contains_key(y) <==> self.step_ids().contains(y) by {
                if y != step_id {
                    assert(self.statuses().contains_key(y) == before.statuses().contains_key(y));
                }
            }
        }
        let ghost mid = *self;
        self.advance(now);
        proof {
            if completed {
                assert(mid.outputs().contains_key(step_id));
            }
            if !completed {
                assert(mid.statuses()[step_id] is Failed);
                assert(self.statuses()[step_id] == mid.statuses()[step_id]);
            }
        }
        Ok(())
    }

    /// Cancels the workflow at time `now`: it becomes `Cancelled` and its
    /// completion time is `now`. Refused with `AlreadyFinished` if the
    /// workflow is already terminal.
    pub fn cancel(&mut self, now: i64) -> (r: Result<(), WorkflowError>)
        requires
            old(self).wf(),
        ensures
            final(self).wf(),
            r is Err <==> old(self).spec_status().spec_is_terminal(),
            r is Err ==> r == Err::<(), WorkflowError>(WorkflowError::AlreadyFinished(old(self).spec_id()))
                && *final(self) == *old(self),
            r is Ok ==> {
                &&& final(self).spec_status() is Cancelled
                &&& final(self).spec_completed_at() == Some(now)
                &&& final(self).statuses() == old(self).statuses()
                &&& final(self).outputs() == old(self).outputs()
                &&& final(self).spec_definition() == old(self).spec_definition()
                &&& final(self).spec_started_at() == old(self).spec_started_at()
                &&& final(self).spec_created_at() == old(self).spec_created_at()
            },
    {
        if self.status.is_terminal() {
            return Err(WorkflowError::AlreadyFinished(self.definition.id));
        }
        let ghost before = *self;
        self.status = WorkflowStatus::Cancelled;
        self.completed_at = Some(now);
        proof {
            assert(self.statuses() == before.statuses());
            assert(self.outputs() == before.outputs());
            assert(self.step_errors() == before.step_errors());
            assert(self.order() == before.order());
            assert(self.graph_wf() == before.graph_wf());
            assert(self.core_wf());
        }
        Ok(())
    }

    /// Once a step has failed or been skipped, each of its direct dependents
    /// ends `Skipped`; applied along a chain, the skip reaches every step
    /// downstream.
    pub proof fn law_failure_skips_dependents(&self, a: StepId, b: StepId)
        requires
            self.wf(),
            !(self.spec_status() is Pending || self.spec_status() is Cancelled),
            has_edge(self.edges(), a, b),
            self.statuses()[a] is Failed || self.statuses()[a] is Skipped,
        ensures
            self.statuses()[b] is Skipped,
    {
        let k = choose|k: int| 0 <= k < self.edges().len() && #[trigger] self.edges()[k] == (a, b);
        self.lemma_edge_endpoints(k);
        assert(self.step_ids().contains(b));
        assert(step_settled(self.statuses(), self.edges(), self.needs_input(b), b));
        assert(step_consistent(self.statuses(), self.outputs(), self.edges(), b));
        assert(prereq_blocked(self.statuses(), self.edges(), b));
    }

    /// A workflow one of whose steps failed never ends `Completed`; once
    /// every step is terminal it is `Failed`.
    pub proof fn law_failed_step_fails_workflow(&self, a: StepId)
        requires
            self.wf(),
            !(self.spec_status() is Pending || self.spec_status() is Cancelled),
            self.step_ids().contains(a),
            self.statuses()[a] is Failed,
        ensures
            !(self.spec_status() is Completed),
            (forall|s: StepId| #[trigger] self.step_ids().contains(s) ==> self.statuses()[s].spec_is_terminal())
                ==> self.spec_status() is Failed,
    {
        let ids = self.step_ids();
        let st = self.statuses();
        let i = choose|i: int| 0 <= i < ids.len() && ids[i] == a;
        assert(st[ids[i]] is Failed);
        if forall|s: StepId| #[trigger] ids.contains(s) ==> st[s].spec_is_terminal() {
            assert forall|q: int| 0 <= q < ids.len() implies (#[trigger] st[ids[q]]).spec_is_terminal() by {
                assert(ids.contains(ids[q]));
            }
        }
    }

    /// A started workflow in which no step waits for input has finished:
    /// every step is terminal and the workflow is `Completed` or `Failed`.
    pub proof fn law_nothing_waiting_means_finished(&self)
        requires
            self.wf(),
            !(self.spec_status() is Pending || self.spec_status() is Cancelled),
            forall|s: StepId| #[trigger] self.step_ids().contains(s) ==> !(self.statuses()[s] is WaitingForInput),
        ensures
            forall|s: StepId| #[trigger] self.step_ids().contains(s) ==> self.statuses()[s].spec_is_terminal(),
            self.spec_status() is Completed || self.spec_status() is Failed,
    {
        let o = self.order();
        let ids = self.step_ids();
        let st = self.statuses();
        if o.len() > 0 {
            self.lemma_prefix_terminal((o.len() - 1) as int);
        }
        assert forall|s: StepId| #[trigger] ids.contains(s) implies st[s].spec_is_terminal() by {
            assert(o.contains(s));
            let q = choose|q: int| 0 <= q < o.len() && o[q] == s;
            assert(st[o[q]].spec_is_terminal());
        }
        assert forall|i: int| 0 <= i < ids.len() implies (#[trigger] st[ids[i]]).spec_is_terminal() by {
            assert(ids.contains(ids[i]));
        }
    }

    proof fn lemma_prefix_terminal(&self, p: int)
        requires
            self.wf(),
            !(self.spec_status() is Pending || self.spec_status() is Cancelled),
            forall|s: StepId| #[trigger] self.step_ids().contains(s) ==> !(self.statuses()[s] is WaitingForInput),
            0 <= p < self.order().len(),
        ensures
            forall|q: int| 0 <= q <= p ==> (#[trigger] self.statuses()[self.order()[q]]).spec_is_terminal(),
        decreases p,
    {
        let o = self.order();
        let st = self.statuses();
        let edges = self.edges();
        if p > 0 {
            self.lemma_prefix_terminal(p - 1);
        }
        let x = o[p];
        assert(o.contains(x));
        assert(self.step_ids().contains(x));
        assert(step_settled(st, edges, self.needs_input(x), x));
        if st[x] is Pending {
            assert(!prereqs_completed(st, edges, x));
            let k = choose|k: int| 0 <= k < edges.len() && (#[trigger] edges[k]).1 == x && !(st[edges[k].0] is Completed);
            let a = edges[k].0;
            self.lemma_edge_endpoints(k);
            assert(self.step_ids().contains(a));
            assert(o.contains(a));
            let q = choose|q: int| 0 <= q < o.len() && o[q] == a;
            assert(has_edge(edges, o[q], o[p])) by {
                assert(edges[k] == (o[q], o[p]));
            }
            if q >= p {
                assert(!has_edge(edges, o[q], o[p]));
            }
            assert(st[o[q]].spec_is_terminal());
            assert(prereq_blocked(st, edges, x));
        }
    }

    /// The output a completed step recorded is the value each of its
    /// direct dependents finds among its prior outputs.
    pub proof fn law_output_reaches_dependents(&self, p: StepId, d: StepId)
        requires
            self.core_wf(),
            has_edge(self.edges(), p, d),
            self.statuses()[p] is Completed,
        ensures
            prior_outputs(self.outputs(), self.edges(), d).contains_key(p),
            prior_outputs(self.outputs(), self.edges(), d)[p] == self.outputs()[p],
    {
        let k = choose|k: int| 0 <= k < self.edges().len() && #[trigger] self.edges()[k] == (p, d);
        self.lemma_edge_endpoints(k);
        assert(self.step_ids().contains(p));
        assert(step_consistent(self.statuses(), self.outputs(), self.edges(), p));
        assert(Set::new(|x: StepId| has_edge(self.edges(), x, d)).contains(p));
    }

    /// The context step `step_id` runs with: a `null` input, the outputs of
    /// its completed prerequisites, and the shared values. `None` if the
    /// workflow has no such step.
    pub fn step_context(&self, step_id: StepId) -> (r: Option<StepContext>)
        requires
            self.core_wf(),
        ensures
            r is None <==> !self.step_ids().contains(step_id),
            r matches Some(c) ==> {
                &&& c.previous_outputs@ == prior_outputs(self.outputs(), self.edges(), step_id)
                &&& c.global@ == self.spec_global()
            },
    {
        if self.steps_statuses.get(&step_id).is_none() {
            return None;
        }
        let mut prev: HashMap<StepId, serde_json::Value> = HashMap::new();
        let mut k: usize = 0;
        let ghost edges = self.edges();
        let ghost outs = self.outputs();
        while k < self.definition.dependencies.len()
            invariant
                k <= edges.len(),
                edges == self.definition.dependencies@,
                outs == self.outputs@,
                forall|a: StepId|
                    #[trigger] prev@.contains_key(a) <==> (outs.contains_key(a) && edge_among(edges, k as int, a, step_id)),
                forall|a: StepId| #[trigger] prev@.contains_key(a) ==> prev@[a] == outs[a],
            decreases edges.len() - k,
        {
            let (a, b) = self.definition.dependencies[k];
            let ghost before = prev@;
            if b == step_id {
                match self.outputs.get(&a) {
                    Some(v) => {
                        prev.insert(a, v.clone());
                    },
                    None => {},
                }
            }
            proof {
                assert(edges[k as int] == (a, b));
                assert forall|x: StepId|
                    #[trigger] prev@.contains_key(x) <==> (outs.contains_key(x) && edge_among(edges, k + 1, x, step_id)) by {
                    if outs.contains_key(x) && edge_among(edges, k + 1, x, step_id) {
                        let q = choose|q: int| 0 <= q < k + 1 && #[trigger] edges[q] == (x, step_id);
                        if q < k {
                            assert(edge_among(edges, k as int, x, step_id));
                            assert(before.contains_key(x));
                        }
                    }
                    if prev@.contains_key(x) && !before.contains_key(x) {
                        assert(edges[k as int] == (x, step_id));
                    }
                    if prev@.contains_key(x) && before.contains_key(x) {
                        let q = choose|q: int| 0 <= q < k && #[trigger] edges[q] == (x, step_id);
                        assert(edges[q] == (x, step_id));
                    }
                }
            }
            k = k + 1;
        }
        proof {
            assert forall|a: StepId| edge_among(edges, edges.len() as int, a, step_id) == has_edge(edges, a, step_id) by {}
            assert(prev@ =~= prior_outputs(outs, edges, step_id));
        }
        Some(StepContext { input: null_value(), previous_outputs: prev, global: self.global.clone() })
    }
}

/// The ids of `steps`, in order.
fn step_id_list(steps: &Vec<WorkflowStep>) -> (r: Vec<StepId>)
    ensures
        r@ == steps@.map_values(|s: WorkflowStep| s.spec_id()),
{
    let mut r: Vec<StepId> = Vec::new();
    let mut i: usize = 0;
    while i < steps.len()
        invariant
            i <= steps@.len(),
            r@ =~= steps@.subrange(0, i as int).map_values(|s: WorkflowStep| s.spec_id()),
        decreases steps@.len() - i,
    {
        r.push(steps[i].step_id());
        i = i + 1;
    }
    assert(steps@.subrange(0, steps@.len() as int) == steps@);
    r
}

} // verus!
