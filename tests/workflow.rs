use raco::engine::WorkflowEngine;
use raco::graph::{DependencyGraph, GraphError};
use raco::instance::{WorkflowDefinition, WorkflowError, WorkflowInstance};
use raco::init;
use raco::status::{StepStatus, WorkflowStatus};
use raco::steps::{
    CodeGenerationStep, HumanInputStep, MockStep, Step, StepContext, StepResult, WorkflowStep,
};
use std::collections::HashMap;

fn mock(id: u128) -> WorkflowStep {
    WorkflowStep::Mock(MockStep::new(id))
}

fn human(id: u128) -> WorkflowStep {
    WorkflowStep::HumanInput(HumanInputStep::new(
        id,
        "Approve".to_string(),
        "Wait for approval".to_string(),
        "Approve?".to_string(),
    ))
}

fn definition(id: u128, steps: Vec<WorkflowStep>, dependencies: Vec<(u128, u128)>) -> WorkflowDefinition {
    WorkflowDefinition {
        id,
        name: "Test Workflow".to_string(),
        description: "A test workflow".to_string(),
        steps,
        dependencies,
    }
}

fn create_test_workflow() -> WorkflowDefinition {
    let step1 = MockStep::new(uuid::Uuid::new_v4().as_u128());
    let step2 = MockStep::new(uuid::Uuid::new_v4().as_u128());
    let step1_id = step1.id();
    let step2_id = step2.id();
    definition(
        uuid::Uuid::new_v4().as_u128(),
        vec![WorkflowStep::Mock(step1), WorkflowStep::Mock(step2)],
        vec![(step1_id, step2_id)],
    )
}

fn failed(message: &str) -> StepResult {
    StepResult {
        output: serde_json::Value::Null,
        status: StepStatus::Failed,
        error: Some(message.to_string()),
    }
}

#[test]
fn test_init() {
    assert!(init().is_ok());
}

#[test]
fn test_workflow_instance_creation() {
    let definition = create_test_workflow();
    let instance = WorkflowInstance::new(definition);
    assert!(instance.is_ok());
}

#[test]
fn test_workflow_engine_creation() {
    let engine = WorkflowEngine::new();
    assert!(engine.is_empty());
}

#[test]
fn test_workflow_lifecycle() {
    let mut engine = WorkflowEngine::new();
    let definition = create_test_workflow();

    let result = engine.create_workflow(definition);
    assert!(result.is_ok());
    let id = result.unwrap();

    let instance = engine.get_workflow(id);
    assert!(instance.is_some());
    assert_eq!(instance.unwrap().status(), WorkflowStatus::Pending);

    let result = engine.start_workflow(id);
    assert!(result.is_ok());

    let instance = engine.get_workflow(id).unwrap();
    assert_eq!(instance.status(), WorkflowStatus::Completed);
}

#[test]
fn test_workflow_cancellation() {
    let mut engine = WorkflowEngine::new();
    let definition = create_test_workflow();

    let id = engine.create_workflow(definition).unwrap();

    let result = engine.cancel_workflow(id);
    assert!(result.is_ok());

    let instance = engine.get_workflow(id).unwrap();
    assert_eq!(instance.status(), WorkflowStatus::Cancelled);
}

#[test]
fn test_human_input_step() {
    let step = HumanInputStep::new(
        uuid::Uuid::new_v4().as_u128(),
        "Test".to_string(),
        "Test description".to_string(),
        "Please provide input".to_string(),
    );

    assert!(step.requires_human_input());
    assert_eq!(step.human_input_prompt(), Some("Please provide input".to_string()));
}

#[test]
fn test_step_execution() {
    let step = HumanInputStep::new(
        uuid::Uuid::new_v4().as_u128(),
        "Test".to_string(),
        "Test description".to_string(),
        "Please provide input".to_string(),
    );

    let context = StepContext {
        input: serde_json::Value::Object(serde_json::Map::new()),
        previous_outputs: HashMap::new(),
        global: HashMap::new(),
    };

    let result = step.execute(&context);
    assert_eq!(result.status, StepStatus::Completed);
    assert!(result.error.is_none());
    assert_eq!(result.output["human_input"], "dummy response");
}

#[test]
fn created_workflow_has_all_steps_pending() {
    let mut engine = WorkflowEngine::new();
    let def = definition(1, vec![mock(10), mock(11), mock(12)], vec![(10, 11), (11, 12)]);
    let id = engine.create_workflow(def).unwrap();
    assert_eq!(id, 1);
    let w = engine.get_workflow(id).unwrap();
    assert_eq!(w.status(), WorkflowStatus::Pending);
    assert_eq!(w.all_step_statuses().len(), 3);
    for id in [10u128, 11, 12] {
        assert_eq!(w.step_status(id), Some(StepStatus::Pending));
    }
    assert_eq!(w.step_status(13), None);
    assert!(w.started_at().is_none());
    assert!(w.completed_at().is_none());
}

#[test]
fn two_step_cycle_is_rejected_and_nothing_registered() {
    let mut engine = WorkflowEngine::new();
    let def = definition(2, vec![mock(1), mock(2)], vec![(1, 2), (2, 1)]);
    let r = engine.create_workflow(def);
    assert!(matches!(r, Err(WorkflowError::CircularDependency(x)) if x == 1 || x == 2));
    assert!(engine.is_empty());
    assert!(engine.get_workflow(2).is_none());
}

#[test]
fn self_loop_is_rejected() {
    let r = WorkflowInstance::new(definition(3, vec![mock(1)], vec![(1, 1)]));
    assert!(matches!(r, Err(WorkflowError::CircularDependency(1))));
}

#[test]
fn longer_cycle_is_rejected() {
    let r = DependencyGraph::build(&vec![1, 2, 3, 4], &vec![(1, 2), (2, 3), (3, 4), (4, 2)]);
    assert!(matches!(r, Err(GraphError::CircularDependency(x)) if x == 2 || x == 3 || x == 4));
}

#[test]
fn unknown_step_in_edge_is_rejected() {
    let mut engine = WorkflowEngine::new();
    let r = engine.create_workflow(definition(4, vec![mock(1), mock(2)], vec![(1, 2), (2, 9)]));
    assert!(matches!(r, Err(WorkflowError::StepNotFound(9))));
    assert!(engine.is_empty());
    let r = WorkflowInstance::new(definition(4, vec![mock(1)], vec![(7, 1)]));
    assert!(matches!(r, Err(WorkflowError::StepNotFound(7))));
}

#[test]
fn unknown_step_is_reported_before_a_cycle() {
    let r = DependencyGraph::build(&vec![1, 2], &vec![(1, 2), (2, 1), (2, 5)]);
    assert_eq!(r.err(), Some(GraphError::StepNotFound(5)));
}

#[test]
fn empty_workflow_completes() {
    let mut engine = WorkflowEngine::new();
    let id = engine.create_workflow(definition(5, vec![], vec![])).unwrap();
    engine.start_workflow(id).unwrap();
    let w = engine.get_workflow(id).unwrap();
    assert_eq!(w.status(), WorkflowStatus::Completed);
    assert!(w.completed_at().is_some());
}

#[test]
fn two_independent_steps_complete_and_second_start_fails() {
    let mut engine = WorkflowEngine::new();
    let id = engine.create_workflow(definition(6, vec![mock(1), mock(2)], vec![])).unwrap();
    assert!(engine.start_workflow(id).is_ok());
    let w = engine.get_workflow(id).unwrap();
    assert_eq!(w.step_status(1), Some(StepStatus::Completed));
    assert_eq!(w.step_status(2), Some(StepStatus::Completed));
    assert_eq!(w.status(), WorkflowStatus::Completed);
    assert!(w.started_at().is_some());
    assert!(w.completed_at().is_some());
    assert_eq!(engine.start_workflow(id), Err(WorkflowError::InvalidState(id)));
    assert_eq!(engine.get_workflow(id).unwrap().status(), WorkflowStatus::Completed);
}

#[test]
fn starting_unknown_workflow_fails() {
    let mut engine = WorkflowEngine::new();
    assert_eq!(engine.start_workflow(77), Err(WorkflowError::NotFound(77)));
    assert_eq!(engine.cancel_workflow(77), Err(WorkflowError::NotFound(77)));
}

#[test]
fn failure_of_first_step_skips_the_chain() {
    let mut engine = WorkflowEngine::new();
    let id = engine
        .create_workflow(definition(7, vec![human(1), mock(2), mock(3)], vec![(1, 2), (2, 3)]))
        .unwrap();
    engine.start_workflow_at(id, 100).unwrap();
    let w = engine.get_workflow(id).unwrap();
    assert_eq!(w.step_status(1), Some(StepStatus::WaitingForInput));
    assert_eq!(w.step_status(2), Some(StepStatus::Pending));
    assert_eq!(w.status(), WorkflowStatus::WaitingForInput);

    engine.submit_step_result_at(id, 1, failed("rejected"), 200).unwrap();
    let w = engine.get_workflow(id).unwrap();
    assert_eq!(w.step_status(1), Some(StepStatus::Failed));
    assert_eq!(w.step_status(2), Some(StepStatus::Skipped));
    assert_eq!(w.step_status(3), Some(StepStatus::Skipped));
    assert_eq!(w.status(), WorkflowStatus::Failed);
    assert_eq!(w.step_error(1), Some(&"rejected".to_string()));
    assert_eq!(w.started_at(), Some(100));
    assert_eq!(w.completed_at(), Some(200));
}

#[test]
fn waiting_step_blocks_only_its_branch() {
    let mut engine = WorkflowEngine::new();
    let id = engine
        .create_workflow(definition(8, vec![human(1), mock(2), mock(3)], vec![(1, 2)]))
        .unwrap();
    engine.start_workflow_at(id, 5).unwrap();
    let w = engine.get_workflow(id).unwrap();
    assert_eq!(w.step_status(1), Some(StepStatus::WaitingForInput));
    assert_eq!(w.step_status(2), Some(StepStatus::Pending));
    assert_eq!(w.step_status(3), Some(StepStatus::Completed));
    assert_eq!(w.status(), WorkflowStatus::WaitingForInput);
    assert!(w.completed_at().is_none());


    let mut answer = serde_json::Map::new();
    answer.insert("human_input".to_string(), serde_json::Value::from("approved"));
    let answer = serde_json::Value::Object(answer);
    let done = StepResult { output: answer.clone(), status: StepStatus::Completed, error: None };
    engine.submit_step_result_at(id, 1, done, 9).unwrap();
    let w = engine.get_workflow(id).unwrap();
    assert_eq!(w.step_status(1), Some(StepStatus::Completed));
    assert_eq!(w.step_status(2), Some(StepStatus::Completed));
    assert_eq!(w.status(), WorkflowStatus::Completed);
    assert_eq!(w.step_output(1), Some(&answer));
    assert_eq!(w.completed_at(), Some(9));
}

#[test]
fn prerequisite_output_reaches_dependent_context() {
    let mut engine = WorkflowEngine::new();
    let id = engine
        .create_workflow(definition(9, vec![human(1), human(2), human(3)], vec![(1, 3), (2, 3)]))
        .unwrap();
    engine.start_workflow_at(id, 1).unwrap();
    let payload = serde_json::Value::Array(vec![
        serde_json::Value::from(1),
        serde_json::Value::from("two"),
        serde_json::Value::Null,
    ]);
    let result = StepResult { output: payload.clone(), status: StepStatus::Completed, error: None };
    engine.submit_step_result_at(id, 1, result, 2).unwrap();
    let w = engine.get_workflow(id).unwrap();
    let context = w.step_context(3).unwrap();
    assert_eq!(context.previous_outputs.len(), 1);
    assert_eq!(context.previous_outputs.get(&1), Some(&payload));
    assert!(context.previous_outputs.get(&2).is_none());
    assert!(w.step_context(4).is_none());
}

#[test]
fn submitting_to_a_step_that_does_not_wait_fails() {
    let mut engine = WorkflowEngine::new();
    let id = engine.create_workflow(definition(10, vec![human(1), mock(2)], vec![])).unwrap();
    let done = StepResult { output: serde_json::Value::Null, status: StepStatus::Completed, error: None };
    assert_eq!(
        engine.submit_step_result_at(id, 1, done.clone(), 1),
        Err(WorkflowError::InvalidState(id))
    );
    engine.start_workflow_at(id, 1).unwrap();
    assert_eq!(
        engine.submit_step_result_at(id, 2, done.clone(), 2),
        Err(WorkflowError::StepNotWaiting(2))
    );
    assert_eq!(
        engine.submit_step_result_at(id, 5, done.clone(), 2),
        Err(WorkflowError::StepNotWaiting(5))
    );
    assert_eq!(engine.submit_step_result_at(99, 1, done, 2), Err(WorkflowError::NotFound(99)));
}

#[test]
fn cancelling_running_workflow_then_again() {
    let mut engine = WorkflowEngine::new();
    let id = engine.create_workflow(definition(11, vec![human(1)], vec![])).unwrap();
    engine.start_workflow_at(id, 3).unwrap();
    assert_eq!(engine.get_workflow(id).unwrap().status(), WorkflowStatus::WaitingForInput);
    assert!(engine.cancel_workflow_at(id, 4).is_ok());
    let w = engine.get_workflow(id).unwrap();
    assert_eq!(w.status(), WorkflowStatus::Cancelled);
    assert_eq!(w.completed_at(), Some(4));
    assert_eq!(engine.cancel_workflow_at(id, 5), Err(WorkflowError::AlreadyFinished(id)));
    let done = StepResult { output: serde_json::Value::Null, status: StepStatus::Completed, error: None };
    assert_eq!(engine.submit_step_result_at(id, 1, done, 6), Err(WorkflowError::AlreadyFinished(id)));
    assert_eq!(engine.get_workflow(id).unwrap().completed_at(), Some(4));
}

#[test]
fn cancelling_completed_workflow_fails() {
    let mut engine = WorkflowEngine::new();
    let id = engine.create_workflow(definition(12, vec![mock(1)], vec![])).unwrap();
    engine.start_workflow(id).unwrap();
    assert_eq!(engine.cancel_workflow(id), Err(WorkflowError::AlreadyFinished(id)));
    assert_eq!(engine.get_workflow(id).unwrap().status(), WorkflowStatus::Completed);
}

#[test]
fn code_generation_step_produces_code() {
    let step = CodeGenerationStep::new(
        4,
        "Generate".to_string(),
        "Generate code".to_string(),
        "fn {{name}}() {}".to_string(),
    );
    assert!(!step.requires_human_input());
    assert_eq!(step.human_input_prompt(), None);
    assert_eq!(step.name(), "Generate");
    assert_eq!(step.id(), 4);
    let context = StepContext {
        input: serde_json::Value::Null,
        previous_outputs: HashMap::new(),
        global: HashMap::new(),
    };
    let result = step.execute(&context);
    assert_eq!(result.status, StepStatus::Completed);
    assert!(result.output["generated_code"].as_str().unwrap().contains("Hello, world!"));
    assert_eq!(
        step.output_schema().unwrap(),
        serde_json::from_str::<serde_json::Value>(
            r#"{"type":"object","properties":{"generated_code":{"type":"string"}}}"#
        )
        .unwrap()
    );
    assert_eq!(
        step.input_schema().unwrap(),
        serde_json::from_str::<serde_json::Value>(
            r#"{"type":"object","properties":{"parameters":{"type":"object"}}}"#
        )
        .unwrap()
    );
    assert!(step.validate_input(&serde_json::Value::Null).is_ok());
}

#[test]
fn mock_step_outputs_empty_object() {
    let step = MockStep::new(8);
    let context = StepContext {
        input: serde_json::Value::Null,
        previous_outputs: HashMap::new(),
        global: HashMap::new(),
    };
    let result = step.execute(&context);
    assert_eq!(result.output, serde_json::Value::Object(serde_json::Map::new()));
    assert_eq!(step.name(), "Mock Step");
}

#[test]
fn completed_steps_record_outputs() {
    let mut engine = WorkflowEngine::new();
    let def = definition(
        13,
        vec![
            WorkflowStep::CodeGeneration(CodeGenerationStep::new(
                1,
                "Gen".to_string(),
                "Gen".to_string(),
                "t".to_string(),
            )),
            mock(2),
        ],
        vec![(1, 2)],
    );
    let id = engine.create_workflow(def).unwrap();
    engine.start_workflow(id).unwrap();
    let w = engine.get_workflow(id).unwrap();
    assert!(w.step_output(1).unwrap()["generated_code"].is_string());
    assert_eq!(w.step_output(2), Some(&serde_json::Value::Object(serde_json::Map::new())));
    let context = w.step_context(2).unwrap();
    assert_eq!(context.previous_outputs.get(&1), w.step_output(1));
    assert_eq!(context.input, serde_json::Value::Null);
}

#[test]
fn graph_order_respects_edges() {
    let g = DependencyGraph::build(&vec![3, 1, 2, 1], &vec![(2, 1), (3, 2)]).unwrap();
    let order: Vec<u128> = (0..g.order_len()).map(|t| g.order_id(t)).collect();
    assert_eq!(order, vec![3, 2, 1]);
}

#[test]
fn instance_holds_petgraph_graph_of_steps_and_edges() {
    let w = WorkflowInstance::new(definition(14, vec![mock(5), mock(6), mock(7), mock(5)], vec![(5, 6), (6, 7), (5, 7)]))
        .unwrap();
    let g = w.dependency_graph().digraph();
    assert_eq!(g.node_count(), 3);
    assert_eq!(g.edge_count(), 3);
    let weights: Vec<u128> = g.node_indices().map(|i| g[i]).collect();
    assert_eq!(weights, vec![5, 6, 7]);
    let edges: Vec<(usize, usize)> = g.edge_indices().map(|e| g.edge_endpoints(e).unwrap()).map(|(a, b)| (a.index(), b.index())).collect();
    assert_eq!(edges, vec![(0, 1), (1, 2), (0, 2)]);
    assert!(!petgraph::algo::is_cyclic_directed(g));
}

#[test]
fn human_input_step_accessors_and_schema() {
    let step = HumanInputStep::new(3, "Ask".to_string(), "Ask someone".to_string(), "Why?".to_string());
    assert_eq!(step.id(), 3);
    assert_eq!(step.name(), "Ask");
    assert_eq!(step.description(), "Ask someone");
    assert!(step.input_schema().is_none());
    assert_eq!(
        step.output_schema().unwrap(),
        serde_json::from_str::<serde_json::Value>(
            r#"{"type":"object","properties":{"human_input":{"type":"string"}}}"#
        )
        .unwrap()
    );
    assert!(step.validate_input(&serde_json::Value::Null).is_ok());
}

#[test]
fn cycle_error_names_a_step_on_the_cycle() {
    // C only depends on the cycle A <-> B; the error must name A or B.
    let r = WorkflowInstance::new(definition(15, vec![mock(3), mock(1), mock(2)], vec![(1, 2), (2, 1), (1, 3)]));
    assert!(matches!(r, Err(WorkflowError::CircularDependency(x)) if x == 1 || x == 2));
    let r = DependencyGraph::build(&vec![9, 8, 1, 2, 3], &vec![(1, 2), (2, 3), (3, 1), (3, 8), (8, 9)]);
    assert!(matches!(r, Err(GraphError::CircularDependency(x)) if x == 1 || x == 2 || x == 3));
}

#[test]
fn duplicate_workflow_id_is_refused() {
    let mut engine = WorkflowEngine::new();
    let id = engine.create_workflow(definition(16, vec![mock(1)], vec![])).unwrap();
    engine.start_workflow(id).unwrap();
    let r = engine.create_workflow(definition(16, vec![mock(2)], vec![]));
    assert_eq!(r, Err(WorkflowError::AlreadyExists(16)));
    let w = engine.get_workflow(16).unwrap();
    assert_eq!(w.status(), WorkflowStatus::Completed);
    assert_eq!(w.step_status(1), Some(StepStatus::Completed));
}
