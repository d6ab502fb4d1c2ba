//! Workflow steps: what a step receives, what it returns, and the kinds of
//! step a workflow can hold.
use std::collections::HashMap;
use vstd::prelude::*;

use crate::graph::StepId;
use crate::payload::{
    empty_object, field_schema, json_object, json_string, object_schema, single_member, string_value,
};
use crate::status::StepStatus;

verus! {

/// What a step is given when it runs.
#[derive(Debug, Clone)]
pub struct StepContext {
    /// The step's own input.
    pub input: serde_json::Value,
    /// The outputs of the step's completed prerequisites, by step id.
    pub previous_outputs: HashMap<StepId, serde_json::Value>,
    /// Values shared by all steps of the workflow.
    pub global: HashMap<String, serde_json::Value>,
}

/// What a step hands back when it has run.
#[derive(Debug, Clone)]
pub struct StepResult {
    /// The step's output.
    pub output: serde_json::Value,
    /// The status the step ended in.
    pub status: StepStatus,
    /// Why the step failed, if it did.
    pub error: Option<String>,
}

/// The code a code generation step produces.
pub const GENERATED_CODE: &'static str = "// Generated code\nfn main() {\n    println!(\"Hello, world!\");\n}";

/// The capability every kind of step offers.
pub trait Step {
    /// The step's identity.
    spec fn spec_step_id(&self) -> StepId;

    /// The step's display name.
    spec fn spec_name_text(&self) -> Seq<char>;

    /// What the step does.
    spec fn spec_description_text(&self) -> Seq<char>;

    /// Whether the step waits for outside input.
    spec fn spec_needs_input(&self) -> bool;

    /// The prompt shown when the step waits for input, if any.
    spec fn spec_prompt_text(&self) -> Option<Seq<char>>;

    /// The schema of the input the step expects, if it declares one.
    spec fn spec_input_schema(&self) -> Option<serde_json::Value>;

    /// The schema of the output the step produces, if it declares one.
    spec fn spec_output_schema(&self) -> Option<serde_json::Value>;

    /// Whether running the step always completes, with `spec_output`.
    spec fn spec_completes(&self) -> bool;

    /// The output the step produces when it completes.
    spec fn spec_output(&self) -> serde_json::Value;

    /// Whether the step accepts `input`.
    spec fn spec_accepts(&self, input: serde_json::Value) -> bool;

    /// The step's identity.
    fn id(&self) -> (r: StepId)
        ensures
            r == self.spec_step_id(),
    ;

    /// The step's display name.
    fn name(&self) -> (r: &str)
        ensures
            r@ == self.spec_name_text(),
    ;

    /// What the step does.
    fn description(&self) -> (r: &str)
        ensures
            r@ == self.spec_description_text(),
    ;

    /// The shape of input the step expects, if it declares one.
    fn input_schema(&self) -> (r: Option<serde_json::Value>)
        ensures
            r == self.spec_input_schema(),
    ;

    /// The shape of output the step produces, if it declares one.
    fn output_schema(&self) -> (r: Option<serde_json::Value>)
        ensures
            r == self.spec_output_schema(),
    ;

    /// Runs the step; it ends in a terminal status.
    fn execute(&self, context: &StepContext) -> (r: StepResult)
        ensures
            r.status.spec_is_terminal(),
            self.spec_completes() ==> r.status == StepStatus::Completed && r.error is None && r.output
                == self.spec_output(),
    ;

    /// Checks the step's input, with a reason when it is refused.
    fn validate_input(&self, input: &serde_json::Value) -> (r: Result<(), String>)
        ensures
            r is Ok <==> self.spec_accepts(*input),
    ;

    /// Whether the step waits for outside (human) input before it can finish.
    fn requires_human_input(&self) -> (r: bool)
        ensures
            r == self.spec_needs_input(),
    ;

    /// The prompt shown to whoever supplies the input, if the step waits for one.
    fn human_input_prompt(&self) -> (r: Option<String>)
        ensures
            match r {
                Some(p) => self.spec_prompt_text() == Some(p@),
                None => self.spec_prompt_text() is None,
            },
    ;
}

/// The output a human input step gives when run directly.
pub open spec fn human_placeholder_output() -> serde_json::Value {
    json_object(seq![("human_input"@, json_string("dummy response"@))])
}

/// The output a code generation step gives.
pub open spec fn generated_code_output() -> serde_json::Value {
    json_object(seq![("generated_code"@, json_string(GENERATED_CODE@))])
}

/// A step that waits for a person to supply its output.
#[derive(Debug, Clone)]
pub struct HumanInputStep {
    id: StepId,
    name: String,
    description: String,
    prompt: String,
}

impl HumanInputStep {
    /// A human input step with the given identity, texts and prompt.
    pub fn new(id: StepId, name: String, description: String, prompt: String) -> (r: Self)
        ensures
            r.spec_id() == id,
            r.spec_name() == name,
            r.spec_description() == description,
            r.spec_prompt() == prompt,
            r.spec_step_id() == id,
            r.spec_needs_input(),
            r.spec_prompt_text() == Some(prompt@),
            r.spec_name_text() == name@,
            r.spec_description_text() == description@,
    {
        HumanInputStep { id, name, description, prompt }
    }

    /// The placeholder response the step gives when run directly.
    pub fn outcome(&self) -> (r: StepResult)
        ensures
            r.status == StepStatus::Completed,
            r.error is None,
            r.output == human_placeholder_output(),
    {
        StepResult {
            output: single_member("human_input", string_value("dummy response")),
            status: StepStatus::Completed,
            error: None,
        }
    }

    /// The prompt shown to whoever supplies the input.
    pub closed spec fn spec_prompt(&self) -> String {
        self.prompt
    }

    /// The step's display name.
    pub closed spec fn spec_name(&self) -> String {
        self.name
    }

    /// What the step does.
    pub closed spec fn spec_description(&self) -> String {
        self.description
    }

    /// The step's identity.
    pub closed spec fn spec_id(&self) -> StepId {
        self.id
    }
}

impl Step for HumanInputStep {
    open spec fn spec_step_id(&self) -> StepId {
        self.spec_id()
    }

    open spec fn spec_name_text(&self) -> Seq<char> {
        self.spec_name()@
    }

    open spec fn spec_description_text(&self) -> Seq<char> {
        self.spec_description()@
    }

    open spec fn spec_needs_input(&self) -> bool {
        true
    }

    open spec fn spec_prompt_text(&self) -> Option<Seq<char>> {
        Some(self.spec_prompt()@)
    }

    open spec fn spec_input_schema(&self) -> Option<serde_json::Value> {
        None
    }

    open spec fn spec_output_schema(&self) -> Option<serde_json::Value> {
        Some(field_schema("human_input"@, "string"@))
    }

    open spec fn spec_completes(&self) -> bool {
        true
    }

    open spec fn spec_output(&self) -> serde_json::Value {
        human_placeholder_output()
    }

    open spec fn spec_accepts(&self, input: serde_json::Value) -> bool {
        true
    }

    fn id(&self) -> StepId {
        self.id
    }

    fn name(&self) -> &str {
        self.name.as_str()
    }

    fn description(&self) -> &str {
        self.description.as_str()
    }

    fn input_schema(&self) -> Option<serde_json::Value> {
        None
    }

    fn output_schema(&self) -> Option<serde_json::Value> {
        Some(object_schema("human_input", "string"))
    }

    fn execute(&self, context: &StepContext) -> StepResult {
        self.outcome()
    }

    fn validate_input(&self, input: &serde_json::Value) -> Result<(), String> {
        Ok(())
    }

    fn requires_human_input(&self) -> bool {
        true
    }

    fn human_input_prompt(&self) -> Option<String> {
        Some(self.prompt.clone())
    }
}

/// A step that generates code from a template.
#[derive(Debug, Clone)]
pub struct CodeGenerationStep {
    id: StepId,
    name: String,
    description: String,
    template: String,
}

impl CodeGenerationStep {
    /// A code generation step with the given identity, texts and template.
    pub fn new(id: StepId, name: String, description: String, template: String) -> (r: Self)
        ensures
            r.spec_id() == id,
            r.spec_name() == name,
            r.spec_description() == description,
            r.spec_template() == template,
            r.spec_step_id() == id,
            !r.spec_needs_input(),
            r.spec_prompt_text() is None,
            r.spec_name_text() == name@,
            r.spec_description_text() == description@,
    {
        CodeGenerationStep { id, name, description, template }
    }

    /// The code the step generates, wrapped as its output.
    pub fn outcome(&self) -> (r: StepResult)
        ensures
            r.status == StepStatus::Completed,
            r.error is None,
            r.output == generated_code_output(),
    {
        StepResult {
            output: single_member("generated_code", string_value(GENERATED_CODE)),
            status: StepStatus::Completed,
            error: None,
        }
    }

    /// The step's identity.
    pub closed spec fn spec_id(&self) -> StepId {
        self.id
    }

    /// The step's display name.
    pub closed spec fn spec_name(&self) -> String {
        self.name
    }

    /// What the step does.
    pub closed spec fn spec_description(&self) -> String {
        self.description
    }

    /// The template code is generated from.
    pub closed spec fn spec_template(&self) -> String {
        self.template
    }
}

impl Step for CodeGenerationStep {
    open spec fn spec_step_id(&self) -> StepId {
        self.spec_id()
    }

    open spec fn spec_name_text(&self) -> Seq<char> {
        self.spec_name()@
    }

    open spec fn spec_description_text(&self) -> Seq<char> {
        self.spec_description()@
    }

    open spec fn spec_needs_input(&self) -> bool {
        false
    }

    open spec fn spec_prompt_text(&self) -> Option<Seq<char>> {
        None
    }

    open spec fn spec_input_schema(&self) -> Option<serde_json::Value> {
        Some(field_schema("parameters"@, "object"@))
    }

    open spec fn spec_output_schema(&self) -> Option<serde_json::Value> {
        Some(field_schema("generated_code"@, "string"@))
    }

    open spec fn spec_completes(&self) -> bool {
        true
    }

    open spec fn spec_output(&self) -> serde_json::Value {
        generated_code_output()
    }

    open spec fn spec_accepts(&self, input: serde_json::Value) -> bool {
        true
    }

    fn id(&self) -> StepId {
        self.id
    }

    fn name(&self) -> &str {
        self.name.as_str()
    }

    fn description(&self) -> &str {
        self.description.as_str()
    }

    fn input_schema(&self) -> Option<serde_json::Value> {
        Some(object_schema("parameters", "object"))
    }

    fn output_schema(&self) -> Option<serde_json::Value> {
        Some(object_schema("generated_code", "string"))
    }

    fn execute(&self, context: &StepContext) -> StepResult {
        self.outcome()
    }

    fn validate_input(&self, input: &serde_json::Value) -> Result<(), String> {
        Ok(())
    }

    fn requires_human_input(&self) -> bool {
        false
    }

    fn human_input_prompt(&self) -> Option<String> {
        None
    }
}

/// A step that does nothing and completes with an empty object.
#[derive(Debug, Clone)]
pub struct MockStep {
    id: StepId,
}

impl MockStep {
    /// A no-op step with the given identity.
    pub fn new(id: StepId) -> (r: Self)
        ensures
            r.spec_id() == id,
            r.spec_step_id() == id,
            !r.spec_needs_input(),
            r.spec_prompt_text() is None,
    {
        MockStep { id }
    }

    /// Completes with an empty object.
    pub fn outcome(&self) -> (r: StepResult)
        ensures
            r.status == StepStatus::Completed,
            r.error is None,
            r.output == json_object(Seq::empty()),
    {
        StepResult { output: empty_object(), status: StepStatus::Completed, error: None }
    }

    /// The step's identity.
    pub closed spec fn spec_id(&self) -> StepId {
        self.id
    }
}

impl Step for MockStep {
    open spec fn spec_step_id(&self) -> StepId {
        self.spec_id()
    }

    open spec fn spec_name_text(&self) -> Seq<char> {
        "Mock Step"@
    }

    open spec fn spec_description_text(&self) -> Seq<char> {
        "A mock step for testing"@
    }

    open spec fn spec_needs_input(&self) -> bool {
        false
    }

    open spec fn spec_prompt_text(&self) -> Option<Seq<char>> {
        None
    }

    open spec fn spec_input_schema(&self) -> Option<serde_json::Value> {
        None
    }

    open spec fn spec_output_schema(&self) -> Option<serde_json::Value> {
        None
    }

    open spec fn spec_completes(&self) -> bool {
        true
    }

    open spec fn spec_output(&self) -> serde_json::Value {
        json_object(Seq::empty())
    }

    open spec fn spec_accepts(&self, input: serde_json::Value) -> bool {
        true
    }

    fn id(&self) -> StepId {
        self.id
    }

    fn name(&self) -> &str {
        "Mock Step"
    }

    fn description(&self) -> &str {
        "A mock step for testing"
    }

    fn input_schema(&self) -> Option<serde_json::Value> {
        None
    }

    fn output_schema(&self) -> Option<serde_json::Value> {
        None
    }

    fn execute(&self, context: &StepContext) -> StepResult {
        self.outcome()
    }

    fn validate_input(&self, input: &serde_json::Value) -> Result<(), String> {
        Ok(())
    }

    fn requires_human_input(&self) -> bool {
        false
    }

    fn human_input_prompt(&self) -> Option<String> {
        None
    }
}
/// One step of a workflow, of any of the kinds the engine runs.
#[derive(Debug, Clone)]
pub enum WorkflowStep {
    /// Waits for outside input.
    HumanInput(HumanInputStep),
    /// Generates code.
    CodeGeneration(CodeGenerationStep),
    /// Does nothing.
    Mock(MockStep),
}

impl WorkflowStep {
    /// The step's identity.
    pub open spec fn spec_id(&self) -> StepId {
        match self {
            WorkflowStep::HumanInput(s) => s.spec_id(),
            WorkflowStep::CodeGeneration(s) => s.spec_id(),
            WorkflowStep::Mock(s) => s.spec_id(),
        }
    }

    /// Whether the step waits for outside input.
    pub open spec fn spec_requires_human_input(&self) -> bool {
        self is HumanInput
    }

    /// The step's identity.
    #[verifier::when_used_as_spec(spec_id)]
    pub fn step_id(&self) -> (r: StepId)
        ensures
            r == self.spec_id(),
    {
        match self {
            WorkflowStep::HumanInput(s) => s.id,
            WorkflowStep::CodeGeneration(s) => s.id,
            WorkflowStep::Mock(s) => s.id,
        }
    }

    /// Whether the step waits for outside input.
    #[verifier::when_used_as_spec(spec_requires_human_input)]
    pub fn needs_human_input(&self) -> (r: bool)
        ensures
            r == self.spec_requires_human_input(),
    {
        match self {
            WorkflowStep::HumanInput(_) => true,
            _ => false,
        }
    }

    /// The output the step produces when it runs.
    pub open spec fn spec_run_output(&self) -> serde_json::Value {
        match self {
            WorkflowStep::HumanInput(s) => s.spec_output(),
            WorkflowStep::CodeGeneration(s) => s.spec_output(),
            WorkflowStep::Mock(s) => s.spec_output(),
        }
    }

    /// Runs the step; every kind completes, with the kind's output.
    pub fn run(&self, context: &StepContext) -> (r: StepResult)
        ensures
            r.status == StepStatus::Completed,
            r.error is None,
            r.output == self.spec_run_output(),
    {
        match self {
            WorkflowStep::HumanInput(s) => s.outcome(),
            WorkflowStep::CodeGeneration(s) => s.outcome(),
            WorkflowStep::Mock(s) => s.outcome(),
        }
    }
}

} // verus!
