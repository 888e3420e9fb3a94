//! The persisted shape of the store: identifiers for the tables and indexes
//! that migrations create, the entity row types, and the error taxonomy of
//! the access layer.

use vstd::prelude::*;
use crate::rows::{ChildRow, RankedRow, Row};

verus! {

/// The tables of the relational schema.
#[derive(Clone, Copy, PartialEq, Eq, Structural)]
pub enum TableId {
    Projects,
    Workflows,
    Nodes,
    Settings,
    SettingPrompts,
    SettingRelations,
    GlobalConfigTable,
    Executions,
    NodeResults,
    WorkflowVersions,
}

/// The secondary indexes that the migrations create for frequent queries.
#[derive(Clone, Copy, PartialEq, Eq, Structural)]
pub enum IndexId {
    WorkflowsByProject,
    WorkflowsByUpdated,
    NodesByWorkflow,
    NodesByOrder,
    SettingsByProject,
    SettingsByProjectCategory,
    SettingsByName,
    SettingPromptsByProject,
    SettingPromptsByProjectCategory,
    ExecutionsByWorkflow,
    ExecutionsByStarted,
    ExecutionsByWorkflowStarted,
    NodeResultsByExecution,
    NodeResultsByNode,
    NodeResultsByStarted,
    WorkflowVersionsByWorkflow,
    WorkflowVersionsByNumber,
}

/// One named object of the schema: a table or an index.
#[derive(Clone, Copy, PartialEq, Eq, Structural)]
pub enum SchemaObject {
    Table(TableId),
    Index(IndexId),
}

/// The outcome of a store operation that did not succeed.
#[derive(Clone, Copy, PartialEq, Eq, Structural, Debug)]
pub enum StoreError {
    /// A migration could not be brought up to the recorded version: the
    /// installation records a version higher than any known step.
    InitializationFailure,
    /// The referenced entity id does not exist.
    NotFound,
    /// A required foreign-key parent is missing, or a check constraint
    /// (such as a non-empty name or a minimum count) is violated.
    ConstraintViolation,
}

/// Top-level container for a user's creative work.
pub struct Project {
    pub id: u64,
    pub name: String,
    pub description: Option<String>,
    pub created_at: u64,
    pub updated_at: u64,
}

/// An ordered, configurable pipeline of nodes belonging to a project.
pub struct Workflow {
    pub id: u64,
    pub project_id: u64,
    pub name: String,
    pub description: Option<String>,
    pub loop_max_count: u64,
    pub timeout_seconds: u64,
    pub created_at: u64,
    pub updated_at: u64,
}

/// A single step within a workflow, optionally grouped into a block.
pub struct Node {
    pub id: u64,
    pub workflow_id: u64,
    pub node_type: String,
    pub name: String,
    /// Opaque structured document; the store persists it byte for byte.
    pub config: String,
    pub order_index: u64,
    pub block_id: Option<String>,
    pub parent_block_id: Option<String>,
    pub created_at: u64,
    pub updated_at: u64,
}

/// A reusable piece of world or story information, organized by category and
/// an optional parent hierarchy.
pub struct Setting {
    pub id: u64,
    pub project_id: u64,
    pub category: String,
    pub name: String,
    pub content: String,
    pub enabled: bool,
    /// If set, intended to reference a setting of the same project; the
    /// schema does not enforce this, the writer is responsible for it.
    pub parent_id: Option<u64>,
    pub order_index: u64,
    pub injection_mode: String,
    pub priority: u64,
    pub keywords: String,
    pub summary: String,
    pub created_at: u64,
    pub updated_at: u64,
}

/// A prompt template for injecting settings of one category.
pub struct SettingPrompt {
    pub id: u64,
    pub project_id: u64,
    pub category: String,
    pub prompt_template: String,
    pub enabled: bool,
}

/// A labeled link between two settings of one project.
pub struct SettingRelation {
    pub id: u64,
    pub project_id: u64,
    pub source_id: u64,
    pub target_id: u64,
    pub label: String,
    pub description: Option<String>,
    pub bidirectional: bool,
}

/// The process-wide configuration singleton, seeded by the first migration.
pub struct GlobalConfig {
    /// Opaque structured document of provider settings.
    pub ai_providers: String,
    pub theme: String,
    pub default_loop_max: u64,
    pub default_timeout: u64,
    pub setting_assistant: String,
}

/// One run of a workflow.
pub struct Execution {
    pub id: u64,
    pub workflow_id: u64,
    /// Externally driven (for example "running", then "completed" or
    /// "failed"); opaque to the store.
    pub status: String,
    pub input: Option<String>,
    pub final_output: Option<String>,
    pub variables_snapshot: Option<String>,
    pub started_at: u64,
    pub finished_at: Option<u64>,
}

/// The per-node, per-iteration outcome within an execution.
pub struct NodeResult {
    pub id: u64,
    pub execution_id: u64,
    /// The node this result belongs to; recorded, but not a foreign key.
    pub node_id: u64,
    pub iteration: u64,
    pub input: Option<String>,
    pub output: Option<String>,
    pub resolved_config: Option<String>,
    pub status: String,
    pub token_usage: Option<String>,
    pub started_at: u64,
    pub finished_at: Option<u64>,
}

/// An immutable historical snapshot of a workflow's definition.
pub struct WorkflowVersion {
    pub id: u64,
    pub workflow_id: u64,
    pub version_number: u64,
    /// Opaque structured document: the point-in-time copy of the workflow.
    pub snapshot: String,
    pub description: Option<String>,
    pub created_at: u64,
}

/// Clones an optional string, keeping the exact value.
pub fn clone_opt_string(o: &Option<String>) -> (r: Option<String>)
    ensures
        r == *o,
{
    match o {
        Some(s) => Some(s.clone()),
        None => None,
    }
}

/// Clones an optional integer, keeping the exact value.
pub fn clone_opt_u64(o: &Option<u64>) -> (r: Option<u64>)
    ensures
        r == *o,
{
    match o {
        Some(v) => Some(*v),
        None => None,
    }
}

impl Clone for Project {
    fn clone(&self) -> (r: Self)
        ensures
            r == *self,
    {
        Project {
            id: self.id,
            name: self.name.clone(),
            description: clone_opt_string(&self.description),
            created_at: self.created_at,
            updated_at: self.updated_at,
        }
    }
}

impl Clone for Workflow {
    fn clone(&self) -> (r: Self)
        ensures
            r == *self,
    {
        Workflow {
            id: self.id,
            project_id: self.project_id,
            name: self.name.clone(),
            description: clone_opt_string(&self.description),
            loop_max_count: self.loop_max_count,
            timeout_seconds: self.timeout_seconds,
            created_at: self.created_at,
            updated_at: self.updated_at,
        }
    }
}

impl Clone for Node {
    fn clone(&self) -> (r: Self)
        ensures
            r == *self,
    {
        Node {
            id: self.id,
            workflow_id: self.workflow_id,
            node_type: self.node_type.clone(),
            name: self.name.clone(),
            config: self.config.clone(),
            order_index: self.order_index,
            block_id: clone_opt_string(&self.block_id),
            parent_block_id: clone_opt_string(&self.parent_block_id),
            created_at: self.created_at,
            updated_at: self.updated_at,
        }
    }
}

impl Clone for Setting {
    fn clone(&self) -> (r: Self)
        ensures
            r == *self,
    {
        Setting {
            id: self.id,
            project_id: self.project_id,
            category: self.category.clone(),
            name: self.name.clone(),
            content: self.content.clone(),
            enabled: self.enabled,
            parent_id: clone_opt_u64(&self.parent_id),
            order_index: self.order_index,
            injection_mode: self.injection_mode.clone(),
            priority: self.priority,
            keywords: self.keywords.clone(),
            summary: self.summary.clone(),
            created_at: self.created_at,
            updated_at: self.updated_at,
        }
    }
}

impl Clone for SettingPrompt {
    fn clone(&self) -> (r: Self)
        ensures
            r == *self,
    {
        SettingPrompt {
            id: self.id,
            project_id: self.project_id,
            category: self.category.clone(),
            prompt_template: self.prompt_template.clone(),
            enabled: self.enabled,
        }
    }
}

impl Clone for SettingRelation {
    fn clone(&self) -> (r: Self)
        ensures
            r == *self,
    {
        SettingRelation {
            id: self.id,
            project_id: self.project_id,
            source_id: self.source_id,
            target_id: self.target_id,
            label: self.label.clone(),
            description: clone_opt_string(&self.description),
            bidirectional: self.bidirectional,
        }
    }
}

impl Clone for GlobalConfig {
    fn clone(&self) -> (r: Self)
        ensures
            r == *self,
    {
        GlobalConfig {
            ai_providers: self.ai_providers.clone(),
            theme: self.theme.clone(),
            default_loop_max: self.default_loop_max,
            default_timeout: self.default_timeout,
            setting_assistant: self.setting_assistant.clone(),
        }
    }
}

impl Clone for Execution {
    fn clone(&self) -> (r: Self)
        ensures
            r == *self,
    {
        Execution {
            id: self.id,
            workflow_id: self.workflow_id,
            status: self.status.clone(),
            input: clone_opt_string(&self.input),
            final_output: clone_opt_string(&self.final_output),
            variables_snapshot: clone_opt_string(&self.variables_snapshot),
            started_at: self.started_at,
            finished_at: clone_opt_u64(&self.finished_at),
        }
    }
}

impl Clone for NodeResult {
    fn clone(&self) -> (r: Self)
        ensures
            r == *self,
    {
        NodeResult {
            id: self.id,
            execution_id: self.execution_id,
            node_id: self.node_id,
            iteration: self.iteration,
            input: clone_opt_string(&self.input),
            output: clone_opt_string(&self.output),
            resolved_config: clone_opt_string(&self.resolved_config),
            status: self.status.clone(),
            token_usage: clone_opt_string(&self.token_usage),
            started_at: self.started_at,
            finished_at: clone_opt_u64(&self.finished_at),
        }
    }
}

impl Clone for WorkflowVersion {
    fn clone(&self) -> (r: Self)
        ensures
            r == *self,
    {
        WorkflowVersion {
            id: self.id,
            workflow_id: self.workflow_id,
            version_number: self.version_number,
            snapshot: self.snapshot.clone(),
            description: clone_opt_string(&self.description),
            created_at: self.created_at,
        }
    }
}

/// What the configuration row seeded by the first migration holds: an empty
/// provider document, the system theme, and the stock defaults.
pub open spec fn is_default_config(c: GlobalConfig) -> bool {
    &&& c.ai_providers@ == "{}"@
    &&& c.theme@ == "system"@
    &&& c.default_loop_max == 10
    &&& c.default_timeout == 300
    &&& c.setting_assistant@ == ""@
}

/// Builds the configuration row that the first migration seeds.
pub fn default_config() -> (c: GlobalConfig)
    ensures
        is_default_config(c),
{
    GlobalConfig {
        ai_providers: "{}".to_owned(),
        theme: "system".to_owned(),
        default_loop_max: 10,
        default_timeout: 300,
        setting_assistant: "".to_owned(),
    }
}

impl Row for Project {
    open spec fn rid(&self) -> u64 {
        self.id
    }

    fn eid(&self) -> u64 {
        self.id
    }

    fn clone_row(&self) -> Self {
        self.clone()
    }
}

impl Row for Workflow {
    open spec fn rid(&self) -> u64 {
        self.id
    }

    fn eid(&self) -> u64 {
        self.id
    }

    fn clone_row(&self) -> Self {
        self.clone()
    }
}

impl ChildRow for Workflow {
    open spec fn parent(&self) -> u64 {
        self.project_id
    }

    fn eparent(&self) -> u64 {
        self.project_id
    }
}

impl Row for Node {
    open spec fn rid(&self) -> u64 {
        self.id
    }

    fn eid(&self) -> u64 {
        self.id
    }

    fn clone_row(&self) -> Self {
        self.clone()
    }
}

impl ChildRow for Node {
    open spec fn parent(&self) -> u64 {
        self.workflow_id
    }

    fn eparent(&self) -> u64 {
        self.workflow_id
    }
}

impl RankedRow for Node {
    open spec fn rank(&self) -> u64 {
        self.order_index
    }

    fn erank(&self) -> u64 {
        self.order_index
    }
}

impl Row for Setting {
    open spec fn rid(&self) -> u64 {
        self.id
    }

    fn eid(&self) -> u64 {
        self.id
    }

    fn clone_row(&self) -> Self {
        self.clone()
    }
}

impl ChildRow for Setting {
    open spec fn parent(&self) -> u64 {
        self.project_id
    }

    fn eparent(&self) -> u64 {
        self.project_id
    }
}

impl RankedRow for Setting {
    open spec fn rank(&self) -> u64 {
        self.order_index
    }

    fn erank(&self) -> u64 {
        self.order_index
    }
}

impl Row for SettingPrompt {
    open spec fn rid(&self) -> u64 {
        self.id
    }

    fn eid(&self) -> u64 {
        self.id
    }

    fn clone_row(&self) -> Self {
        self.clone()
    }
}

impl ChildRow for SettingPrompt {
    open spec fn parent(&self) -> u64 {
        self.project_id
    }

    fn eparent(&self) -> u64 {
        self.project_id
    }
}

impl Row for SettingRelation {
    open spec fn rid(&self) -> u64 {
        self.id
    }

    fn eid(&self) -> u64 {
        self.id
    }

    fn clone_row(&self) -> Self {
        self.clone()
    }
}

impl ChildRow for SettingRelation {
    open spec fn parent(&self) -> u64 {
        self.project_id
    }

    fn eparent(&self) -> u64 {
        self.project_id
    }
}

impl Row for Execution {
    open spec fn rid(&self) -> u64 {
        self.id
    }

    fn eid(&self) -> u64 {
        self.id
    }

    fn clone_row(&self) -> Self {
        self.clone()
    }
}

impl ChildRow for Execution {
    open spec fn parent(&self) -> u64 {
        self.workflow_id
    }

    fn eparent(&self) -> u64 {
        self.workflow_id
    }
}

impl Row for NodeResult {
    open spec fn rid(&self) -> u64 {
        self.id
    }

    fn eid(&self) -> u64 {
        self.id
    }

    fn clone_row(&self) -> Self {
        self.clone()
    }
}

impl ChildRow for NodeResult {
    open spec fn parent(&self) -> u64 {
        self.execution_id
    }

    fn eparent(&self) -> u64 {
        self.execution_id
    }
}

impl Row for WorkflowVersion {
    open spec fn rid(&self) -> u64 {
        self.id
    }

    fn eid(&self) -> u64 {
        self.id
    }

    fn clone_row(&self) -> Self {
        self.clone()
    }
}

impl ChildRow for WorkflowVersion {
    open spec fn parent(&self) -> u64 {
        self.workflow_id
    }

    fn eparent(&self) -> u64 {
        self.workflow_id
    }
}

} // verus!
