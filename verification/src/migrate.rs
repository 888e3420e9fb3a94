//! Versioned, forward-only schema migrations: the step type, the
//! mathematical meaning of applying a sequence of steps to a database, and
//! the canonical sequence that brings a fresh database to the full schema.

use vstd::prelude::*;
use crate::schema::{IndexId, SchemaObject, TableId};

verus! {

/// One statement of a migration step. Every action is idempotent: creating
/// an object that already exists, or seeding a configuration row that is
/// already present, changes nothing, so a step that partially applied before
/// a crash can be re-run safely.
#[derive(Clone, Copy, PartialEq, Eq, Structural)]
pub enum SchemaAction {
    /// Create a table or index unless it already exists.
    CreateObject(SchemaObject),
    /// Insert the default configuration row unless one is already present.
    SeedDefaultConfig,
}

/// One migration step: a unique version number, a human-readable
/// description, and a forward-only list of schema actions. Once released, a
/// step's version and actions are immutable.
pub struct MigrationStep {
    pub version: u64,
    pub description: String,
    pub actions: Vec<SchemaAction>,
}

/// The migration-relevant part of a database: the recorded version numbers
/// in order of application, the schema objects present, and whether the
/// configuration row has been seeded.
pub ghost struct SchemaState {
    pub applied: Seq<u64>,
    pub objects: Set<SchemaObject>,
    pub config_seeded: bool,
}

/// The state of a fresh (empty) database file.
pub open spec fn fresh_schema_state() -> SchemaState {
    SchemaState { applied: Seq::empty(), objects: Set::empty(), config_seeded: false }
}

/// The highest version already applied: the last recorded one, or zero on a
/// fresh database.
pub open spec fn state_version(s: SchemaState) -> u64 {
    if s.applied.len() == 0 {
        0
    } else {
        s.applied.last()
    }
}

/// What one schema action does to a database.
pub open spec fn apply_action(s: SchemaState, a: SchemaAction) -> SchemaState {
    match a {
        SchemaAction::CreateObject(o) => SchemaState { objects: s.objects.insert(o), ..s },
        SchemaAction::SeedDefaultConfig => SchemaState { config_seeded: true, ..s },
    }
}

/// What a list of schema actions does, applied left to right.
pub open spec fn apply_actions(s: SchemaState, acts: Seq<SchemaAction>) -> SchemaState
    decreases acts.len(),
{
    if acts.len() == 0 {
        s
    } else {
        apply_actions(apply_action(s, acts[0]), acts.skip(1))
    }
}

/// A step as the runner sees it: its version and its actions.
pub type PlanStep = (u64, Seq<SchemaAction>);

/// What one step does: nothing when its version is already applied,
/// otherwise its actions run and its version is recorded.
pub open spec fn apply_step(s: SchemaState, st: PlanStep) -> SchemaState {
    if st.0 > state_version(s) {
        let s2 = apply_actions(s, st.1);
        SchemaState { applied: s2.applied.push(st.0), ..s2 }
    } else {
        s
    }
}

/// What an ordered sequence of steps does, applied left to right.
pub open spec fn apply_plan(s: SchemaState, plan: Seq<PlanStep>) -> SchemaState
    decreases plan.len(),
{
    if plan.len() == 0 {
        s
    } else {
        apply_plan(apply_step(s, plan[0]), plan.skip(1))
    }
}

/// The version/action view of a list of migration steps.
pub open spec fn plan_of(steps: Seq<MigrationStep>) -> Seq<PlanStep> {
    steps.map_values(|st: MigrationStep| (st.version, st.actions@))
}

/// Version numbers strictly increase along the sequence. Gaps are allowed.
pub open spec fn versions_ascending(plan: Seq<PlanStep>) -> bool {
    forall|i: int, j: int| 0 <= i < j < plan.len() ==> plan[i].0 < plan[j].0
}

/// The highest version any step of the plan carries; zero for an empty
/// plan. For an ascending plan this is the last step's version.
pub open spec fn plan_max_version(plan: Seq<PlanStep>) -> u64 {
    if plan.len() == 0 {
        0
    } else {
        plan.last().0
    }
}

/// The recorded version numbers strictly increase in order of application.
pub open spec fn applied_ascending(applied: Seq<u64>) -> bool {
    forall|i: int, j: int| 0 <= i < j < applied.len() ==> applied[i] < applied[j]
}

/// Unrolling lemma: applying a plan extended by one step equals applying
/// the plan, then the step.
pub proof fn lemma_apply_plan_push(s: SchemaState, plan: Seq<PlanStep>, st: PlanStep)
    ensures
        apply_plan(s, plan.push(st)) == apply_step(apply_plan(s, plan), st),
    decreases plan.len(),
{
    reveal_with_fuel(apply_plan, 3);
    if plan.len() == 0 {
        assert(plan.push(st)[0] == st);
        assert(plan.push(st).skip(1) =~= Seq::empty());
    } else {
        assert(plan.push(st)[0] == plan[0]);
        assert(plan.push(st).skip(1) =~= plan.skip(1).push(st));
        lemma_apply_plan_push(apply_step(s, plan[0]), plan.skip(1), st);
        assert(apply_plan(s, plan.push(st)) == apply_plan(
            apply_step(s, plan[0]),
            plan.skip(1).push(st),
        ));
        assert(apply_plan(s, plan) == apply_plan(apply_step(s, plan[0]), plan.skip(1)));
    }
}

/// Unrolling lemma: applying actions extended by one action equals applying
/// the actions, then the action.
pub proof fn lemma_apply_actions_push(s: SchemaState, acts: Seq<SchemaAction>, a: SchemaAction)
    ensures
        apply_actions(s, acts.push(a)) == apply_action(apply_actions(s, acts), a),
    decreases acts.len(),
{
    reveal_with_fuel(apply_actions, 3);
    if acts.len() == 0 {
        assert(acts.push(a)[0] == a);
        assert(acts.push(a).skip(1) =~= Seq::empty());
    } else {
        assert(acts.push(a)[0] == acts[0]);
        assert(acts.push(a).skip(1) =~= acts.skip(1).push(a));
        lemma_apply_actions_push(apply_action(s, acts[0]), acts.skip(1), a);
        assert(apply_actions(s, acts.push(a)) == apply_actions(
            apply_action(s, acts[0]),
            acts.skip(1).push(a),
        ));
        assert(apply_actions(s, acts) == apply_actions(apply_action(s, acts[0]), acts.skip(1)));
    }
}

/// Applying actions never touches the applied-version record.
pub proof fn lemma_apply_actions_applied(s: SchemaState, acts: Seq<SchemaAction>)
    ensures
        apply_actions(s, acts).applied == s.applied,
    decreases acts.len(),
{
    if acts.len() > 0 {
        lemma_apply_actions_applied(apply_action(s, acts[0]), acts.skip(1));
    }
}

/// The actions of the first canonical step: create every entity table and
/// seed the configuration singleton.
pub open spec fn first_step_actions() -> Seq<SchemaAction> {
    seq![
        SchemaAction::CreateObject(SchemaObject::Table(TableId::Projects)),
        SchemaAction::CreateObject(SchemaObject::Table(TableId::Workflows)),
        SchemaAction::CreateObject(SchemaObject::Table(TableId::Nodes)),
        SchemaAction::CreateObject(SchemaObject::Table(TableId::Settings)),
        SchemaAction::CreateObject(SchemaObject::Table(TableId::SettingPrompts)),
        SchemaAction::CreateObject(SchemaObject::Table(TableId::SettingRelations)),
        SchemaAction::CreateObject(SchemaObject::Table(TableId::GlobalConfigTable)),
        SchemaAction::CreateObject(SchemaObject::Table(TableId::Executions)),
        SchemaAction::CreateObject(SchemaObject::Table(TableId::NodeResults)),
        SchemaAction::SeedDefaultConfig,
    ]
}

/// The actions of the second canonical step: the indexes for the frequent
/// queries of the access layer.
pub open spec fn second_step_actions() -> Seq<SchemaAction> {
    seq![
        SchemaAction::CreateObject(SchemaObject::Index(IndexId::WorkflowsByProject)),
        SchemaAction::CreateObject(SchemaObject::Index(IndexId::WorkflowsByUpdated)),
        SchemaAction::CreateObject(SchemaObject::Index(IndexId::NodesByWorkflow)),
        SchemaAction::CreateObject(SchemaObject::Index(IndexId::NodesByOrder)),
        SchemaAction::CreateObject(SchemaObject::Index(IndexId::SettingsByProject)),
        SchemaAction::CreateObject(SchemaObject::Index(IndexId::SettingsByProjectCategory)),
        SchemaAction::CreateObject(SchemaObject::Index(IndexId::SettingsByName)),
        SchemaAction::CreateObject(SchemaObject::Index(IndexId::SettingPromptsByProject)),
        SchemaAction::CreateObject(SchemaObject::Index(IndexId::SettingPromptsByProjectCategory)),
        SchemaAction::CreateObject(SchemaObject::Index(IndexId::ExecutionsByWorkflow)),
        SchemaAction::CreateObject(SchemaObject::Index(IndexId::ExecutionsByStarted)),
        SchemaAction::CreateObject(SchemaObject::Index(IndexId::ExecutionsByWorkflowStarted)),
        SchemaAction::CreateObject(SchemaObject::Index(IndexId::NodeResultsByExecution)),
        SchemaAction::CreateObject(SchemaObject::Index(IndexId::NodeResultsByNode)),
        SchemaAction::CreateObject(SchemaObject::Index(IndexId::NodeResultsByStarted)),
    ]
}

/// The actions of the third canonical step: the workflow version-history
/// table and its indexes.
pub open spec fn third_step_actions() -> Seq<SchemaAction> {
    seq![
        SchemaAction::CreateObject(SchemaObject::Table(TableId::WorkflowVersions)),
        SchemaAction::CreateObject(SchemaObject::Index(IndexId::WorkflowVersionsByWorkflow)),
        SchemaAction::CreateObject(SchemaObject::Index(IndexId::WorkflowVersionsByNumber)),
    ]
}

/// The canonical migration plan: versions 1, 2 and 3 in order.
pub open spec fn canonical_plan() -> Seq<PlanStep> {
    seq![
        (1u64, first_step_actions()),
        (2u64, second_step_actions()),
        (3u64, third_step_actions()),
    ]
}

/// Every object the canonical plan creates: the full schema of the store.
pub open spec fn full_schema() -> Set<SchemaObject> {
    set![
        SchemaObject::Table(TableId::Projects),
        SchemaObject::Table(TableId::Workflows),
        SchemaObject::Table(TableId::Nodes),
        SchemaObject::Table(TableId::Settings),
        SchemaObject::Table(TableId::SettingPrompts),
        SchemaObject::Table(TableId::SettingRelations),
        SchemaObject::Table(TableId::GlobalConfigTable),
        SchemaObject::Table(TableId::Executions),
        SchemaObject::Table(TableId::NodeResults),
        SchemaObject::Table(TableId::WorkflowVersions),
        SchemaObject::Index(IndexId::WorkflowsByProject),
        SchemaObject::Index(IndexId::WorkflowsByUpdated),
        SchemaObject::Index(IndexId::NodesByWorkflow),
        SchemaObject::Index(IndexId::NodesByOrder),
        SchemaObject::Index(IndexId::SettingsByProject),
        SchemaObject::Index(IndexId::SettingsByProjectCategory),
        SchemaObject::Index(IndexId::SettingsByName),
        SchemaObject::Index(IndexId::SettingPromptsByProject),
        SchemaObject::Index(IndexId::SettingPromptsByProjectCategory),
        SchemaObject::Index(IndexId::ExecutionsByWorkflow),
        SchemaObject::Index(IndexId::ExecutionsByStarted),
        SchemaObject::Index(IndexId::ExecutionsByWorkflowStarted),
        SchemaObject::Index(IndexId::NodeResultsByExecution),
        SchemaObject::Index(IndexId::NodeResultsByNode),
        SchemaObject::Index(IndexId::NodeResultsByStarted),
        SchemaObject::Index(IndexId::WorkflowVersionsByWorkflow),
        SchemaObject::Index(IndexId::WorkflowVersionsByNumber),
    ]
}

/// Applying the full canonical plan to a fresh database yields exactly the
/// full schema, a seeded configuration row, and the record that versions 1,
/// 2 and 3 were applied in that order.
#[verifier::rlimit(100)]
pub proof fn lemma_canonical_full_schema()
    ensures
        apply_plan(fresh_schema_state(), canonical_plan()).objects =~= full_schema(),
        apply_plan(fresh_schema_state(), canonical_plan()).config_seeded,
        apply_plan(fresh_schema_state(), canonical_plan()).applied =~= seq![1u64, 2u64, 3u64],
{
    reveal_with_fuel(apply_plan, 5);
    reveal_with_fuel(apply_actions, 35);
}

/// Ascending versions survive dropping the first step.
proof fn lemma_ascending_skip(plan: Seq<PlanStep>)
    requires
        versions_ascending(plan),
        plan.len() > 0,
    ensures
        versions_ascending(plan.skip(1)),
{
    assert forall|i: int, j: int|
        0 <= i < j < plan.skip(1).len() implies plan.skip(1)[i].0 < plan.skip(1)[j].0 by {
        assert(plan.skip(1)[i] == plan[i + 1]);
        assert(plan.skip(1)[j] == plan[j + 1]);
    }
}

/// Re-running steps that are already applied is a no-op: a plan whose
/// versions are all at or below the recorded version changes nothing.
pub proof fn lemma_rerun_noop(s: SchemaState, plan: Seq<PlanStep>)
    requires
        versions_ascending(plan),
        state_version(s) >= plan_max_version(plan),
    ensures
        apply_plan(s, plan) == s,
    decreases plan.len(),
{
    if plan.len() > 0 {
        assert(plan.last() == plan[plan.len() - 1]);
        if plan.len() > 1 {
            assert(plan[0].0 < plan.last().0);
        }
        assert(plan[0].0 <= state_version(s));
        assert(apply_step(s, plan[0]) == s);
        lemma_ascending_skip(plan);
        if plan.len() > 1 {
            assert(plan.skip(1).last() == plan[plan.len() - 1]);
        }
        lemma_rerun_noop(s, plan.skip(1));
    }
}

/// Running a plan of ascending versions keeps the applied record strictly
/// ascending: steps are recorded in version order, never out of order.
/// Every pending step (version above the recorded one) is applied, nothing
/// already recorded is lost, and no version outside the plan appears.
pub proof fn lemma_applied_in_order(s: SchemaState, plan: Seq<PlanStep>)
    requires
        versions_ascending(plan),
        applied_ascending(s.applied),
    ensures
        applied_ascending(apply_plan(s, plan).applied),
        state_version(apply_plan(s, plan)) >= state_version(s),
        forall|v: u64| s.applied.contains(v) ==> apply_plan(s, plan).applied.contains(v),
        forall|i: int|
            0 <= i < plan.len() && plan[i].0 > state_version(s) ==> apply_plan(
                s,
                plan,
            ).applied.contains(plan[i].0),
        forall|v: u64|
            apply_plan(s, plan).applied.contains(v) ==> s.applied.contains(v) || exists|i: int|
                0 <= i < plan.len() && plan[i].0 == v,
    decreases plan.len(),
{
    if plan.len() > 0 {
        let s1 = apply_step(s, plan[0]);
        if plan[0].0 > state_version(s) {
            lemma_apply_actions_applied(s, plan[0].1);
            assert(s1.applied == s.applied.push(plan[0].0));
            assert forall|i: int, j: int|
                0 <= i < j < s1.applied.len() implies s1.applied[i] < s1.applied[j] by {
                if j == s1.applied.len() - 1 {
                    if s.applied.len() > 0 {
                        if i < s.applied.len() - 1 {
                            assert(s.applied[i] < s.applied[s.applied.len() - 1]);
                        }
                        assert(s.applied[s.applied.len() - 1] == state_version(s));
                    }
                }
            }
            assert(state_version(s1) == plan[0].0);
            assert forall|v: u64| s.applied.contains(v) implies s1.applied.contains(v) by {
                let k = choose|k: int| 0 <= k < s.applied.len() && s.applied[k] == v;
                assert(s1.applied[k] == v);
            }
        } else {
            assert(s1 == s);
        }
        lemma_ascending_skip(plan);
        lemma_applied_in_order(s1, plan.skip(1));
        assert forall|i: int|
            0 <= i < plan.len() && plan[i].0 > state_version(s) implies apply_plan(
            s,
            plan,
        ).applied.contains(plan[i].0) by {
            if i == 0 {
                assert(s1.applied.contains(plan[0].0)) by {
                    assert(s1.applied[s1.applied.len() - 1] == plan[0].0);
                }
            } else {
                assert(plan.skip(1)[i - 1] == plan[i]);
                assert(plan[i].0 > state_version(s1));
            }
        }
        assert forall|v: u64|
            apply_plan(s, plan).applied.contains(v) implies s.applied.contains(v) || exists|i: int|
            0 <= i < plan.len() && plan[i].0 == v by {
            if !s.applied.contains(v) {
                if s1.applied.contains(v) && v != plan[0].0 {
                    let k = choose|k: int| 0 <= k < s1.applied.len() && s1.applied[k] == v;
                    assert(s.applied[k] == v);
                } else if !s1.applied.contains(v) {
                    let k = choose|k: int|
                        0 <= k < plan.skip(1).len() && plan.skip(1)[k].0 == v;
                    assert(plan[k + 1].0 == v);
                }
            }
        }
    }
}

/// Builds one step from its parts.
fn make_step(version: u64, description: &str, actions: Vec<SchemaAction>) -> (st: MigrationStep)
    ensures
        st.version == version,
        st.description@ == description@,
        st.actions@ == actions@,
{
    MigrationStep { version, description: description.to_owned(), actions }
}

/// The canonical migration sequence of this store, versions 1 to 3: all
/// entity tables with the seeded configuration row, then the query indexes,
/// then the workflow version-history table.
pub fn canonical_migrations() -> (steps: Vec<MigrationStep>)
    ensures
        plan_of(steps@) == canonical_plan(),
        steps@.len() == 3,
        steps@[0].description@ == "create_all_tables"@,
        steps@[1].description@ == "add_performance_indexes"@,
        steps@[2].description@ == "add_workflow_versions_table"@,
{
    let mut a1: Vec<SchemaAction> = Vec::new();
    a1.push(SchemaAction::CreateObject(SchemaObject::Table(TableId::Projects)));
    a1.push(SchemaAction::CreateObject(SchemaObject::Table(TableId::Workflows)));
    a1.push(SchemaAction::CreateObject(SchemaObject::Table(TableId::Nodes)));
    a1.push(SchemaAction::CreateObject(SchemaObject::Table(TableId::Settings)));
    a1.push(SchemaAction::CreateObject(SchemaObject::Table(TableId::SettingPrompts)));
    a1.push(SchemaAction::CreateObject(SchemaObject::Table(TableId::SettingRelations)));
    a1.push(SchemaAction::CreateObject(SchemaObject::Table(TableId::GlobalConfigTable)));
    a1.push(SchemaAction::CreateObject(SchemaObject::Table(TableId::Executions)));
    a1.push(SchemaAction::CreateObject(SchemaObject::Table(TableId::NodeResults)));
    a1.push(SchemaAction::SeedDefaultConfig);
    assert(a1@ =~= first_step_actions());
    let mut a2: Vec<SchemaAction> = Vec::new();
    a2.push(SchemaAction::CreateObject(SchemaObject::Index(IndexId::WorkflowsByProject)));
    a2.push(SchemaAction::CreateObject(SchemaObject::Index(IndexId::WorkflowsByUpdated)));
    a2.push(SchemaAction::CreateObject(SchemaObject::Index(IndexId::NodesByWorkflow)));
    a2.push(SchemaAction::CreateObject(SchemaObject::Index(IndexId::NodesByOrder)));
    a2.push(SchemaAction::CreateObject(SchemaObject::Index(IndexId::SettingsByProject)));
    a2.push(SchemaAction::CreateObject(SchemaObject::Index(IndexId::SettingsByProjectCategory)));
    a2.push(SchemaAction::CreateObject(SchemaObject::Index(IndexId::SettingsByName)));
    a2.push(SchemaAction::CreateObject(SchemaObject::Index(IndexId::SettingPromptsByProject)));
    a2.push(
        SchemaAction::CreateObject(SchemaObject::Index(IndexId::SettingPromptsByProjectCategory)),
    );
    a2.push(SchemaAction::CreateObject(SchemaObject::Index(IndexId::ExecutionsByWorkflow)));
    a2.push(SchemaAction::CreateObject(SchemaObject::Index(IndexId::ExecutionsByStarted)));
    a2.push(SchemaAction::CreateObject(SchemaObject::Index(IndexId::ExecutionsByWorkflowStarted)));
    a2.push(SchemaAction::CreateObject(SchemaObject::Index(IndexId::NodeResultsByExecution)));
    a2.push(SchemaAction::CreateObject(SchemaObject::Index(IndexId::NodeResultsByNode)));
    a2.push(SchemaAction::CreateObject(SchemaObject::Index(IndexId::NodeResultsByStarted)));
    assert(a2@ =~= second_step_actions());
    let mut a3: Vec<SchemaAction> = Vec::new();
    a3.push(SchemaAction::CreateObject(SchemaObject::Table(TableId::WorkflowVersions)));
    a3.push(SchemaAction::CreateObject(SchemaObject::Index(IndexId::WorkflowVersionsByWorkflow)));
    a3.push(SchemaAction::CreateObject(SchemaObject::Index(IndexId::WorkflowVersionsByNumber)));
    assert(a3@ =~= third_step_actions());
    let mut steps: Vec<MigrationStep> = Vec::new();
    steps.push(make_step(1, "create_all_tables", a1));
    steps.push(make_step(2, "add_performance_indexes", a2));
    steps.push(make_step(3, "add_workflow_versions_table", a3));
    assert(plan_of(steps@) =~= canonical_plan());
    steps
}

} // verus!
