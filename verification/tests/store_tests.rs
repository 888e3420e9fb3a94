use novel_store::migrate::{canonical_migrations, MigrationStep};
use novel_store::schema::{IndexId, StoreError, TableId};
use novel_store::store::Store;

fn opened() -> Store {
    Store::open()
}

#[test]
fn fresh_migration_builds_full_schema() {
    let s = opened();
    let tables = [
        TableId::Projects,
        TableId::Workflows,
        TableId::Nodes,
        TableId::Settings,
        TableId::SettingPrompts,
        TableId::SettingRelations,
        TableId::GlobalConfigTable,
        TableId::Executions,
        TableId::NodeResults,
        TableId::WorkflowVersions,
    ];
    for t in tables {
        assert!(s.has_table(t));
    }
    let indexes = [
        IndexId::WorkflowsByProject,
        IndexId::WorkflowsByUpdated,
        IndexId::NodesByWorkflow,
        IndexId::NodesByOrder,
        IndexId::SettingsByProject,
        IndexId::SettingsByProjectCategory,
        IndexId::SettingsByName,
        IndexId::SettingPromptsByProject,
        IndexId::SettingPromptsByProjectCategory,
        IndexId::ExecutionsByWorkflow,
        IndexId::ExecutionsByStarted,
        IndexId::ExecutionsByWorkflowStarted,
        IndexId::NodeResultsByExecution,
        IndexId::NodeResultsByNode,
        IndexId::NodeResultsByStarted,
        IndexId::WorkflowVersionsByWorkflow,
        IndexId::WorkflowVersionsByNumber,
    ];
    for ix in indexes {
        assert!(s.has_index(ix));
    }
    assert_eq!(s.recorded_version(), 3);
    assert_eq!(s.applied, vec![1, 2, 3]);
}

#[test]
fn second_migration_run_is_noop() {
    let mut s = opened();
    let steps = canonical_migrations();
    let r = s.run_migrations(&steps);
    assert!(r.is_ok());
    assert_eq!(s.recorded_version(), 3);
    assert_eq!(s.applied, vec![1, 2, 3]);
}

#[test]
fn migrations_apply_in_ascending_order_with_gaps() {
    let mut s = Store::fresh();
    let steps = vec![
        MigrationStep { version: 2, description: String::from("a"), actions: vec![] },
        MigrationStep { version: 5, description: String::from("b"), actions: vec![] },
        MigrationStep { version: 9, description: String::from("c"), actions: vec![] },
    ];
    let r = s.run_migrations(&steps);
    assert!(r.is_ok());
    assert_eq!(s.applied, vec![2, 5, 9]);
    assert_eq!(s.recorded_version(), 9);
}

#[test]
fn pending_steps_only_are_applied() {
    let mut s = Store::fresh();
    let first = vec![MigrationStep { version: 2, description: String::from("a"), actions: vec![] }];
    assert!(s.run_migrations(&first).is_ok());
    let all = vec![
        MigrationStep { version: 2, description: String::from("a"), actions: vec![] },
        MigrationStep { version: 5, description: String::from("b"), actions: vec![] },
    ];
    assert!(s.run_migrations(&all).is_ok());
    assert_eq!(s.applied, vec![2, 5]);
}

#[test]
fn downgrade_is_a_fatal_configuration_error() {
    let mut s = Store::fresh();
    let high = vec![MigrationStep { version: 9, description: String::from("a"), actions: vec![] }];
    assert!(s.run_migrations(&high).is_ok());
    let low = vec![MigrationStep { version: 3, description: String::from("b"), actions: vec![] }];
    let r = s.run_migrations(&low);
    assert_eq!(r, Err(StoreError::InitializationFailure));
    assert_eq!(s.applied, vec![9]);
}

#[test]
fn project_delete_cascades_to_everything_it_owns() {
    let mut s = opened();
    let p = s.create_project(String::from("novel"), None).unwrap();
    let w = s.create_workflow(p, String::from("draft"), None, 10, 300).unwrap();
    let n = s
        .create_node(w, String::from("prompt"), String::from("outline"), String::from("{}"), 0, None, None)
        .unwrap();
    let e = s.create_execution(w, String::from("running"), None).unwrap();
    let r = s.create_node_result(e, n, 1, None, String::from("running")).unwrap();
    let v = s.create_workflow_version(w, String::from("snap"), None).unwrap();
    assert!(s.delete_project(p).is_ok());
    assert_eq!(s.projects.len(), 0);
    assert_eq!(s.workflows.len(), 0);
    assert_eq!(s.nodes.len(), 0);
    assert_eq!(s.executions.len(), 0);
    assert_eq!(s.node_results.len(), 0);
    assert_eq!(s.workflow_versions.len(), 0);
    assert!(s.get_project(p).is_none());
    assert!(s.get_workflow(w).is_none());
    assert!(s.get_node(n).is_none());
    assert!(s.get_execution(e).is_none());
    assert!(s.get_workflow_version(v).is_none());
    let _ = r;
}

#[test]
fn workflow_delete_cascades_but_spares_the_project() {
    let mut s = opened();
    let p = s.create_project(String::from("novel"), None).unwrap();
    let w1 = s.create_workflow(p, String::from("draft"), None, 10, 300).unwrap();
    let w2 = s.create_workflow(p, String::from("edit"), None, 10, 300).unwrap();
    s.create_node(w1, String::from("t"), String::from("a"), String::from("{}"), 0, None, None)
        .unwrap();
    s.create_node(w2, String::from("t"), String::from("b"), String::from("{}"), 0, None, None)
        .unwrap();
    assert!(s.delete_workflow(w1).is_ok());
    assert!(s.get_project(p).is_some());
    assert!(s.get_workflow(w1).is_none());
    assert!(s.get_workflow(w2).is_some());
    assert_eq!(s.list_nodes(w2).len(), 1);
    assert_eq!(s.nodes.len(), 1);
}

#[test]
fn execution_delete_cascades_to_node_results() {
    let mut s = opened();
    let p = s.create_project(String::from("novel"), None).unwrap();
    let w = s.create_workflow(p, String::from("draft"), None, 10, 300).unwrap();
    let e1 = s.create_execution(w, String::from("running"), None).unwrap();
    let e2 = s.create_execution(w, String::from("running"), None).unwrap();
    s.create_node_result(e1, 0, 1, None, String::from("running")).unwrap();
    s.create_node_result(e2, 0, 1, None, String::from("running")).unwrap();
    assert!(s.delete_execution(e1).is_ok());
    assert_eq!(s.node_results.len(), 1);
    assert_eq!(s.list_node_results(e2).len(), 1);
}

#[test]
fn setting_with_parent_in_same_project_succeeds() {
    let mut s = opened();
    let p = s.create_project(String::from("novel"), None).unwrap();
    let root = s
        .create_setting(
            p,
            String::from("world"),
            String::from("kingdom"),
            String::from("..."),
            true,
            None,
            0,
            String::from("auto"),
            0,
            String::from(""),
            String::from(""),
        )
        .unwrap();
    let child = s
        .create_setting(
            p,
            String::from("world"),
            String::from("capital"),
            String::from("..."),
            true,
            Some(root),
            0,
            String::from("auto"),
            0,
            String::from(""),
            String::from(""),
        )
        .unwrap();
    let listed = s.list_settings(p);
    assert_eq!(listed.len(), 2);
    assert_eq!(listed[0].id, root);
    assert_eq!(listed[1].id, child);
    let children = s.children_of_setting(root);
    assert_eq!(children.len(), 1);
    assert_eq!(children[0].id, child);
}

#[test]
fn setting_delete_cascades_to_relations() {
    let mut s = opened();
    let p = s.create_project(String::from("novel"), None).unwrap();
    let a = s
        .create_setting(
            p,
            String::from("world"),
            String::from("a"),
            String::from("..."),
            true,
            None,
            0,
            String::from("auto"),
            0,
            String::from(""),
            String::from(""),
        )
        .unwrap();
    let b = s
        .create_setting(
            p,
            String::from("world"),
            String::from("b"),
            String::from("..."),
            true,
            None,
            0,
            String::from("auto"),
            0,
            String::from(""),
            String::from(""),
        )
        .unwrap();
    s.create_setting_relation(p, a, b, String::from("ally"), None, true).unwrap();
    assert_eq!(s.list_setting_relations(p).len(), 1);
    assert!(s.delete_setting(a).is_ok());
    assert_eq!(s.list_setting_relations(p).len(), 0);
    assert!(s.get_setting(b).is_some());
}

#[test]
fn relation_endpoints_must_share_the_project() {
    let mut s = opened();
    let p1 = s.create_project(String::from("one"), None).unwrap();
    let p2 = s.create_project(String::from("two"), None).unwrap();
    let a = s
        .create_setting(
            p1,
            String::from("world"),
            String::from("a"),
            String::from("..."),
            true,
            None,
            0,
            String::from("auto"),
            0,
            String::from(""),
            String::from(""),
        )
        .unwrap();
    let b = s
        .create_setting(
            p2,
            String::from("world"),
            String::from("b"),
            String::from("..."),
            true,
            None,
            0,
            String::from("auto"),
            0,
            String::from(""),
            String::from(""),
        )
        .unwrap();
    let r = s.create_setting_relation(p1, a, b, String::from("ally"), None, false);
    assert_eq!(r, Err(StoreError::ConstraintViolation));
}

#[test]
fn global_config_is_seeded_by_migration_one() {
    let s = opened();
    let c = s.get_config();
    assert_eq!(c.theme, "system");
    assert_eq!(c.ai_providers, "{}");
    assert_eq!(c.default_loop_max, 10);
    assert_eq!(c.default_timeout, 300);
}

#[test]
fn global_config_set_then_get_round_trips() {
    let mut s = opened();
    let mut c = s.get_config().clone();
    c.theme = String::from("dark");
    c.ai_providers = String::from("{\"p\":1}");
    c.default_loop_max = 42;
    s.set_config(c);
    let back = s.get_config();
    assert_eq!(back.theme, "dark");
    assert_eq!(back.ai_providers, "{\"p\":1}");
    assert_eq!(back.default_loop_max, 42);
    assert_eq!(back.default_timeout, 300);
}

#[test]
fn version_numbers_increase_per_workflow() {
    let mut s = opened();
    let p = s.create_project(String::from("novel"), None).unwrap();
    let w = s.create_workflow(p, String::from("draft"), None, 10, 300).unwrap();
    let v1 = s.create_workflow_version(w, String::from("one"), None).unwrap();
    let v2 = s.create_workflow_version(w, String::from("two"), None).unwrap();
    let v3 = s.create_workflow_version(w, String::from("three"), None).unwrap();
    let vs = s.list_workflow_versions(w);
    assert_eq!(vs.len(), 3);
    assert_eq!(vs[0].version_number, 1);
    assert_eq!(vs[1].version_number, 2);
    assert_eq!(vs[2].version_number, 3);
    let first = s.get_workflow_version(v1).unwrap();
    assert_eq!(first.snapshot, "one");
    let _ = (v2, v3);
}

#[test]
fn version_numbers_are_per_workflow() {
    let mut s = opened();
    let p = s.create_project(String::from("novel"), None).unwrap();
    let w1 = s.create_workflow(p, String::from("a"), None, 10, 300).unwrap();
    let w2 = s.create_workflow(p, String::from("b"), None, 10, 300).unwrap();
    s.create_workflow_version(w1, String::from("s1"), None).unwrap();
    s.create_workflow_version(w1, String::from("s2"), None).unwrap();
    s.create_workflow_version(w2, String::from("t1"), None).unwrap();
    let vs1 = s.list_workflow_versions(w1);
    let vs2 = s.list_workflow_versions(w2);
    assert_eq!(vs1[1].version_number, 2);
    assert_eq!(vs2[0].version_number, 1);
}

#[test]
fn snapshots_are_immutable() {
    let mut s = opened();
    let p = s.create_project(String::from("novel"), None).unwrap();
    let w = s.create_workflow(p, String::from("draft"), None, 10, 300).unwrap();
    let v1 = s.create_workflow_version(w, String::from("original"), None).unwrap();
    let before = s.get_workflow_version(v1).unwrap();
    s.create_workflow_version(w, String::from("later"), None).unwrap();
    let after = s.get_workflow_version(v1).unwrap();
    assert_eq!(before.snapshot, after.snapshot);
    assert_eq!(after.snapshot, "original");
    assert_eq!(after.version_number, 1);
}

#[test]
fn repeated_node_creates_lose_no_writes() {
    let mut s = opened();
    let p = s.create_project(String::from("novel"), None).unwrap();
    let w = s.create_workflow(p, String::from("draft"), None, 10, 300).unwrap();
    let n: u64 = 20;
    for i in 0..n {
        s.create_node(
            w,
            String::from("step"),
            format!("node-{}", i),
            String::from("{}"),
            i,
            None,
            None,
        )
        .unwrap();
    }
    assert_eq!(s.list_nodes(w).len(), 20);
    let listed = s.list_nodes(w);
    for i in 1..listed.len() {
        assert!(listed[i - 1].id < listed[i].id);
    }
}

#[test]
fn empty_project_name_is_a_constraint_violation() {
    let mut s = opened();
    let r = s.create_project(String::from(""), None);
    assert_eq!(r, Err(StoreError::ConstraintViolation));
    assert_eq!(s.projects.len(), 0);
}

#[test]
fn missing_parents_are_constraint_violations() {
    let mut s = opened();
    assert_eq!(
        s.create_workflow(99, String::from("w"), None, 10, 300),
        Err(StoreError::ConstraintViolation)
    );
    assert_eq!(
        s.create_node(99, String::from("t"), String::from("n"), String::from("{}"), 0, None, None),
        Err(StoreError::ConstraintViolation)
    );
    assert_eq!(
        s.create_execution(99, String::from("running"), None),
        Err(StoreError::ConstraintViolation)
    );
    assert_eq!(
        s.create_workflow_version(99, String::from("s"), None),
        Err(StoreError::ConstraintViolation)
    );
}

#[test]
fn zero_loop_bound_and_zero_iteration_are_refused() {
    let mut s = opened();
    let p = s.create_project(String::from("novel"), None).unwrap();
    assert_eq!(
        s.create_workflow(p, String::from("w"), None, 0, 300),
        Err(StoreError::ConstraintViolation)
    );
    let w = s.create_workflow(p, String::from("w"), None, 1, 300).unwrap();
    let e = s.create_execution(w, String::from("running"), None).unwrap();
    assert_eq!(
        s.create_node_result(e, 0, 0, None, String::from("running")),
        Err(StoreError::ConstraintViolation)
    );
}

#[test]
fn reads_and_deletes_of_absent_ids_report_not_found() {
    let mut s = opened();
    assert!(s.get_project(7).is_none());
    assert_eq!(s.delete_project(7), Err(StoreError::NotFound));
    assert_eq!(s.delete_workflow(7), Err(StoreError::NotFound));
    assert_eq!(s.delete_node(7), Err(StoreError::NotFound));
    assert_eq!(s.delete_setting(7), Err(StoreError::NotFound));
    assert_eq!(s.delete_execution(7), Err(StoreError::NotFound));
    assert_eq!(s.update_project(7, Some(String::from("x")), None), Err(StoreError::NotFound));
}

#[test]
fn second_delete_of_the_same_id_is_not_found() {
    let mut s = opened();
    let p = s.create_project(String::from("novel"), None).unwrap();
    assert!(s.delete_project(p).is_ok());
    assert_eq!(s.delete_project(p), Err(StoreError::NotFound));
}

#[test]
fn update_changes_chosen_fields_and_timestamp() {
    let mut s = opened();
    let p = s.create_project(String::from("novel"), None).unwrap();
    let before = s.get_project(p).unwrap();
    assert!(s.update_project(p, Some(String::from("renamed")), None).is_ok());
    let after = s.get_project(p).unwrap();
    assert_eq!(after.name, "renamed");
    assert_eq!(after.created_at, before.created_at);
    assert!(after.updated_at > before.updated_at);
    assert_eq!(
        s.update_project(p, Some(String::from("")), None),
        Err(StoreError::ConstraintViolation)
    );
    let unchanged = s.get_project(p).unwrap();
    assert_eq!(unchanged.name, "renamed");
}

#[test]
fn execution_update_records_the_terminal_outcome() {
    let mut s = opened();
    let p = s.create_project(String::from("novel"), None).unwrap();
    let w = s.create_workflow(p, String::from("draft"), None, 10, 300).unwrap();
    let e = s.create_execution(w, String::from("running"), Some(String::from("in"))).unwrap();
    assert!(
        s.update_execution(
            e,
            Some(String::from("completed")),
            Some(String::from("out")),
            None,
            Some(99),
        )
        .is_ok()
    );
    let row = s.get_execution(e).unwrap();
    assert_eq!(row.status, "completed");
    assert_eq!(row.final_output, Some(String::from("out")));
    assert_eq!(row.input, Some(String::from("in")));
    assert_eq!(row.finished_at, Some(99));
}

#[test]
fn workflow_update_keeps_the_loop_bound_valid() {
    let mut s = opened();
    let p = s.create_project(String::from("novel"), None).unwrap();
    let w = s.create_workflow(p, String::from("draft"), None, 10, 300).unwrap();
    assert_eq!(
        s.update_workflow(w, None, None, Some(0), None),
        Err(StoreError::ConstraintViolation)
    );
    assert!(s.update_workflow(w, None, None, Some(5), Some(60)).is_ok());
    let row = s.get_workflow(w).unwrap();
    assert_eq!(row.loop_max_count, 5);
    assert_eq!(row.timeout_seconds, 60);
}

#[test]
fn node_update_and_delete() {
    let mut s = opened();
    let p = s.create_project(String::from("novel"), None).unwrap();
    let w = s.create_workflow(p, String::from("draft"), None, 10, 300).unwrap();
    let n = s
        .create_node(w, String::from("t"), String::from("a"), String::from("{}"), 3, None, None)
        .unwrap();
    assert!(s.update_node(n, None, Some(String::from("{\"k\":1}")), Some(7)).is_ok());
    let row = s.get_node(n).unwrap();
    assert_eq!(row.config, "{\"k\":1}");
    assert_eq!(row.order_index, 7);
    assert!(s.delete_node(n).is_ok());
    assert!(s.get_node(n).is_none());
}

#[test]
fn prompts_are_scoped_to_their_project() {
    let mut s = opened();
    let p1 = s.create_project(String::from("one"), None).unwrap();
    let p2 = s.create_project(String::from("two"), None).unwrap();
    s.create_setting_prompt(p1, String::from("world"), String::from("tpl-1"), true).unwrap();
    s.create_setting_prompt(p1, String::from("chars"), String::from("tpl-2"), true).unwrap();
    s.create_setting_prompt(p2, String::from("world"), String::from("tpl-3"), false).unwrap();
    assert_eq!(s.list_setting_prompts(p1).len(), 2);
    assert_eq!(s.list_setting_prompts(p2).len(), 1);
    assert!(s.delete_project(p1).is_ok());
    assert_eq!(s.setting_prompts.len(), 1);
}

#[test]
fn order_index_dictates_listing_order() {
    let mut s = opened();
    let p = s.create_project(String::from("novel"), None).unwrap();
    let late = s
        .create_setting(
            p,
            String::from("world"),
            String::from("shown-second"),
            String::from("..."),
            true,
            None,
            5,
            String::from("auto"),
            0,
            String::from(""),
            String::from(""),
        )
        .unwrap();
    let early = s
        .create_setting(
            p,
            String::from("world"),
            String::from("shown-first"),
            String::from("..."),
            true,
            None,
            1,
            String::from("auto"),
            0,
            String::from(""),
            String::from(""),
        )
        .unwrap();
    let listed = s.list_settings(p);
    assert_eq!(listed.len(), 2);
    assert_eq!(listed[0].id, early);
    assert_eq!(listed[1].id, late);
}

#[test]
fn node_order_follows_updated_order_index() {
    let mut s = opened();
    let p = s.create_project(String::from("novel"), None).unwrap();
    let w = s.create_workflow(p, String::from("draft"), None, 10, 300).unwrap();
    let a = s
        .create_node(w, String::from("t"), String::from("a"), String::from("{}"), 0, None, None)
        .unwrap();
    let b = s
        .create_node(w, String::from("t"), String::from("b"), String::from("{}"), 1, None, None)
        .unwrap();
    let before = s.list_nodes(w);
    assert_eq!(before[0].id, a);
    assert_eq!(before[1].id, b);
    assert!(s.update_node(a, None, None, Some(9)).is_ok());
    let after = s.list_nodes(w);
    assert_eq!(after[0].id, b);
    assert_eq!(after[1].id, a);
}
