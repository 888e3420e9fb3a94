//! The laws of the store, stated and proved over the same specifications
//! that the operations' contracts use.

use vstd::prelude::*;
use crate::migrate::{
    apply_plan, canonical_plan, fresh_schema_state, lemma_canonical_full_schema, lemma_rerun_noop,
    plan_max_version, state_version, versions_ascending,
};
use crate::rows::{has_id, ChildRow};
use crate::schema::{GlobalConfig, Node, WorkflowVersion};
use crate::store::Store;

verus! {

/// Running the canonical migrations a second time is a no-op: every step
/// is recorded as applied after the first run, so the second run applies
/// nothing and changes nothing.
pub proof fn lemma_migration_idempotent()
    ensures
        apply_plan(apply_plan(fresh_schema_state(), canonical_plan()), canonical_plan())
            == apply_plan(fresh_schema_state(), canonical_plan()),
{
    lemma_canonical_full_schema();
    let end = apply_plan(fresh_schema_state(), canonical_plan());
    assert(end.applied == seq![1u64, 2u64, 3u64]);
    assert(state_version(end) == 3);
    assert(canonical_plan()[0].0 == 1 && canonical_plan()[1].0 == 2 && canonical_plan()[2].0 == 3);
    assert(versions_ascending(canonical_plan()));
    assert(plan_max_version(canonical_plan()) == 3);
    lemma_rerun_noop(end, canonical_plan());
}

/// Cascade closure: in a well-formed store that no longer holds a
/// project, no surviving row references that project; and because every
/// child row's parent exists, no node, execution, version or node result
/// references any removed workflow or execution either.
pub proof fn lemma_cascade_closure(s: Store, pid: u64)
    requires
        s.wf(),
        !has_id(s.projects@, pid),
    ensures
        forall|i: int|
            0 <= i < s.workflows@.len() ==> #[trigger] s.workflows@[i].project_id != pid,
        forall|i: int| 0 <= i < s.settings@.len() ==> #[trigger] s.settings@[i].project_id != pid,
        forall|i: int|
            0 <= i < s.setting_prompts@.len() ==> #[trigger] s.setting_prompts@[i].project_id
                != pid,
        forall|i: int|
            0 <= i < s.setting_relations@.len() ==> #[trigger] s.setting_relations@[i].project_id
                != pid,
        forall|i: int|
            0 <= i < s.nodes@.len() ==> has_id(s.workflows@, #[trigger] s.nodes@[i].workflow_id),
        forall|i: int|
            0 <= i < s.executions@.len() ==> has_id(
                s.workflows@,
                #[trigger] s.executions@[i].workflow_id,
            ),
        forall|i: int|
            0 <= i < s.workflow_versions@.len() ==> has_id(
                s.workflows@,
                #[trigger] s.workflow_versions@[i].workflow_id,
            ),
        forall|i: int|
            0 <= i < s.node_results@.len() ==> has_id(
                s.executions@,
                #[trigger] s.node_results@[i].execution_id,
            ),
{
    assert forall|i: int|
        0 <= i < s.workflows@.len() implies #[trigger] s.workflows@[i].project_id != pid by {
        assert(has_id(s.projects@, s.workflows@[i].parent()));
    }
    assert forall|i: int|
        0 <= i < s.settings@.len() implies #[trigger] s.settings@[i].project_id != pid by {
        assert(has_id(s.projects@, s.settings@[i].parent()));
    }
    assert forall|i: int|
        0 <= i < s.setting_prompts@.len() implies #[trigger] s.setting_prompts@[i].project_id
        != pid by {
        assert(has_id(s.projects@, s.setting_prompts@[i].parent()));
    }
    assert forall|i: int|
        0 <= i < s.setting_relations@.len() implies #[trigger] s.setting_relations@[i].project_id
        != pid by {
        assert(has_id(s.projects@, s.setting_relations@[i].parent()));
    }
    assert forall|i: int|
        0 <= i < s.nodes@.len() implies has_id(
        s.workflows@,
        #[trigger] s.nodes@[i].workflow_id,
    ) by {
        assert(has_id(s.workflows@, s.nodes@[i].parent()));
    }
    assert forall|i: int|
        0 <= i < s.executions@.len() implies has_id(
        s.workflows@,
        #[trigger] s.executions@[i].workflow_id,
    ) by {
        assert(has_id(s.workflows@, s.executions@[i].parent()));
    }
    assert forall|i: int|
        0 <= i < s.workflow_versions@.len() implies has_id(
        s.workflows@,
        #[trigger] s.workflow_versions@[i].workflow_id,
    ) by {
        assert(has_id(s.workflows@, s.workflow_versions@[i].parent()));
    }
    assert forall|i: int|
        0 <= i < s.node_results@.len() implies has_id(
        s.executions@,
        #[trigger] s.node_results@[i].execution_id,
    ) by {
        assert(has_id(s.executions@, s.node_results@[i].parent()));
    }
}

/// Replacing the configuration and reading it back yields exactly the
/// value that was written: Set then Get round-trips.
pub proof fn lemma_config_round_trip(pre: Store, post: Store, c: GlobalConfig)
    requires
        post == (Store { global_config: Some(c), ..pre }),
    ensures
        post.global_config is Some,
        post.global_config->0 == c,
{
}

/// Version numbers strictly increase per workflow along creation order.
pub proof fn lemma_version_numbers_ascending(s: Store, i: int, j: int)
    requires
        s.wf(),
        0 <= i < j < s.workflow_versions@.len(),
        s.workflow_versions@[i].workflow_id == s.workflow_versions@[j].workflow_id,
    ensures
        s.workflow_versions@[i].version_number < s.workflow_versions@[j].version_number,
{
}

/// Snapshots are immutable: taking a new version appends a row and leaves
/// every existing version row, including its snapshot, exactly as it was.
pub proof fn lemma_snapshots_immutable(
    pre: Seq<WorkflowVersion>,
    post: Seq<WorkflowVersion>,
    row: WorkflowVersion,
    i: int,
)
    requires
        post == pre.push(row),
        0 <= i < pre.len(),
    ensures
        post[i] == pre[i],
{
}

/// One serialized node creation: the node table grows by exactly the one
/// new row.
pub open spec fn appends_one_node(pre: Store, post: Store) -> bool {
    exists|n: Node| post.nodes@ == #[trigger] pre.nodes@.push(n)
}

/// No lost writes: operations on the store appear atomic (each takes the
/// store exclusively), so any serialization of n node creations against
/// one store grows the node count by exactly n.
pub proof fn lemma_no_lost_node_creates(hist: Seq<Store>)
    requires
        hist.len() >= 1,
        forall|i: int|
            0 <= i < hist.len() - 1 ==> #[trigger] appends_one_node(hist[i], hist[i + 1]),
    ensures
        hist.last().nodes@.len() == hist[0].nodes@.len() + hist.len() - 1,
    decreases hist.len(),
{
    if hist.len() > 1 {
        let d = hist.drop_last();
        assert forall|i: int|
            0 <= i < d.len() - 1 implies #[trigger] appends_one_node(d[i], d[i + 1]) by {
            assert(d[i] == hist[i] && d[i + 1] == hist[i + 1]);
            assert(appends_one_node(hist[i], hist[i + 1]));
        }
        lemma_no_lost_node_creates(d);
        let k = hist.len() - 2;
        assert(d[0] == hist[0]);
        assert(d.last() == hist[k]);
        assert(appends_one_node(hist[k], hist[k + 1]));
        assert(hist[k + 1] == hist.last());
        let n = choose|n: Node| hist[k + 1].nodes@ == #[trigger] hist[k].nodes@.push(n);
        assert(hist.last().nodes@.len() == hist[k].nodes@.len() + 1);
    }
}

} // verus!
