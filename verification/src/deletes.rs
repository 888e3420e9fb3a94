//! Deletion with explicit, transactionally-scoped cascades: removing a row
//! removes every row it owns, so no surviving row ever references a removed
//! one. Deletion of an absent id reports NotFound (a second delete of the
//! same id is not success).

use vstd::prelude::*;
use crate::rows::{
    find_row, has_id, ids_ascending, ids_below, keep_rows, keep_with_parent_in, lemma_keep_rows_push,
    lemma_keep_src_at, lemma_keep_with_parent_at, lemma_keep_with_parent_mono,
    lemma_keep_with_parent_wf, lemma_remove_by_id_keeps, lemma_remove_by_id_wf,
    lemma_remove_children_at, lemma_remove_children_keeps, lemma_remove_children_mono,
    lemma_remove_children_wf, remove_by_id, remove_children,
    retain_except_id, retain_not_children_of, retain_with_live_parent, ChildRow, Row,
};
use crate::schema::{SettingRelation, StoreError};
use crate::store::{setting_in_project, Store};

verus! {

/// Keeping every relation that touches neither endpoint equal to the
/// given setting.
pub open spec fn not_touching_pred(sid: u64) -> spec_fn(SettingRelation) -> bool {
    |r: SettingRelation| r.source_id != sid && r.target_id != sid
}

/// The relations that do not touch the given setting, in order.
pub open spec fn remove_touching(rs: Seq<SettingRelation>, sid: u64) -> Seq<SettingRelation> {
    keep_rows(rs, not_touching_pred(sid))
}

/// Well-formedness and membership facts about the relations left after a
/// setting is removed.
proof fn lemma_remove_touching_wf(rs: Seq<SettingRelation>, sid: u64, bound: u64)
    requires
        ids_ascending(rs),
        ids_below(rs, bound),
    ensures
        ids_ascending(remove_touching(rs, sid)),
        ids_below(remove_touching(rs, sid), bound),
        forall|j: int|
            #![trigger remove_touching(rs, sid)[j]]
            0 <= j < remove_touching(rs, sid).len() ==> exists|i: int|
                0 <= i < rs.len() && #[trigger] rs[i] == remove_touching(rs, sid)[j],
        forall|j: int|
            #![trigger remove_touching(rs, sid)[j]]
            0 <= j < remove_touching(rs, sid).len() ==> remove_touching(rs, sid)[j].source_id
                != sid && remove_touching(rs, sid)[j].target_id != sid,
{
    let p = not_touching_pred(sid);
    let f = remove_touching(rs, sid);
    assert forall|j: int| #![trigger f[j]] 0 <= j < f.len() implies exists|i: int|
        0 <= i < rs.len() && #[trigger] rs[i] == f[j] by {
        lemma_keep_src_at(rs, p, j);
        assert(rs[crate::rows::keep_src(rs, p, j)] == f[j]);
    }
    assert forall|j1: int, j2: int|
        0 <= j1 < j2 < f.len() implies #[trigger] f[j1].rid() < #[trigger] f[j2].rid() by {
        lemma_keep_src_at(rs, p, j1);
        lemma_keep_src_at(rs, p, j2);
        crate::rows::lemma_keep_src_mono(rs, p, j1, j2);
        assert(rs[crate::rows::keep_src(rs, p, j1)].rid() < rs[crate::rows::keep_src(
            rs,
            p,
            j2,
        )].rid());
    }
    assert forall|j: int| 0 <= j < f.len() implies #[trigger] f[j].rid() < bound by {
        lemma_keep_src_at(rs, p, j);
        assert(rs[crate::rows::keep_src(rs, p, j)].rid() < bound);
    }
    assert forall|j: int| #![trigger f[j]] 0 <= j < f.len() implies f[j].source_id != sid
        && f[j].target_id != sid by {
        lemma_keep_src_at(rs, p, j);
        assert(p(rs[crate::rows::keep_src(rs, p, j)]));
    }
}

/// Drops every relation that touches the given setting.
fn retain_relations_not_touching(v: &Vec<SettingRelation>, sid: u64) -> (r: Vec<SettingRelation>)
    ensures
        r@ == remove_touching(v@, sid),
{
    let mut r: Vec<SettingRelation> = Vec::new();
    let mut i: usize = 0;
    while i < v.len()
        invariant
            i <= v.len(),
            r@ == remove_touching(v@.take(i as int), sid),
        decreases v.len() - i,
    {
        proof {
            assert(v@.take(i as int + 1) =~= v@.take(i as int).push(v@[i as int]));
            lemma_keep_rows_push(v@.take(i as int), not_touching_pred(sid), v@[i as int]);
        }
        if v[i].source_id != sid && v[i].target_id != sid {
            r.push(v[i].clone_row());
        }
        i = i + 1;
    }
    proof {
        assert(v@.take(v@.len() as int) =~= v@);
    }
    r
}

impl Store {
    /// Deletes a node. Nothing else references nodes, so nothing cascades.
    pub fn delete_node(&mut self, id: u64) -> (r: Result<(), StoreError>)
        requires
            old(self).wf(),
            old(self).migrated(),
        ensures
            final(self).wf(),
            final(self).migrated(),
            r is Ok <==> has_id(old(self).nodes@, id),
            r is Err ==> r->Err_0 == StoreError::NotFound && *final(self) == *old(self),
            r is Ok ==> final(self).nodes@ == remove_by_id(old(self).nodes@, id) && *final(self)
                == (Store { nodes: final(self).nodes, ..*old(self) }),
    {
        if find_row(&self.nodes, id).is_none() {
            return Err(StoreError::NotFound);
        }
        let nodes2 = retain_except_id(&self.nodes, id);
        self.nodes = nodes2;
        proof {
            lemma_remove_by_id_wf(old(self).nodes@, id, old(self).next_id);
            assert forall|j: int|
                0 <= j < self.nodes@.len() implies has_id(
                old(self).workflows@,
                #[trigger] self.nodes@[j].parent(),
            ) by {
                let i = choose|i: int|
                    0 <= i < old(self).nodes@.len() && #[trigger] old(self).nodes@[i]
                        == self.nodes@[j];
                assert(has_id(old(self).workflows@, old(self).nodes@[i].parent()));
            }
        }
        Ok(())
    }

    /// Deletes an execution; its node results cascade with it.
    pub fn delete_execution(&mut self, id: u64) -> (r: Result<(), StoreError>)
        requires
            old(self).wf(),
            old(self).migrated(),
        ensures
            final(self).wf(),
            final(self).migrated(),
            r is Ok <==> has_id(old(self).executions@, id),
            r is Err ==> r->Err_0 == StoreError::NotFound && *final(self) == *old(self),
            r is Ok ==> final(self).executions@ == remove_by_id(old(self).executions@, id)
                && final(self).node_results@ == remove_children(old(self).node_results@, id)
                && *final(self) == (Store {
                executions: final(self).executions,
                node_results: final(self).node_results,
                ..*old(self)
            }),
    {
        if find_row(&self.executions, id).is_none() {
            return Err(StoreError::NotFound);
        }
        let ex2 = retain_except_id(&self.executions, id);
        let nr2 = retain_not_children_of(&self.node_results, id);
        self.executions = ex2;
        self.node_results = nr2;
        proof {
            lemma_remove_by_id_wf(old(self).executions@, id, old(self).next_id);
            lemma_remove_children_wf(old(self).node_results@, id, old(self).next_id);
            assert forall|j: int|
                0 <= j < self.executions@.len() implies has_id(
                old(self).workflows@,
                #[trigger] self.executions@[j].parent(),
            ) by {
                let i = choose|i: int|
                    0 <= i < old(self).executions@.len() && #[trigger] old(self).executions@[i]
                        == self.executions@[j];
                assert(has_id(old(self).workflows@, old(self).executions@[i].parent()));
            }
            assert forall|j: int|
                0 <= j < self.node_results@.len() implies has_id(
                self.executions@,
                #[trigger] self.node_results@[j].parent(),
            ) by {
                let i = choose|i: int|
                    0 <= i < old(self).node_results@.len() && #[trigger] old(self).node_results@[i]
                        == self.node_results@[j];
                assert(has_id(old(self).executions@, old(self).node_results@[i].parent()));
            }
            assert forall|j: int|
                0 <= j < self.node_results@.len() implies #[trigger] self.node_results@[
                j].iteration >= 1 by {
                let i = choose|i: int|
                    0 <= i < old(self).node_results@.len() && #[trigger] old(self).node_results@[i]
                        == self.node_results@[j];
                assert(old(self).node_results@[i].iteration >= 1);
            }
        }
        Ok(())
    }

    /// Deletes a workflow; its nodes, executions (with their node
    /// results) and version history cascade with it.
    pub fn delete_workflow(&mut self, id: u64) -> (r: Result<(), StoreError>)
        requires
            old(self).wf(),
            old(self).migrated(),
        ensures
            final(self).wf(),
            final(self).migrated(),
            r is Ok <==> has_id(old(self).workflows@, id),
            r is Err ==> r->Err_0 == StoreError::NotFound && *final(self) == *old(self),
            r is Ok ==> final(self).workflows@ == remove_by_id(old(self).workflows@, id)
                && final(self).nodes@ == remove_children(old(self).nodes@, id)
                && final(self).executions@ == remove_children(old(self).executions@, id)
                && final(self).workflow_versions@ == remove_children(
                old(self).workflow_versions@,
                id,
            ) && final(self).node_results@ == keep_with_parent_in(
                old(self).node_results@,
                final(self).executions@,
            ) && *final(self) == (Store {
                workflows: final(self).workflows,
                nodes: final(self).nodes,
                executions: final(self).executions,
                workflow_versions: final(self).workflow_versions,
                node_results: final(self).node_results,
                ..*old(self)
            }),
    {
        if find_row(&self.workflows, id).is_none() {
            return Err(StoreError::NotFound);
        }
        let ws2 = retain_except_id(&self.workflows, id);
        let nodes2 = retain_not_children_of(&self.nodes, id);
        let ex2 = retain_not_children_of(&self.executions, id);
        let vs2 = retain_not_children_of(&self.workflow_versions, id);
        let nr2 = retain_with_live_parent(&self.node_results, &ex2);
        self.workflows = ws2;
        self.nodes = nodes2;
        self.executions = ex2;
        self.workflow_versions = vs2;
        self.node_results = nr2;
        proof {
            lemma_remove_by_id_wf(old(self).workflows@, id, old(self).next_id);
            lemma_remove_children_wf(old(self).nodes@, id, old(self).next_id);
            lemma_remove_children_wf(old(self).executions@, id, old(self).next_id);
            lemma_remove_children_wf(old(self).workflow_versions@, id, old(self).next_id);
            lemma_keep_with_parent_wf(
                old(self).node_results@,
                self.executions@,
                old(self).next_id,
            );
            assert forall|j: int|
                0 <= j < self.workflows@.len() implies has_id(
                old(self).projects@,
                #[trigger] self.workflows@[j].parent(),
            ) by {
                let i = choose|i: int|
                    0 <= i < old(self).workflows@.len() && #[trigger] old(self).workflows@[i]
                        == self.workflows@[j];
                assert(has_id(old(self).projects@, old(self).workflows@[i].parent()));
            }
            assert forall|j: int|
                0 <= j < self.nodes@.len() implies has_id(
                self.workflows@,
                #[trigger] self.nodes@[j].parent(),
            ) by {
                let i = choose|i: int|
                    0 <= i < old(self).nodes@.len() && #[trigger] old(self).nodes@[i]
                        == self.nodes@[j];
                assert(has_id(old(self).workflows@, old(self).nodes@[i].parent()));
            }
            assert forall|j: int|
                0 <= j < self.executions@.len() implies has_id(
                self.workflows@,
                #[trigger] self.executions@[j].parent(),
            ) by {
                let i = choose|i: int|
                    0 <= i < old(self).executions@.len() && #[trigger] old(self).executions@[i]
                        == self.executions@[j];
                assert(has_id(old(self).workflows@, old(self).executions@[i].parent()));
            }
            assert forall|j: int|
                0 <= j < self.workflow_versions@.len() implies has_id(
                self.workflows@,
                #[trigger] self.workflow_versions@[j].parent(),
            ) by {
                let i = choose|i: int|
                    0 <= i < old(self).workflow_versions@.len() && #[trigger] old(
                        self,
                    ).workflow_versions@[i] == self.workflow_versions@[j];
                assert(has_id(old(self).workflows@, old(self).workflow_versions@[i].parent()));
            }
            assert forall|j: int|
                0 <= j < self.workflows@.len() implies #[trigger] self.workflows@[
                j].loop_max_count >= 1 by {
                let i = choose|i: int|
                    0 <= i < old(self).workflows@.len() && #[trigger] old(self).workflows@[i]
                        == self.workflows@[j];
                assert(old(self).workflows@[i].loop_max_count >= 1);
            }
            assert forall|j: int|
                0 <= j < self.node_results@.len() implies #[trigger] self.node_results@[
                j].iteration >= 1 by {
                let i = choose|i: int|
                    0 <= i < old(self).node_results@.len() && #[trigger] old(self).node_results@[i]
                        == self.node_results@[j];
                assert(old(self).node_results@[i].iteration >= 1);
            }
            assert forall|j1: int, j2: int|
                #![trigger self.workflow_versions@[j1].workflow_id, self.workflow_versions@[j2].workflow_id]
                0 <= j1 < j2 < self.workflow_versions@.len() && self.workflow_versions@[
                j1].workflow_id == self.workflow_versions@[j2].workflow_id implies
                self.workflow_versions@[j1].version_number < self.workflow_versions@[
                j2].version_number by {
                lemma_remove_children_at(old(self).workflow_versions@, id, j1);
                lemma_remove_children_at(old(self).workflow_versions@, id, j2);
                lemma_remove_children_mono(old(self).workflow_versions@, id, j1, j2);
                let i1 = crate::rows::keep_src(
                    old(self).workflow_versions@,
                    crate::rows::not_child_pred(id),
                    j1,
                );
                let i2 = crate::rows::keep_src(
                    old(self).workflow_versions@,
                    crate::rows::not_child_pred(id),
                    j2,
                );
                assert(old(self).workflow_versions@[i1].workflow_id == old(
                    self,
                ).workflow_versions@[i2].workflow_id);
            }
            assert forall|j: int|
                #![trigger self.workflow_versions@[j]]
                0 <= j < self.workflow_versions@.len() implies 1 <= self.workflow_versions@[
                j].version_number && self.workflow_versions@[j].version_number
                <= self.workflow_versions@[j].id by {
                let i = choose|i: int|
                    0 <= i < old(self).workflow_versions@.len() && #[trigger] old(
                        self,
                    ).workflow_versions@[i] == self.workflow_versions@[j];
                assert(1 <= old(self).workflow_versions@[i].version_number && old(
                    self,
                ).workflow_versions@[i].version_number <= old(self).workflow_versions@[i].id);
            }
        }
        Ok(())
    }

    /// Deletes a setting; relations touching it cascade with it.
    pub fn delete_setting(&mut self, id: u64) -> (r: Result<(), StoreError>)
        requires
            old(self).wf(),
            old(self).migrated(),
        ensures
            final(self).wf(),
            final(self).migrated(),
            r is Ok <==> has_id(old(self).settings@, id),
            r is Err ==> r->Err_0 == StoreError::NotFound && *final(self) == *old(self),
            r is Ok ==> final(self).settings@ == remove_by_id(old(self).settings@, id)
                && final(self).setting_relations@ == remove_touching(
                old(self).setting_relations@,
                id,
            ) && *final(self) == (Store {
                settings: final(self).settings,
                setting_relations: final(self).setting_relations,
                ..*old(self)
            }),
    {
        if find_row(&self.settings, id).is_none() {
            return Err(StoreError::NotFound);
        }
        let ss2 = retain_except_id(&self.settings, id);
        let rel2 = retain_relations_not_touching(&self.setting_relations, id);
        self.settings = ss2;
        self.setting_relations = rel2;
        proof {
            lemma_remove_by_id_wf(old(self).settings@, id, old(self).next_id);
            lemma_remove_touching_wf(old(self).setting_relations@, id, old(self).next_id);
            assert forall|j: int|
                0 <= j < self.settings@.len() implies has_id(
                old(self).projects@,
                #[trigger] self.settings@[j].parent(),
            ) by {
                let i = choose|i: int|
                    0 <= i < old(self).settings@.len() && #[trigger] old(self).settings@[i]
                        == self.settings@[j];
                assert(has_id(old(self).projects@, old(self).settings@[i].parent()));
            }
            assert forall|j: int|
                #![trigger self.setting_relations@[j]]
                0 <= j < self.setting_relations@.len() implies has_id(
                old(self).projects@,
                self.setting_relations@[j].parent(),
            ) && setting_in_project(
                self.settings@,
                self.setting_relations@[j].source_id,
                self.setting_relations@[j].project_id,
            ) && setting_in_project(
                self.settings@,
                self.setting_relations@[j].target_id,
                self.setting_relations@[j].project_id,
            ) by {
                let i = choose|i: int|
                    0 <= i < old(self).setting_relations@.len() && #[trigger] old(
                        self,
                    ).setting_relations@[i] == self.setting_relations@[j];
                assert(has_id(old(self).projects@, old(self).setting_relations@[i].parent()));
                let rel = old(self).setting_relations@[i];
                assert(setting_in_project(old(self).settings@, rel.source_id, rel.project_id));
                assert(setting_in_project(old(self).settings@, rel.target_id, rel.project_id));
                let k1 = choose|k: int|
                    0 <= k < old(self).settings@.len() && #[trigger] old(self).settings@[k].id
                        == rel.source_id && old(self).settings@[k].project_id == rel.project_id;
                assert(old(self).settings@[k1].rid() != id);
                lemma_remove_by_id_keeps(old(self).settings@, id, k1);
                let m1 = choose|m: int|
                    0 <= m < self.settings@.len() && self.settings@[m] == old(self).settings@[k1];
                assert(self.settings@[m1].id == rel.source_id && self.settings@[m1].project_id
                    == rel.project_id);
                let k2 = choose|k: int|
                    0 <= k < old(self).settings@.len() && #[trigger] old(self).settings@[k].id
                        == rel.target_id && old(self).settings@[k].project_id == rel.project_id;
                assert(old(self).settings@[k2].rid() != id);
                lemma_remove_by_id_keeps(old(self).settings@, id, k2);
                let m2 = choose|m: int|
                    0 <= m < self.settings@.len() && self.settings@[m] == old(self).settings@[k2];
                assert(self.settings@[m2].id == rel.target_id && self.settings@[m2].project_id
                    == rel.project_id);
            }
        }
        Ok(())
    }

    /// Deletes a prompt template.
    pub fn delete_setting_prompt(&mut self, id: u64) -> (r: Result<(), StoreError>)
        requires
            old(self).wf(),
            old(self).migrated(),
        ensures
            final(self).wf(),
            final(self).migrated(),
            r is Ok <==> has_id(old(self).setting_prompts@, id),
            r is Err ==> r->Err_0 == StoreError::NotFound && *final(self) == *old(self),
            r is Ok ==> final(self).setting_prompts@ == remove_by_id(
                old(self).setting_prompts@,
                id,
            ) && *final(self) == (Store { setting_prompts: final(self).setting_prompts, ..*old(self) }),
    {
        if find_row(&self.setting_prompts, id).is_none() {
            return Err(StoreError::NotFound);
        }
        let ps2 = retain_except_id(&self.setting_prompts, id);
        self.setting_prompts = ps2;
        proof {
            lemma_remove_by_id_wf(old(self).setting_prompts@, id, old(self).next_id);
            assert forall|j: int|
                0 <= j < self.setting_prompts@.len() implies has_id(
                old(self).projects@,
                #[trigger] self.setting_prompts@[j].parent(),
            ) by {
                let i = choose|i: int|
                    0 <= i < old(self).setting_prompts@.len() && #[trigger] old(
                        self,
                    ).setting_prompts@[i] == self.setting_prompts@[j];
                assert(has_id(old(self).projects@, old(self).setting_prompts@[i].parent()));
            }
        }
        Ok(())
    }

    /// Deletes a relation.
    pub fn delete_setting_relation(&mut self, id: u64) -> (r: Result<(), StoreError>)
        requires
            old(self).wf(),
            old(self).migrated(),
        ensures
            final(self).wf(),
            final(self).migrated(),
            r is Ok <==> has_id(old(self).setting_relations@, id),
            r is Err ==> r->Err_0 == StoreError::NotFound && *final(self) == *old(self),
            r is Ok ==> final(self).setting_relations@ == remove_by_id(
                old(self).setting_relations@,
                id,
            ) && *final(self) == (Store {
                setting_relations: final(self).setting_relations,
                ..*old(self)
            }),
    {
        if find_row(&self.setting_relations, id).is_none() {
            return Err(StoreError::NotFound);
        }
        let rel2 = retain_except_id(&self.setting_relations, id);
        self.setting_relations = rel2;
        proof {
            lemma_remove_by_id_wf(old(self).setting_relations@, id, old(self).next_id);
            assert forall|j: int|
                #![trigger self.setting_relations@[j]]
                0 <= j < self.setting_relations@.len() implies has_id(
                old(self).projects@,
                self.setting_relations@[j].parent(),
            ) && setting_in_project(
                old(self).settings@,
                self.setting_relations@[j].source_id,
                self.setting_relations@[j].project_id,
            ) && setting_in_project(
                old(self).settings@,
                self.setting_relations@[j].target_id,
                self.setting_relations@[j].project_id,
            ) by {
                let i = choose|i: int|
                    0 <= i < old(self).setting_relations@.len() && #[trigger] old(
                        self,
                    ).setting_relations@[i] == self.setting_relations@[j];
                assert(has_id(old(self).projects@, old(self).setting_relations@[i].parent()));
                assert(setting_in_project(
                    old(self).settings@,
                    old(self).setting_relations@[i].source_id,
                    old(self).setting_relations@[i].project_id,
                ));
                assert(setting_in_project(
                    old(self).settings@,
                    old(self).setting_relations@[i].target_id,
                    old(self).setting_relations@[i].project_id,
                ));
            }
        }
        Ok(())
    }
    /// Deletes a project: the root of the ownership tree. Its workflows
    /// (with their nodes, executions, node results and version history),
    /// settings (with their relations) and prompt templates all cascade
    /// with it, so no surviving row references the project or anything it
    /// owned.
    pub fn delete_project(&mut self, id: u64) -> (r: Result<(), StoreError>)
        requires
            old(self).wf(),
            old(self).migrated(),
        ensures
            final(self).wf(),
            final(self).migrated(),
            r is Ok <==> has_id(old(self).projects@, id),
            r is Err ==> r->Err_0 == StoreError::NotFound && *final(self) == *old(self),
            r is Ok ==> final(self).projects@ == remove_by_id(old(self).projects@, id)
                && final(self).workflows@ == remove_children(old(self).workflows@, id)
                && final(self).settings@ == remove_children(old(self).settings@, id)
                && final(self).setting_prompts@ == remove_children(old(self).setting_prompts@, id)
                && final(self).setting_relations@ == remove_children(
                old(self).setting_relations@,
                id,
            ) && final(self).nodes@ == keep_with_parent_in(old(self).nodes@, final(self).workflows@)
                && final(self).executions@ == keep_with_parent_in(
                old(self).executions@,
                final(self).workflows@,
            ) && final(self).workflow_versions@ == keep_with_parent_in(
                old(self).workflow_versions@,
                final(self).workflows@,
            ) && final(self).node_results@ == keep_with_parent_in(
                old(self).node_results@,
                final(self).executions@,
            ) && *final(self) == (Store {
                projects: final(self).projects,
                workflows: final(self).workflows,
                nodes: final(self).nodes,
                settings: final(self).settings,
                setting_prompts: final(self).setting_prompts,
                setting_relations: final(self).setting_relations,
                executions: final(self).executions,
                node_results: final(self).node_results,
                workflow_versions: final(self).workflow_versions,
                ..*old(self)
            }),
    {
        if find_row(&self.projects, id).is_none() {
            return Err(StoreError::NotFound);
        }
        let projects2 = retain_except_id(&self.projects, id);
        let ws2 = retain_not_children_of(&self.workflows, id);
        let ss2 = retain_not_children_of(&self.settings, id);
        let ps2 = retain_not_children_of(&self.setting_prompts, id);
        let rel2 = retain_not_children_of(&self.setting_relations, id);
        let nodes2 = retain_with_live_parent(&self.nodes, &ws2);
        let ex2 = retain_with_live_parent(&self.executions, &ws2);
        let vs2 = retain_with_live_parent(&self.workflow_versions, &ws2);
        let nr2 = retain_with_live_parent(&self.node_results, &ex2);
        self.projects = projects2;
        self.workflows = ws2;
        self.settings = ss2;
        self.setting_prompts = ps2;
        self.setting_relations = rel2;
        self.nodes = nodes2;
        self.executions = ex2;
        self.workflow_versions = vs2;
        self.node_results = nr2;
        proof {
            lemma_remove_by_id_wf(old(self).projects@, id, old(self).next_id);
            lemma_remove_children_wf(old(self).workflows@, id, old(self).next_id);
            lemma_remove_children_wf(old(self).settings@, id, old(self).next_id);
            lemma_remove_children_wf(old(self).setting_prompts@, id, old(self).next_id);
            lemma_remove_children_wf(old(self).setting_relations@, id, old(self).next_id);
            lemma_keep_with_parent_wf(old(self).nodes@, self.workflows@, old(self).next_id);
            lemma_keep_with_parent_wf(old(self).executions@, self.workflows@, old(self).next_id);
            lemma_keep_with_parent_wf(
                old(self).workflow_versions@,
                self.workflows@,
                old(self).next_id,
            );
            lemma_keep_with_parent_wf(old(self).node_results@, self.executions@, old(self).next_id);
            assert forall|j: int|
                0 <= j < self.workflows@.len() implies has_id(
                self.projects@,
                #[trigger] self.workflows@[j].parent(),
            ) by {
                let i = choose|i: int|
                    0 <= i < old(self).workflows@.len() && #[trigger] old(self).workflows@[i]
                        == self.workflows@[j];
                assert(has_id(old(self).projects@, old(self).workflows@[i].parent()));
            }
            assert forall|j: int|
                0 <= j < self.settings@.len() implies has_id(
                self.projects@,
                #[trigger] self.settings@[j].parent(),
            ) by {
                let i = choose|i: int|
                    0 <= i < old(self).settings@.len() && #[trigger] old(self).settings@[i]
                        == self.settings@[j];
                assert(has_id(old(self).projects@, old(self).settings@[i].parent()));
            }
            assert forall|j: int|
                0 <= j < self.setting_prompts@.len() implies has_id(
                self.projects@,
                #[trigger] self.setting_prompts@[j].parent(),
            ) by {
                let i = choose|i: int|
                    0 <= i < old(self).setting_prompts@.len() && #[trigger] old(
                        self,
                    ).setting_prompts@[i] == self.setting_prompts@[j];
                assert(has_id(old(self).projects@, old(self).setting_prompts@[i].parent()));
            }
            assert forall|j: int|
                #![trigger self.setting_relations@[j]]
                0 <= j < self.setting_relations@.len() implies has_id(
                self.projects@,
                self.setting_relations@[j].parent(),
            ) && setting_in_project(
                self.settings@,
                self.setting_relations@[j].source_id,
                self.setting_relations@[j].project_id,
            ) && setting_in_project(
                self.settings@,
                self.setting_relations@[j].target_id,
                self.setting_relations@[j].project_id,
            ) by {
                lemma_remove_children_at(old(self).setting_relations@, id, j);
                let i = crate::rows::keep_src(
                    old(self).setting_relations@,
                    crate::rows::not_child_pred(id),
                    j,
                );
                let rel = old(self).setting_relations@[i];
                assert(rel.parent() != id);
                assert(has_id(old(self).projects@, rel.parent()));
                assert(setting_in_project(old(self).settings@, rel.source_id, rel.project_id));
                assert(setting_in_project(old(self).settings@, rel.target_id, rel.project_id));
                let k1 = choose|k: int|
                    0 <= k < old(self).settings@.len() && #[trigger] old(self).settings@[k].id
                        == rel.source_id && old(self).settings@[k].project_id == rel.project_id;
                assert(old(self).settings@[k1].parent() != id);
                lemma_remove_children_keeps(old(self).settings@, id, k1);
                let m1 = choose|m: int|
                    0 <= m < self.settings@.len() && self.settings@[m] == old(self).settings@[k1];
                assert(self.settings@[m1].id == rel.source_id && self.settings@[m1].project_id
                    == rel.project_id);
                let k2 = choose|k: int|
                    0 <= k < old(self).settings@.len() && #[trigger] old(self).settings@[k].id
                        == rel.target_id && old(self).settings@[k].project_id == rel.project_id;
                assert(old(self).settings@[k2].parent() != id);
                lemma_remove_children_keeps(old(self).settings@, id, k2);
                let m2 = choose|m: int|
                    0 <= m < self.settings@.len() && self.settings@[m] == old(self).settings@[k2];
                assert(self.settings@[m2].id == rel.target_id && self.settings@[m2].project_id
                    == rel.project_id);
            }
            assert forall|j: int|
                0 <= j < self.projects@.len() implies #[trigger] self.projects@[j].name@.len()
                > 0 by {
                let i = choose|i: int|
                    0 <= i < old(self).projects@.len() && #[trigger] old(self).projects@[i]
                        == self.projects@[j];
                assert(old(self).projects@[i].name@.len() > 0);
            }
            assert forall|j: int|
                0 <= j < self.workflows@.len() implies #[trigger] self.workflows@[
                j].loop_max_count >= 1 by {
                let i = choose|i: int|
                    0 <= i < old(self).workflows@.len() && #[trigger] old(self).workflows@[i]
                        == self.workflows@[j];
                assert(old(self).workflows@[i].loop_max_count >= 1);
            }
            assert forall|j: int|
                0 <= j < self.node_results@.len() implies #[trigger] self.node_results@[
                j].iteration >= 1 by {
                let i = choose|i: int|
                    0 <= i < old(self).node_results@.len() && #[trigger] old(self).node_results@[i]
                        == self.node_results@[j];
                assert(old(self).node_results@[i].iteration >= 1);
            }
            assert forall|j1: int, j2: int|
                #![trigger self.workflow_versions@[j1].workflow_id, self.workflow_versions@[j2].workflow_id]
                0 <= j1 < j2 < self.workflow_versions@.len() && self.workflow_versions@[
                j1].workflow_id == self.workflow_versions@[j2].workflow_id implies
                self.workflow_versions@[j1].version_number < self.workflow_versions@[
                j2].version_number by {
                lemma_keep_with_parent_at(old(self).workflow_versions@, self.workflows@, j1);
                lemma_keep_with_parent_at(old(self).workflow_versions@, self.workflows@, j2);
                lemma_keep_with_parent_mono(old(self).workflow_versions@, self.workflows@, j1, j2);
                let i1 = crate::rows::keep_src(
                    old(self).workflow_versions@,
                    crate::rows::parent_live_pred(self.workflows@),
                    j1,
                );
                let i2 = crate::rows::keep_src(
                    old(self).workflow_versions@,
                    crate::rows::parent_live_pred(self.workflows@),
                    j2,
                );
                assert(old(self).workflow_versions@[i1].workflow_id == old(
                    self,
                ).workflow_versions@[i2].workflow_id);
            }
            assert forall|j: int|
                #![trigger self.workflow_versions@[j]]
                0 <= j < self.workflow_versions@.len() implies 1 <= self.workflow_versions@[
                j].version_number && self.workflow_versions@[j].version_number
                <= self.workflow_versions@[j].id by {
                let i = choose|i: int|
                    0 <= i < old(self).workflow_versions@.len() && #[trigger] old(
                        self,
                    ).workflow_versions@[i] == self.workflow_versions@[j];
                assert(1 <= old(self).workflow_versions@[i].version_number && old(
                    self,
                ).workflow_versions@[i].version_number <= old(self).workflow_versions@[i].id);
            }
        }
        Ok(())
    }
}

} // verus!
