//! The access layer: create, read, list, update and delete for the entity
//! families of the store. Every operation runs on a migrated store, appears
//! atomic (it takes the store exclusively), and returns a discriminated
//! outcome instead of raising.

use vstd::prelude::*;
use crate::rows::{
    clone_table, collect_children, find_row, has_id, lemma_idx_of_unique,
    lemma_push_table_wf, lemma_rows_of_parent_ascending, ranked, rows_of_parent, sort_ranked,
    ChildRow, Row,
};
use crate::schema::{
    Execution, Node, NodeResult, Project, Setting, SettingPrompt, SettingRelation, StoreError,
    Workflow, WorkflowVersion,
};
use crate::store::{setting_in_project, Store};

verus! {

/// The highest version number any row of the given workflow carries; zero
/// when it has none.
pub open spec fn max_version_for(vs: Seq<WorkflowVersion>, wid: u64) -> u64
    decreases vs.len(),
{
    if vs.len() == 0 {
        0
    } else {
        let m = max_version_for(vs.drop_last(), wid);
        if vs.last().workflow_id == wid && vs.last().version_number > m {
            vs.last().version_number
        } else {
            m
        }
    }
}

/// No row of the workflow carries a version number above the maximum.
pub proof fn lemma_max_version_ge(vs: Seq<WorkflowVersion>, wid: u64, i: int)
    requires
        0 <= i < vs.len(),
        vs[i].workflow_id == wid,
    ensures
        vs[i].version_number <= max_version_for(vs, wid),
    decreases vs.len(),
{
    if i < vs.len() - 1 {
        lemma_max_version_ge(vs.drop_last(), wid, i);
        assert(vs.drop_last()[i] == vs[i]);
    }
}

/// The maximum version number lies below any bound that the row ids obey,
/// provided each version number is at most its row id.
pub proof fn lemma_max_version_bound(vs: Seq<WorkflowVersion>, wid: u64, bound: u64)
    requires
        forall|i: int|
            #![trigger vs[i]]
            0 <= i < vs.len() ==> vs[i].version_number <= vs[i].id,
        crate::rows::ids_below(vs, bound),
        bound >= 1,
    ensures
        max_version_for(vs, wid) < bound,
    decreases vs.len(),
{
    if vs.len() > 0 {
        assert(vs[vs.len() - 1].rid() < bound);
        lemma_max_version_bound(vs.drop_last(), wid, bound);
    }
}

impl Store {
    /// Creates a project with a fresh id. The name must be non-empty.
    pub fn create_project(&mut self, name: String, description: Option<String>) -> (r: Result<
        u64,
        StoreError,
    >)
        requires
            old(self).wf(),
            old(self).migrated(),
            old(self).next_id < u64::MAX,
            old(self).clock < u64::MAX,
        ensures
            final(self).wf(),
            final(self).migrated(),
            r is Ok <==> name@.len() > 0,
            r is Err ==> r->Err_0 == StoreError::ConstraintViolation && *final(self) == *old(self),
            r is Ok ==> r->Ok_0 == old(self).next_id && has_id(
                final(self).projects@,
                old(self).next_id,
            ) && *final(self) == (Store {
                projects: final(self).projects,
                next_id: (old(self).next_id + 1) as u64,
                clock: (old(self).clock + 1) as u64,
                ..*old(self)
            }) && final(self).projects@ == old(self).projects@.push(
                Project {
                    id: old(self).next_id,
                    name: name,
                    description: description,
                    created_at: (old(self).clock + 1) as u64,
                    updated_at: (old(self).clock + 1) as u64,
                },
            ),
    {
        if name.as_str().is_empty() {
            return Err(StoreError::ConstraintViolation);
        }
        let id = self.next_id;
        self.next_id = id + 1;
        self.clock = self.clock + 1;
        let now = self.clock;
        let row = Project { id, name, description, created_at: now, updated_at: now };
        proof {
            lemma_push_table_wf(old(self).projects@, row, id);
        }
        self.projects.push(row);
        Ok(id)
    }

    /// Reads a project.
    pub fn get_project(&self, id: u64) -> (r: Option<Project>)
        requires
            self.wf(),
        ensures
            r is Some <==> has_id(self.projects@, id),
            r is Some ==> r->0.id == id && self.projects@.contains(r->0),
    {
        match find_row(&self.projects, id) {
            Some(i) => {
                let row = self.projects[i].clone_row();
                proof {
                    assert(self.projects@[i as int].rid() == id);
                    assert(self.projects@.contains(row)) by {
                        assert(self.projects@[i as int] == row);
                    }
                }
                Some(row)
            },
            None => None,
        }
    }

    /// Lists every project, in insertion order.
    pub fn list_projects(&self) -> (r: Vec<Project>)
        ensures
            r@ == self.projects@,
    {
        clone_table(&self.projects)
    }

    /// Creates a workflow under a project. The project must exist and the
    /// loop bound must be at least 1.
    pub fn create_workflow(
        &mut self,
        project_id: u64,
        name: String,
        description: Option<String>,
        loop_max_count: u64,
        timeout_seconds: u64,
    ) -> (r: Result<u64, StoreError>)
        requires
            old(self).wf(),
            old(self).migrated(),
            old(self).next_id < u64::MAX,
            old(self).clock < u64::MAX,
        ensures
            final(self).wf(),
            final(self).migrated(),
            r is Ok <==> has_id(old(self).projects@, project_id) && loop_max_count >= 1,
            r is Err ==> r->Err_0 == StoreError::ConstraintViolation && *final(self) == *old(self),
            r is Ok ==> r->Ok_0 == old(self).next_id && has_id(
                final(self).workflows@,
                old(self).next_id,
            ) && *final(self) == (Store {
                workflows: final(self).workflows,
                next_id: (old(self).next_id + 1) as u64,
                clock: (old(self).clock + 1) as u64,
                ..*old(self)
            }) && final(self).workflows@ == old(self).workflows@.push(
                Workflow {
                    id: old(self).next_id,
                    project_id: project_id,
                    name: name,
                    description: description,
                    loop_max_count: loop_max_count,
                    timeout_seconds: timeout_seconds,
                    created_at: (old(self).clock + 1) as u64,
                    updated_at: (old(self).clock + 1) as u64,
                },
            ),
    {
        if find_row(&self.projects, project_id).is_none() {
            return Err(StoreError::ConstraintViolation);
        }
        if loop_max_count < 1 {
            return Err(StoreError::ConstraintViolation);
        }
        let id = self.next_id;
        self.next_id = id + 1;
        self.clock = self.clock + 1;
        let now = self.clock;
        let row = Workflow {
            id,
            project_id,
            name,
            description,
            loop_max_count,
            timeout_seconds,
            created_at: now,
            updated_at: now,
        };
        proof {
            lemma_push_table_wf(old(self).workflows@, row, id);
        }
        self.workflows.push(row);
        Ok(id)
    }

    /// Reads a workflow.
    pub fn get_workflow(&self, id: u64) -> (r: Option<Workflow>)
        requires
            self.wf(),
        ensures
            r is Some <==> has_id(self.workflows@, id),
            r is Some ==> r->0.id == id && self.workflows@.contains(r->0),
    {
        match find_row(&self.workflows, id) {
            Some(i) => {
                let row = self.workflows[i].clone_row();
                proof {
                    assert(self.workflows@[i as int].rid() == id);
                    assert(self.workflows@.contains(row)) by {
                        assert(self.workflows@[i as int] == row);
                    }
                }
                Some(row)
            },
            None => None,
        }
    }

    /// Lists the workflows of one project, in insertion order.
    pub fn list_workflows(&self, project_id: u64) -> (r: Vec<Workflow>)
        ensures
            r@ == rows_of_parent(self.workflows@, project_id),
    {
        collect_children(&self.workflows, project_id)
    }

    /// Creates a node under a workflow. The workflow must exist.
    pub fn create_node(
        &mut self,
        workflow_id: u64,
        node_type: String,
        name: String,
        config: String,
        order_index: u64,
        block_id: Option<String>,
        parent_block_id: Option<String>,
    ) -> (r: Result<u64, StoreError>)
        requires
            old(self).wf(),
            old(self).migrated(),
            old(self).next_id < u64::MAX,
            old(self).clock < u64::MAX,
        ensures
            final(self).wf(),
            final(self).migrated(),
            r is Ok <==> has_id(old(self).workflows@, workflow_id),
            r is Err ==> r->Err_0 == StoreError::ConstraintViolation && *final(self) == *old(self),
            r is Ok ==> r->Ok_0 == old(self).next_id && has_id(
                final(self).nodes@,
                old(self).next_id,
            ) && *final(self) == (Store {
                nodes: final(self).nodes,
                next_id: (old(self).next_id + 1) as u64,
                clock: (old(self).clock + 1) as u64,
                ..*old(self)
            }) && final(self).nodes@ == old(self).nodes@.push(
                Node {
                    id: old(self).next_id,
                    workflow_id: workflow_id,
                    node_type: node_type,
                    name: name,
                    config: config,
                    order_index: order_index,
                    block_id: block_id,
                    parent_block_id: parent_block_id,
                    created_at: (old(self).clock + 1) as u64,
                    updated_at: (old(self).clock + 1) as u64,
                },
            ),
    {
        if find_row(&self.workflows, workflow_id).is_none() {
            return Err(StoreError::ConstraintViolation);
        }
        let id = self.next_id;
        self.next_id = id + 1;
        self.clock = self.clock + 1;
        let now = self.clock;
        let row = Node {
            id,
            workflow_id,
            node_type,
            name,
            config,
            order_index,
            block_id,
            parent_block_id,
            created_at: now,
            updated_at: now,
        };
        proof {
            lemma_push_table_wf(old(self).nodes@, row, id);
        }
        self.nodes.push(row);
        Ok(id)
    }

    /// Reads a node.
    pub fn get_node(&self, id: u64) -> (r: Option<Node>)
        requires
            self.wf(),
        ensures
            r is Some <==> has_id(self.nodes@, id),
            r is Some ==> r->0.id == id && self.nodes@.contains(r->0),
    {
        match find_row(&self.nodes, id) {
            Some(i) => {
                let row = self.nodes[i].clone_row();
                proof {
                    assert(self.nodes@[i as int].rid() == id);
                    assert(self.nodes@.contains(row)) by {
                        assert(self.nodes@[i as int] == row);
                    }
                }
                Some(row)
            },
            None => None,
        }
    }

    /// Lists the nodes of one workflow, ordered by their position key;
    /// insertion order decides between equal keys.
    pub fn list_nodes(&self, workflow_id: u64) -> (r: Vec<Node>)
        requires
            self.wf(),
        ensures
            r@.len() == rows_of_parent(self.nodes@, workflow_id).len(),
            ranked(r@),
            forall|y: Node|
                #[trigger] r@.contains(y) <==> rows_of_parent(self.nodes@, workflow_id).contains(
                    y,
                ),
    {
        let base = collect_children(&self.nodes, workflow_id);
        proof {
            lemma_rows_of_parent_ascending(self.nodes@, workflow_id);
        }
        sort_ranked(&base)
    }
}

impl Store {
    /// Whether a setting with the given id exists in the given project.
    pub fn setting_exists_in(&self, sid: u64, pid: u64) -> (b: bool)
        requires
            self.wf(),
        ensures
            b == setting_in_project(self.settings@, sid, pid),
    {
        match find_row(&self.settings, sid) {
            Some(i) => {
                let ok = self.settings[i].project_id == pid;
                proof {
                    if ok {
                        assert(setting_in_project(self.settings@, sid, pid)) by {
                            assert(self.settings@[i as int].id == sid && self.settings@[
                                i as int].project_id == pid);
                        }
                    } else {
                        assert(!setting_in_project(self.settings@, sid, pid)) by {
                            if setting_in_project(self.settings@, sid, pid) {
                                let k = choose|k: int|
                                    0 <= k < self.settings@.len() && #[trigger] self.settings@[
                                        k].id == sid && self.settings@[k].project_id == pid;
                                assert(self.settings@[k].rid() == sid);
                                lemma_idx_of_unique(self.settings@, k, sid);
                                lemma_idx_of_unique(self.settings@, i as int, sid);
                            }
                        }
                    }
                }
                ok
            },
            None => {
                proof {
                    assert(!setting_in_project(self.settings@, sid, pid)) by {
                        if setting_in_project(self.settings@, sid, pid) {
                            let k = choose|k: int|
                                0 <= k < self.settings@.len() && #[trigger] self.settings@[k].id
                                    == sid && self.settings@[k].project_id == pid;
                            assert(self.settings@[k].rid() == sid);
                        }
                    }
                }
                false
            },
        }
    }

    /// Creates a setting under a project. The project must exist; a parent
    /// link, if given, is recorded but not validated — that is the
    /// writer's responsibility.
    pub fn create_setting(
        &mut self,
        project_id: u64,
        category: String,
        name: String,
        content: String,
        enabled: bool,
        parent_id: Option<u64>,
        order_index: u64,
        injection_mode: String,
        priority: u64,
        keywords: String,
        summary: String,
    ) -> (r: Result<u64, StoreError>)
        requires
            old(self).wf(),
            old(self).migrated(),
            old(self).next_id < u64::MAX,
            old(self).clock < u64::MAX,
        ensures
            final(self).wf(),
            final(self).migrated(),
            r is Ok <==> has_id(old(self).projects@, project_id),
            r is Err ==> r->Err_0 == StoreError::ConstraintViolation && *final(self) == *old(self),
            r is Ok ==> r->Ok_0 == old(self).next_id && has_id(
                final(self).settings@,
                old(self).next_id,
            ) && *final(self) == (Store {
                settings: final(self).settings,
                next_id: (old(self).next_id + 1) as u64,
                clock: (old(self).clock + 1) as u64,
                ..*old(self)
            }) && final(self).settings@ == old(self).settings@.push(
                Setting {
                    id: old(self).next_id,
                    project_id: project_id,
                    category: category,
                    name: name,
                    content: content,
                    enabled: enabled,
                    parent_id: parent_id,
                    order_index: order_index,
                    injection_mode: injection_mode,
                    priority: priority,
                    keywords: keywords,
                    summary: summary,
                    created_at: (old(self).clock + 1) as u64,
                    updated_at: (old(self).clock + 1) as u64,
                },
            ),
    {
        if find_row(&self.projects, project_id).is_none() {
            return Err(StoreError::ConstraintViolation);
        }
        let id = self.next_id;
        self.next_id = id + 1;
        self.clock = self.clock + 1;
        let now = self.clock;
        let row = Setting {
            id,
            project_id,
            category,
            name,
            content,
            enabled,
            parent_id,
            order_index,
            injection_mode,
            priority,
            keywords,
            summary,
            created_at: now,
            updated_at: now,
        };
        proof {
            lemma_push_table_wf(old(self).settings@, row, id);
            lemma_setting_in_project_push(old(self).settings@, row);
        }
        self.settings.push(row);
        Ok(id)
    }

    /// Reads a setting.
    pub fn get_setting(&self, id: u64) -> (r: Option<Setting>)
        requires
            self.wf(),
        ensures
            r is Some <==> has_id(self.settings@, id),
            r is Some ==> r->0.id == id && self.settings@.contains(r->0),
    {
        match find_row(&self.settings, id) {
            Some(i) => {
                let row = self.settings[i].clone_row();
                proof {
                    assert(self.settings@[i as int].rid() == id);
                    assert(self.settings@.contains(row)) by {
                        assert(self.settings@[i as int] == row);
                    }
                }
                Some(row)
            },
            None => None,
        }
    }

    /// Lists the settings of one project, ordered by their position key;
    /// insertion order decides between equal keys.
    pub fn list_settings(&self, project_id: u64) -> (r: Vec<Setting>)
        requires
            self.wf(),
        ensures
            r@.len() == rows_of_parent(self.settings@, project_id).len(),
            ranked(r@),
            forall|y: Setting|
                #[trigger] r@.contains(y) <==> rows_of_parent(
                    self.settings@,
                    project_id,
                ).contains(y),
    {
        let base = collect_children(&self.settings, project_id);
        proof {
            lemma_rows_of_parent_ascending(self.settings@, project_id);
        }
        sort_ranked(&base)
    }

    /// Lists the settings whose parent link names the given setting, in
    /// insertion order: the children of one node of the settings tree.
    pub fn children_of_setting(&self, parent_id: u64) -> (r: Vec<Setting>)
        ensures
            r@ == setting_children(self.settings@, parent_id),
    {
        let mut r: Vec<Setting> = Vec::new();
        let mut i: usize = 0;
        while i < self.settings.len()
            invariant
                i <= self.settings.len(),
                r@ == setting_children(self.settings@.take(i as int), parent_id),
            decreases self.settings.len() - i,
        {
            proof {
                assert(self.settings@.take(i as int + 1) =~= self.settings@.take(i as int).push(
                    self.settings@[i as int],
                ));
                crate::rows::lemma_keep_rows_push(
                    self.settings@.take(i as int),
                    tree_child_pred(parent_id),
                    self.settings@[i as int],
                );
            }
            let is_child = match self.settings[i].parent_id {
                Some(p) => p == parent_id,
                None => false,
            };
            if is_child {
                r.push(self.settings[i].clone_row());
            }
            i = i + 1;
        }
        proof {
            assert(self.settings@.take(self.settings@.len() as int) =~= self.settings@);
        }
        r
    }

    /// Creates a prompt template under a project. The project must exist.
    pub fn create_setting_prompt(
        &mut self,
        project_id: u64,
        category: String,
        prompt_template: String,
        enabled: bool,
    ) -> (r: Result<u64, StoreError>)
        requires
            old(self).wf(),
            old(self).migrated(),
            old(self).next_id < u64::MAX,
            old(self).clock < u64::MAX,
        ensures
            final(self).wf(),
            final(self).migrated(),
            r is Ok <==> has_id(old(self).projects@, project_id),
            r is Err ==> r->Err_0 == StoreError::ConstraintViolation && *final(self) == *old(self),
            r is Ok ==> r->Ok_0 == old(self).next_id && has_id(
                final(self).setting_prompts@,
                old(self).next_id,
            ) && *final(self) == (Store {
                setting_prompts: final(self).setting_prompts,
                next_id: (old(self).next_id + 1) as u64,
                clock: (old(self).clock + 1) as u64,
                ..*old(self)
            }) && final(self).setting_prompts@ == old(self).setting_prompts@.push(
                SettingPrompt {
                    id: old(self).next_id,
                    project_id: project_id,
                    category: category,
                    prompt_template: prompt_template,
                    enabled: enabled,
                },
            ),
    {
        if find_row(&self.projects, project_id).is_none() {
            return Err(StoreError::ConstraintViolation);
        }
        let id = self.next_id;
        self.next_id = id + 1;
        self.clock = self.clock + 1;
        let row = SettingPrompt { id, project_id, category, prompt_template, enabled };
        proof {
            lemma_push_table_wf(old(self).setting_prompts@, row, id);
        }
        self.setting_prompts.push(row);
        Ok(id)
    }

    /// Lists the prompt templates of one project, in insertion order.
    pub fn list_setting_prompts(&self, project_id: u64) -> (r: Vec<SettingPrompt>)
        ensures
            r@ == rows_of_parent(self.setting_prompts@, project_id),
    {
        collect_children(&self.setting_prompts, project_id)
    }

    /// Creates a relation between two settings of one project. Both
    /// endpoints must be settings of that project.
    pub fn create_setting_relation(
        &mut self,
        project_id: u64,
        source_id: u64,
        target_id: u64,
        label: String,
        description: Option<String>,
        bidirectional: bool,
    ) -> (r: Result<u64, StoreError>)
        requires
            old(self).wf(),
            old(self).migrated(),
            old(self).next_id < u64::MAX,
            old(self).clock < u64::MAX,
        ensures
            final(self).wf(),
            final(self).migrated(),
            r is Ok <==> setting_in_project(old(self).settings@, source_id, project_id)
                && setting_in_project(old(self).settings@, target_id, project_id),
            r is Err ==> r->Err_0 == StoreError::ConstraintViolation && *final(self) == *old(self),
            r is Ok ==> r->Ok_0 == old(self).next_id && has_id(
                final(self).setting_relations@,
                old(self).next_id,
            ) && *final(self) == (Store {
                setting_relations: final(self).setting_relations,
                next_id: (old(self).next_id + 1) as u64,
                clock: (old(self).clock + 1) as u64,
                ..*old(self)
            }) && final(self).setting_relations@ == old(self).setting_relations@.push(
                SettingRelation {
                    id: old(self).next_id,
                    project_id: project_id,
                    source_id: source_id,
                    target_id: target_id,
                    label: label,
                    description: description,
                    bidirectional: bidirectional,
                },
            ),
    {
        if !self.setting_exists_in(source_id, project_id) {
            return Err(StoreError::ConstraintViolation);
        }
        if !self.setting_exists_in(target_id, project_id) {
            return Err(StoreError::ConstraintViolation);
        }
        let id = self.next_id;
        self.next_id = id + 1;
        self.clock = self.clock + 1;
        let row = SettingRelation {
            id,
            project_id,
            source_id,
            target_id,
            label,
            description,
            bidirectional,
        };
        proof {
            lemma_push_table_wf(old(self).setting_relations@, row, id);
            let k = choose|k: int|
                0 <= k < old(self).settings@.len() && #[trigger] old(self).settings@[k].id
                    == source_id && old(self).settings@[k].project_id == project_id;
            assert(has_id(old(self).projects@, old(self).settings@[k].parent()));
        }
        self.setting_relations.push(row);
        Ok(id)
    }

    /// Lists the relations of one project, in insertion order.
    pub fn list_setting_relations(&self, project_id: u64) -> (r: Vec<SettingRelation>)
        ensures
            r@ == rows_of_parent(self.setting_relations@, project_id),
    {
        collect_children(&self.setting_relations, project_id)
    }

    /// Starts an execution record for a workflow. The workflow must exist;
    /// the status is the caller's (for example "running").
    pub fn create_execution(&mut self, workflow_id: u64, status: String, input: Option<String>) -> (r:
        Result<u64, StoreError>)
        requires
            old(self).wf(),
            old(self).migrated(),
            old(self).next_id < u64::MAX,
            old(self).clock < u64::MAX,
        ensures
            final(self).wf(),
            final(self).migrated(),
            r is Ok <==> has_id(old(self).workflows@, workflow_id),
            r is Err ==> r->Err_0 == StoreError::ConstraintViolation && *final(self) == *old(self),
            r is Ok ==> r->Ok_0 == old(self).next_id && has_id(
                final(self).executions@,
                old(self).next_id,
            ) && *final(self) == (Store {
                executions: final(self).executions,
                next_id: (old(self).next_id + 1) as u64,
                clock: (old(self).clock + 1) as u64,
                ..*old(self)
            }) && final(self).executions@ == old(self).executions@.push(
                Execution {
                    id: old(self).next_id,
                    workflow_id: workflow_id,
                    status: status,
                    input: input,
                    final_output: None,
                    variables_snapshot: None,
                    started_at: (old(self).clock + 1) as u64,
                    finished_at: None,
                },
            ),
    {
        if find_row(&self.workflows, workflow_id).is_none() {
            return Err(StoreError::ConstraintViolation);
        }
        let id = self.next_id;
        self.next_id = id + 1;
        self.clock = self.clock + 1;
        let now = self.clock;
        let row = Execution {
            id,
            workflow_id,
            status,
            input,
            final_output: None,
            variables_snapshot: None,
            started_at: now,
            finished_at: None,
        };
        proof {
            lemma_push_table_wf(old(self).executions@, row, id);
        }
        self.executions.push(row);
        Ok(id)
    }

    /// Reads an execution.
    pub fn get_execution(&self, id: u64) -> (r: Option<Execution>)
        requires
            self.wf(),
        ensures
            r is Some <==> has_id(self.executions@, id),
            r is Some ==> r->0.id == id && self.executions@.contains(r->0),
    {
        match find_row(&self.executions, id) {
            Some(i) => {
                let row = self.executions[i].clone_row();
                proof {
                    assert(self.executions@[i as int].rid() == id);
                    assert(self.executions@.contains(row)) by {
                        assert(self.executions@[i as int] == row);
                    }
                }
                Some(row)
            },
            None => None,
        }
    }

    /// Lists the executions of one workflow, in insertion order.
    pub fn list_executions(&self, workflow_id: u64) -> (r: Vec<Execution>)
        ensures
            r@ == rows_of_parent(self.executions@, workflow_id),
    {
        collect_children(&self.executions, workflow_id)
    }

    /// Records a per-node, per-iteration outcome within an execution. The
    /// execution must exist and the iteration starts at 1.
    pub fn create_node_result(
        &mut self,
        execution_id: u64,
        node_id: u64,
        iteration: u64,
        input: Option<String>,
        status: String,
    ) -> (r: Result<u64, StoreError>)
        requires
            old(self).wf(),
            old(self).migrated(),
            old(self).next_id < u64::MAX,
            old(self).clock < u64::MAX,
        ensures
            final(self).wf(),
            final(self).migrated(),
            r is Ok <==> has_id(old(self).executions@, execution_id) && iteration >= 1,
            r is Err ==> r->Err_0 == StoreError::ConstraintViolation && *final(self) == *old(self),
            r is Ok ==> r->Ok_0 == old(self).next_id && has_id(
                final(self).node_results@,
                old(self).next_id,
            ) && *final(self) == (Store {
                node_results: final(self).node_results,
                next_id: (old(self).next_id + 1) as u64,
                clock: (old(self).clock + 1) as u64,
                ..*old(self)
            }) && final(self).node_results@ == old(self).node_results@.push(
                NodeResult {
                    id: old(self).next_id,
                    execution_id: execution_id,
                    node_id: node_id,
                    iteration: iteration,
                    input: input,
                    output: None,
                    resolved_config: None,
                    status: status,
                    token_usage: None,
                    started_at: (old(self).clock + 1) as u64,
                    finished_at: None,
                },
            ),
    {
        if find_row(&self.executions, execution_id).is_none() {
            return Err(StoreError::ConstraintViolation);
        }
        if iteration < 1 {
            return Err(StoreError::ConstraintViolation);
        }
        let id = self.next_id;
        self.next_id = id + 1;
        self.clock = self.clock + 1;
        let now = self.clock;
        let row = NodeResult {
            id,
            execution_id,
            node_id,
            iteration,
            input,
            output: None,
            resolved_config: None,
            status,
            token_usage: None,
            started_at: now,
            finished_at: None,
        };
        proof {
            lemma_push_table_wf(old(self).node_results@, row, id);
        }
        self.node_results.push(row);
        Ok(id)
    }

    /// Lists the node results of one execution, in insertion order.
    pub fn list_node_results(&self, execution_id: u64) -> (r: Vec<NodeResult>)
        ensures
            r@ == rows_of_parent(self.node_results@, execution_id),
    {
        collect_children(&self.node_results, execution_id)
    }

    /// The highest version number recorded for a workflow; zero when it
    /// has none.
    pub fn max_version_of(&self, workflow_id: u64) -> (m: u64)
        ensures
            m == max_version_for(self.workflow_versions@, workflow_id),
    {
        let mut m: u64 = 0;
        let mut i: usize = 0;
        while i < self.workflow_versions.len()
            invariant
                i <= self.workflow_versions.len(),
                m == max_version_for(self.workflow_versions@.take(i as int), workflow_id),
            decreases self.workflow_versions.len() - i,
        {
            proof {
                assert(self.workflow_versions@.take(i as int + 1).drop_last()
                    =~= self.workflow_versions@.take(i as int));
                assert(self.workflow_versions@.take(i as int + 1).last()
                    == self.workflow_versions@[i as int]);
            }
            let keep = self.workflow_versions[i].workflow_id == workflow_id
                && self.workflow_versions[i].version_number > m;
            if keep {
                m = self.workflow_versions[i].version_number;
            }
            i = i + 1;
        }
        proof {
            assert(self.workflow_versions@.take(self.workflow_versions@.len() as int)
                =~= self.workflow_versions@);
        }
        m
    }

    /// Takes an immutable snapshot of a workflow's definition. The
    /// workflow must exist; the new version number is one above the
    /// highest recorded for that workflow, so numbers strictly increase in
    /// creation order, and existing snapshots are never touched.
    pub fn create_workflow_version(
        &mut self,
        workflow_id: u64,
        snapshot: String,
        description: Option<String>,
    ) -> (r: Result<u64, StoreError>)
        requires
            old(self).wf(),
            old(self).migrated(),
            old(self).next_id < u64::MAX,
            old(self).clock < u64::MAX,
        ensures
            final(self).wf(),
            final(self).migrated(),
            r is Ok <==> has_id(old(self).workflows@, workflow_id),
            r is Err ==> r->Err_0 == StoreError::ConstraintViolation && *final(self) == *old(self),
            r is Ok ==> r->Ok_0 == old(self).next_id && has_id(
                final(self).workflow_versions@,
                old(self).next_id,
            ) && *final(self) == (Store {
                workflow_versions: final(self).workflow_versions,
                next_id: (old(self).next_id + 1) as u64,
                clock: (old(self).clock + 1) as u64,
                ..*old(self)
            }) && final(self).workflow_versions@ == old(self).workflow_versions@.push(
                WorkflowVersion {
                    id: old(self).next_id,
                    workflow_id: workflow_id,
                    version_number: (max_version_for(old(self).workflow_versions@, workflow_id)
                        + 1) as u64,
                    snapshot: snapshot,
                    description: description,
                    created_at: (old(self).clock + 1) as u64,
                },
            ),
    {
        if find_row(&self.workflows, workflow_id).is_none() {
            return Err(StoreError::ConstraintViolation);
        }
        proof {
            lemma_max_version_bound(old(self).workflow_versions@, workflow_id, old(self).next_id);
        }
        let m = self.max_version_of(workflow_id);
        let id = self.next_id;
        self.next_id = id + 1;
        self.clock = self.clock + 1;
        let now = self.clock;
        let row = WorkflowVersion {
            id,
            workflow_id,
            version_number: m + 1,
            snapshot,
            description,
            created_at: now,
        };
        proof {
            lemma_push_table_wf(old(self).workflow_versions@, row, id);
            assert forall|i: int|
                0 <= i < old(self).workflow_versions@.len() && #[trigger] old(
                    self,
                ).workflow_versions@[i].workflow_id == workflow_id implies old(
                self,
            ).workflow_versions@[i].version_number <= m by {
                lemma_max_version_ge(old(self).workflow_versions@, workflow_id, i);
            }
        }
        self.workflow_versions.push(row);
        Ok(id)
    }

    /// Reads one version snapshot.
    pub fn get_workflow_version(&self, id: u64) -> (r: Option<WorkflowVersion>)
        requires
            self.wf(),
        ensures
            r is Some <==> has_id(self.workflow_versions@, id),
            r is Some ==> r->0.id == id && self.workflow_versions@.contains(r->0),
    {
        match find_row(&self.workflow_versions, id) {
            Some(i) => {
                let row = self.workflow_versions[i].clone_row();
                proof {
                    assert(self.workflow_versions@[i as int].rid() == id);
                    assert(self.workflow_versions@.contains(row)) by {
                        assert(self.workflow_versions@[i as int] == row);
                    }
                }
                Some(row)
            },
            None => None,
        }
    }

    /// Lists the version history of one workflow, in creation order.
    pub fn list_workflow_versions(&self, workflow_id: u64) -> (r: Vec<WorkflowVersion>)
        ensures
            r@ == rows_of_parent(self.workflow_versions@, workflow_id),
    {
        collect_children(&self.workflow_versions, workflow_id)
    }
}

/// Keeping exactly the settings whose parent link names the given setting.
pub open spec fn tree_child_pred(parent_id: u64) -> spec_fn(Setting) -> bool {
    |s: Setting| s.parent_id == Some(parent_id)
}

/// The settings whose parent link names the given setting, in insertion
/// order.
pub open spec fn setting_children(ss: Seq<Setting>, parent_id: u64) -> Seq<Setting> {
    crate::rows::keep_rows(ss, tree_child_pred(parent_id))
}

/// A setting found in a project is still found after another setting is
/// appended.
pub proof fn lemma_setting_in_project_push(ss: Seq<Setting>, x: Setting)
    ensures
        forall|id: u64, pid: u64|
            #[trigger] setting_in_project(ss, id, pid) ==> setting_in_project(ss.push(x), id, pid),
{
    assert forall|id: u64, pid: u64|
        #[trigger] setting_in_project(ss, id, pid) implies setting_in_project(
        ss.push(x),
        id,
        pid,
    ) by {
        let k = choose|k: int|
            0 <= k < ss.len() && #[trigger] ss[k].id == id && ss[k].project_id == pid;
        assert(ss.push(x)[k].id == id && ss.push(x)[k].project_id == pid);
    }
}

} // verus!
