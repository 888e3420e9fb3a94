//! Partial updates: each operation takes the fields to change, leaves the
//! rest of the row as it was, refreshes the modification timestamp, and
//! reports NotFound for an absent id.

use vstd::prelude::*;
use crate::rows::{
    find_row, has_id, idx_of, lemma_idx_of_unique, lemma_update_same_id, ChildRow, Row,
};
use crate::schema::{Execution, Node, NodeResult, Project, StoreError, Workflow};
use crate::store::Store;

verus! {

/// A project row with the chosen fields replaced and the modification
/// timestamp refreshed.
pub open spec fn patched_project(
    p: Project,
    name: Option<String>,
    description: Option<String>,
    now: u64,
) -> Project {
    Project {
        name: if name is Some {
            name->0
        } else {
            p.name
        },
        description: if description is Some {
            Some(description->0)
        } else {
            p.description
        },
        updated_at: now,
        ..p
    }
}

/// A workflow row with the chosen fields replaced.
pub open spec fn patched_workflow(
    w: Workflow,
    name: Option<String>,
    description: Option<String>,
    loop_max_count: Option<u64>,
    timeout_seconds: Option<u64>,
    now: u64,
) -> Workflow {
    Workflow {
        name: if name is Some {
            name->0
        } else {
            w.name
        },
        description: if description is Some {
            Some(description->0)
        } else {
            w.description
        },
        loop_max_count: if loop_max_count is Some {
            loop_max_count->0
        } else {
            w.loop_max_count
        },
        timeout_seconds: if timeout_seconds is Some {
            timeout_seconds->0
        } else {
            w.timeout_seconds
        },
        updated_at: now,
        ..w
    }
}

/// A node row with the chosen fields replaced.
pub open spec fn patched_node(
    n: Node,
    name: Option<String>,
    config: Option<String>,
    order_index: Option<u64>,
    now: u64,
) -> Node {
    Node {
        name: if name is Some {
            name->0
        } else {
            n.name
        },
        config: if config is Some {
            config->0
        } else {
            n.config
        },
        order_index: if order_index is Some {
            order_index->0
        } else {
            n.order_index
        },
        updated_at: now,
        ..n
    }
}

/// An execution row with the chosen fields replaced. Setting a finish
/// time marks the terminal outcome; the status is the caller's.
pub open spec fn patched_execution(
    e: Execution,
    status: Option<String>,
    final_output: Option<String>,
    variables_snapshot: Option<String>,
    finished_at: Option<u64>,
) -> Execution {
    Execution {
        status: if status is Some {
            status->0
        } else {
            e.status
        },
        final_output: if final_output is Some {
            Some(final_output->0)
        } else {
            e.final_output
        },
        variables_snapshot: if variables_snapshot is Some {
            Some(variables_snapshot->0)
        } else {
            e.variables_snapshot
        },
        finished_at: if finished_at is Some {
            Some(finished_at->0)
        } else {
            e.finished_at
        },
        ..e
    }
}

/// A node-result row with the chosen fields replaced.
pub open spec fn patched_node_result(
    nr: NodeResult,
    status: Option<String>,
    output: Option<String>,
    token_usage: Option<String>,
    finished_at: Option<u64>,
) -> NodeResult {
    NodeResult {
        status: if status is Some {
            status->0
        } else {
            nr.status
        },
        output: if output is Some {
            Some(output->0)
        } else {
            nr.output
        },
        token_usage: if token_usage is Some {
            Some(token_usage->0)
        } else {
            nr.token_usage
        },
        finished_at: if finished_at is Some {
            Some(finished_at->0)
        } else {
            nr.finished_at
        },
        ..nr
    }
}

impl Store {
    /// Updates a project's chosen fields. An empty new name is refused.
    pub fn update_project(&mut self, id: u64, name: Option<String>, description: Option<String>) -> (r:
        Result<(), StoreError>)
        requires
            old(self).wf(),
            old(self).migrated(),
            old(self).clock < u64::MAX,
        ensures
            final(self).wf(),
            final(self).migrated(),
            r is Ok <==> has_id(old(self).projects@, id) && (name is Some ==> name->0@.len() > 0),
            !has_id(old(self).projects@, id) ==> r->Err_0 == StoreError::NotFound && *final(self)
                == *old(self),
            r is Err ==> *final(self) == *old(self) && (r->Err_0 == StoreError::NotFound
                || r->Err_0 == StoreError::ConstraintViolation),
            r is Ok ==> *final(self) == (Store {
                projects: final(self).projects,
                clock: (old(self).clock + 1) as u64,
                ..*old(self)
            }) && final(self).projects@ == old(self).projects@.update(
                idx_of(old(self).projects@, id),
                patched_project(
                    old(self).projects@[idx_of(old(self).projects@, id)],
                    name,
                    description,
                    (old(self).clock + 1) as u64,
                ),
            ),
    {
        let i = match find_row(&self.projects, id) {
            None => {
                return Err(StoreError::NotFound);
            },
            Some(i) => i,
        };
        let name_empty = match &name {
            Some(n) => n.as_str().is_empty(),
            None => false,
        };
        if name_empty {
            return Err(StoreError::ConstraintViolation);
        }
        self.clock = self.clock + 1;
        let now = self.clock;
        let old_row = self.projects[i].clone_row();
        let row = Project {
            id: old_row.id,
            name: match name {
                Some(n) => n,
                None => old_row.name,
            },
            description: match description {
                Some(d) => Some(d),
                None => old_row.description,
            },
            created_at: old_row.created_at,
            updated_at: now,
        };
        proof {
            lemma_idx_of_unique(old(self).projects@, i as int, id);
            lemma_update_same_id(old(self).projects@, i as int, row);
        }
        self.projects.remove(i);
        self.projects.insert(i, row);
        proof {
            assert(self.projects@ =~= old(self).projects@.update(i as int, row));
            assert forall|k: int|
                0 <= k < self.projects@.len() implies #[trigger] self.projects@[k].name@.len()
                > 0 by {
                if k != i {
                    assert(self.projects@[k] == old(self).projects@[k]);
                }
            }
        }
        Ok(())
    }

    /// Updates a workflow's chosen fields. A loop bound below 1 is
    /// refused.
    pub fn update_workflow(
        &mut self,
        id: u64,
        name: Option<String>,
        description: Option<String>,
        loop_max_count: Option<u64>,
        timeout_seconds: Option<u64>,
    ) -> (r: Result<(), StoreError>)
        requires
            old(self).wf(),
            old(self).migrated(),
            old(self).clock < u64::MAX,
        ensures
            final(self).wf(),
            final(self).migrated(),
            r is Ok <==> has_id(old(self).workflows@, id) && (loop_max_count is Some
                ==> loop_max_count->0 >= 1),
            !has_id(old(self).workflows@, id) ==> r->Err_0 == StoreError::NotFound && *final(self)
                == *old(self),
            r is Err ==> *final(self) == *old(self) && (r->Err_0 == StoreError::NotFound
                || r->Err_0 == StoreError::ConstraintViolation),
            r is Ok ==> *final(self) == (Store {
                workflows: final(self).workflows,
                clock: (old(self).clock + 1) as u64,
                ..*old(self)
            }) && final(self).workflows@ == old(self).workflows@.update(
                idx_of(old(self).workflows@, id),
                patched_workflow(
                    old(self).workflows@[idx_of(old(self).workflows@, id)],
                    name,
                    description,
                    loop_max_count,
                    timeout_seconds,
                    (old(self).clock + 1) as u64,
                ),
            ),
    {
        let i = match find_row(&self.workflows, id) {
            None => {
                return Err(StoreError::NotFound);
            },
            Some(i) => i,
        };
        let bad_loop = match loop_max_count {
            Some(c) => c < 1,
            None => false,
        };
        if bad_loop {
            return Err(StoreError::ConstraintViolation);
        }
        self.clock = self.clock + 1;
        let now = self.clock;
        let old_row = self.workflows[i].clone_row();
        let row = Workflow {
            id: old_row.id,
            project_id: old_row.project_id,
            name: match name {
                Some(n) => n,
                None => old_row.name,
            },
            description: match description {
                Some(d) => Some(d),
                None => old_row.description,
            },
            loop_max_count: match loop_max_count {
                Some(c) => c,
                None => old_row.loop_max_count,
            },
            timeout_seconds: match timeout_seconds {
                Some(t) => t,
                None => old_row.timeout_seconds,
            },
            created_at: old_row.created_at,
            updated_at: now,
        };
        proof {
            lemma_idx_of_unique(old(self).workflows@, i as int, id);
            lemma_update_same_id(old(self).workflows@, i as int, row);
        }
        self.workflows.remove(i);
        self.workflows.insert(i, row);
        proof {
            assert(self.workflows@ =~= old(self).workflows@.update(i as int, row));
            assert forall|k: int|
                0 <= k < self.workflows@.len() implies has_id(
                old(self).projects@,
                #[trigger] self.workflows@[k].parent(),
            ) && self.workflows@[k].loop_max_count >= 1 by {
                if k != i {
                    assert(self.workflows@[k] == old(self).workflows@[k]);
                    assert(has_id(old(self).projects@, old(self).workflows@[k].parent()));
                } else {
                    assert(has_id(old(self).projects@, old(self).workflows@[k].parent()));
                }
            }
        }
        Ok(())
    }

    /// Updates a node's chosen fields.
    pub fn update_node(
        &mut self,
        id: u64,
        name: Option<String>,
        config: Option<String>,
        order_index: Option<u64>,
    ) -> (r: Result<(), StoreError>)
        requires
            old(self).wf(),
            old(self).migrated(),
            old(self).clock < u64::MAX,
        ensures
            final(self).wf(),
            final(self).migrated(),
            r is Ok <==> has_id(old(self).nodes@, id),
            r is Err ==> r->Err_0 == StoreError::NotFound && *final(self) == *old(self),
            r is Ok ==> *final(self) == (Store {
                nodes: final(self).nodes,
                clock: (old(self).clock + 1) as u64,
                ..*old(self)
            }) && final(self).nodes@ == old(self).nodes@.update(
                idx_of(old(self).nodes@, id),
                patched_node(
                    old(self).nodes@[idx_of(old(self).nodes@, id)],
                    name,
                    config,
                    order_index,
                    (old(self).clock + 1) as u64,
                ),
            ),
    {
        let i = match find_row(&self.nodes, id) {
            None => {
                return Err(StoreError::NotFound);
            },
            Some(i) => i,
        };
        self.clock = self.clock + 1;
        let now = self.clock;
        let old_row = self.nodes[i].clone_row();
        let row = Node {
            id: old_row.id,
            workflow_id: old_row.workflow_id,
            node_type: old_row.node_type,
            name: match name {
                Some(n) => n,
                None => old_row.name,
            },
            config: match config {
                Some(c) => c,
                None => old_row.config,
            },
            order_index: match order_index {
                Some(o) => o,
                None => old_row.order_index,
            },
            block_id: old_row.block_id,
            parent_block_id: old_row.parent_block_id,
            created_at: old_row.created_at,
            updated_at: now,
        };
        proof {
            lemma_idx_of_unique(old(self).nodes@, i as int, id);
            lemma_update_same_id(old(self).nodes@, i as int, row);
        }
        self.nodes.remove(i);
        self.nodes.insert(i, row);
        proof {
            assert(self.nodes@ =~= old(self).nodes@.update(i as int, row));
            assert forall|k: int|
                0 <= k < self.nodes@.len() implies has_id(
                old(self).workflows@,
                #[trigger] self.nodes@[k].parent(),
            ) by {
                if k != i {
                    assert(self.nodes@[k] == old(self).nodes@[k]);
                }
                assert(has_id(old(self).workflows@, old(self).nodes@[k].parent()));
            }
        }
        Ok(())
    }

    /// Updates an execution's chosen fields: the engine drives the status
    /// and records outputs; a finish time is set on a terminal status.
    pub fn update_execution(
        &mut self,
        id: u64,
        status: Option<String>,
        final_output: Option<String>,
        variables_snapshot: Option<String>,
        finished_at: Option<u64>,
    ) -> (r: Result<(), StoreError>)
        requires
            old(self).wf(),
            old(self).migrated(),
            old(self).clock < u64::MAX,
        ensures
            final(self).wf(),
            final(self).migrated(),
            r is Ok <==> has_id(old(self).executions@, id),
            r is Err ==> r->Err_0 == StoreError::NotFound && *final(self) == *old(self),
            r is Ok ==> *final(self) == (Store {
                executions: final(self).executions,
                clock: (old(self).clock + 1) as u64,
                ..*old(self)
            }) && final(self).executions@ == old(self).executions@.update(
                idx_of(old(self).executions@, id),
                patched_execution(
                    old(self).executions@[idx_of(old(self).executions@, id)],
                    status,
                    final_output,
                    variables_snapshot,
                    finished_at,
                ),
            ),
    {
        let i = match find_row(&self.executions, id) {
            None => {
                return Err(StoreError::NotFound);
            },
            Some(i) => i,
        };
        self.clock = self.clock + 1;
        let old_row = self.executions[i].clone_row();
        let row = Execution {
            id: old_row.id,
            workflow_id: old_row.workflow_id,
            status: match status {
                Some(s) => s,
                None => old_row.status,
            },
            input: old_row.input,
            final_output: match final_output {
                Some(o) => Some(o),
                None => old_row.final_output,
            },
            variables_snapshot: match variables_snapshot {
                Some(v) => Some(v),
                None => old_row.variables_snapshot,
            },
            started_at: old_row.started_at,
            finished_at: match finished_at {
                Some(f) => Some(f),
                None => old_row.finished_at,
            },
        };
        proof {
            lemma_idx_of_unique(old(self).executions@, i as int, id);
            lemma_update_same_id(old(self).executions@, i as int, row);
        }
        self.executions.remove(i);
        self.executions.insert(i, row);
        proof {
            assert(self.executions@ =~= old(self).executions@.update(i as int, row));
            assert forall|k: int|
                0 <= k < self.executions@.len() implies has_id(
                old(self).workflows@,
                #[trigger] self.executions@[k].parent(),
            ) by {
                if k != i {
                    assert(self.executions@[k] == old(self).executions@[k]);
                }
                assert(has_id(old(self).workflows@, old(self).executions@[k].parent()));
            }
        }
        Ok(())
    }

    /// Updates a node result's chosen fields.
    pub fn update_node_result(
        &mut self,
        id: u64,
        status: Option<String>,
        output: Option<String>,
        token_usage: Option<String>,
        finished_at: Option<u64>,
    ) -> (r: Result<(), StoreError>)
        requires
            old(self).wf(),
            old(self).migrated(),
            old(self).clock < u64::MAX,
        ensures
            final(self).wf(),
            final(self).migrated(),
            r is Ok <==> has_id(old(self).node_results@, id),
            r is Err ==> r->Err_0 == StoreError::NotFound && *final(self) == *old(self),
            r is Ok ==> *final(self) == (Store {
                node_results: final(self).node_results,
                clock: (old(self).clock + 1) as u64,
                ..*old(self)
            }) && final(self).node_results@ == old(self).node_results@.update(
                idx_of(old(self).node_results@, id),
                patched_node_result(
                    old(self).node_results@[idx_of(old(self).node_results@, id)],
                    status,
                    output,
                    token_usage,
                    finished_at,
                ),
            ),
    {
        let i = match find_row(&self.node_results, id) {
            None => {
                return Err(StoreError::NotFound);
            },
            Some(i) => i,
        };
        self.clock = self.clock + 1;
        let old_row = self.node_results[i].clone_row();
        let row = NodeResult {
            id: old_row.id,
            execution_id: old_row.execution_id,
            node_id: old_row.node_id,
            iteration: old_row.iteration,
            input: old_row.input,
            output: match output {
                Some(o) => Some(o),
                None => old_row.output,
            },
            resolved_config: old_row.resolved_config,
            status: match status {
                Some(s) => s,
                None => old_row.status,
            },
            token_usage: match token_usage {
                Some(t) => Some(t),
                None => old_row.token_usage,
            },
            started_at: old_row.started_at,
            finished_at: match finished_at {
                Some(f) => Some(f),
                None => old_row.finished_at,
            },
        };
        proof {
            lemma_idx_of_unique(old(self).node_results@, i as int, id);
            lemma_update_same_id(old(self).node_results@, i as int, row);
        }
        self.node_results.remove(i);
        self.node_results.insert(i, row);
        proof {
            assert(self.node_results@ =~= old(self).node_results@.update(i as int, row));
            assert forall|k: int|
                0 <= k < self.node_results@.len() implies has_id(
                old(self).executions@,
                #[trigger] self.node_results@[k].parent(),
            ) && self.node_results@[k].iteration >= 1 by {
                if k != i {
                    assert(self.node_results@[k] == old(self).node_results@[k]);
                }
                assert(has_id(old(self).executions@, old(self).node_results@[k].parent()));
                assert(old(self).node_results@[k].iteration >= 1);
            }
        }
        Ok(())
    }
}

} // verus!
