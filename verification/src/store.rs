//! The local store: one value that models the database file. It holds the
//! migration record, the schema objects present, and the rows of every
//! table, and it exposes the migration runner and the access layer.

use vstd::prelude::*;
use crate::migrate::{
    apply_action, apply_plan, apply_step, canonical_migrations, canonical_plan, full_schema,
    lemma_apply_plan_push, lemma_applied_in_order, lemma_canonical_full_schema, plan_max_version,
    plan_of, state_version, versions_ascending, MigrationStep, SchemaAction, SchemaState,
};
use crate::rows::{
    fk_ok, has_id, ids_ascending, ids_below,
};
use crate::schema::{
    default_config, is_default_config, Execution, GlobalConfig, Node, NodeResult, Project,
    SchemaObject, Setting, SettingPrompt, SettingRelation, StoreError, Workflow, WorkflowVersion,
};

verus! {

/// The set of schema objects a table of objects holds.
pub open spec fn obj_set_of(v: Seq<SchemaObject>) -> Set<SchemaObject> {
    Set::new(|o: SchemaObject| v.contains(o))
}

/// How the configuration row may change while migrations run: a present
/// row is never touched, and a missing row either stays missing or is
/// seeded with the defaults.
pub open spec fn config_evolves(a: Option<GlobalConfig>, b: Option<GlobalConfig>) -> bool {
    &&& a is Some ==> b == a
    &&& a is None ==> b is None || is_default_config(b->0)
}

/// The recorded version numbers strictly increase in order of application.
pub open spec fn applied_ascending(applied: Seq<u64>) -> bool {
    forall|i: int, j: int| 0 <= i < j < applied.len() ==> applied[i] < applied[j]
}

/// Some setting of the given project has the given id.
pub open spec fn setting_in_project(ss: Seq<Setting>, id: u64, pid: u64) -> bool {
    exists|i: int|
        0 <= i < ss.len() && #[trigger] ss[i].id == id && ss[i].project_id == pid
}

/// Every relation links two settings of its own project.
pub open spec fn relations_ok(rs: Seq<SettingRelation>, ss: Seq<Setting>) -> bool {
    forall|i: int|
        #![trigger rs[i]]
        0 <= i < rs.len() ==> setting_in_project(ss, rs[i].source_id, rs[i].project_id)
            && setting_in_project(ss, rs[i].target_id, rs[i].project_id)
}

/// Version numbers strictly increase per workflow along the table, and
/// every version number is at least 1 and no larger than its row id.
pub open spec fn versions_ok(vs: Seq<WorkflowVersion>) -> bool {
    &&& forall|i: int, j: int|
        #![trigger vs[i].workflow_id, vs[j].workflow_id]
        0 <= i < j < vs.len() && vs[i].workflow_id == vs[j].workflow_id ==> vs[i].version_number
            < vs[j].version_number
    &&& forall|i: int|
        #![trigger vs[i]]
        0 <= i < vs.len() ==> 1 <= vs[i].version_number && vs[i].version_number <= vs[i].id
}

/// The local store. One value of this type models the whole database
/// file: the internal migration-tracking table (`applied`), the schema
/// objects present, the rows of every entity table, the configuration
/// singleton, and the counters that mint ids and timestamps.
pub struct Store {
    /// The migration-tracking table: applied version numbers in order.
    pub applied: Vec<u64>,
    /// The tables and indexes that exist.
    pub objects: Vec<SchemaObject>,
    pub projects: Vec<Project>,
    pub workflows: Vec<Workflow>,
    pub nodes: Vec<Node>,
    pub settings: Vec<Setting>,
    pub setting_prompts: Vec<SettingPrompt>,
    pub setting_relations: Vec<SettingRelation>,
    pub executions: Vec<Execution>,
    pub node_results: Vec<NodeResult>,
    pub workflow_versions: Vec<WorkflowVersion>,
    /// The configuration singleton; present exactly when seeded.
    pub global_config: Option<GlobalConfig>,
    /// The next id to mint; every existing row id lies below it.
    pub next_id: u64,
    /// A logical clock for creation and update timestamps.
    pub clock: u64,
}

impl Store {
    /// The migration-relevant part of the store.
    pub open spec fn schema_state(self) -> SchemaState {
        SchemaState {
            applied: self.applied@,
            objects: obj_set_of(self.objects@),
            config_seeded: self.global_config is Some,
        }
    }

    /// The highest migration version applied so far; zero when fresh.
    pub open spec fn version(self) -> u64 {
        state_version(self.schema_state())
    }

    /// The full schema is present and the configuration row is seeded:
    /// entity operations may run.
    pub open spec fn migrated(self) -> bool {
        &&& full_schema().subset_of(obj_set_of(self.objects@))
        &&& self.global_config is Some
    }

    /// Every table keeps its rows in ascending id order below the next id
    /// to mint.
    pub open spec fn tables_wf(self) -> bool {
        &&& ids_ascending(self.projects@) && ids_below(self.projects@, self.next_id)
        &&& ids_ascending(self.workflows@) && ids_below(self.workflows@, self.next_id)
        &&& ids_ascending(self.nodes@) && ids_below(self.nodes@, self.next_id)
        &&& ids_ascending(self.settings@) && ids_below(self.settings@, self.next_id)
        &&& ids_ascending(self.setting_prompts@) && ids_below(self.setting_prompts@, self.next_id)
        &&& ids_ascending(self.setting_relations@) && ids_below(
            self.setting_relations@,
            self.next_id,
        )
        &&& ids_ascending(self.executions@) && ids_below(self.executions@, self.next_id)
        &&& ids_ascending(self.node_results@) && ids_below(self.node_results@, self.next_id)
        &&& ids_ascending(self.workflow_versions@) && ids_below(
            self.workflow_versions@,
            self.next_id,
        )
    }

    /// Every child row's parent exists: the ownership tree is closed.
    pub open spec fn fks_ok(self) -> bool {
        &&& fk_ok(self.workflows@, self.projects@)
        &&& fk_ok(self.nodes@, self.workflows@)
        &&& fk_ok(self.settings@, self.projects@)
        &&& fk_ok(self.setting_prompts@, self.projects@)
        &&& fk_ok(self.setting_relations@, self.projects@)
        &&& relations_ok(self.setting_relations@, self.settings@)
        &&& fk_ok(self.executions@, self.workflows@)
        &&& fk_ok(self.node_results@, self.executions@)
        &&& fk_ok(self.workflow_versions@, self.workflows@)
    }

    /// The per-row check constraints of the schema.
    pub open spec fn rows_valid(self) -> bool {
        &&& forall|i: int|
            #![trigger self.projects@[i]]
            0 <= i < self.projects@.len() ==> self.projects@[i].name@.len() > 0
        &&& forall|i: int|
            #![trigger self.workflows@[i]]
            0 <= i < self.workflows@.len() ==> self.workflows@[i].loop_max_count >= 1
        &&& forall|i: int|
            #![trigger self.node_results@[i]]
            0 <= i < self.node_results@.len() ==> self.node_results@[i].iteration >= 1
        &&& versions_ok(self.workflow_versions@)
    }

    /// The store's invariant: constructors establish it and every
    /// operation preserves it.
    pub open spec fn wf(self) -> bool {
        &&& self.tables_wf()
        &&& self.fks_ok()
        &&& self.rows_valid()
        &&& applied_ascending(self.applied@)
        &&& self.next_id >= 1
    }

    /// A fresh, empty, unmigrated database.
    pub fn fresh() -> (s: Store)
        ensures
            s.wf(),
            s.schema_state() == crate::migrate::fresh_schema_state(),
            s.projects@.len() == 0,
            s.workflows@.len() == 0,
            s.nodes@.len() == 0,
            s.settings@.len() == 0,
            s.setting_prompts@.len() == 0,
            s.setting_relations@.len() == 0,
            s.executions@.len() == 0,
            s.node_results@.len() == 0,
            s.workflow_versions@.len() == 0,
            s.global_config is None,
            s.next_id == 1,
            s.clock == 0,
            s.version() == 0,
    {
        let s = Store {
            applied: Vec::new(),
            objects: Vec::new(),
            projects: Vec::new(),
            workflows: Vec::new(),
            nodes: Vec::new(),
            settings: Vec::new(),
            setting_prompts: Vec::new(),
            setting_relations: Vec::new(),
            executions: Vec::new(),
            node_results: Vec::new(),
            workflow_versions: Vec::new(),
            global_config: None,
            next_id: 1,
            clock: 0,
        };
        proof {
            assert(obj_set_of(s.objects@) =~= Set::empty());
        }
        s
    }

    /// The highest migration version recorded as applied; zero when
    /// nothing is recorded.
    pub fn recorded_version(&self) -> (v: u64)
        ensures
            v == self.version(),
    {
        if self.applied.len() == 0 {
            0
        } else {
            self.applied[self.applied.len() - 1]
        }
    }

    /// Whether the given table exists.
    pub fn has_table(&self, t: crate::schema::TableId) -> (b: bool)
        ensures
            b == obj_set_of(self.objects@).contains(SchemaObject::Table(t)),
    {
        contains_object(&self.objects, SchemaObject::Table(t))
    }

    /// Whether the given index exists.
    pub fn has_index(&self, ix: crate::schema::IndexId) -> (b: bool)
        ensures
            b == obj_set_of(self.objects@).contains(SchemaObject::Index(ix)),
    {
        contains_object(&self.objects, SchemaObject::Index(ix))
    }

    /// Creates a table or index unless it already exists.
    fn create_object(&mut self, o: SchemaObject)
        ensures
            final(self).schema_state() == apply_action(
                old(self).schema_state(),
                SchemaAction::CreateObject(o),
            ),
            *final(self) == (Store { objects: final(self).objects, ..*old(self) }),
    {
        let present = contains_object(&self.objects, o);
        if !present {
            self.objects.push(o);
            proof {
                lemma_push_contains(old(self).objects@, o);
                assert(obj_set_of(self.objects@) =~= obj_set_of(old(self).objects@).insert(o));
            }
        } else {
            proof {
                assert(obj_set_of(self.objects@) =~= obj_set_of(old(self).objects@).insert(o));
            }
        }
    }

    /// Inserts the default configuration row unless one is present.
    fn seed_config(&mut self)
        ensures
            final(self).schema_state() == apply_action(
                old(self).schema_state(),
                SchemaAction::SeedDefaultConfig,
            ),
            *final(self) == (Store { global_config: final(self).global_config, ..*old(self) }),
            config_evolves(old(self).global_config, final(self).global_config),
    {
        if self.global_config.is_none() {
            self.global_config = Some(default_config());
        }
    }

    /// Runs one step's actions in order.
    fn apply_step_actions(&mut self, acts: &Vec<SchemaAction>)
        ensures
            final(self).schema_state() == crate::migrate::apply_actions(
                old(self).schema_state(),
                acts@,
            ),
            *final(self) == (Store {
                objects: final(self).objects,
                global_config: final(self).global_config,
                ..*old(self)
            }),
            config_evolves(old(self).global_config, final(self).global_config),
    {
        let mut i: usize = 0;
        while i < acts.len()
            invariant
                i <= acts.len(),
                self.schema_state() == crate::migrate::apply_actions(
                    old(self).schema_state(),
                    acts@.take(i as int),
                ),
                *self == (Store {
                    objects: self.objects,
                    global_config: self.global_config,
                    ..*old(self)
                }),
                config_evolves(old(self).global_config, self.global_config),
            decreases acts.len() - i,
        {
            proof {
                assert(acts@.take(i as int + 1) =~= acts@.take(i as int).push(acts@[i as int]));
                crate::migrate::lemma_apply_actions_push(
                    old(self).schema_state(),
                    acts@.take(i as int),
                    acts@[i as int],
                );
            }
            match acts[i] {
                SchemaAction::CreateObject(o) => {
                    self.create_object(o);
                },
                SchemaAction::SeedDefaultConfig => {
                    self.seed_config();
                },
            }
            i = i + 1;
        }
        proof {
            assert(acts@.take(acts@.len() as int) =~= acts@);
        }
    }

    /// The migration runner. Brings the store from whatever version it is
    /// at up to the highest version of the given steps, applying exactly
    /// the pending steps (those with a version above the recorded one), in
    /// order, and recording each. A store whose recorded version is higher
    /// than every given step is a configuration error and is left
    /// untouched. Rows are never touched; a missing configuration row is
    /// seeded by the first step's seed action.
    pub fn run_migrations(&mut self, steps: &Vec<MigrationStep>) -> (r: Result<(), StoreError>)
        requires
            old(self).wf(),
            versions_ascending(plan_of(steps@)),
        ensures
            final(self).wf(),
            r is Err <==> old(self).version() > plan_max_version(plan_of(steps@)),
            r is Err ==> r->Err_0 == StoreError::InitializationFailure && *final(self) == *old(
                self,
            ),
            r is Ok ==> final(self).schema_state() == apply_plan(
                old(self).schema_state(),
                plan_of(steps@),
            ),
            r is Ok ==> *final(self) == (Store {
                applied: final(self).applied,
                objects: final(self).objects,
                global_config: final(self).global_config,
                ..*old(self)
            }),
            config_evolves(old(self).global_config, final(self).global_config),
    {
        let ghost plan = plan_of(steps@);
        let maxv = if steps.len() == 0 {
            0
        } else {
            steps[steps.len() - 1].version
        };
        proof {
            if steps@.len() > 0 {
                assert(plan[plan.len() - 1] == (steps@[steps@.len() - 1].version, steps@[steps@.len() - 1].actions@));
            }
            assert(maxv == plan_max_version(plan));
        }
        if self.recorded_version() > maxv {
            return Err(StoreError::InitializationFailure);
        }
        let ghost start = self.schema_state();
        let mut i: usize = 0;
        while i < steps.len()
            invariant
                i <= steps.len(),
                plan == plan_of(steps@),
                self.schema_state() == apply_plan(start, plan.take(i as int)),
                start == old(self).schema_state(),
                *self == (Store {
                    applied: self.applied,
                    objects: self.objects,
                    global_config: self.global_config,
                    ..*old(self)
                }),
                config_evolves(old(self).global_config, self.global_config),
            decreases steps.len() - i,
        {
            proof {
                assert(plan.take(i as int + 1) =~= plan.take(i as int).push(plan[i as int]));
                lemma_apply_plan_push(start, plan.take(i as int), plan[i as int]);
                assert(plan[i as int] == (steps@[i as int].version, steps@[i as int].actions@));
            }
            let ghost before = self.schema_state();
            let v = steps[i].version;
            let cur = self.recorded_version();
            if v > cur {
                self.apply_step_actions(&steps[i].actions);
                self.applied.push(v);
                proof {
                    assert(self.schema_state() == apply_step(before, plan[i as int]));
                }
            } else {
                proof {
                    assert(self.schema_state() == apply_step(before, plan[i as int]));
                }
            }
            i = i + 1;
        }
        proof {
            assert(plan.take(steps@.len() as int) =~= plan);
            lemma_applied_in_order(start, plan);
            assert(applied_ascending(self.applied@));
        }
        Ok(())
    }

    /// Opens a fresh database and brings it to the latest schema: the
    /// startup path of the application. The result carries the full
    /// schema, the default configuration row, no entity rows, and the
    /// record that versions 1, 2 and 3 were applied in order.
    pub fn open() -> (s: Store)
        ensures
            s.wf(),
            s.migrated(),
            obj_set_of(s.objects@) == full_schema(),
            s.global_config is Some && is_default_config(s.global_config->0),
            s.applied@ == seq![1u64, 2u64, 3u64],
            s.version() == 3,
            s.projects@.len() == 0,
            s.workflows@.len() == 0,
            s.nodes@.len() == 0,
            s.settings@.len() == 0,
            s.setting_prompts@.len() == 0,
            s.setting_relations@.len() == 0,
            s.executions@.len() == 0,
            s.node_results@.len() == 0,
            s.workflow_versions@.len() == 0,
            s.next_id == 1,
            s.clock == 0,
    {
        let mut s = Store::fresh();
        let steps = canonical_migrations();
        proof {
            assert(canonical_plan()[0].0 == 1 && canonical_plan()[1].0 == 2 && canonical_plan()[2].0
                == 3);
            assert(versions_ascending(canonical_plan()));
            assert(plan_max_version(canonical_plan()) == 3);
        }
        let r = s.run_migrations(&steps);
        proof {
            lemma_canonical_full_schema();
            assert(s.schema_state().objects == obj_set_of(s.objects@));
            assert(obj_set_of(s.objects@) == full_schema());
            assert(s.applied@ =~= seq![1u64, 2u64, 3u64]);
        }
        s
    }

    /// Reads the configuration singleton.
    pub fn get_config(&self) -> (c: &GlobalConfig)
        requires
            self.global_config is Some,
        ensures
            *c == self.global_config->0,
    {
        self.global_config.as_ref().unwrap()
    }

    /// Replaces the configuration singleton. The only mutation path for
    /// it: the row can never be created twice nor deleted.
    pub fn set_config(&mut self, c: GlobalConfig)
        requires
            old(self).wf(),
            old(self).global_config is Some,
        ensures
            final(self).wf(),
            *final(self) == (Store { global_config: Some(c), ..*old(self) }),
    {
        self.global_config = Some(c);
    }
}

/// Whether the object list holds the given object.
fn contains_object(v: &Vec<SchemaObject>, o: SchemaObject) -> (b: bool)
    ensures
        b == v@.contains(o),
{
    let mut i: usize = 0;
    while i < v.len()
        invariant
            i <= v.len(),
            forall|k: int| 0 <= k < i ==> v@[k] != o,
        decreases v.len() - i,
    {
        if v[i] == o {
            return true;
        }
        i = i + 1;
    }
    false
}

/// Membership in a sequence extended by one element.
proof fn lemma_push_contains<T>(s: Seq<T>, x: T)
    ensures
        forall|y: T| #[trigger] s.push(x).contains(y) <==> s.contains(y) || y == x,
{
    assert forall|y: T| #[trigger] s.push(x).contains(y) <==> s.contains(y) || y == x by {
        if s.push(x).contains(y) {
            let i = choose|i: int| 0 <= i < s.push(x).len() && s.push(x)[i] == y;
            if i < s.len() {
                assert(s[i] == y);
            }
        }
        if s.contains(y) {
            let i = choose|i: int| 0 <= i < s.len() && s[i] == y;
            assert(s.push(x)[i] == y);
        }
        assert(s.push(x)[s.len() as int] == x);
    }
}

} // verus!
