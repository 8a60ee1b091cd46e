//! The schema migrator: an ordered, versioned sequence of forward
//! schema-changing operations, each applied exactly once. The recorded
//! version, not the operation text, decides what has already run, and
//! every operation tolerates re-application.

use vstd::prelude::*;
use vstd::string::StringExecFns;

use crate::StoreError;
use crate::seed::seed_store;
use crate::store::{Store, StoreModel};

verus! {

/// A forward schema-changing operation. Both operations are safe to
/// re-apply: schema objects are created only if missing, and seeding
/// skips rows that already exist.
#[derive(Clone, Copy, PartialEq, Eq, Structural, Debug)]
pub enum Operation {
    /// Create the three tables and their indexes where missing.
    CreateSchema,
    /// Load the seed catalog of default categories and services.
    SeedDefaults,
}

/// Model of one migration step.
#[verifier::ext_equal]
pub ghost struct StepModel {
    pub version: int,
    pub description: Seq<char>,
    pub operation: Operation,
}

/// One versioned, forward-only migration step.
#[derive(Debug)]
pub struct MigrationStep {
    pub version: u64,
    pub description: String,
    pub operation: Operation,
}

impl View for MigrationStep {
    type V = StepModel;

    open spec fn view(&self) -> StepModel {
        StepModel {
            version: self.version as int,
            description: self.description@,
            operation: self.operation,
        }
    }
}

impl DeepView for MigrationStep {
    type V = StepModel;

    open spec fn deep_view(&self) -> StepModel {
        self.view()
    }
}

/// Step versions are strictly increasing.
pub open spec fn versions_ascending(steps: Seq<StepModel>) -> bool {
    forall|i: int, j: int|
        0 <= i < j < steps.len() ==> (#[trigger] steps[i]).version < (#[trigger] steps[j]).version
}

/// Every step version is at least 1.
pub open spec fn versions_positive(steps: Seq<StepModel>) -> bool {
    forall|i: int| 0 <= i < steps.len() ==> (#[trigger] steps[i]).version >= 1
}

/// What applying one operation does to a store. Creating the schema
/// always succeeds and only marks the schema objects present; seeding
/// requires them and loads the catalog.
pub open spec fn apply_operation_model(s: StoreModel, op: Operation, now: Seq<char>) -> Result<
    StoreModel,
    StoreError,
> {
    match op {
        Operation::CreateSchema => Ok(StoreModel { schema_ready: true, ..s }),
        Operation::SeedDefaults => if s.schema_ready {
            seed_store(s, now)
        } else {
            Err(StoreError::MigrationFailure)
        },
    }
}

/// What a whole migration run does: every step whose version exceeds
/// the recorded one is applied in order and its version recorded with
/// it; a failing step halts the run with the store at the last recorded
/// version.
pub open spec fn run_migrations(s: StoreModel, steps: Seq<StepModel>, now: Seq<char>) -> (
    StoreModel,
    Result<(), StoreError>,
)
    decreases steps.len(),
{
    if steps.len() == 0 {
        (s, Ok(()))
    } else {
        let st = steps[0];
        if st.version <= s.user_version {
            run_migrations(s, steps.drop_first(), now)
        } else {
            match apply_operation_model(s, st.operation, now) {
                Ok(s2) => run_migrations(
                    StoreModel { user_version: st.version, ..s2 },
                    steps.drop_first(),
                    now,
                ),
                Err(e) => (s, Err(e)),
            }
        }
    }
}

impl Store {
    /// Applies one operation as a single unit: on success the store is
    /// the operation's result, on failure it is unchanged.
    pub fn apply_operation(&mut self, op: &Operation, now: &String) -> (r: Result<(), StoreError>)
        requires
            old(self)@.wf(),
        ensures
            final(self)@.wf(),
            match r {
                Ok(()) => apply_operation_model(old(self)@, *op, now@) == Ok::<
                    StoreModel,
                    StoreError,
                >(final(self)@),
                Err(e) => apply_operation_model(old(self)@, *op, now@) == Err::<
                    StoreModel,
                    StoreError,
                >(e) && final(self)@ == old(self)@,
            },
    {
        match op {
            Operation::CreateSchema => {
                self.schema_ready = true;
                proof {
                    assert(self@ =~= (StoreModel { schema_ready: true, ..old(self)@ }));
                }
                Ok(())
            },
            Operation::SeedDefaults => self.apply_seed(now),
        }
    }

    /// Runs the migration sequence: exactly the steps whose version
    /// exceeds the recorded one are applied, in ascending order, and
    /// the new version is recorded with each success. A failing step
    /// halts the run; no later step is attempted and the store stays at
    /// the last recorded version.
    pub fn migrate(&mut self, steps: &Vec<MigrationStep>, now: &String) -> (r: Result<
        (),
        StoreError,
    >)
        requires
            old(self)@.wf(),
            versions_ascending(steps.deep_view()),
            versions_positive(steps.deep_view()),
        ensures
            final(self)@.wf(),
            ({
                let (sm, rr) = run_migrations(old(self)@, steps.deep_view(), now@);
                final(self)@ == sm && r == rr
            }),
    {
        let ghost prev = self@;
        let ghost stepsm = steps.deep_view();
        proof {
            assert(stepsm.skip(0) =~= stepsm);
        }
        let mut i: usize = 0;
        while i < steps.len()
            invariant
                i <= steps.len(),
                prev == old(self)@,
                stepsm == steps.deep_view(),
                self@.wf(),
                run_migrations(prev, stepsm, now@) == run_migrations(
                    self@,
                    stepsm.skip(i as int),
                    now@,
                ),
            decreases steps.len() - i,
        {
            let ghost at_entry = self@;
            proof {
                assert(stepsm.skip(i as int)[0] == stepsm[i as int]);
                assert(stepsm.skip(i as int).drop_first() =~= stepsm.skip(i as int + 1));
            }
            if steps[i].version > self.user_version {
                let op = steps[i].operation;
                let version = steps[i].version;
                match self.apply_operation(&op, now) {
                    Ok(()) => {
                        self.user_version = version;
                        proof {
                            assert(self@ =~= (StoreModel {
                                user_version: stepsm[i as int].version,
                                ..apply_operation_model(at_entry, op, now@)->Ok_0
                            }));
                        }
                    },
                    Err(e) => {
                        proof {
                            assert(op == stepsm[i as int].operation);
                            assert(run_migrations(at_entry, stepsm.skip(i as int), now@) == (
                                at_entry,
                                Err::<(), StoreError>(e),
                            ));
                        }
                        return Err(e);
                    },
                }
            }
            i += 1;
        }
        proof {
            assert(stepsm.skip(steps.len() as int) =~= Seq::<StepModel>::empty());
        }
        Ok(())
    }
}

/// The ordered migration sequence of this application: version 1
/// creates the tables and indexes, version 2 loads the seed catalog.
pub open spec fn migration_plan_model() -> Seq<StepModel> {
    seq![
        StepModel {
            version: 1,
            description: "create_tables"@,
            operation: Operation::CreateSchema,
        },
        StepModel {
            version: 2,
            description: "seed_default_data"@,
            operation: Operation::SeedDefaults,
        },
    ]
}

/// Builds the application's migration sequence.
pub fn migration_plan() -> (v: Vec<MigrationStep>)
    ensures
        v.deep_view() == migration_plan_model(),
        versions_ascending(v.deep_view()),
        versions_positive(v.deep_view()),
{
    let mut v: Vec<MigrationStep> = Vec::new();
    v.push(
        MigrationStep {
            version: 1,
            description: String::from_str("create_tables"),
            operation: Operation::CreateSchema,
        },
    );
    v.push(
        MigrationStep {
            version: 2,
            description: String::from_str("seed_default_data"),
            operation: Operation::SeedDefaults,
        },
    );
    proof {
        assert(v.deep_view() =~= migration_plan_model());
    }
    v
}

/// Re-applying an operation that has already succeeded, at any later
/// load time, changes nothing: a half-finished step whose version was
/// never recorded can be run again from scratch.
pub proof fn lemma_operation_reapply(s: StoreModel, op: Operation, now: Seq<char>, now2: Seq<char>)
    requires
        apply_operation_model(s, op, now) is Ok,
    ensures
        apply_operation_model(apply_operation_model(s, op, now)->Ok_0, op, now2)
            == apply_operation_model(s, op, now),
{
    match op {
        Operation::CreateSchema => {
        },
        Operation::SeedDefaults => {
            crate::seed::lemma_seed_rerun(s, now, now2);
        },
    }
}

/// After a successful run, the recorded version is at least the version
/// of every step and never moved backwards.
proof fn lemma_run_versions(s: StoreModel, steps: Seq<StepModel>, now: Seq<char>)
    requires
        run_migrations(s, steps, now).1 is Ok,
    ensures
        run_migrations(s, steps, now).0.user_version >= s.user_version,
        forall|k: int|
            0 <= k < steps.len() ==> run_migrations(s, steps, now).0.user_version >= (
            #[trigger] steps[k]).version,
    decreases steps.len(),
{
    if steps.len() > 0 {
        let st = steps[0];
        if st.version <= s.user_version {
            lemma_run_versions(s, steps.drop_first(), now);
            assert forall|k: int|
                0 <= k < steps.len() implies run_migrations(s, steps, now).0.user_version >= (
            #[trigger] steps[k]).version by {
                if k > 0 {
                    assert(steps.drop_first()[k - 1] == steps[k]);
                }
            }
        } else {
            match apply_operation_model(s, st.operation, now) {
                Ok(s2) => {
                    let s3 = StoreModel { user_version: st.version, ..s2 };
                    lemma_run_versions(s3, steps.drop_first(), now);
                    assert forall|k: int|
                        0 <= k < steps.len() implies run_migrations(
                        s,
                        steps,
                        now,
                    ).0.user_version >= (#[trigger] steps[k]).version by {
                        if k > 0 {
                            assert(steps.drop_first()[k - 1] == steps[k]);
                        }
                    }
                },
                Err(_) => {},
            }
        }
    }
}

/// A run whose every step version is already recorded changes nothing.
proof fn lemma_run_skips_all(s: StoreModel, steps: Seq<StepModel>, now: Seq<char>)
    requires
        forall|k: int| 0 <= k < steps.len() ==> (#[trigger] steps[k]).version <= s.user_version,
    ensures
        run_migrations(s, steps, now) == (s, Ok::<(), StoreError>(())),
    decreases steps.len(),
{
    if steps.len() > 0 {
        assert forall|k: int|
            0 <= k < steps.drop_first().len() implies (#[trigger] steps.drop_first()[k]).version
            <= s.user_version by {
            assert(steps.drop_first()[k] == steps[k + 1]);
        }
        lemma_run_skips_all(s, steps.drop_first(), now);
    }
}

/// Running a migration sequence again after it has run to completion
/// changes neither schema nor data, whatever the new load time: the
/// recorded version already covers every step, so nothing is re-run.
pub proof fn lemma_migrate_rerun(
    s: StoreModel,
    steps: Seq<StepModel>,
    now: Seq<char>,
    now2: Seq<char>,
)
    requires
        run_migrations(s, steps, now).1 is Ok,
    ensures
        run_migrations(run_migrations(s, steps, now).0, steps, now2) == (
            run_migrations(s, steps, now).0,
            Ok::<(), StoreError>(()),
        ),
{
    lemma_run_versions(s, steps, now);
    lemma_run_skips_all(run_migrations(s, steps, now).0, steps, now2);
}

} // verus!

