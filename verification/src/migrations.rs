//! The schema of the store and the steps that bring a store up to it.
//!
//! The steps form a fixed list that only ever grows at its end. A store
//! records the index of each step applied to it, so the steps still to run
//! are those after the highest recorded index, in order. Each step is run
//! in a transaction of its own together with the record of its index, so a
//! failure leaves the store at the last step that succeeded.

use vstd::prelude::*;

verus! {

/// How many steps the schema has.
pub const MIGRATION_COUNT: usize = 3;

/// The statement that creates the table in which applied steps are recorded.
pub const MIGRATIONS_TABLE_SQL: &'static str =
    "CREATE TABLE migrations (id INTEGER PRIMARY KEY, idx INTEGER, date TIMESTAMP DEFAULT CURRENT_TIMESTAMP);";

/// The statement that asks whether that table exists.
pub const MIGRATIONS_TABLE_EXISTS_SQL: &'static str =
    "SELECT name FROM sqlite_schema WHERE type = 'table' AND name = 'migrations'";

/// The statement that reads the highest recorded index.
pub const LAST_MIGRATION_SQL: &'static str = "SELECT idx FROM migrations ORDER BY idx DESC LIMIT 1";

/// The statement that records an applied step.
pub const RECORD_MIGRATION_SQL: &'static str = "INSERT INTO migrations (idx) VALUES (?)";

/// Step 0: the table of selections.
pub const CREATE_SELECTIONS_SQL: &'static str =
    "CREATE TABLE selections (`id` INTEGER PRIMARY KEY, `path_hash` VARCHAR(128), `path` TEXT NOT NULL UNIQUE);";

/// Step 1: the history of choices.
pub const CREATE_HISTORY_SQL: &'static str =
    "CREATE TABLE selections_history (`id` INTEGER PRIMARY KEY, `url` TEXT NOT NULL, `src` VARCHAR(255), `tld` VARCHAR(255) NOT NULL, `weekday` INTEGER NOT NULL, `hour` INTEGER NOT NULL, `selection_id` INTEGER NOT NULL, `date` TIMESTAMP DEFAULT CURRENT_TIMESTAMP, `count` INTEGER DEFAULT 1, FOREIGN KEY (selection_id) REFERENCES selections(id));";

/// Step 2: the indexes.
pub const CREATE_INDEXES_SQL: &'static str =
    "CREATE INDEX sel_browser_hash ON selections (path); CREATE INDEX sel_history_tld ON selections_history (tld); CREATE INDEX sel_date ON selections_history (date);";

/// One step of the schema: its place in the list and its statements.
#[derive(Debug)]
pub struct MigrationStep {
    pub index: usize,
    pub sql: String,
}

/// The statements of step `index`.
pub open spec fn step_sql(index: int) -> Seq<char> {
    if index == 0 {
        CREATE_SELECTIONS_SQL@
    } else if index == 1 {
        CREATE_HISTORY_SQL@
    } else {
        CREATE_INDEXES_SQL@
    }
}

/// The first step that a store still needs when the highest index recorded
/// in it is `last_applied`; a negative value says that none is recorded.
pub open spec fn first_pending(last_applied: i64) -> int {
    if last_applied < 0 {
        0
    } else {
        last_applied + 1
    }
}

/// The indices of the steps that a store still needs, in the order in which
/// they are to run: from the first pending one to the end of the list.
pub open spec fn pending(last_applied: i64) -> Seq<int> {
    let first = first_pending(last_applied);
    if first >= MIGRATION_COUNT {
        Seq::empty()
    } else {
        Seq::new((MIGRATION_COUNT - first) as nat, |i: int| first + i)
    }
}

/// The highest index recorded in a store that had `last_applied` and to
/// which the steps `applied` were then applied in order.
pub open spec fn last_after(last_applied: i64, applied: Seq<int>) -> int {
    if applied.len() == 0 {
        last_applied as int
    } else {
        applied.last()
    }
}

/// The statements of step `index`.
pub fn migration_sql(index: usize) -> (sql: String)
    requires
        index < MIGRATION_COUNT,
    ensures
        sql@ == step_sql(index as int),
{
    if index == 0 {
        String::from_str(CREATE_SELECTIONS_SQL)
    } else if index == 1 {
        String::from_str(CREATE_HISTORY_SQL)
    } else {
        String::from_str(CREATE_INDEXES_SQL)
    }
}

/// The steps to apply to a store whose highest recorded index is
/// `last_applied` (negative when none is recorded), in order. The caller
/// runs each step and the record of its index in one transaction and stops
/// at the first that fails.
pub fn migrate(last_applied: i64) -> (plan: Vec<MigrationStep>)
    ensures
        plan.len() == pending(last_applied).len(),
        forall|i: int|
            0 <= i < plan.len() ==> (#[trigger] plan[i]).index == pending(last_applied)[i]
                && plan[i].sql@ == step_sql(pending(last_applied)[i]),
{
    let mut plan: Vec<MigrationStep> = Vec::new();
    if last_applied >= MIGRATION_COUNT as i64 {
        return plan;
    }
    let first: usize = if last_applied < 0 {
        0
    } else {
        last_applied as usize + 1
    };
    let mut index: usize = first;
    while index < MIGRATION_COUNT
        invariant
            first == first_pending(last_applied),
            first <= index <= MIGRATION_COUNT,
            plan.len() == index - first,
            forall|i: int|
                0 <= i < plan.len() ==> (#[trigger] plan[i]).index == first + i && plan[i].sql@
                    == step_sql(first + i),
        decreases MIGRATION_COUNT - index,
    {
        plan.push(MigrationStep { index, sql: migration_sql(index) });
        index += 1;
    }
    plan
}

/// A migration under way: which step comes next, and whether a step failed.
#[derive(Clone, Copy, Debug, PartialEq, Eq, Structural)]
pub struct MigrationRun {
    /// The index of the step to apply next; the number of steps when none
    /// is left.
    pub next_index: usize,
    /// Whether a step failed, which ends the run.
    pub stopped: bool,
}

impl MigrationRun {
    /// The index of the step that is to be applied now, if there is one.
    pub open spec fn current_index(self) -> Option<int> {
        if !self.stopped && self.next_index < MIGRATION_COUNT {
            Some(self.next_index as int)
        } else {
            None
        }
    }

    /// The run for a store whose highest recorded index is `last_applied`.
    pub fn start(last_applied: i64) -> (run: MigrationRun)
        ensures
            !run.stopped,
            run.next_index == if first_pending(last_applied) < MIGRATION_COUNT {
                first_pending(last_applied)
            } else {
                MIGRATION_COUNT as int
            },
            run.current_index() == if pending(last_applied).len() > 0 {
                Some(pending(last_applied)[0])
            } else {
                None
            },
    {
        let next_index: usize = if last_applied < 0 {
            0
        } else if last_applied >= MIGRATION_COUNT as i64 {
            MIGRATION_COUNT
        } else {
            last_applied as usize + 1
        };
        MigrationRun { next_index, stopped: false }
    }

    /// The step to apply now, in a transaction together with the record of
    /// its index; none when every step is applied or one has failed.
    pub fn current(&self) -> (step: Option<MigrationStep>)
        ensures
            match self.current_index() {
                Some(i) => step matches Some(s) && s.index == i && s.sql@ == step_sql(i),
                None => step is None,
            },
    {
        if !self.stopped && self.next_index < MIGRATION_COUNT {
            Some(MigrationStep { index: self.next_index, sql: migration_sql(self.next_index) })
        } else {
            None
        }
    }

    /// Takes note of how the current step ended: once it is committed the
    /// next step is due, and a failure ends the run where it stands.
    pub fn record(&mut self, committed: bool)
        requires
            old(self).current_index() is Some,
        ensures
            committed ==> *final(self) == (MigrationRun {
                next_index: (old(self).next_index + 1) as usize,
                stopped: false,
            }),
            !committed ==> *final(self) == (MigrationRun {
                next_index: old(self).next_index,
                stopped: true,
            }),
    {
        if committed {
            self.next_index = self.next_index + 1;
        } else {
            self.stopped = true;
        }
    }

    /// The highest index that the store records after this run so far, given
    /// that the run started on a contiguous record.
    pub fn last_applied(&self) -> (last: i64)
        requires
            self.next_index <= MIGRATION_COUNT,
        ensures
            last == self.next_index - 1,
    {
        self.next_index as i64 - 1
    }

    /// Whether a step failed.
    pub fn has_failed(&self) -> (b: bool)
        ensures
            b == self.stopped,
    {
        self.stopped
    }
}

/// A run that is resumed from what the store records goes on with the step
/// at which the earlier run stood, whether that run stopped on a failure or
/// was cut short.
pub proof fn lemma_run_resumes(run: MigrationRun)
    requires
        run.next_index <= MIGRATION_COUNT,
    ensures
        first_pending((run.next_index - 1) as i64) == run.next_index,
        pending((run.next_index - 1) as i64).len() == MIGRATION_COUNT - run.next_index,
        forall|i: int|
            0 <= i < MIGRATION_COUNT - run.next_index ==> #[trigger] pending(
                (run.next_index - 1) as i64,
            )[i] == run.next_index + i,
{
}

/// Migrating twice applies nothing the second time: once every pending step
/// has been applied, no step is pending.
pub proof fn lemma_migrate_idempotent(last_applied: i64)
    requires
        last_applied < i64::MAX,
    ensures
        last_after(last_applied, pending(last_applied)) <= i64::MAX,
        pending(last_after(last_applied, pending(last_applied)) as i64) == Seq::<int>::empty(),
{
}

/// A migration that stopped after `done` of its steps resumes with exactly
/// the steps that were left, in the same order, and repeats none.
pub proof fn lemma_migrate_resumes(last_applied: i64, done: int)
    requires
        0 <= done <= pending(last_applied).len(),
    ensures
        last_after(last_applied, pending(last_applied).take(done)) <= i64::MAX,
        pending(last_after(last_applied, pending(last_applied).take(done)) as i64) == pending(
            last_applied,
        ).skip(done),
{
    let all = pending(last_applied);
    let next = last_after(last_applied, all.take(done));
    assert(pending(next as i64) =~= all.skip(done));
}

/// The steps of a plan carry rising indices without a gap, so the indices
/// recorded in a store stay contiguous.
pub proof fn lemma_pending_is_contiguous(last_applied: i64, i: int)
    requires
        0 <= i < pending(last_applied).len(),
    ensures
        pending(last_applied)[i] == first_pending(last_applied) + i,
        pending(last_applied)[i] < MIGRATION_COUNT,
{
}

/// The indices recorded in a store form the sequence 0, 1, 2 and so on.
pub open spec fn is_contiguous(log: Seq<int>) -> bool {
    forall|i: int| 0 <= i < log.len() ==> log[i] == i
}

/// The highest index of a contiguous record, -1 for an empty one.
pub open spec fn highest(log: Seq<int>) -> int {
    log.len() - 1
}

/// The record of a store stays contiguous through a migration, wherever the
/// migration stops: the steps applied continue the record without a gap and
/// without a repeat.
pub proof fn lemma_record_stays_contiguous(log: Seq<int>, done: int)
    requires
        is_contiguous(log),
        log.len() <= MIGRATION_COUNT,
        0 <= done <= pending(highest(log) as i64).len(),
    ensures
        is_contiguous(log + pending(highest(log) as i64).take(done)),
        log.len() + done <= MIGRATION_COUNT,
{
}

} // verus!
