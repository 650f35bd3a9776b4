//! The task store: rows in the order of their ids, the claim of due tasks,
//! the insert-or-renew keyed by the external id, and the row transitions.

use vstd::prelude::*;
use crate::sequences::filter_one_more;
use crate::status::TaskStatus;
use crate::task::{
    claimed, created, edited, eligible, failed, finished_and_old, renewed, rescheduled,
    with_status, withdrawn, CreateTaskParams, TaskRow, UpdateTaskParams, MAX_RETRIES,
};

verus! {

/// Why the store refused an operation.
#[derive(Debug, Clone, Copy, PartialEq, Eq, Structural)]
pub enum StoreError {
    /// No task has this id.
    ResourceNotFound(u128),
    /// A task with this id, or with the same external id, is already stored.
    Conflict(u128),
}

/// The tasks, in the order of their ids.
#[derive(Debug, PartialEq, Eq)]
pub struct TaskStore {
    pub rows: Vec<TaskRow>,
}

/// The rows stand in strictly rising order of their ids.
pub open spec fn ordered_by_id(rows: Seq<TaskRow>) -> bool {
    forall|i: int, j: int| 0 <= i < j < rows.len() ==> rows[i].id < rows[j].id
}

/// Whether a task carries the external id `key`.
pub open spec fn keyed_by(task: TaskRow, key: Option<String>) -> bool {
    &&& key matches Some(wanted)
    &&& task.external_id matches Some(held)
    &&& held@ == wanted@
}

/// No two rows carry the same external id.
pub open spec fn external_ids_distinct(rows: Seq<TaskRow>) -> bool {
    forall|i: int, j: int|
        0 <= i < j < rows.len() ==> !keyed_by(#[trigger] rows[i], #[trigger] rows[j].external_id)
}

/// No row counts more failures than the bound.
pub open spec fn retries_bounded(rows: Seq<TaskRow>) -> bool {
    forall|i: int| 0 <= i < rows.len() ==> (#[trigger] rows[i]).retries <= MAX_RETRIES
}

/// What holds of the rows after every operation.
pub open spec fn well_formed(rows: Seq<TaskRow>) -> bool {
    ordered_by_id(rows) && external_ids_distinct(rows) && retries_bounded(rows)
}

/// Whether a row has the id.
pub open spec fn holds_id(rows: Seq<TaskRow>, id: u128) -> bool {
    exists|i: int| 0 <= i < rows.len() && (#[trigger] rows[i]).id == id
}

/// Whether a row carries the external id.
pub open spec fn holds_key(rows: Seq<TaskRow>, key: Option<String>) -> bool {
    exists|i: int| 0 <= i < rows.len() && keyed_by(#[trigger] rows[i], key)
}

/// Whether creating or renewing with `params` under `id` at `now` leads
/// from `before` to `after` with `result`. Where a row carries the external
/// id of `params`, that row is renewed in its place. Where none does, a new
/// row is put in; if the id is taken, nothing changes and the conflict is
/// reported.
pub open spec fn upserts(
    before: Seq<TaskRow>,
    id: u128,
    params: CreateTaskParams,
    now: i64,
    after: Seq<TaskRow>,
    result: Result<TaskRow, StoreError>,
) -> bool {
    match result {
        Ok(task) => {
            ||| exists|i: int|
                0 <= i < before.len() && keyed_by(#[trigger] before[i], params.external_id) && task
                    == renewed(before[i], params, now) && after == before.update(i, task)
            ||| (!holds_key(before, params.external_id) && !holds_id(before, id) && task
                == created(id, params, now) && exists|k: int|
                0 <= k <= before.len() && after == #[trigger] before.insert(k, task))
        },
        Err(error) => {
            &&& error == StoreError::Conflict(id)
            &&& !holds_key(before, params.external_id)
            &&& holds_id(before, id)
            &&& after == before
        },
    }
}

/// Applying the same keyed parameters a second time leaves every row as
/// the first application left it, but for the time of the update of the
/// row with the key, and returns that row.
pub proof fn upsert_twice_changes_only_the_update_time(
    start: Seq<TaskRow>,
    once: Seq<TaskRow>,
    twice: Seq<TaskRow>,
    first_id: u128,
    second_id: u128,
    params: CreateTaskParams,
    first_now: i64,
    second_now: i64,
    first: TaskRow,
    second: Result<TaskRow, StoreError>,
)
    requires
        well_formed(start),
        well_formed(once),
        params.external_id is Some,
        upserts(start, first_id, params, first_now, once, Ok(first)),
        upserts(once, second_id, params, second_now, twice, second),
    ensures
        second == Ok::<TaskRow, StoreError>(TaskRow { updated_at: second_now, ..first }),
        twice.len() == once.len(),
        forall|i: int|
            0 <= i < once.len() ==> #[trigger] twice[i] == (if keyed_by(
                once[i],
                params.external_id,
            ) {
                TaskRow { updated_at: second_now, ..once[i] }
            } else {
                once[i]
            }),
{
    // The row that the first application left carries the key.
    let at: int = if exists|i: int|
        0 <= i < start.len() && keyed_by(#[trigger] start[i], params.external_id) && first
            == renewed(start[i], params, first_now) && once == start.update(i, first) {
        let i = choose|i: int|
            0 <= i < start.len() && keyed_by(#[trigger] start[i], params.external_id) && first
                == renewed(start[i], params, first_now) && once == start.update(i, first);
        crate::task::renewal_is_idempotent(start[i], params, first_now, second_now);
        i
    } else {
        let k = choose|k: int|
            0 <= k <= start.len() && once == #[trigger] start.insert(k, first);
        crate::task::renewal_after_creation_is_idempotent(first_id, params, first_now, second_now);
        k
    };
    assert(0 <= at < once.len());
    assert(once[at] == first);
    assert(keyed_by(once[at], params.external_id));
    assert(holds_key(once, params.external_id));
    assert(renewed(first, params, second_now) == (TaskRow { updated_at: second_now, ..first }));
    // The second application renews the one row with the key.
    match second {
        Ok(task) => {
            let j = choose|j: int|
                0 <= j < once.len() && keyed_by(#[trigger] once[j], params.external_id) && task
                    == renewed(once[j], params, second_now) && twice == once.update(j, task);
            if j < at {
                assert(!keyed_by(once[j], once[at].external_id));
            } else if at < j {
                assert(!keyed_by(once[at], once[j].external_id));
            }
            assert(j == at);
            assert forall|i: int| 0 <= i < once.len() implies #[trigger] twice[i] == (if keyed_by(
                once[i],
                params.external_id,
            ) {
                TaskRow { updated_at: second_now, ..once[i] }
            } else {
                once[i]
            }) by {
                if i != at {
                    if i < at {
                        assert(!keyed_by(once[i], once[at].external_id));
                    } else {
                        assert(!keyed_by(once[at], once[i].external_id));
                    }
                    assert(!keyed_by(once[i], params.external_id));
                }
            }
        },
        Err(_) => {},
    }
}

/// The row as a claim at `now` leaves it: claimed where it is eligible.
pub open spec fn claim_if_due(task: TaskRow, now: i64) -> TaskRow {
    if eligible(task, now as int) {
        claimed(task, now)
    } else {
        task
    }
}

/// A claim leaves no row that could be claimed at the same instant, so two
/// claims never hand out the same task.
pub proof fn claim_leaves_nothing_due(task: TaskRow, now: i64)
    ensures
        !eligible(claim_if_due(task, now), now as int),
{
}

/// The test for eligibility at `now`.
pub open spec fn due_at(now: i64) -> spec_fn(TaskRow) -> bool {
    |task: TaskRow| eligible(task, now as int)
}

/// The claim at `now`.
pub open spec fn claim_at(now: i64) -> spec_fn(TaskRow) -> TaskRow {
    |task: TaskRow| claimed(task, now)
}

/// The claim at `now` of the rows that are due.
pub open spec fn claim_due_at(now: i64) -> spec_fn(TaskRow) -> TaskRow {
    |task: TaskRow| claim_if_due(task, now)
}

/// The test that the sweep of finished tasks at `now` keeps a row.
pub open spec fn survives_finished_sweep(now: i64) -> spec_fn(TaskRow) -> bool {
    |task: TaskRow| !finished_and_old(task, now as int)
}

/// The test that the sweep of imported tasks at `now` keeps a row.
pub open spec fn survives_exchange_sweep(now: i64) -> spec_fn(TaskRow) -> bool {
    |task: TaskRow| !withdrawn(task, now as int)
}

/// Rows picked from well-formed rows, in their order, are well formed.
pub proof fn picked_rows_are_well_formed(
    rows: Seq<TaskRow>,
    picked: Seq<TaskRow>,
    origin: Seq<int>,
)
    requires
        well_formed(rows),
        origin.len() == picked.len(),
        forall|a: int| 0 <= a < picked.len() ==> 0 <= #[trigger] origin[a] < rows.len(),
        forall|a: int| 0 <= a < picked.len() ==> #[trigger] picked[a] == rows[origin[a]],
        forall|a: int, b: int| 0 <= a < b < picked.len() ==> origin[a] < origin[b],
    ensures
        well_formed(picked),
{
    assert forall|a: int, b: int| 0 <= a < b < picked.len() implies picked[a].id
        < picked[b].id by {
        assert(picked[a] == rows[origin[a]]);
        assert(picked[b] == rows[origin[b]]);
    }
    assert forall|a: int, b: int| 0 <= a < b < picked.len() implies !keyed_by(
        #[trigger] picked[a],
        #[trigger] picked[b].external_id,
    ) by {
        assert(picked[a] == rows[origin[a]]);
        assert(picked[b] == rows[origin[b]]);
        assert(!keyed_by(rows[origin[a]], rows[origin[b]].external_id));
    }
    assert forall|a: int| 0 <= a < picked.len() implies (#[trigger] picked[a]).retries
        <= MAX_RETRIES by {
        assert(picked[a] == rows[origin[a]]);
    }
}

/// Rows that keep their ids, external ids and bounded failure counts stay
/// well formed.
pub proof fn rewritten_rows_are_well_formed(before: Seq<TaskRow>, after: Seq<TaskRow>)
    requires
        well_formed(before),
        after.len() == before.len(),
        forall|i: int|
            0 <= i < before.len() ==> (#[trigger] after[i]).id == before[i].id
                && after[i].external_id == before[i].external_id && after[i].retries
                <= MAX_RETRIES,
    ensures
        well_formed(after),
{
    assert forall|i: int, j: int| 0 <= i < j < after.len() implies after[i].id < after[j].id by {
        assert(before[i].id < before[j].id);
    }
    assert forall|i: int, j: int| 0 <= i < j < after.len() implies !keyed_by(
        #[trigger] after[i],
        #[trigger] after[j].external_id,
    ) by {
        assert(!keyed_by(before[i], before[j].external_id));
    }
}

impl TaskStore {
    /// A store without tasks.
    pub fn new() -> (store: TaskStore)
        ensures
            store.rows@.len() == 0,
            well_formed(store.rows@),
    {
        TaskStore { rows: Vec::new() }
    }

    /// Whether the rows are in order, carry distinct external ids and count
    /// no more failures than the bound.
    pub fn is_well_formed(&self) -> (ok: bool)
        ensures
            ok == well_formed(self.rows@),
    {
        let n: usize = self.rows.len();
        let mut i: usize = 0;
        while i < n
            invariant
                i <= n,
                n == self.rows@.len(),
                forall|a: int| 0 <= a < i ==> (#[trigger] self.rows@[a]).retries <= MAX_RETRIES,
                forall|a: int, b: int| 0 <= a < b < i ==> self.rows@[a].id < self.rows@[b].id,
                forall|a: int, b: int|
                    0 <= a < b < i ==> !keyed_by(
                        #[trigger] self.rows@[a],
                        #[trigger] self.rows@[b].external_id,
                    ),
            decreases n - i,
        {
            if self.rows[i].retries > MAX_RETRIES {
                assert(!retries_bounded(self.rows@));
                return false;
            }
            if i > 0 && self.rows[i - 1].id >= self.rows[i].id {
                assert(!ordered_by_id(self.rows@)) by {
                    if ordered_by_id(self.rows@) {
                        assert(self.rows@[i - 1].id < self.rows@[i as int].id);
                    }
                }
                return false;
            }
            let mut j: usize = 0;
            while j < i
                invariant
                    j <= i < n,
                    n == self.rows@.len(),
                    forall|a: int|
                        0 <= a < j ==> !keyed_by(
                            #[trigger] self.rows@[a],
                            self.rows@[i as int].external_id,
                        ),
                decreases i - j,
            {
                let same = match (&self.rows[j].external_id, &self.rows[i].external_id) {
                    (Some(held), Some(wanted)) => *held == *wanted,
                    _ => false,
                };
                if same {
                    assert(keyed_by(self.rows@[j as int], self.rows@[i as int].external_id));
                    assert(!external_ids_distinct(self.rows@));
                    return false;
                }
                j += 1;
            }
            proof {
                assert forall|a: int, b: int| 0 <= a < b < i + 1 implies self.rows@[a].id
                    < self.rows@[b].id by {
                    if b == i && a < i - 1 {
                        assert(self.rows@[a].id < self.rows@[i - 1].id);
                    }
                }
            }
            i += 1;
        }
        true
    }

    /// The number of tasks.
    pub fn len(&self) -> (n: usize)
        ensures
            n == self.rows@.len(),
    {
        self.rows.len()
    }

    /// Where the task with this id stands.
    pub fn position(&self, id: u128) -> (found: Option<usize>)
        ensures
            match found {
                Some(i) => i < self.rows@.len() && self.rows@[i as int].id == id,
                None => !holds_id(self.rows@, id),
            },
    {
        let mut i: usize = 0;
        while i < self.rows.len()
            invariant
                i <= self.rows@.len(),
                forall|j: int| 0 <= j < i ==> (#[trigger] self.rows@[j]).id != id,
            decreases self.rows@.len() - i,
        {
            if self.rows[i].id == id {
                return Some(i);
            }
            i += 1;
        }
        None
    }

    /// Where the task with this external id stands.
    pub fn position_by_external_id(&self, key: &Option<String>) -> (found: Option<usize>)
        ensures
            match found {
                Some(i) => i < self.rows@.len() && keyed_by(self.rows@[i as int], *key),
                None => !holds_key(self.rows@, *key),
            },
    {
        match key {
            None => None,
            Some(wanted) => {
                let mut i: usize = 0;
                while i < self.rows.len()
                    invariant
                        i <= self.rows@.len(),
                        *key == Some(*wanted),
                        forall|j: int| 0 <= j < i ==> !keyed_by(#[trigger] self.rows@[j], *key),
                    decreases self.rows@.len() - i,
                {
                    let same = match &self.rows[i].external_id {
                        Some(held) => *held == *wanted,
                        None => false,
                    };
                    if same {
                        return Some(i);
                    }
                    i += 1;
                }
                None
            },
        }
    }

    /// A copy of the task with this id.
    pub fn get(&self, id: u128) -> (task: Option<TaskRow>)
        ensures
            match task {
                Some(row) => row.id == id && self.rows@.contains(row),
                None => !holds_id(self.rows@, id),
            },
    {
        match self.position(id) {
            Some(i) => {
                let row = self.rows[i].clone();
                assert(self.rows@[i as int] == row);
                Some(row)
            },
            None => None,
        }
    }

    /// Puts a row in its place in the order of ids.
    fn insert_row(&mut self, row: TaskRow)
        requires
            well_formed(old(self).rows@),
            !holds_id(old(self).rows@, row.id),
            !holds_key(old(self).rows@, row.external_id),
            row.retries <= MAX_RETRIES,
        ensures
            well_formed(final(self).rows@),
            exists|k: int|
                0 <= k <= old(self).rows@.len() && final(self).rows@ == old(self).rows@.insert(
                    k,
                    row,
                ),
    {
        let mut k: usize = 0;
        while k < self.rows.len() && self.rows[k].id < row.id
            invariant
                k <= self.rows@.len(),
                forall|j: int| 0 <= j < k ==> (#[trigger] self.rows@[j]).id < row.id,
            decreases self.rows@.len() - k,
        {
            k += 1;
        }
        let ghost before = self.rows@;
        proof {
            assert forall|j: int| k <= j < before.len() implies (#[trigger] before[j]).id
                > row.id by {
                assert(before[k as int].id >= row.id);
                assert(before[j].id != row.id);
                if j > k {
                    assert(before[k as int].id < before[j].id);
                }
                assert(before[k as int].id != row.id);
            }
        }
        self.rows.insert(k, row);
        proof {
            let after = self.rows@;
            assert(after == before.insert(k as int, row));
            assert forall|i: int, j: int| 0 <= i < j < after.len() implies after[i].id
                < after[j].id by {
                if j < k {
                    assert(after[i] == before[i] && after[j] == before[j]);
                } else if j == k {
                    assert(after[i] == before[i]);
                } else if i < k {
                    assert(after[i] == before[i] && after[j] == before[j - 1]);
                } else if i == k {
                    assert(after[j] == before[j - 1]);
                } else {
                    assert(after[i] == before[i - 1] && after[j] == before[j - 1]);
                }
            }
            assert forall|i: int, j: int| 0 <= i < j < after.len() implies !keyed_by(
                #[trigger] after[i],
                #[trigger] after[j].external_id,
            ) by {
                if j < k {
                    assert(after[i] == before[i] && after[j] == before[j]);
                } else if j == k {
                    assert(after[i] == before[i]);
                    assert(!keyed_by(before[i], row.external_id));
                } else if i < k {
                    assert(after[i] == before[i] && after[j] == before[j - 1]);
                } else if i == k {
                    assert(after[j] == before[j - 1]);
                    assert(!keyed_by(before[j - 1], row.external_id));
                } else {
                    assert(after[i] == before[i - 1] && after[j] == before[j - 1]);
                }
            }
            assert forall|i: int| 0 <= i < after.len() implies (#[trigger] after[i]).retries
                <= MAX_RETRIES by {
                if i < k {
                    assert(after[i] == before[i]);
                } else if i > k {
                    assert(after[i] == before[i - 1]);
                }
            }
        }
    }

    /// Takes in a row as it was stored before. A row whose id or external
    /// id is already held, or that counts more failures than the bound, is
    /// refused and nothing changes.
    pub fn restore(&mut self, row: TaskRow) -> (result: Result<(), StoreError>)
        requires
            well_formed(old(self).rows@),
        ensures
            well_formed(final(self).rows@),
            match result {
                Ok(_) => {
                    &&& !holds_id(old(self).rows@, row.id)
                    &&& !holds_key(old(self).rows@, row.external_id)
                    &&& row.retries <= MAX_RETRIES
                    &&& exists|k: int|
                        0 <= k <= old(self).rows@.len() && final(self).rows@ == old(self).rows@.insert(k, row)
                },
                Err(error) => {
                    &&& error == StoreError::Conflict(row.id)
                    &&& (holds_id(old(self).rows@, row.id) || holds_key(
                        old(self).rows@,
                        row.external_id,
                    ) || row.retries > MAX_RETRIES)
                    &&& final(self).rows@ == old(self).rows@
                },
            },
    {
        if row.retries > MAX_RETRIES {
            return Err(StoreError::Conflict(row.id));
        }
        if let Some(i) = self.position(row.id) {
            assert(holds_id(self.rows@, row.id));
            return Err(StoreError::Conflict(row.id));
        }
        if let Some(i) = self.position_by_external_id(&row.external_id) {
            assert(holds_key(self.rows@, row.external_id));
            return Err(StoreError::Conflict(row.id));
        }
        self.insert_row(row);
        Ok(())
    }

    /// Claims the due tasks at `now`: every eligible task goes in progress
    /// under a lease that starts at `now`, and the claimed tasks are handed
    /// out in the order of their ids. The other rows do not change.
    pub fn get_tasks_to_run(&mut self, now: i64) -> (tasks: Vec<TaskRow>)
        requires
            well_formed(old(self).rows@),
        ensures
            well_formed(final(self).rows@),
            final(self).rows@ == old(self).rows@.map_values(claim_due_at(now)),
            tasks@ == old(self).rows@.filter(due_at(now)).map_values(claim_at(now)),
            forall|a: int, b: int| 0 <= a < b < tasks@.len() ==> tasks@[a].id < tasks@[b].id,
            forall|k: int|
                0 <= k < tasks@.len() ==> (#[trigger] tasks@[k]).status == TaskStatus::InProgress
                    && tasks@[k].locked_at == Some(now) && tasks@[k].retries < MAX_RETRIES,
            forall|k: int|
                0 <= k < tasks@.len() ==> exists|j: int|
                    0 <= j < old(self).rows@.len() && eligible(
                        #[trigger] old(self).rows@[j],
                        now as int,
                    ) && #[trigger] tasks@[k] == claimed(old(self).rows@[j], now),
            (forall|j: int|
                0 <= j < old(self).rows@.len() ==> !eligible(
                    #[trigger] old(self).rows@[j],
                    now as int,
                )) ==> tasks@.len() == 0 && final(self).rows@ == old(self).rows@,
    {
        let ghost before = self.rows@;
        let n: usize = self.rows.len();
        let mut tasks: Vec<TaskRow> = Vec::new();
        let ghost mut origin: Seq<int> = Seq::empty();
        let mut i: usize = 0;
        proof {
            reveal(Seq::filter);
            assert(before.take(0).filter(due_at(now)).map_values(claim_at(now)) =~= tasks@);
        }
        while i < n
            invariant
                i <= n,
                n == before.len(),
                self.rows@.len() == n,
                forall|j: int| 0 <= j < i ==> #[trigger] self.rows@[j] == claim_if_due(before[j], now),
                forall|j: int| i <= j < n ==> #[trigger] self.rows@[j] == before[j],
                tasks@ == before.take(i as int).filter(due_at(now)).map_values(claim_at(now)),
                forall|k: int|
                    0 <= k < tasks@.len() ==> exists|j: int|
                        0 <= j < before.len() && eligible(#[trigger] before[j], now as int)
                            && #[trigger] tasks@[k] == claimed(before[j], now),
                (forall|j: int| 0 <= j < i ==> !eligible(#[trigger] before[j], now as int))
                    ==> tasks@.len() == 0,
                origin.len() == tasks@.len(),
                forall|k: int| 0 <= k < tasks@.len() ==> 0 <= #[trigger] origin[k] < i,
                forall|k: int|
                    0 <= k < tasks@.len() ==> (#[trigger] tasks@[k]).id == before[origin[k]].id,
                forall|a: int, b: int| 0 <= a < b < tasks@.len() ==> origin[a] < origin[b],
            decreases n - i,
        {
            let ghost kept = before.take(i as int).filter(due_at(now));
            proof {
                filter_one_more(before, i as int, due_at(now));
            }
            if self.rows[i].is_eligible(now) {
                let mut row = self.rows[i].clone();
                row.claim(now);
                let ghost earlier = tasks@;
                tasks.push(row.clone());
                self.rows.set(i, row);
                proof {
                    origin = origin.push(i as int);
                    assert(row == claimed(before[i as int], now));
                    assert(kept.push(before[i as int]).map_values(claim_at(now)) =~= kept.map_values(
                        claim_at(now),
                    ).push(claimed(before[i as int], now)));
                    assert forall|k: int| 0 <= k < tasks@.len() implies exists|j: int|
                        0 <= j < before.len() && eligible(#[trigger] before[j], now as int)
                            && #[trigger] tasks@[k] == claimed(before[j], now) by {
                        if k < earlier.len() {
                            assert(tasks@[k] == earlier[k]);
                        } else {
                            assert(eligible(before[i as int], now as int) && tasks@[k] == claimed(
                                before[i as int],
                                now,
                            ));
                        }
                    }
                }
            }
            i += 1;
        }
        proof {
            assert(before.take(n as int) =~= before);
            assert(self.rows@ =~= before.map_values(claim_due_at(now)));
            rewritten_rows_are_well_formed(before, self.rows@);
            if forall|j: int| 0 <= j < before.len() ==> !eligible(#[trigger] before[j], now as int) {
                assert(self.rows@ =~= before);
            }
            assert forall|a: int, b: int| 0 <= a < b < tasks@.len() implies tasks@[a].id
                < tasks@[b].id by {
                assert(tasks@[a].id == before[origin[a]].id);
                assert(tasks@[b].id == before[origin[b]].id);
                assert(before[origin[a]].id < before[origin[b]].id);
            }
            assert forall|k: int| 0 <= k < tasks@.len() implies (#[trigger] tasks@[k]).status
                == TaskStatus::InProgress && tasks@[k].locked_at == Some(now) && tasks@[k].retries
                < MAX_RETRIES by {
                let j = choose|j: int|
                    0 <= j < before.len() && eligible(#[trigger] before[j], now as int)
                        && tasks@[k] == claimed(before[j], now);
                assert(tasks@[k] == claimed(before[j], now));
            }
        }
        tasks
    }

    /// Creates a task, or renews the one that carries the same external id.
    /// A renewal copies name, start time, schedule, upstream modification
    /// time and options, marks the update, and brings a failed task back
    /// where upstream has modified it since. A new task is stored under
    /// `id`; if that id is taken nothing changes.
    pub fn create(&mut self, id: u128, params: CreateTaskParams, now: i64) -> (result: Result<
        TaskRow,
        StoreError,
    >)
        requires
            well_formed(old(self).rows@),
        ensures
            well_formed(final(self).rows@),
            upserts(old(self).rows@, id, params, now, final(self).rows@, result),
    {
        let ghost before = self.rows@;
        match self.position_by_external_id(&params.external_id) {
            Some(i) => {
                let mut row = self.rows[i].clone();
                row.renew(params, now);
                let task = row.clone();
                self.rows.set(i, row);
                proof {
                    assert(task == renewed(before[i as int], params, now));
                    assert(self.rows@ == before.update(i as int, task));
                    assert forall|j: int| 0 <= j < before.len() implies (#[trigger] self.rows@[j]).id
                        == before[j].id && self.rows@[j].external_id == before[j].external_id
                        && self.rows@[j].retries <= MAX_RETRIES by {
                        assert(before[j].retries <= MAX_RETRIES);
                    }
                    rewritten_rows_are_well_formed(before, self.rows@);
                }
                Ok(task)
            },
            None => {
                match self.position(id) {
                    Some(taken) => {
                        assert(holds_id(before, id));
                        Err(StoreError::Conflict(id))
                    },
                    None => {
                        let row = TaskRow::create(id, params, now);
                        let task = row.clone();
                        self.insert_row(row);
                        Ok(task)
                    },
                }
            },
        }
    }

    /// Rewrites the row with this id.
    fn rewrite(&mut self, i: usize, row: TaskRow)
        requires
            well_formed(old(self).rows@),
            i < old(self).rows@.len(),
            row.id == old(self).rows@[i as int].id,
            row.external_id == old(self).rows@[i as int].external_id,
            row.retries <= MAX_RETRIES,
        ensures
            well_formed(final(self).rows@),
            final(self).rows@ == old(self).rows@.update(i as int, row),
    {
        let ghost before = self.rows@;
        self.rows.set(i, row);
        proof {
            assert forall|j: int| 0 <= j < before.len() implies (#[trigger] self.rows@[j]).id
                == before[j].id && self.rows@[j].external_id == before[j].external_id
                && self.rows@[j].retries <= MAX_RETRIES by {
                assert(before[j].retries <= MAX_RETRIES);
            }
            rewritten_rows_are_well_formed(before, self.rows@);
        }
    }

    /// Changes name, schedule, start time and options of the task with this id.
    pub fn update(&mut self, id: u128, params: UpdateTaskParams) -> (result: Result<
        TaskRow,
        StoreError,
    >)
        requires
            well_formed(old(self).rows@),
        ensures
            well_formed(final(self).rows@),
            match result {
                Ok(task) => exists|i: int|
                    0 <= i < old(self).rows@.len() && (#[trigger] old(self).rows@[i]).id == id
                        && task == edited(old(self).rows@[i], params) && final(self).rows@ == old(self).rows@.update(i, task),
                Err(error) => error == StoreError::ResourceNotFound(id) && !holds_id(
                    old(self).rows@,
                    id,
                ) && final(self).rows@ == old(self).rows@,
            },
    {
        match self.position(id) {
            None => Err(StoreError::ResourceNotFound(id)),
            Some(i) => {
                let mut row = self.rows[i].clone();
                row.edit(params);
                let task = row.clone();
                assert(self.rows@[i as int].retries <= MAX_RETRIES);
                self.rewrite(i, row);
                Ok(task)
            },
        }
    }

    /// Sets the status of the task with this id at `now`.
    pub fn update_task_status(&mut self, id: u128, status: TaskStatus, now: i64) -> (result:
        Result<TaskRow, StoreError>)
        requires
            well_formed(old(self).rows@),
        ensures
            well_formed(final(self).rows@),
            match result {
                Ok(task) => exists|i: int|
                    0 <= i < old(self).rows@.len() && (#[trigger] old(self).rows@[i]).id == id
                        && task == with_status(old(self).rows@[i], status, now) && final(self).rows@ == old(self).rows@.update(i, task),
                Err(error) => error == StoreError::ResourceNotFound(id) && !holds_id(
                    old(self).rows@,
                    id,
                ) && final(self).rows@ == old(self).rows@,
            },
    {
        match self.position(id) {
            None => Err(StoreError::ResourceNotFound(id)),
            Some(i) => {
                let mut row = self.rows[i].clone();
                row.set_status(status, now);
                let task = row.clone();
                assert(self.rows@[i as int].retries <= MAX_RETRIES);
                self.rewrite(i, row);
                Ok(task)
            },
        }
    }

    /// Marks the task with this id as in progress.
    pub fn run_task(&mut self, id: u128, now: i64) -> (result: Result<TaskRow, StoreError>)
        requires
            well_formed(old(self).rows@),
        ensures
            well_formed(final(self).rows@),
            match result {
                Ok(task) => exists|i: int|
                    0 <= i < old(self).rows@.len() && (#[trigger] old(self).rows@[i]).id == id
                        && task == with_status(old(self).rows@[i], TaskStatus::InProgress, now)
                        && final(self).rows@ == old(self).rows@.update(i, task),
                Err(error) => error == StoreError::ResourceNotFound(id) && !holds_id(
                    old(self).rows@,
                    id,
                ) && final(self).rows@ == old(self).rows@,
            },
    {
        self.update_task_status(id, TaskStatus::InProgress, now)
    }

    /// Marks the task with this id as finished.
    pub fn completed_task(&mut self, id: u128, now: i64) -> (result: Result<TaskRow, StoreError>)
        requires
            well_formed(old(self).rows@),
        ensures
            well_formed(final(self).rows@),
            match result {
                Ok(task) => exists|i: int|
                    0 <= i < old(self).rows@.len() && (#[trigger] old(self).rows@[i]).id == id
                        && task == with_status(old(self).rows@[i], TaskStatus::Finished, now)
                        && final(self).rows@ == old(self).rows@.update(i, task),
                Err(error) => error == StoreError::ResourceNotFound(id) && !holds_id(
                    old(self).rows@,
                    id,
                ) && final(self).rows@ == old(self).rows@,
            },
    {
        self.update_task_status(id, TaskStatus::Finished, now)
    }

    /// Records a failed run of the task with this id: the task is marked
    /// failed and one more failure is counted, up to the bound.
    pub fn failed_task(&mut self, id: u128, now: i64) -> (result: Result<TaskRow, StoreError>)
        requires
            well_formed(old(self).rows@),
        ensures
            well_formed(final(self).rows@),
            match result {
                Ok(task) => exists|i: int|
                    0 <= i < old(self).rows@.len() && (#[trigger] old(self).rows@[i]).id == id
                        && task == failed(old(self).rows@[i], now) && final(self).rows@ == old(self).rows@.update(i, task),
                Err(error) => error == StoreError::ResourceNotFound(id) && !holds_id(
                    old(self).rows@,
                    id,
                ) && final(self).rows@ == old(self).rows@,
            },
    {
        match self.position(id) {
            None => Err(StoreError::ResourceNotFound(id)),
            Some(i) => {
                let mut row = self.rows[i].clone();
                assert(self.rows@[i as int].retries <= MAX_RETRIES);
                row.fail(now);
                let task = row.clone();
                self.rewrite(i, row);
                Ok(task)
            },
        }
    }

    /// Puts the task with this id back in the queue for `start_at`.
    pub fn schedule_task(&mut self, id: u128, start_at: i32, now: i64) -> (result: Result<
        TaskRow,
        StoreError,
    >)
        requires
            well_formed(old(self).rows@),
        ensures
            well_formed(final(self).rows@),
            match result {
                Ok(task) => exists|i: int|
                    0 <= i < old(self).rows@.len() && (#[trigger] old(self).rows@[i]).id == id
                        && task == rescheduled(old(self).rows@[i], start_at, now) && final(self).rows@ == old(self).rows@.update(i, task),
                Err(error) => error == StoreError::ResourceNotFound(id) && !holds_id(
                    old(self).rows@,
                    id,
                ) && final(self).rows@ == old(self).rows@,
            },
    {
        match self.position(id) {
            None => Err(StoreError::ResourceNotFound(id)),
            Some(i) => {
                let mut row = self.rows[i].clone();
                row.reschedule(start_at, now);
                let task = row.clone();
                assert(self.rows@[i as int].retries <= MAX_RETRIES);
                self.rewrite(i, row);
                Ok(task)
            },
        }
    }

    /// Removes the task with this id.
    pub fn delete(&mut self, id: u128) -> (result: Result<(), StoreError>)
        requires
            well_formed(old(self).rows@),
        ensures
            well_formed(final(self).rows@),
            match result {
                Ok(_) => exists|i: int|
                    0 <= i < old(self).rows@.len() && (#[trigger] old(self).rows@[i]).id == id
                        && final(self).rows@ == old(self).rows@.remove(i),
                Err(error) => error == StoreError::ResourceNotFound(id) && !holds_id(
                    old(self).rows@,
                    id,
                ) && final(self).rows@ == old(self).rows@,
            },
            !holds_id(final(self).rows@, id),
    {
        let ghost before = self.rows@;
        match self.position(id) {
            None => Err(StoreError::ResourceNotFound(id)),
            Some(i) => {
                let gone = self.rows.remove(i);
                proof {
                    let after = self.rows@;
                    let origin = Seq::new(after.len(), |a: int| if a < i { a } else { a + 1 });
                    assert forall|a: int| 0 <= a < after.len() implies #[trigger] after[a]
                        == before[origin[a]] by {}
                    picked_rows_are_well_formed(before, after, origin);
                    assert forall|a: int| 0 <= a < after.len() implies (#[trigger] after[a]).id
                        != id by {
                        let b = origin[a];
                        assert(after[a] == before[b]);
                        if b < i {
                            assert(before[b].id < before[i as int].id);
                        } else {
                            assert(before[i as int].id < before[b].id);
                        }
                    }
                }
                Ok(())
            },
        }
    }

    /// Removes the rows that a sweep at `now` takes: the imported tasks that
    /// were withdrawn where `exchange` is set, the finished and old ones otherwise.
    fn sweep(&mut self, now: i64, exchange: bool) -> (removed: u64)
        requires
            well_formed(old(self).rows@),
        ensures
            well_formed(final(self).rows@),
            final(self).rows@ == old(self).rows@.filter(
                if exchange {
                    survives_exchange_sweep(now)
                } else {
                    survives_finished_sweep(now)
                },
            ),
            removed == old(self).rows@.len() - final(self).rows@.len(),
    {
        let ghost before = self.rows@;
        let ghost keep = if exchange {
            survives_exchange_sweep(now)
        } else {
            survives_finished_sweep(now)
        };
        let ghost mut origin: Seq<int> = Seq::empty();
        let n: usize = self.rows.len();
        let mut kept: Vec<TaskRow> = Vec::new();
        let mut removed: u64 = 0;
        let mut i: usize = 0;
        proof {
            reveal(Seq::filter);
            assert(before.take(0).filter(keep) =~= kept@);
        }
        while i < n
            invariant
                i <= n,
                n == before.len(),
                self.rows@ == before,
                keep == if exchange {
                    survives_exchange_sweep(now)
                } else {
                    survives_finished_sweep(now)
                },
                kept@ == before.take(i as int).filter(keep),
                kept@.len() + removed == i,
                origin.len() == kept@.len(),
                forall|a: int| 0 <= a < kept@.len() ==> 0 <= #[trigger] origin[a] < i,
                forall|a: int| 0 <= a < kept@.len() ==> #[trigger] kept@[a] == before[origin[a]],
                forall|a: int, b: int| 0 <= a < b < kept@.len() ==> origin[a] < origin[b],
            decreases n - i,
        {
            proof {
                filter_one_more(before, i as int, keep);
            }
            let goes = if exchange {
                self.rows[i].is_withdrawn(now)
            } else {
                self.rows[i].is_finished_and_old(now)
            };
            if goes {
                removed += 1;
            } else {
                kept.push(self.rows[i].clone());
                proof {
                    origin = origin.push(i as int);
                }
            }
            i += 1;
        }
        proof {
            assert(before.take(n as int) =~= before);
            picked_rows_are_well_formed(before, kept@, origin);
        }
        self.rows = kept;
        removed
    }

    /// Removes the finished tasks that have rested for more than a day and
    /// says how many went.
    pub fn delete_completed_tasks(&mut self, now: i64) -> (removed: u64)
        requires
            well_formed(old(self).rows@),
        ensures
            well_formed(final(self).rows@),
            final(self).rows@ == old(self).rows@.filter(survives_finished_sweep(now)),
            removed == old(self).rows@.len() - final(self).rows@.len(),
    {
        self.sweep(now, false)
    }

    /// Removes the imported tasks that were not renewed for ten seconds and
    /// says how many went.
    pub fn delete_by_update_date(&mut self, now: i64) -> (removed: u64)
        requires
            well_formed(old(self).rows@),
        ensures
            well_formed(final(self).rows@),
            final(self).rows@ == old(self).rows@.filter(survives_exchange_sweep(now)),
            removed == old(self).rows@.len() - final(self).rows@.len(),
    {
        self.sweep(now, true)
    }
}

} // verus!
