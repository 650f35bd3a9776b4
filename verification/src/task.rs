//! A task row, the rule that makes it eligible to run, and the transitions
//! that a row goes through.

use vstd::prelude::*;
use crate::status::TaskStatus;

verus! {

/// A task that has failed this many times is no longer run.
pub const MAX_RETRIES: u32 = 3;

/// Seconds for which a claim holds a task.
pub const LEASE_TTL: i64 = 300;

/// Seconds after which a finished task is removed.
pub const FINISHED_RETENTION: i64 = 86400;

/// Seconds after which an imported task that was not renewed is removed.
pub const EXCHANGE_STALENESS: i64 = 10;

/// One task as it is stored. Instants are seconds since the epoch.
#[derive(Debug, PartialEq, Eq)]
pub struct TaskRow {
    pub id: u128,
    /// The name of the plugin that runs the task.
    pub kind: String,
    pub project_id: u128,
    pub name: String,
    pub status: TaskStatus,
    pub retries: u32,
    /// `@every <duration>`, a cron expression, or nothing for a task that runs once.
    pub schedule: Option<String>,
    pub start_at: i32,
    pub external_id: Option<String>,
    pub external_modified_at: Option<i64>,
    /// When the task was last claimed.
    pub locked_at: Option<i64>,
    /// The options document handed to the plugin, as JSON text.
    pub options: String,
    pub created_at: i64,
    pub updated_at: i64,
}

/// What a caller supplies to create a task or to renew an imported one.
#[derive(Debug, PartialEq, Eq)]
pub struct CreateTaskParams {
    pub kind: String,
    pub name: String,
    pub project_id: u128,
    pub schedule: Option<String>,
    pub external_id: Option<String>,
    pub external_modified_at: Option<i64>,
    pub start_at: i32,
    pub options: String,
}

/// What a caller may change of an existing task.
#[derive(Debug, PartialEq, Eq)]
pub struct UpdateTaskParams {
    pub name: String,
    pub schedule: Option<String>,
    pub start_at: i32,
    pub options: String,
}

/// A copy of an optional text.
pub fn clone_text(text: &Option<String>) -> (copy: Option<String>)
    ensures
        copy == *text,
{
    match text {
        Some(s) => Some(s.clone()),
        None => None,
    }
}

/// A task may be claimed at `now` when it has not ended and is not running,
/// has failures left, is due, and no live lease holds it.
pub open spec fn eligible(task: TaskRow, now: int) -> bool {
    &&& task.status != TaskStatus::Finished
    &&& task.status != TaskStatus::InProgress
    &&& task.retries < MAX_RETRIES
    &&& task.start_at <= now
    &&& (task.locked_at matches Some(locked) ==> locked < now - LEASE_TTL)
}

/// The row after a claim at `now`.
pub open spec fn claimed(task: TaskRow, now: i64) -> TaskRow {
    TaskRow { status: TaskStatus::InProgress, locked_at: Some(now), ..task }
}

/// The row after its status is set at `now`.
pub open spec fn with_status(task: TaskRow, status: TaskStatus, now: i64) -> TaskRow {
    TaskRow { status, updated_at: now, ..task }
}

/// The row after a failed run is recorded at `now`: one more failure is
/// counted, up to the bound.
pub open spec fn failed(task: TaskRow, now: i64) -> TaskRow {
    TaskRow {
        status: TaskStatus::Failed,
        retries: if task.retries < MAX_RETRIES {
            (task.retries + 1) as u32
        } else {
            task.retries
        },
        updated_at: now,
        ..task
    }
}

/// The row after it is put back in the queue for `start_at`.
pub open spec fn rescheduled(task: TaskRow, start_at: i32, now: i64) -> TaskRow {
    TaskRow { status: TaskStatus::New, start_at, updated_at: now, ..task }
}

/// The row after an edit.
pub open spec fn edited(task: TaskRow, params: UpdateTaskParams) -> TaskRow {
    TaskRow {
        name: params.name,
        schedule: params.schedule,
        start_at: params.start_at,
        options: params.options,
        ..task
    }
}

/// Whether a renewal brings a failed task back: the stored row has failed
/// and the renewal was modified upstream after the stored one.
pub open spec fn revives(task: TaskRow, modified_at: Option<i64>) -> bool {
    &&& task.status == TaskStatus::Failed
    &&& task.external_modified_at matches Some(stored)
    &&& modified_at matches Some(incoming)
    &&& incoming > stored
}

/// The stored row after a renewal with `params` at `now`.
pub open spec fn renewed(task: TaskRow, params: CreateTaskParams, now: i64) -> TaskRow {
    TaskRow {
        name: params.name,
        start_at: params.start_at,
        schedule: params.schedule,
        external_modified_at: params.external_modified_at,
        options: params.options,
        updated_at: now,
        status: if revives(task, params.external_modified_at) {
            TaskStatus::New
        } else {
            task.status
        },
        ..task
    }
}

/// The row that `params` creates under `id` at `now`.
pub open spec fn created(id: u128, params: CreateTaskParams, now: i64) -> TaskRow {
    TaskRow {
        id,
        kind: params.kind,
        project_id: params.project_id,
        name: params.name,
        status: TaskStatus::New,
        retries: 0,
        schedule: params.schedule,
        start_at: params.start_at,
        external_id: params.external_id,
        external_modified_at: params.external_modified_at,
        locked_at: None,
        options: params.options,
        created_at: now,
        updated_at: now,
    }
}

/// A finished task is removed once it has rested for the retention time.
pub open spec fn finished_and_old(task: TaskRow, now: int) -> bool {
    task.status == TaskStatus::Finished && task.updated_at < now - FINISHED_RETENTION
}

/// An imported task is removed once its source has stopped renewing it.
pub open spec fn withdrawn(task: TaskRow, now: int) -> bool {
    task.external_id is Some && task.updated_at <= now - EXCHANGE_STALENESS
}

impl Clone for TaskRow {
    fn clone(&self) -> (copy: Self)
        ensures
            copy == *self,
    {
        TaskRow {
            id: self.id,
            kind: self.kind.clone(),
            project_id: self.project_id,
            name: self.name.clone(),
            status: self.status,
            retries: self.retries,
            schedule: clone_text(&self.schedule),
            start_at: self.start_at,
            external_id: clone_text(&self.external_id),
            external_modified_at: self.external_modified_at,
            locked_at: self.locked_at,
            options: self.options.clone(),
            created_at: self.created_at,
            updated_at: self.updated_at,
        }
    }
}

impl Clone for CreateTaskParams {
    fn clone(&self) -> (copy: Self)
        ensures
            copy == *self,
    {
        CreateTaskParams {
            kind: self.kind.clone(),
            name: self.name.clone(),
            project_id: self.project_id,
            schedule: clone_text(&self.schedule),
            external_id: clone_text(&self.external_id),
            external_modified_at: self.external_modified_at,
            start_at: self.start_at,
            options: self.options.clone(),
        }
    }
}

/// Whether `earlier` lies more than `span` seconds before `now`.
pub fn older_than(earlier: i64, now: i64, span: i64) -> (older: bool)
    ensures
        older == (earlier < now - span),
{
    (earlier as i128) < now as i128 - span as i128
}

impl TaskRow {
    /// Whether the task may be claimed at `now`.
    pub fn is_eligible(&self, now: i64) -> (can_run: bool)
        ensures
            can_run == eligible(*self, now as int),
    {
        let lease_over = match self.locked_at {
            None => true,
            Some(locked) => older_than(locked, now, LEASE_TTL),
        };
        !self.status.blocks_claim() && self.retries < MAX_RETRIES && self.start_at as i64 <= now
            && lease_over
    }

    /// Claims the task at `now`.
    pub fn claim(&mut self, now: i64)
        ensures
            *final(self) == claimed(*old(self), now),
    {
        self.status = TaskStatus::InProgress;
        self.locked_at = Some(now);
    }

    /// Sets the status at `now`.
    pub fn set_status(&mut self, status: TaskStatus, now: i64)
        ensures
            *final(self) == with_status(*old(self), status, now),
    {
        self.status = status;
        self.updated_at = now;
    }

    /// Records a failed run at `now`.
    pub fn fail(&mut self, now: i64)
        ensures
            *final(self) == failed(*old(self), now),
            final(self).retries >= old(self).retries,
    {
        self.status = TaskStatus::Failed;
        if self.retries < MAX_RETRIES {
            self.retries = self.retries + 1;
        }
        self.updated_at = now;
    }

    /// Puts the task back in the queue for `start_at`.
    pub fn reschedule(&mut self, start_at: i32, now: i64)
        ensures
            *final(self) == rescheduled(*old(self), start_at, now),
    {
        self.status = TaskStatus::New;
        self.start_at = start_at;
        self.updated_at = now;
    }

    /// Applies an edit.
    pub fn edit(&mut self, params: UpdateTaskParams)
        ensures
            *final(self) == edited(*old(self), params),
    {
        self.name = params.name;
        self.schedule = params.schedule;
        self.start_at = params.start_at;
        self.options = params.options;
    }

    /// Whether a renewal modified at `modified_at` brings the task back.
    pub fn is_status_update_needed(&self, modified_at: Option<i64>) -> (needed: bool)
        ensures
            needed == revives(*self, modified_at),
    {
        match (self.status, self.external_modified_at, modified_at) {
            (TaskStatus::Failed, Some(stored), Some(incoming)) => incoming > stored,
            _ => false,
        }
    }

    /// Renews the task from `params` at `now`.
    pub fn renew(&mut self, params: CreateTaskParams, now: i64)
        ensures
            *final(self) == renewed(*old(self), params, now),
    {
        if self.is_status_update_needed(params.external_modified_at) {
            self.status = TaskStatus::New;
        }
        self.name = params.name;
        self.start_at = params.start_at;
        self.schedule = params.schedule;
        self.external_modified_at = params.external_modified_at;
        self.options = params.options;
        self.updated_at = now;
    }

    /// The row that `params` creates under `id` at `now`.
    pub fn create(id: u128, params: CreateTaskParams, now: i64) -> (task: TaskRow)
        ensures
            task == created(id, params, now),
    {
        TaskRow {
            id,
            kind: params.kind,
            project_id: params.project_id,
            name: params.name,
            status: TaskStatus::New,
            retries: 0,
            schedule: params.schedule,
            start_at: params.start_at,
            external_id: params.external_id,
            external_modified_at: params.external_modified_at,
            locked_at: None,
            options: params.options,
            created_at: now,
            updated_at: now,
        }
    }

    /// Whether the finished-task sweep at `now` removes the task.
    pub fn is_finished_and_old(&self, now: i64) -> (stale: bool)
        ensures
            stale == finished_and_old(*self, now as int),
    {
        match self.status {
            TaskStatus::Finished => older_than(self.updated_at, now, FINISHED_RETENTION),
            _ => false,
        }
    }

    /// Whether the imported-task sweep at `now` removes the task.
    pub fn is_withdrawn(&self, now: i64) -> (gone: bool)
        ensures
            gone == withdrawn(*self, now as int),
    {
        match self.external_id {
            None => false,
            Some(_) => if now < i64::MIN + EXCHANGE_STALENESS {
                false
            } else {
                self.updated_at <= now - EXCHANGE_STALENESS
            },
        }
    }
}

/// A task that has used up its failures is never eligible.
pub proof fn exhausted_task_is_ineligible(task: TaskRow, now: int)
    requires
        task.retries >= MAX_RETRIES,
    ensures
        !eligible(task, now),
{
}

/// A claimed task is not claimed again while it is in progress, and once it
/// is back in the queue it stays out of reach until its lease has run out.
pub proof fn lease_guards_claim(task: TaskRow, now: i64, start_at: i32, back: i64, later: int)
    ensures
        !eligible(claimed(task, now), later),
        eligible(rescheduled(claimed(task, now), start_at, back), later) ==> later > now
            + LEASE_TTL,
{
}

/// A claimed task is in progress and its lease starts at the time of the claim.
pub proof fn claim_sets_lease(task: TaskRow, now: i64)
    ensures
        claimed(task, now).status == TaskStatus::InProgress,
        claimed(task, now).locked_at == Some(now),
        claimed(task, now).retries == task.retries,
{
}

/// Renewing twice with the same parameters leaves the row as the first
/// renewal left it, but for the time of the update.
pub proof fn renewal_is_idempotent(
    task: TaskRow,
    params: CreateTaskParams,
    first: i64,
    second: i64,
)
    ensures
        renewed(renewed(task, params, first), params, second) == (TaskRow {
            updated_at: second,
            ..renewed(task, params, first)
        }),
{
}

/// Renewing the row that the same parameters created leaves it as created,
/// but for the time of the update.
pub proof fn renewal_after_creation_is_idempotent(
    id: u128,
    params: CreateTaskParams,
    first: i64,
    second: i64,
)
    ensures
        renewed(created(id, params, first), params, second) == (TaskRow {
            updated_at: second,
            ..created(id, params, first)
        }),
{
}

/// No transition lowers the count of failures.
pub proof fn retries_never_decrease(
    task: TaskRow,
    now: i64,
    status: TaskStatus,
    start_at: i32,
    params: CreateTaskParams,
)
    ensures
        claimed(task, now).retries >= task.retries,
        with_status(task, status, now).retries >= task.retries,
        failed(task, now).retries >= task.retries,
        rescheduled(task, start_at, now).retries >= task.retries,
        renewed(task, params, now).retries >= task.retries,
{
}

} // verus!
