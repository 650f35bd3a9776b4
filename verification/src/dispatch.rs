//! What a worker does with a task: the order in which the results of a
//! plugin are worked off, and the transition that ends the run.

use vstd::prelude::*;
use vstd::hash_map::StringHashMap;
use crate::schedule::{next_run_at, next_run_plan, planned, schedule_model, Planned, ScheduleError};
use crate::store::{holds_id, holds_key, keyed_by, upserts, well_formed, StoreError, TaskStore};
use crate::task::{
    created, failed, renewed, rescheduled, with_status, CreateTaskParams, TaskRow,
};
use crate::plugin_error::ExecutorError;
use crate::status::TaskStatus;

verus! {

/// Seconds between two polls for due tasks.
pub const POLL_INTERVAL: u64 = 5;

/// How many claimed tasks may wait for a worker.
pub const CHANNEL_CAPACITY: usize = 500;

/// Seconds between two sweeps.
pub const SWEEP_INTERVAL: u64 = 15;

/// How deep plugin calls may nest unless configured otherwise.
pub const DEFAULT_MAX_DEPTH: u32 = 8;

/// A project as the worker needs it to place an imported task.
#[derive(Debug, PartialEq, Eq)]
pub struct ProjectRow {
    pub id: u128,
    pub name: String,
    pub code: String,
    pub owner_id: u128,
    pub options: String,
    pub created_at: i64,
    pub updated_at: i64,
}

/// What a task hands to its plugin.
#[derive(Debug, PartialEq, Eq)]
pub struct ExecuteParams {
    pub task_id: String,
    /// The options document, as JSON text.
    pub options: String,
}

/// A task that a plugin asks to be stored.
#[derive(Debug, PartialEq, Eq)]
pub struct ImportedTask {
    pub project_code: String,
    pub kind: String,
    pub name: String,
    pub external_id: String,
    pub external_modified_at: i64,
    pub start_at: i32,
    pub options: String,
}

/// A call of another plugin that a plugin asks for.
#[derive(Debug, PartialEq, Eq)]
pub struct ActionCall {
    pub name: String,
    /// The parameters of the call, as JSON text.
    pub payload: String,
}

/// One result of a plugin run.
#[derive(Debug, PartialEq, Eq)]
pub enum PluginResult {
    Task(ImportedTask),
    Action(ActionCall),
}

/// One piece of work that a dispatch still owes.
#[derive(Debug, PartialEq, Eq)]
pub enum WorkItem {
    Invoke { name: String, payload: String, depth: u32 },
    Import(ImportedTask),
}

/// What the worker does next.
#[derive(Debug, PartialEq, Eq)]
pub enum Step {
    /// Run the plugin `name` on `payload`, then hand its results to `absorb` with `depth`.
    Invoke { name: String, payload: String, depth: u32 },
    /// Store the task.
    Import(ImportedTask),
    /// The call of `name` would nest deeper than allowed: the task has failed.
    DepthExceeded { name: String, depth: u32 },
    /// Nothing is left.
    Done,
}

/// The work owed by one dispatch. The piece to do next is the last one.
#[derive(Debug, PartialEq, Eq)]
pub struct FanOut {
    pub pending: Vec<WorkItem>,
    pub max_depth: u32,
}

/// Why a result of a plugin could not be applied.
#[derive(Debug, PartialEq, Eq)]
pub enum DispatchError {
    /// No project has this code.
    UnknownProject(String),
}

/// How a run ends for its task.
#[derive(Debug, Clone, Copy, PartialEq, Eq, Structural)]
pub enum Transition {
    /// Back in the queue for this start time.
    Reschedule(i32),
    /// Finished.
    Complete,
    /// Failed.
    Fail,
}

/// The depth of a call made from a call at `depth`.
pub open spec fn deeper(depth: u32) -> u32 {
    if depth < u32::MAX {
        (depth + 1) as u32
    } else {
        depth
    }
}

/// The work that one result asks for, when it comes from a call at `depth`.
pub open spec fn work_of(result: PluginResult, depth: u32) -> WorkItem {
    match result {
        PluginResult::Task(task) => WorkItem::Import(task),
        PluginResult::Action(call) => WorkItem::Invoke {
            name: call.name,
            payload: call.payload,
            depth: deeper(depth),
        },
    }
}

/// The work of the results of a call at `depth`, last result first, so that
/// the first result is the next to be taken.
pub open spec fn stacked_work(results: Seq<PluginResult>, depth: u32) -> Seq<WorkItem> {
    Seq::new(results.len(), |a: int| work_of(results[results.len() - 1 - a], depth))
}

/// The step that taking `item` gives under a bound of `max_depth`.
pub open spec fn step_of(item: WorkItem, max_depth: u32) -> Step {
    match item {
        WorkItem::Import(task) => Step::Import(task),
        WorkItem::Invoke { name, payload, depth } => if depth > max_depth {
            Step::DepthExceeded { name, depth }
        } else {
            Step::Invoke { name, payload, depth }
        },
    }
}

/// Whether a project has the code.
pub open spec fn has_code(project: ProjectRow, code: Seq<char>) -> bool {
    project.code@ == code
}

impl FanOut {
    /// The dispatch of a task to the plugin `kind`.
    pub fn new(kind: String, payload: String, max_depth: u32) -> (fan_out: FanOut)
        ensures
            fan_out.max_depth == max_depth,
            fan_out.pending@ == seq![WorkItem::Invoke { name: kind, payload, depth: 1 }],
    {
        let mut pending: Vec<WorkItem> = Vec::new();
        pending.push(WorkItem::Invoke { name: kind, payload, depth: 1 });
        FanOut { pending, max_depth }
    }

    /// Whether all work is done.
    pub fn is_done(&self) -> (done: bool)
        ensures
            done == (self.pending@.len() == 0),
    {
        self.pending.len() == 0
    }

    /// Takes the next piece of work. A call that would nest deeper than the
    /// bound ends the dispatch: the rest of the work is dropped.
    pub fn next(&mut self) -> (step: Step)
        ensures
            final(self).max_depth == old(self).max_depth,
            old(self).pending@.len() == 0 ==> step == Step::Done && final(self).pending@.len() == 0,
            old(self).pending@.len() > 0 ==> step == step_of(
                old(self).pending@.last(),
                old(self).max_depth,
            ),
            old(self).pending@.len() > 0 ==> final(self).pending@ == (if step is DepthExceeded {
                Seq::<WorkItem>::empty()
            } else {
                old(self).pending@.drop_last()
            }),
    {
        match self.pending.pop() {
            None => Step::Done,
            Some(WorkItem::Import(task)) => Step::Import(task),
            Some(WorkItem::Invoke { name, payload, depth }) => {
                if depth > self.max_depth {
                    self.pending.clear();
                    Step::DepthExceeded { name, depth }
                } else {
                    Step::Invoke { name, payload, depth }
                }
            },
        }
    }

    /// Takes in the results of the call at `depth`: they are worked off in
    /// their order, each before the work that was owed already, and a call
    /// among them before the results that follow it.
    pub fn absorb(&mut self, depth: u32, results: Vec<PluginResult>)
        ensures
            final(self).max_depth == old(self).max_depth,
            final(self).pending@ == old(self).pending@ + stacked_work(results@, depth),
    {
        let ghost before = self.pending@;
        let ghost all = results@;
        let mut rest = results;
        let below: u32 = if depth < u32::MAX { depth + 1 } else { depth };
        proof {
            assert(self.pending@ =~= before + stacked_work(all, depth).take(0));
        }
        while rest.len() > 0
            invariant
                rest@.len() <= all.len(),
                rest@ == all.take(rest@.len() as int),
                below == deeper(depth),
                self.max_depth == old(self).max_depth,
                self.pending@ == before + stacked_work(all, depth).take(all.len() - rest@.len()),
            decreases rest@.len(),
        {
            let ghost left = rest@.len();
            let ghost done = self.pending@;
            let result = rest.pop();
            match result {
                Some(PluginResult::Task(task)) => {
                    self.pending.push(WorkItem::Import(task));
                },
                Some(PluginResult::Action(call)) => {
                    self.pending.push(
                        WorkItem::Invoke { name: call.name, payload: call.payload, depth: below },
                    );
                },
                None => {},
            }
            proof {
                let taken = all.len() - left;
                assert(result == Some(all[left - 1]));
                assert(stacked_work(all, depth)[taken] == work_of(all[left - 1], depth));
                assert(self.pending@ == done.push(work_of(all[left - 1], depth)));
                assert(rest@ =~= all.take(left - 1));
                assert(self.pending@ =~= before + stacked_work(all, depth).take(taken + 1));
            }
        }
        proof {
            assert(stacked_work(all, depth).take(all.len() as int) =~= stacked_work(all, depth));
        }
    }
}

/// After the results of a call are taken in, the first of them is the next
/// piece of work.
pub proof fn first_result_comes_next(pending: Seq<WorkItem>, results: Seq<PluginResult>, depth: u32)
    requires
        results.len() > 0,
    ensures
        (pending + stacked_work(results, depth)).last() == work_of(results[0], depth),
        (pending + stacked_work(results, depth)).drop_last() == pending + stacked_work(
            results.subrange(1, results.len() as int),
            depth,
        ),
{
    let rest = results.subrange(1, results.len() as int);
    assert((pending + stacked_work(results, depth)).drop_last() =~= pending + stacked_work(
        rest,
        depth,
    ));
}

/// Whether project `i` is the last of the first `upto` projects with the
/// code, and has the id.
pub open spec fn is_last_with_code(
    projects: Seq<ProjectRow>,
    upto: int,
    i: int,
    code: Seq<char>,
    id: u128,
) -> bool {
    &&& 0 <= i < upto
    &&& has_code(projects[i], code)
    &&& projects[i].id == id
    &&& forall|j: int| i < j < upto ==> !has_code(#[trigger] projects[j], code)
}

/// Whether one of the first `upto` projects has the code.
pub open spec fn code_is_taken(projects: Seq<ProjectRow>, upto: int, code: Seq<char>) -> bool {
    exists|i: int| 0 <= i < upto && has_code(#[trigger] projects[i], code)
}

/// Whether `id` is the id of the last of the first `upto` projects with the code.
pub open spec fn code_leads_to(
    projects: Seq<ProjectRow>,
    upto: int,
    code: Seq<char>,
    id: u128,
) -> bool {
    exists|i: int| is_last_with_code(projects, upto, i, code, id)
}

/// The ids of the projects under their codes. Of two projects with one code
/// the later one counts.
pub fn index_projects(projects: &Vec<ProjectRow>) -> (index: StringHashMap<u128>)
    ensures
        forall|code: Seq<char>|
            #[trigger] index@.contains_key(code) <==> code_is_taken(
                projects@,
                projects@.len() as int,
                code,
            ),
        forall|code: Seq<char>|
            #[trigger] index@.contains_key(code) ==> code_leads_to(
                projects@,
                projects@.len() as int,
                code,
                index@[code],
            ),
{
    let mut index: StringHashMap<u128> = StringHashMap::new();
    let mut i: usize = 0;
    while i < projects.len()
        invariant
            i <= projects@.len(),
            forall|code: Seq<char>|
                #[trigger] index@.contains_key(code) <==> code_is_taken(projects@, i as int, code),
            forall|code: Seq<char>|
                #[trigger] index@.contains_key(code) ==> code_leads_to(
                    projects@,
                    i as int,
                    code,
                    index@[code],
                ),
        decreases projects@.len() - i,
    {
        let ghost before = index@;
        index.insert(projects[i].code.clone(), projects[i].id);
        proof {
            let fresh = projects@[i as int].code@;
            assert forall|code: Seq<char>| #[trigger]
                index@.contains_key(code) <==> code_is_taken(projects@, i + 1, code) by {
                if index@.contains_key(code) {
                    if code == fresh {
                        assert(has_code(projects@[i as int], code));
                    } else {
                        assert(before.contains_key(code));
                        let j = choose|j: int| 0 <= j < i && has_code(#[trigger] projects@[j], code);
                        assert(0 <= j < i + 1 && has_code(projects@[j], code));
                    }
                }
                if code_is_taken(projects@, i + 1, code) {
                    let j = choose|j: int|
                        0 <= j < i + 1 && has_code(#[trigger] projects@[j], code);
                    if code != fresh {
                        assert(0 <= j < i && has_code(projects@[j], code));
                        assert(code_is_taken(projects@, i as int, code));
                    }
                }
            }
            assert forall|code: Seq<char>| #[trigger] index@.contains_key(code) implies code_leads_to(
                projects@,
                i + 1,
                code,
                index@[code],
            ) by {
                if code == fresh {
                    assert(is_last_with_code(projects@, i + 1, i as int, code, index@[code]));
                } else {
                    assert(before.contains_key(code));
                    let j = choose|j: int|
                        is_last_with_code(projects@, i as int, j, code, before[code]);
                    assert(is_last_with_code(projects@, i + 1, j, code, index@[code]));
                }
            }
        }
        i += 1;
    }
    index
}

/// The id of the project with this code. Of two projects with one code the
/// later one counts.
pub fn resolve_project(projects: &Vec<ProjectRow>, code: &String) -> (found: Option<u128>)
    ensures
        match found {
            Some(id) => exists|i: int|
                0 <= i < projects@.len() && has_code(#[trigger] projects@[i], code@)
                    && projects@[i].id == id && forall|j: int|
                    i < j < projects@.len() ==> !has_code(#[trigger] projects@[j], code@),
            None => forall|j: int|
                0 <= j < projects@.len() ==> !has_code(#[trigger] projects@[j], code@),
        },
{
    let index = index_projects(projects);
    match index.get(code.as_str()) {
        Some(id) => {
            proof {
                assert(index@.contains_key(code@));
                let i = choose|i: int|
                    is_last_with_code(projects@, projects@.len() as int, i, code@, index@[code@]);
                assert(has_code(projects@[i], code@) && projects@[i].id == *id);
            }
            Some(*id)
        },
        None => {
            proof {
                assert(!code_is_taken(projects@, projects@.len() as int, code@));
            }
            None
        },
    }
}

/// The parameters that store an imported task in the project `project_id`:
/// a task that runs once, keyed by its external id.
pub open spec fn imported_params(task: ImportedTask, project_id: u128) -> CreateTaskParams {
    CreateTaskParams {
        kind: task.kind,
        name: task.name,
        project_id,
        schedule: None,
        external_id: Some(task.external_id),
        external_modified_at: Some(task.external_modified_at),
        start_at: task.start_at,
        options: task.options,
    }
}

/// Storing an imported task whose external id no row carries yet, under an
/// id that no row has, succeeds and adds exactly one row: the one row that
/// carries the external id, new, in the given project and with the fields
/// of the import. The rows that were there stay as they were.
pub proof fn import_adds_one_row(
    before: Seq<TaskRow>,
    after: Seq<TaskRow>,
    id: u128,
    task: ImportedTask,
    project_id: u128,
    now: i64,
    result: Result<TaskRow, StoreError>,
)
    requires
        upserts(before, id, imported_params(task, project_id), now, after, result),
        !holds_key(before, Some(task.external_id)),
        !holds_id(before, id),
    ensures
        result == Ok::<TaskRow, StoreError>(created(id, imported_params(task, project_id), now)),
        after.len() == before.len() + 1,
        exists|k: int|
            0 <= k <= before.len() && after == #[trigger] before.insert(
                k,
                created(id, imported_params(task, project_id), now),
            ) && forall|j: int|
                0 <= j < after.len() ==> (keyed_by(#[trigger] after[j], Some(task.external_id))
                    <==> j == k),
        created(id, imported_params(task, project_id), now).kind == task.kind,
        created(id, imported_params(task, project_id), now).name == task.name,
        created(id, imported_params(task, project_id), now).start_at == task.start_at,
        created(id, imported_params(task, project_id), now).project_id == project_id,
        created(id, imported_params(task, project_id), now).external_id == Some(task.external_id),
        created(id, imported_params(task, project_id), now).external_modified_at == Some(
            task.external_modified_at,
        ),
        created(id, imported_params(task, project_id), now).status == TaskStatus::New,
        created(id, imported_params(task, project_id), now).schedule.is_none(),
{
    let params = imported_params(task, project_id);
    let key = Some(task.external_id);
    let row = created(id, params, now);
    match result {
        Ok(stored) => {
            if exists|i: int|
                0 <= i < before.len() && keyed_by(#[trigger] before[i], params.external_id)
                    && stored == renewed(before[i], params, now) && after == before.update(
                    i,
                    stored,
                ) {
                let i = choose|i: int|
                    0 <= i < before.len() && keyed_by(#[trigger] before[i], params.external_id)
                        && stored == renewed(before[i], params, now) && after == before.update(
                        i,
                        stored,
                    );
                assert(keyed_by(before[i], key));
                assert(holds_key(before, key));
            }
            assert(stored == row);
            let k = choose|k: int|
                0 <= k <= before.len() && after == #[trigger] before.insert(k, stored);
            assert forall|j: int| 0 <= j < after.len() implies (keyed_by(
                #[trigger] after[j],
                key,
            ) <==> j == k) by {
                if j < k {
                    assert(after[j] == before[j]);
                    assert(!keyed_by(before[j], key));
                } else if j > k {
                    assert(after[j] == before[j - 1]);
                    assert(!keyed_by(before[j - 1], key));
                } else {
                    assert(after[j] == row);
                }
            }
        },
        Err(_) => {},
    }
}

/// The parameters that store an imported task in the project `project_id`.
pub fn import_params(task: ImportedTask, project_id: u128) -> (params: CreateTaskParams)
    ensures
        params == imported_params(task, project_id),
{
    CreateTaskParams {
        kind: task.kind,
        name: task.name,
        project_id,
        schedule: None,
        external_id: Some(task.external_id),
        external_modified_at: Some(task.external_modified_at),
        start_at: task.start_at,
        options: task.options,
    }
}

/// The parameters that store an imported task, or the code of its project
/// where no project has it.
pub fn place_import(projects: &Vec<ProjectRow>, task: ImportedTask) -> (result: Result<
    CreateTaskParams,
    DispatchError,
>)
    ensures
        match result {
            Ok(params) => exists|i: int|
                0 <= i < projects@.len() && has_code(#[trigger] projects@[i], task.project_code@)
                    && params.project_id == projects@[i].id && params.kind == task.kind
                    && params.name == task.name && params.schedule.is_none()
                    && params.external_id == Some(task.external_id)
                    && params.external_modified_at == Some(task.external_modified_at)
                    && params.start_at == task.start_at && params.options == task.options,
            Err(error) => error == DispatchError::UnknownProject(task.project_code) && forall|
                j: int,
            |
                0 <= j < projects@.len() ==> !has_code(
                    #[trigger] projects@[j],
                    task.project_code@,
                ),
        },
{
    match resolve_project(projects, &task.project_code) {
        Some(project_id) => Ok(import_params(task, project_id)),
        None => Err(DispatchError::UnknownProject(task.project_code)),
    }
}

/// Whether a plugin is loaded under the name.
pub fn is_known_plugin(loaded: &Vec<String>, name: &String) -> (known: bool)
    ensures
        known == exists|i: int| 0 <= i < loaded@.len() && (#[trigger] loaded@[i])@ == name@,
{
    let mut i: usize = 0;
    while i < loaded.len()
        invariant
            i <= loaded@.len(),
            forall|j: int| 0 <= j < i ==> (#[trigger] loaded@[j])@ != name@,
        decreases loaded@.len() - i,
    {
        if loaded[i] == *name {
            return true;
        }
        i += 1;
    }
    false
}

/// Passes where a plugin is loaded under the name, and names the plugin
/// where none is.
pub fn require_plugin(loaded: &Vec<String>, name: String) -> (result: Result<(), ExecutorError>)
    ensures
        match result {
            Ok(_) => exists|i: int| 0 <= i < loaded@.len() && (#[trigger] loaded@[i])@ == name@,
            Err(error) => error == ExecutorError::UnknownPluginError(name) && forall|i: int|
                0 <= i < loaded@.len() ==> (#[trigger] loaded@[i])@ != name@,
        },
{
    if is_known_plugin(loaded, &name) {
        Ok(())
    } else {
        Err(ExecutorError::UnknownPluginError(name))
    }
}

/// How a run that ended at `now` leaves a task: a failed run fails it, a
/// good run of a task without schedule finishes it, and a good run of a
/// recurring task puts it back for its next run.
pub open spec fn transition_plan(
    schedule: Option<Seq<char>>,
    start_at: int,
    succeeded: bool,
    now: int,
) -> Option<Transition> {
    if !succeeded {
        Some(Transition::Fail)
    } else if schedule is None {
        Some(Transition::Complete)
    } else {
        match next_run_plan(schedule, start_at, now) {
            Planned::At(at) => Some(Transition::Reschedule(at as i32)),
            _ => None,
        }
    }
}

/// Decides how a run that ended at `now` leaves its task. Where the next
/// run of a recurring task cannot be planned, the task is left as it is and
/// the reason is returned.
pub fn plan_transition(schedule: &Option<String>, start_at: i32, succeeded: bool, now: i64) -> (result:
    Result<Transition, ScheduleError>)
    ensures
        match result {
            Ok(transition) => transition_plan(
                schedule_model(*schedule),
                start_at as int,
                succeeded,
                now as int,
            ) == Some(transition),
            Err(error) => succeeded && schedule is Some && planned(Err::<i32, ScheduleError>(error))
                == next_run_plan(schedule_model(*schedule), start_at as int, now as int),
        },
        schedule is Some ==> result != Ok::<Transition, ScheduleError>(Transition::Complete),
        result matches Ok(Transition::Reschedule(at)) ==> at > start_at && at >= now,
{
    if !succeeded {
        Ok(Transition::Fail)
    } else if schedule.is_none() {
        Ok(Transition::Complete)
    } else {
        match next_run_at(schedule, start_at, now) {
            Ok(at) => Ok(Transition::Reschedule(at)),
            Err(error) => Err(error),
        }
    }
}

/// The row that a transition at `now` leaves.
pub open spec fn transitioned(task: TaskRow, transition: Transition, now: i64) -> TaskRow {
    match transition {
        Transition::Reschedule(start_at) => rescheduled(task, start_at, now),
        Transition::Complete => with_status(task, TaskStatus::Finished, now),
        Transition::Fail => failed(task, now),
    }
}

/// Writes a transition to the store.
pub fn apply_transition(store: &mut TaskStore, id: u128, transition: Transition, now: i64) -> (result:
    Result<TaskRow, StoreError>)
    requires
        well_formed(old(store).rows@),
    ensures
        well_formed(final(store).rows@),
        match result {
            Ok(task) => exists|i: int|
                0 <= i < old(store).rows@.len() && (#[trigger] old(store).rows@[i]).id == id
                    && task == transitioned(old(store).rows@[i], transition, now) && final(store).rows@ == old(store).rows@.update(i, task),
            Err(error) => error == StoreError::ResourceNotFound(id) && !holds_id(
                old(store).rows@,
                id,
            ) && final(store).rows@ == old(store).rows@,
        },
{
    match transition {
        Transition::Reschedule(start_at) => store.schedule_task(id, start_at, now),
        Transition::Complete => store.completed_task(id, now),
        Transition::Fail => store.failed_task(id, now),
    }
}

} // verus!
