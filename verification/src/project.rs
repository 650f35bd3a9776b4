//! Tasks together with the project they belong to.

use vstd::prelude::*;
use vstd::string::StringExecFns;
use crate::dispatch::ProjectRow;
use crate::task::TaskRow;
use crate::users::User;

verus! {

/// A task with its project, as callers get to see it.
#[derive(Debug, PartialEq, Eq)]
pub struct Task {
    pub row: TaskRow,
    /// The project of the task; nothing where no project has its id.
    pub project: Option<ProjectRow>,
}

/// A project with its owner, as callers get to see it.
#[derive(Debug, PartialEq, Eq)]
pub struct Project {
    pub id: u128,
    pub name: String,
    pub code: String,
    /// The options document, as JSON text.
    pub options: String,
    pub owner: User,
    pub created_at: i64,
    pub updated_at: i64,
}

/// A project with its owner.
pub fn build_project(project: ProjectRow, owner: User) -> (built: Project)
    ensures
        built == (Project {
            id: project.id,
            name: project.name,
            code: project.code,
            options: project.options,
            owner,
            created_at: project.created_at,
            updated_at: project.updated_at,
        }),
{
    Project {
        id: project.id,
        name: project.name,
        code: project.code,
        options: project.options,
        owner,
        created_at: project.created_at,
        updated_at: project.updated_at,
    }
}

/// The options that a new project is stored with: those given, or the
/// empty document.
pub fn options_on_create(given: Option<String>) -> (options: String)
    ensures
        options@ == match given {
            Some(text) => text@,
            None => "{}"@,
        },
{
    match given {
        Some(text) => text,
        None => String::from_str("{}"),
    }
}

/// The options that a changed project is stored with: those given, or the
/// ones it had.
pub fn options_on_update(given: Option<String>, existing: String) -> (options: String)
    ensures
        options == match given {
            Some(text) => text,
            None => existing,
        },
{
    match given {
        Some(text) => text,
        None => existing,
    }
}

/// Whether `project` is the first of `projects` with the id.
pub open spec fn is_project_of(projects: Seq<ProjectRow>, id: u128, project: Option<ProjectRow>) -> bool {
    match project {
        Some(found) => exists|k: int|
            0 <= k < projects.len() && #[trigger] projects[k] == found && found.id == id && forall|
                j: int,
            |
                0 <= j < k ==> (#[trigger] projects[j]).id != id,
        None => forall|j: int| 0 <= j < projects.len() ==> (#[trigger] projects[j]).id != id,
    }
}

impl Clone for ProjectRow {
    fn clone(&self) -> (copy: Self)
        ensures
            copy == *self,
    {
        ProjectRow {
            id: self.id,
            name: self.name.clone(),
            code: self.code.clone(),
            owner_id: self.owner_id,
            options: self.options.clone(),
            created_at: self.created_at,
            updated_at: self.updated_at,
        }
    }
}

/// The first project with the id.
pub fn project_by_id(projects: &Vec<ProjectRow>, id: u128) -> (project: Option<ProjectRow>)
    ensures
        is_project_of(projects@, id, project),
{
    let mut k: usize = 0;
    while k < projects.len()
        invariant
            k <= projects@.len(),
            forall|j: int| 0 <= j < k ==> (#[trigger] projects@[j]).id != id,
        decreases projects@.len() - k,
    {
        if projects[k].id == id {
            let found = projects[k].clone();
            assert(projects@[k as int] == found);
            return Some(found);
        }
        k += 1;
    }
    None
}

/// A task with its project.
pub fn build_task(row: TaskRow, project: Option<ProjectRow>) -> (task: Task)
    ensures
        task.row == row,
        task.project == project,
{
    Task { row, project }
}

/// The tasks in their order, each with its project.
pub fn hydrate(rows: &Vec<TaskRow>, projects: &Vec<ProjectRow>) -> (tasks: Vec<Task>)
    ensures
        tasks@.len() == rows@.len(),
        forall|i: int|
            0 <= i < rows@.len() ==> (#[trigger] tasks@[i]).row == rows@[i] && is_project_of(
                projects@,
                rows@[i].project_id,
                tasks@[i].project,
            ),
{
    let mut tasks: Vec<Task> = Vec::new();
    let mut i: usize = 0;
    while i < rows.len()
        invariant
            i <= rows@.len(),
            tasks@.len() == i,
            forall|a: int|
                0 <= a < i ==> (#[trigger] tasks@[a]).row == rows@[a] && is_project_of(
                    projects@,
                    rows@[a].project_id,
                    tasks@[a].project,
                ),
        decreases rows@.len() - i,
    {
        let project = project_by_id(projects, rows[i].project_id);
        tasks.push(build_task(rows[i].clone(), project));
        i += 1;
    }
    tasks
}

} // verus!
