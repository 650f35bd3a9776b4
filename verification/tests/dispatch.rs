use octabot::dispatch::{
    import_params, is_known_plugin, place_import, require_plugin, resolve_project, ActionCall,
    DispatchError,
    FanOut, ImportedTask, PluginResult, ProjectRow, Step, WorkItem, CHANNEL_CAPACITY,
    DEFAULT_MAX_DEPTH, POLL_INTERVAL, SWEEP_INTERVAL,
};
use octabot::plugin_error::ExecutorError;
use octabot::project::{
    build_project, build_task, hydrate, options_on_create, options_on_update, project_by_id,
    Project, Task,
};
use octabot::users::User;
use octabot::store::TaskStore;
use octabot::task::CreateTaskParams;

fn project(id: u128, code: &str) -> ProjectRow {
    ProjectRow {
        id,
        name: "project".to_string(),
        code: code.to_string(),
        owner_id: 1,
        options: "{}".to_string(),
        created_at: 0,
        updated_at: 0,
    }
}

fn import(code: &str, external_id: &str) -> ImportedTask {
    ImportedTask {
        project_code: code.to_string(),
        kind: "echo".to_string(),
        name: "imported".to_string(),
        external_id: external_id.to_string(),
        external_modified_at: 100,
        start_at: 50,
        options: "{}".to_string(),
    }
}

fn action(name: &str, payload: &str) -> PluginResult {
    PluginResult::Action(ActionCall { name: name.to_string(), payload: payload.to_string() })
}

fn invoke(name: &str, payload: &str, depth: u32) -> Step {
    Step::Invoke { name: name.to_string(), payload: payload.to_string(), depth }
}

#[test]
fn dispatch_starts_with_the_plugin_of_the_task() {
    let mut fan_out = FanOut::new("a".to_string(), "{}".to_string(), DEFAULT_MAX_DEPTH);
    assert_eq!(fan_out.max_depth, 8);
    assert!(!fan_out.is_done());
    assert_eq!(fan_out.next(), invoke("a", "{}", 1));
    assert!(fan_out.is_done());
    assert_eq!(fan_out.next(), Step::Done);
    assert_eq!(fan_out.next(), Step::Done);
}

#[test]
fn plugin_fan_out_runs_the_action_once_and_stores_the_task() {
    let projects = vec![project(7, "P")];
    let loaded = vec!["a".to_string(), "b".to_string()];
    let mut store = TaskStore::new();
    let mut fan_out = FanOut::new("a".to_string(), "{\"task_id\":\"1\"}".to_string(), 8);
    let mut calls_of_b = 0;
    let mut next_id: u128 = 100;
    loop {
        match fan_out.next() {
            Step::Invoke { name, payload: _, depth } => {
                assert!(is_known_plugin(&loaded, &name));
                if name == "a" {
                    fan_out.absorb(
                        depth,
                        vec![
                            action("b", "{\"task_id\":\"1\",\"options\":{}}"),
                            PluginResult::Task(import("P", "ext-1")),
                        ],
                    );
                } else {
                    calls_of_b += 1;
                    fan_out.absorb(depth, vec![]);
                }
            }
            Step::Import(task) => {
                let params = match place_import(&projects, task) {
                    Ok(params) => params,
                    Err(_) => panic!("the project is known"),
                };
                assert!(store.create(next_id, params, 1000).is_ok());
                next_id += 1;
            }
            Step::DepthExceeded { .. } => panic!("the calls are two deep"),
            Step::Done => break,
        }
    }
    assert_eq!(calls_of_b, 1);
    assert_eq!(store.len(), 1);
    assert_eq!(store.rows[0].external_id, Some("ext-1".to_string()));
    assert_eq!(store.rows[0].project_id, 7);
    assert_eq!(store.rows[0].schedule, None);
    assert_eq!(store.rows[0].external_modified_at, Some(100));
}

#[test]
fn results_are_worked_off_depth_first_in_their_order() {
    let mut fan_out = FanOut::new("root".to_string(), "r".to_string(), 8);
    assert_eq!(fan_out.next(), invoke("root", "r", 1));
    fan_out.absorb(
        1,
        vec![action("x", "1"), PluginResult::Task(import("P", "t1")), action("y", "2")],
    );
    assert_eq!(fan_out.next(), invoke("x", "1", 2));
    fan_out.absorb(2, vec![PluginResult::Task(import("P", "t2")), action("z", "3")]);
    assert_eq!(fan_out.next(), Step::Import(import("P", "t2")));
    assert_eq!(fan_out.next(), invoke("z", "3", 3));
    fan_out.absorb(3, vec![]);
    assert_eq!(fan_out.next(), Step::Import(import("P", "t1")));
    assert_eq!(fan_out.next(), invoke("y", "2", 2));
    fan_out.absorb(2, vec![]);
    assert_eq!(fan_out.next(), Step::Done);
}

#[test]
fn absorb_stacks_the_first_result_last() {
    let mut fan_out = FanOut { pending: vec![WorkItem::Import(import("P", "old"))], max_depth: 8 };
    fan_out.absorb(4, vec![action("x", "1"), PluginResult::Task(import("P", "new"))]);
    assert_eq!(
        fan_out.pending,
        vec![
            WorkItem::Import(import("P", "old")),
            WorkItem::Import(import("P", "new")),
            WorkItem::Invoke { name: "x".to_string(), payload: "1".to_string(), depth: 5 },
        ]
    );
    fan_out.absorb(u32::MAX, vec![action("y", "2")]);
    assert_eq!(
        fan_out.pending[3],
        WorkItem::Invoke { name: "y".to_string(), payload: "2".to_string(), depth: u32::MAX }
    );
}

#[test]
fn calls_nested_too_deep_end_the_dispatch() {
    let mut fan_out = FanOut::new("loop".to_string(), "{}".to_string(), DEFAULT_MAX_DEPTH);
    let mut calls = 0;
    loop {
        match fan_out.next() {
            Step::Invoke { name: _, payload: _, depth } => {
                calls += 1;
                assert_eq!(depth, calls);
                fan_out.absorb(
                    depth,
                    vec![action("loop", "{}"), PluginResult::Task(import("P", "never"))],
                );
            }
            Step::DepthExceeded { name, depth } => {
                assert_eq!(name, "loop");
                assert_eq!(depth, 9);
                break;
            }
            Step::Import(_) => panic!("the import comes after the call"),
            Step::Done => panic!("the calls never end by themselves"),
        }
    }
    assert_eq!(calls, 8);
    assert!(fan_out.is_done());
    assert_eq!(fan_out.next(), Step::Done);
}

#[test]
fn depth_bound_of_zero_refuses_the_first_call() {
    let mut fan_out = FanOut::new("a".to_string(), "{}".to_string(), 0);
    assert_eq!(fan_out.next(), Step::DepthExceeded { name: "a".to_string(), depth: 1 });
}

#[test]
fn project_is_found_by_its_code() {
    let projects = vec![project(1, "AB"), project(2, "CD"), project(3, "AB")];
    assert_eq!(resolve_project(&projects, &"CD".to_string()), Some(2));
    assert_eq!(resolve_project(&projects, &"AB".to_string()), Some(3));
    assert_eq!(resolve_project(&projects, &"ab".to_string()), None);
    assert_eq!(resolve_project(&vec![], &"AB".to_string()), None);
}

#[test]
fn import_of_an_unknown_project_is_refused() {
    let projects = vec![project(1, "AB")];
    assert_eq!(
        place_import(&projects, import("ZZ", "e")),
        Err(DispatchError::UnknownProject("ZZ".to_string()))
    );
}

#[test]
fn import_becomes_a_one_shot_task_keyed_by_its_external_id() {
    let expected = CreateTaskParams {
        kind: "echo".to_string(),
        name: "imported".to_string(),
        project_id: 9,
        schedule: None,
        external_id: Some("e".to_string()),
        external_modified_at: Some(100),
        start_at: 50,
        options: "{}".to_string(),
    };
    assert_eq!(import_params(import("AB", "e"), 9), expected);
    assert_eq!(place_import(&vec![project(9, "AB")], import("AB", "e")), Ok(expected));
}

#[test]
fn known_plugins() {
    let loaded = vec!["echo".to_string(), "mail".to_string()];
    assert!(is_known_plugin(&loaded, &"mail".to_string()));
    assert!(!is_known_plugin(&loaded, &"Mail".to_string()));
    assert!(!is_known_plugin(&vec![], &"mail".to_string()));
    assert_eq!(require_plugin(&loaded, "echo".to_string()), Ok(()));
    assert_eq!(
        require_plugin(&loaded, "sms".to_string()),
        Err(ExecutorError::UnknownPluginError("sms".to_string()))
    );
}

#[test]
fn tasks_come_with_their_project() {
    let projects = vec![project(1, "AB"), project(2, "CD"), project(1, "EF")];
    let mut store = TaskStore::new();
    for (id, project_id) in [(10u128, 2u128), (11, 1), (12, 3)] {
        let params = CreateTaskParams {
            kind: "echo".to_string(),
            name: "task".to_string(),
            project_id,
            schedule: None,
            external_id: None,
            external_modified_at: None,
            start_at: 0,
            options: "{}".to_string(),
        };
        assert!(store.create(id, params, 5).is_ok());
    }
    let claimed = store.get_tasks_to_run(10);
    let tasks = hydrate(&claimed, &projects);
    assert_eq!(tasks.len(), 3);
    assert_eq!(tasks[0].row, claimed[0]);
    assert_eq!(tasks[0].project, Some(project(2, "CD")));
    assert_eq!(tasks[1].project, Some(project(1, "AB")));
    assert_eq!(tasks[2].project, None);
    assert_eq!(project_by_id(&projects, 1), Some(project(1, "AB")));
    assert_eq!(project_by_id(&projects, 9), None);
    let built = build_task(claimed[0].clone(), None);
    assert_eq!(built, Task { row: claimed[0].clone(), project: None });
}

#[test]
fn cadences_and_capacity() {
    assert_eq!(POLL_INTERVAL, 5);
    assert_eq!(CHANNEL_CAPACITY, 500);
    assert_eq!(SWEEP_INTERVAL, 15);
    assert_eq!(DEFAULT_MAX_DEPTH, 8);
}

#[test]
fn projects_come_with_their_owner() {
    let owner = || User {
        id: 4,
        username: "alice".to_string(),
        role: "admin".to_string(),
        email: None,
        password: "verifier".to_string(),
        created_at: 1,
        updated_at: 2,
    };
    assert_eq!(
        build_project(project(7, "AB"), owner()),
        Project {
            id: 7,
            name: "project".to_string(),
            code: "AB".to_string(),
            options: "{}".to_string(),
            owner: owner(),
            created_at: 0,
            updated_at: 0,
        }
    );
}

#[test]
fn project_options_default_and_stay() {
    assert_eq!(options_on_create(None), "{}");
    assert_eq!(options_on_create(Some("{\"a\":1}".to_string())), "{\"a\":1}");
    assert_eq!(options_on_update(None, "{\"b\":2}".to_string()), "{\"b\":2}");
    assert_eq!(
        options_on_update(Some("{\"a\":1}".to_string()), "{\"b\":2}".to_string()),
        "{\"a\":1}"
    );
}
