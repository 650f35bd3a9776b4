use octabot::status::TaskStatus;
use octabot::task::{clone_text, older_than, CreateTaskParams, TaskRow, UpdateTaskParams};

const NOW: i64 = 1_000_000;

fn task() -> TaskRow {
    TaskRow {
        id: 1,
        kind: "echo".to_string(),
        project_id: 2,
        name: "task".to_string(),
        status: TaskStatus::New,
        retries: 0,
        schedule: None,
        start_at: 999_000,
        external_id: Some("x".to_string()),
        external_modified_at: Some(100),
        locked_at: None,
        options: "{}".to_string(),
        created_at: 5,
        updated_at: 6,
    }
}

#[test]
fn eligibility_follows_each_condition() {
    assert!(task().is_eligible(NOW));
    assert!(task().is_eligible(999_000));
    assert!(!task().is_eligible(998_999));
    assert!(!TaskRow { status: TaskStatus::Finished, ..task() }.is_eligible(NOW));
    assert!(!TaskRow { status: TaskStatus::InProgress, ..task() }.is_eligible(NOW));
    assert!(TaskRow { status: TaskStatus::Failed, ..task() }.is_eligible(NOW));
    assert!(TaskRow { status: TaskStatus::Retried, ..task() }.is_eligible(NOW));
    assert!(TaskRow { retries: 2, ..task() }.is_eligible(NOW));
    assert!(!TaskRow { retries: 3, ..task() }.is_eligible(NOW));
    assert!(!TaskRow { retries: 4, ..task() }.is_eligible(NOW));
    assert!(!TaskRow { locked_at: Some(NOW), ..task() }.is_eligible(NOW));
    assert!(!TaskRow { locked_at: Some(NOW - 300), ..task() }.is_eligible(NOW));
    assert!(TaskRow { locked_at: Some(NOW - 301), ..task() }.is_eligible(NOW));
}

#[test]
fn eligibility_at_the_edge_of_time() {
    let early = TaskRow { start_at: i32::MIN, locked_at: Some(i64::MIN), ..task() };
    assert!(!early.is_eligible(i64::MIN + 299));
    assert!(!early.is_eligible(i64::MIN + 300));
    assert!(!early.is_eligible(-3_000_000_000));
    assert!(early.is_eligible(i64::from(i32::MIN)));
}

#[test]
fn claim_sets_status_and_lease_only() {
    let mut claimed = task();
    claimed.claim(NOW);
    assert_eq!(
        claimed,
        TaskRow { status: TaskStatus::InProgress, locked_at: Some(NOW), ..task() }
    );
}

#[test]
fn fail_counts_up_to_the_bound() {
    let mut failed = task();
    failed.fail(NOW);
    assert_eq!(
        failed,
        TaskRow { status: TaskStatus::Failed, retries: 1, updated_at: NOW, ..task() }
    );
    failed.fail(NOW);
    failed.fail(NOW);
    assert_eq!(failed.retries, 3);
    failed.fail(NOW);
    assert_eq!(failed.retries, 3);
}

#[test]
fn reschedule_and_set_status() {
    let mut back = task();
    back.reschedule(77, NOW);
    assert_eq!(
        back,
        TaskRow { status: TaskStatus::New, start_at: 77, updated_at: NOW, ..task() }
    );
    back.set_status(TaskStatus::Finished, NOW + 1);
    assert_eq!(back.status, TaskStatus::Finished);
    assert_eq!(back.updated_at, NOW + 1);
    assert_eq!(back.start_at, 77);
}

#[test]
fn edit_changes_four_fields() {
    let mut edited = task();
    edited.edit(UpdateTaskParams {
        name: "other".to_string(),
        schedule: Some("@every 1h".to_string()),
        start_at: 9,
        options: "[]".to_string(),
    });
    assert_eq!(
        edited,
        TaskRow {
            name: "other".to_string(),
            schedule: Some("@every 1h".to_string()),
            start_at: 9,
            options: "[]".to_string(),
            ..task()
        }
    );
}

#[test]
fn status_update_needs_a_failed_task_and_a_newer_import() {
    let failed = TaskRow { status: TaskStatus::Failed, ..task() };
    assert!(failed.is_status_update_needed(Some(101)));
    assert!(!failed.is_status_update_needed(Some(100)));
    assert!(!failed.is_status_update_needed(Some(99)));
    assert!(!failed.is_status_update_needed(None));
    assert!(!task().is_status_update_needed(Some(101)));
    let unknown = TaskRow { external_modified_at: None, ..failed };
    assert!(!unknown.is_status_update_needed(Some(101)));
}

#[test]
fn renew_and_create() {
    let params = CreateTaskParams {
        kind: "k".to_string(),
        name: "n".to_string(),
        project_id: 3,
        schedule: None,
        external_id: Some("x".to_string()),
        external_modified_at: Some(200),
        start_at: 50,
        options: "{\"o\":1}".to_string(),
    };
    let created = TaskRow::create(8, params.clone(), NOW);
    assert_eq!(created.id, 8);
    assert_eq!(created.status, TaskStatus::New);
    assert_eq!(created.retries, 0);
    assert_eq!(created.locked_at, None);
    assert_eq!(created.created_at, NOW);
    assert_eq!(created.updated_at, NOW);
    assert_eq!(created.kind, "k");
    let mut renewed = TaskRow { status: TaskStatus::Failed, retries: 2, ..task() };
    renewed.renew(params, NOW);
    assert_eq!(renewed.status, TaskStatus::New);
    assert_eq!(renewed.retries, 2);
    assert_eq!(renewed.name, "n");
    assert_eq!(renewed.kind, "echo");
    assert_eq!(renewed.external_modified_at, Some(200));
    assert_eq!(renewed.updated_at, NOW);
    assert_eq!(renewed.created_at, 5);
}

#[test]
fn sweeps_tell_old_from_fresh() {
    let finished = TaskRow { status: TaskStatus::Finished, updated_at: NOW - 86_401, ..task() };
    assert!(finished.is_finished_and_old(NOW));
    assert!(!TaskRow { updated_at: NOW - 86_400, ..finished.clone() }.is_finished_and_old(NOW));
    assert!(!TaskRow { status: TaskStatus::Failed, ..finished.clone() }.is_finished_and_old(NOW));
    let imported = TaskRow { updated_at: NOW - 10, ..task() };
    assert!(imported.is_withdrawn(NOW));
    assert!(!TaskRow { updated_at: NOW - 9, ..imported.clone() }.is_withdrawn(NOW));
    assert!(!TaskRow { external_id: None, ..imported.clone() }.is_withdrawn(NOW));
    assert!(!imported.is_withdrawn(i64::MIN));
}

#[test]
fn helpers() {
    assert!(older_than(5, 20, 10));
    assert!(!older_than(10, 20, 10));
    assert!(!older_than(i64::MIN, i64::MIN + 5, 10));
    assert_eq!(clone_text(&Some("a".to_string())), Some("a".to_string()));
    assert_eq!(clone_text(&None), None);
}
