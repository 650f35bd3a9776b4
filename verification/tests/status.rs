use octabot::status::{same_text, TaskStatus};

#[test]
fn status_names() {
    assert_eq!(TaskStatus::New.to_string(), "new");
    assert_eq!(TaskStatus::InProgress.to_string(), "in_progress");
    assert_eq!(TaskStatus::Retried.to_string(), "retried");
    assert_eq!(TaskStatus::Failed.to_string(), "failed");
    assert_eq!(TaskStatus::Finished.to_string(), "finished");
}

#[test]
fn status_round_trip() {
    let all = [
        TaskStatus::New,
        TaskStatus::InProgress,
        TaskStatus::Retried,
        TaskStatus::Failed,
        TaskStatus::Finished,
    ];
    for status in all {
        assert_eq!(TaskStatus::from_str(&status.to_string()), Ok(status));
    }
}

#[test]
fn unknown_status_is_refused() {
    assert_eq!(
        TaskStatus::from_str("done"),
        Err("'done' is not a valid variant".to_string())
    );
    assert_eq!(TaskStatus::from_str(""), Err("'' is not a valid variant".to_string()));
    assert_eq!(TaskStatus::from_str("New"), Err("'New' is not a valid variant".to_string()));
}

#[test]
fn blocking_statuses() {
    assert!(TaskStatus::Finished.blocks_claim());
    assert!(TaskStatus::InProgress.blocks_claim());
    assert!(!TaskStatus::New.blocks_claim());
    assert!(!TaskStatus::Failed.blocks_claim());
    assert!(!TaskStatus::Retried.blocks_claim());
}

#[test]
fn same_text_compares_characters() {
    assert!(same_text("abc", "abc"));
    assert!(!same_text("abc", "abd"));
    assert!(!same_text("abc", "ab"));
    assert!(same_text("", ""));
}
