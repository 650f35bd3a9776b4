//! The lifecycle states of a task and their stored names.

use vstd::prelude::*;
use vstd::string::StringExecFns;

verus! {

/// The state of a task in its lifecycle.
#[derive(Debug, Clone, Copy, PartialEq, Eq, Structural)]
pub enum TaskStatus {
    New,
    InProgress,
    Finished,
    Failed,
    Retried,
}

/// The name under which a status is stored.
pub open spec fn status_name(status: TaskStatus) -> Seq<char> {
    match status {
        TaskStatus::New => "new"@,
        TaskStatus::InProgress => "in_progress"@,
        TaskStatus::Retried => "retried"@,
        TaskStatus::Failed => "failed"@,
        TaskStatus::Finished => "finished"@,
    }
}

/// Whether `text` names a status.
pub open spec fn is_status_name(text: Seq<char>) -> bool {
    exists|status: TaskStatus| status_name(status) == text
}

/// The message for a text that names no status.
pub open spec fn invalid_status_message(text: Seq<char>) -> Seq<char> {
    "'"@ + text + "' is not a valid variant"@
}

/// Whether two string slices hold the same characters.
pub fn same_text(a: &str, b: &str) -> (same: bool)
    ensures
        same == (a@ == b@),
{
    let left = String::from_str(a);
    let right = String::from_str(b);
    left == right
}

/// No two statuses share a name.
pub proof fn status_names_are_distinct(a: TaskStatus, b: TaskStatus)
    ensures
        status_name(a) == status_name(b) <==> a == b,
{
    reveal_strlit("new");
    reveal_strlit("in_progress");
    reveal_strlit("retried");
    reveal_strlit("failed");
    reveal_strlit("finished");
    if a != b {
        assert(status_name(a).len() != status_name(b).len());
    }
}

impl TaskStatus {
    /// The stored name of the status.
    pub fn to_string(&self) -> (name: String)
        ensures
            name@ == status_name(*self),
    {
        match self {
            TaskStatus::New => String::from_str("new"),
            TaskStatus::InProgress => String::from_str("in_progress"),
            TaskStatus::Retried => String::from_str("retried"),
            TaskStatus::Failed => String::from_str("failed"),
            TaskStatus::Finished => String::from_str("finished"),
        }
    }

    /// Reads a stored name back: the status with that name, or a message
    /// that quotes the text where no status has it.
    pub fn from_str(s: &str) -> (parsed: Result<TaskStatus, String>)
        ensures
            match parsed {
                Ok(status) => status_name(status) == s@,
                Err(message) => !is_status_name(s@) && message@ == invalid_status_message(s@),
            },
    {
        if same_text(s, "new") {
            Ok(TaskStatus::New)
        } else if same_text(s, "in_progress") {
            Ok(TaskStatus::InProgress)
        } else if same_text(s, "retried") {
            Ok(TaskStatus::Retried)
        } else if same_text(s, "failed") {
            Ok(TaskStatus::Failed)
        } else if same_text(s, "finished") {
            Ok(TaskStatus::Finished)
        } else {
            let message = String::from_str("'").concat(s).concat("' is not a valid variant");
            proof {
                assert forall|status: TaskStatus| status_name(status) != s@ by {
                    match status {
                        TaskStatus::New => {},
                        TaskStatus::InProgress => {},
                        TaskStatus::Retried => {},
                        TaskStatus::Failed => {},
                        TaskStatus::Finished => {},
                    }
                }
            }
            Err(message)
        }
    }

    /// Whether a task in this status has reached its end or is held by a worker.
    pub fn blocks_claim(&self) -> (blocked: bool)
        ensures
            blocked == (*self == TaskStatus::Finished || *self == TaskStatus::InProgress),
    {
        match self {
            TaskStatus::Finished => true,
            TaskStatus::InProgress => true,
            _ => false,
        }
    }
}

/// Writing a status and reading it back gives the same status, and every
/// stored name is one of the five.
pub proof fn status_round_trip(status: TaskStatus)
    ensures
        is_status_name(status_name(status)),
        forall|other: TaskStatus| status_name(other) == status_name(status) ==> other == status,
{
    assert forall|other: TaskStatus| status_name(other) == status_name(status) implies other
        == status by {
        status_names_are_distinct(other, status);
    }
}

} // verus!
