use octabot::error::{
    ensure_found, ensure_user_absent, health_report, login_outcome, ApiError, AppResponseError,
    Health,
};
use octabot::plugin_error::{joined, ExecutorError, PluginError, WitError};
use octabot::schedule::ScheduleError;

fn body(kind: &str, message: &str, details: Vec<(String, Vec<String>)>) -> AppResponseError {
    AppResponseError {
        kind: kind.to_string(),
        error_message: message.to_string(),
        code: None,
        details,
    }
}

#[test]
fn response_body_from_its_parts() {
    let made = AppResponseError::new(
        "KIND".to_string(),
        "message".to_string(),
        Some(3),
        vec![("field".to_string(), vec!["length".to_string()])],
    );
    assert_eq!(made.kind, "KIND");
    assert_eq!(made.error_message, "message");
    assert_eq!(made.code, Some(3));
    assert_eq!(made.details, vec![("field".to_string(), vec!["length".to_string()])]);
}

#[test]
fn invalid_credentials_answer_401() {
    assert_eq!(
        ApiError::InvalidCredentials.response(),
        (401, body("INVALID_CREDENTIALS", "Invalid credentials", vec![]))
    );
}

#[test]
fn missing_entity_answers_404() {
    assert_eq!(
        ApiError::ResourceNotFound("42".to_string()).response(),
        (404, body("RESOURCE_NOT_FOUND", "Entity `42` is not found", vec![]))
    );
}

#[test]
fn invalid_input_answers_400_with_its_fields() {
    let fields = vec![
        ("name".to_string(), vec!["length".to_string()]),
        ("email".to_string(), vec!["email".to_string()]),
    ];
    let error = ApiError::InvalidInputError { message: "name: too short".to_string(), fields: fields.clone() };
    assert_eq!(error.response(), (400, body("INVALID_INPUT_ERROR", "name: too short", fields)));
}

#[test]
fn unreadable_body_answers_400_with_status_and_text() {
    let error = ApiError::JsonRejection {
        status: "422 Unprocessable Entity".to_string(),
        body: "missing field `name`".to_string(),
    };
    assert_eq!(
        error.response(),
        (
            400,
            body(
                "INVALID_INPUT_ERROR",
                "missing field `name`",
                vec![(
                    "422 Unprocessable Entity".to_string(),
                    vec!["missing field `name`".to_string()]
                )]
            )
        )
    );
}

#[test]
fn every_other_error_answers_500() {
    assert_eq!(
        ApiError::InvalidSchedule("bad".to_string()).response(),
        (500, body("INTERNAL_SERVER_ERROR", "Invalid schedule format: bad", vec![]))
    );
    assert_eq!(
        ApiError::ScheduleCalculation("late".to_string()).response(),
        (500, body("INTERNAL_SERVER_ERROR", "Failed to calculate next run time: late", vec![]))
    );
    assert_eq!(
        ApiError::Anyhow("secret".to_string()).response(),
        (500, body("INTERNAL_SERVER_ERROR", "an internal server error occurred", vec![]))
    );
    assert_eq!(
        ApiError::DatabaseError("locked".to_string()).response(),
        (500, body("INTERNAL_SERVER_ERROR", "Database error: locked", vec![]))
    );
    assert_eq!(
        ApiError::UserAlreadyExist("a@b.c".to_string()).response(),
        (500, body("INTERNAL_SERVER_ERROR", "User with email `a@b.c` already exists", vec![]))
    );
}

#[test]
fn status_codes_and_messages() {
    assert_eq!(ApiError::InvalidCredentials.status_code(), 401);
    assert_eq!(ApiError::ResourceNotFound("x".to_string()).status_code(), 404);
    assert_eq!(ApiError::Anyhow("x".to_string()).status_code(), 500);
    assert_eq!(ApiError::ResourceNotFound("x".to_string()).to_string(), "Entity `x` is not found");
}

#[test]
fn plugin_reports_become_host_errors() {
    let s = |t: &str| t.to_string();
    assert_eq!(PluginError::from(WitError::Other(s("a"))), PluginError::OtherError(s("a")));
    assert_eq!(
        PluginError::from(WitError::ParseBotConfig(s("b"))),
        PluginError::ParseBotConfigError(s("b"))
    );
    assert_eq!(
        PluginError::from(WitError::ParseActionPayload(s("c"))),
        PluginError::ParseActionPaylodError(s("c"))
    );
    assert_eq!(
        PluginError::from(WitError::SendHttpRequest(s("d"))),
        PluginError::SendHttpRequestError(s("d"))
    );
    assert_eq!(
        PluginError::from(WitError::ParseResponse(s("e"))),
        PluginError::ParseResponseError(s("e"))
    );
    assert_eq!(
        PluginError::from(WitError::OpenStorage(s("f"))),
        PluginError::OpenStorageError(s("f"))
    );
    assert_eq!(
        PluginError::from(WitError::ConfigLock(s("g"))),
        PluginError::ConfigLockError(s("g"))
    );
    assert_eq!(
        PluginError::from(WitError::StorageOperation(s("h"))),
        PluginError::StorageOperationError(s("h"))
    );
}

#[test]
fn plugin_error_messages() {
    let s = |t: &str| t.to_string();
    assert_eq!(PluginError::PluginReadError(s("x")).to_string(), "Failed to read plugin: x");
    assert_eq!(
        PluginError::InitWasmEngineError(s("x")).to_string(),
        "Failed to initialize wasmtime engine: x"
    );
    assert_eq!(PluginError::ReadComponentError(s("x")).to_string(), "Failed to read component: x");
    assert_eq!(
        PluginError::InitComponentError(s("x")).to_string(),
        "Failed to initialize component: x"
    );
    assert_eq!(PluginError::ParseBotConfigError(s("x")).to_string(), "Parse bot config error: x");
    assert_eq!(
        PluginError::ParseActionPaylodError(s("x")).to_string(),
        "Parse action payload error: x"
    );
    assert_eq!(PluginError::SendHttpRequestError(s("x")).to_string(), "Send http request error: x");
    assert_eq!(PluginError::ParseResponseError(s("x")).to_string(), "Parse response error: x");
    assert_eq!(PluginError::OpenStorageError(s("x")).to_string(), "Can't open keyvalue storage: x");
    assert_eq!(
        PluginError::StorageOperationError(s("x")).to_string(),
        "Storage operation error: x"
    );
    assert_eq!(PluginError::ConfigLockError(s("x")).to_string(), "Plugin config lock error: x");
    assert_eq!(PluginError::OtherError(s("x")).to_string(), "Unexpected error: x");
    assert_eq!(PluginError::CallPluginError(s("x")).to_string(), "Error to calling plugin api: x");
}

#[test]
fn executor_error_messages() {
    let s = |t: &str| t.to_string();
    assert_eq!(
        ExecutorError::UnknownPluginError(s("mail")).to_string(),
        "Unknown plugin type: mail"
    );
    assert_eq!(
        ExecutorError::PluginError(PluginError::OtherError(s("x"))).to_string(),
        "Ocuured plugin error: Unexpected error: x"
    );
    assert_eq!(
        ExecutorError::ConfigOpenError(s("gone")).to_string(),
        "Failed to open the config file: gone"
    );
    assert_eq!(
        ExecutorError::ConfigReadError(s("bad")).to_string(),
        "Failed to read config file: bad"
    );
    assert_eq!(
        ExecutorError::ParseCronError(s("bad")).to_string(),
        "Failed to parse cron schedule: bad"
    );
    assert_eq!(
        ExecutorError::CalculateCronScheduleError.to_string(),
        "Failed to calculate cron schedule"
    );
    assert_eq!(ExecutorError::InvalidTimestampError.to_string(), "Failed to parse timestamp");
    assert_eq!(
        ExecutorError::InvalidScheduleFormat.to_string(),
        "Invalid schedule format: must start with '@every'"
    );
    assert_eq!(
        ExecutorError::DurationParseError(s("bad")).to_string(),
        "Failed to parse duration: bad"
    );
    assert_eq!(
        ExecutorError::DurationConvertError.to_string(),
        "Failed to convert to chrono duration"
    );
    assert_eq!(joined("a", "b"), "ab");
}

#[test]
fn missing_entities_and_taken_emails() {
    assert_eq!(ensure_found(true, "7".to_string()), Ok(()));
    assert_eq!(
        ensure_found(false, "7".to_string()),
        Err(ApiError::ResourceNotFound("7".to_string()))
    );
    assert_eq!(ensure_user_absent(false, "a@b.c".to_string()), Ok(()));
    assert_eq!(
        ensure_user_absent(true, "a@b.c".to_string()),
        Err(ApiError::UserAlreadyExist("a@b.c".to_string()))
    );
}

#[test]
fn logins_fail_in_one_way() {
    assert_eq!(login_outcome(true, true), Ok(()));
    assert_eq!(login_outcome(true, false), Err(ApiError::InvalidCredentials));
    assert_eq!(login_outcome(false, true), Err(ApiError::InvalidCredentials));
    assert_eq!(login_outcome(false, false), Err(ApiError::InvalidCredentials));
}

#[test]
fn health_check_answers() {
    assert_eq!(health_report(true), Health { code: "200".to_string(), success: true });
    assert_eq!(health_report(false), Health { code: "500".to_string(), success: false });
}

#[test]
fn schedule_failures_as_callers_see_them() {
    assert_eq!(
        ApiError::from_schedule(ScheduleError::InvalidSchedule("bad".to_string())),
        ApiError::InvalidSchedule("bad".to_string())
    );
    assert_eq!(
        ApiError::from_schedule(ScheduleError::ScheduleCalculation("late".to_string())),
        ApiError::ScheduleCalculation("late".to_string())
    );
    assert_eq!(
        ApiError::invalid_field("name".to_string(), "length".to_string()),
        ApiError::InvalidInputError {
            message: "name".to_string(),
            fields: vec![("name".to_string(), vec!["length".to_string()])],
        }
    );
}
