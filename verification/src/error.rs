//! The errors of the service and what a caller of the API gets to see of them.

use vstd::prelude::*;
use vstd::string::StringExecFns;
use crate::schedule::ScheduleError;

verus! {

/// The status for a request that cannot be read or does not pass validation.
pub const BAD_REQUEST: u16 = 400;

/// The status for a caller who has not proved who they are.
pub const UNAUTHORIZED: u16 = 401;

/// The status for an entity that does not exist.
pub const NOT_FOUND: u16 = 404;

/// The status for everything else.
pub const INTERNAL_SERVER_ERROR: u16 = 500;

/// What went wrong while a request was served.
#[derive(Debug, PartialEq, Eq)]
pub enum ApiError {
    InvalidCredentials,
    /// A user with this email exists already.
    UserAlreadyExist(String),
    /// No entity has this id.
    ResourceNotFound(String),
    /// The store failed; the text is its message.
    DatabaseError(String),
    /// The body of the request could not be read as JSON.
    JsonRejection { status: String, body: String },
    /// The request did not pass validation: per field, the codes of the rules it broke.
    InvalidInputError { message: String, fields: Vec<(String, Vec<String>)> },
    InvalidSchedule(String),
    ScheduleCalculation(String),
    /// Anything else; the text is kept out of the response.
    Anyhow(String),
}

/// The body of an error response.
#[derive(Debug, PartialEq, Eq)]
pub struct AppResponseError {
    pub kind: String,
    pub error_message: String,
    pub code: Option<i32>,
    pub details: Vec<(String, Vec<String>)>,
}

/// What the health check answers.
#[derive(Debug, PartialEq, Eq)]
pub struct Health {
    pub code: String,
    pub success: bool,
}

/// The answer of the health check: 200 where the store answers, 500 where
/// it does not.
pub fn health_report(store_answers: bool) -> (health: Health)
    ensures
        health.success == store_answers,
        health.code@ == if store_answers {
            "200"@
        } else {
            "500"@
        },
{
    if store_answers {
        Health { code: String::from_str("200"), success: true }
    } else {
        Health { code: String::from_str("500"), success: false }
    }
}

/// The HTTP status of an error.
pub open spec fn status_of(error: ApiError) -> u16 {
    match error {
        ApiError::JsonRejection { .. } => BAD_REQUEST,
        ApiError::InvalidInputError { .. } => BAD_REQUEST,
        ApiError::InvalidCredentials => UNAUTHORIZED,
        ApiError::ResourceNotFound(_) => NOT_FOUND,
        _ => INTERNAL_SERVER_ERROR,
    }
}

/// The kind that the response names.
pub open spec fn kind_of(error: ApiError) -> Seq<char> {
    match error {
        ApiError::JsonRejection { .. } => "INVALID_INPUT_ERROR"@,
        ApiError::InvalidInputError { .. } => "INVALID_INPUT_ERROR"@,
        ApiError::InvalidCredentials => "INVALID_CREDENTIALS"@,
        ApiError::ResourceNotFound(_) => "RESOURCE_NOT_FOUND"@,
        _ => "INTERNAL_SERVER_ERROR"@,
    }
}

/// The message of an error.
pub open spec fn message_of(error: ApiError) -> Seq<char> {
    match error {
        ApiError::InvalidCredentials => "Invalid credentials"@,
        ApiError::UserAlreadyExist(email) => "User with email `"@ + email@ + "` already exists"@,
        ApiError::ResourceNotFound(id) => "Entity `"@ + id@ + "` is not found"@,
        ApiError::DatabaseError(cause) => "Database error: "@ + cause@,
        ApiError::JsonRejection { status, body } => body@,
        ApiError::InvalidInputError { message, fields } => message@,
        ApiError::InvalidSchedule(cause) => "Invalid schedule format: "@ + cause@,
        ApiError::ScheduleCalculation(cause) => "Failed to calculate next run time: "@ + cause@,
        ApiError::Anyhow(_) => "an internal server error occurred"@,
    }
}

impl AppResponseError {
    /// A response body of these parts.
    pub fn new(
        kind: String,
        message: String,
        code: Option<i32>,
        details: Vec<(String, Vec<String>)>,
    ) -> (body: Self)
        ensures
            body.kind == kind,
            body.error_message == message,
            body.code == code,
            body.details == details,
    {
        AppResponseError { kind, error_message: message, code, details }
    }
}

/// The error that a caller sees where the next run could not be planned.
pub open spec fn schedule_failure_of(error: ScheduleError) -> ApiError {
    match error {
        ScheduleError::InvalidSchedule(wording) => ApiError::InvalidSchedule(wording),
        ScheduleError::ScheduleCalculation(wording) => ApiError::ScheduleCalculation(wording),
    }
}

impl ApiError {
    /// The error that a caller sees where the next run could not be planned.
    pub fn from_schedule(error: ScheduleError) -> (seen: ApiError)
        ensures
            seen == schedule_failure_of(error),
    {
        match error {
            ScheduleError::InvalidSchedule(wording) => ApiError::InvalidSchedule(wording),
            ScheduleError::ScheduleCalculation(wording) => ApiError::ScheduleCalculation(wording),
        }
    }

    /// The error for one field that broke one rule.
    pub fn invalid_field(field: String, code: String) -> (seen: ApiError)
        ensures
            seen matches ApiError::InvalidInputError { message, fields } && message == field
                && fields@.len() == 1 && fields@[0].0 == field && fields@[0].1@.len() == 1
                && fields@[0].1@[0] == code,
    {
        let mut codes: Vec<String> = Vec::new();
        codes.push(code);
        let mut fields: Vec<(String, Vec<String>)> = Vec::new();
        fields.push((field.clone(), codes));
        ApiError::InvalidInputError { message: field, fields }
    }

    /// The message of the error.
    pub fn to_string(&self) -> (message: String)
        ensures
            message@ == message_of(*self),
    {
        match self {
            ApiError::InvalidCredentials => String::from_str("Invalid credentials"),
            ApiError::UserAlreadyExist(email) => String::from_str("User with email `").concat(
                email.as_str(),
            ).concat("` already exists"),
            ApiError::ResourceNotFound(id) => String::from_str("Entity `").concat(
                id.as_str(),
            ).concat("` is not found"),
            ApiError::DatabaseError(cause) => String::from_str("Database error: ").concat(
                cause.as_str(),
            ),
            ApiError::JsonRejection { status, body } => body.clone(),
            ApiError::InvalidInputError { message, fields } => message.clone(),
            ApiError::InvalidSchedule(cause) => String::from_str(
                "Invalid schedule format: ",
            ).concat(cause.as_str()),
            ApiError::ScheduleCalculation(cause) => String::from_str(
                "Failed to calculate next run time: ",
            ).concat(cause.as_str()),
            ApiError::Anyhow(_) => String::from_str("an internal server error occurred"),
        }
    }

    /// The HTTP status of the error.
    pub fn status_code(&self) -> (status: u16)
        ensures
            status == status_of(*self),
    {
        match self {
            ApiError::JsonRejection { .. } => BAD_REQUEST,
            ApiError::InvalidInputError { .. } => BAD_REQUEST,
            ApiError::InvalidCredentials => UNAUTHORIZED,
            ApiError::ResourceNotFound(_) => NOT_FOUND,
            _ => INTERNAL_SERVER_ERROR,
        }
    }

    /// The status and the body that answer a request that ended in this
    /// error. An unreadable body is detailed by its status and text, a
    /// failed validation by its fields; no other error gives details.
    pub fn response(self) -> (answer: (u16, AppResponseError))
        ensures
            answer.0 == status_of(self),
            answer.1.kind@ == kind_of(self),
            answer.1.error_message@ == message_of(self),
            answer.1.code.is_none(),
            match self {
                ApiError::JsonRejection { status, body } => answer.1.details@.len() == 1
                    && answer.1.details@[0].0 == status && answer.1.details@[0].1@.len() == 1
                    && answer.1.details@[0].1@[0] == body,
                ApiError::InvalidInputError { message, fields } => answer.1.details == fields,
                _ => answer.1.details@.len() == 0,
            },
    {
        let message = self.to_string();
        let status = self.status_code();
        match self {
            ApiError::JsonRejection { status: rejected, body } => {
                let mut texts: Vec<String> = Vec::new();
                texts.push(body);
                let mut details: Vec<(String, Vec<String>)> = Vec::new();
                details.push((rejected, texts));
                (
                    status,
                    AppResponseError::new(
                        String::from_str("INVALID_INPUT_ERROR"),
                        message,
                        None,
                        details,
                    ),
                )
            },
            ApiError::InvalidInputError { message: _, fields } => (
                status,
                AppResponseError::new(String::from_str("INVALID_INPUT_ERROR"), message, None, fields),
            ),
            ApiError::InvalidCredentials => (
                status,
                AppResponseError::new(
                    String::from_str("INVALID_CREDENTIALS"),
                    message,
                    None,
                    Vec::new(),
                ),
            ),
            ApiError::ResourceNotFound(_) => (
                status,
                AppResponseError::new(
                    String::from_str("RESOURCE_NOT_FOUND"),
                    message,
                    None,
                    Vec::new(),
                ),
            ),
            _ => (
                status,
                AppResponseError::new(
                    String::from_str("INTERNAL_SERVER_ERROR"),
                    message,
                    None,
                    Vec::new(),
                ),
            ),
        }
    }
}

/// Passes where the addressed entity was found, and names it where it was not.
pub fn ensure_found(found: bool, id: String) -> (result: Result<(), ApiError>)
    ensures
        match result {
            Ok(_) => found,
            Err(error) => !found && error == ApiError::ResourceNotFound(id),
        },
{
    if found {
        Ok(())
    } else {
        Err(ApiError::ResourceNotFound(id))
    }
}

/// Passes where no user has the email yet, and names the email where one has.
pub fn ensure_user_absent(taken: bool, email: String) -> (result: Result<(), ApiError>)
    ensures
        match result {
            Ok(_) => !taken,
            Err(error) => taken && error == ApiError::UserAlreadyExist(email),
        },
{
    if taken {
        Err(ApiError::UserAlreadyExist(email))
    } else {
        Ok(())
    }
}

/// A login passes where the user is known and the password was verified;
/// every other login fails in the same way.
pub fn login_outcome(user_known: bool, password_verified: bool) -> (result: Result<(), ApiError>)
    ensures
        match result {
            Ok(_) => user_known && password_verified,
            Err(error) => !(user_known && password_verified) && error
                == ApiError::InvalidCredentials,
        },
{
    if user_known && password_verified {
        Ok(())
    } else {
        Err(ApiError::InvalidCredentials)
    }
}

/// Only an unreadable or invalid request answers 400, only failed
/// credentials 401, only a missing entity 404; every other error answers 500.
pub proof fn status_follows_kind(error: ApiError)
    ensures
        status_of(error) == BAD_REQUEST <==> (error is JsonRejection || error is InvalidInputError),
        status_of(error) == UNAUTHORIZED <==> error is InvalidCredentials,
        status_of(error) == NOT_FOUND <==> error is ResourceNotFound,
        status_of(error) == BAD_REQUEST || status_of(error) == UNAUTHORIZED || status_of(error)
            == NOT_FOUND || status_of(error) == INTERNAL_SERVER_ERROR,
{
}

} // verus!
