//! The errors of the plugin host and of the executor.

use vstd::prelude::*;
use vstd::string::StringExecFns;

verus! {

/// What a plugin reports when a call into it fails.
#[derive(Debug, PartialEq, Eq)]
pub enum WitError {
    Other(String),
    ParseBotConfig(String),
    ParseActionPayload(String),
    SendHttpRequest(String),
    ParseResponse(String),
    OpenStorage(String),
    ConfigLock(String),
    StorageOperation(String),
}

/// What went wrong in the plugin host.
#[derive(Debug, PartialEq, Eq)]
pub enum PluginError {
    PluginReadError(String),
    InitWasmEngineError(String),
    ReadComponentError(String),
    InitComponentError(String),
    ParseBotConfigError(String),
    ParseActionPaylodError(String),
    SendHttpRequestError(String),
    ParseResponseError(String),
    OpenStorageError(String),
    /// The text is the message of the storage error.
    StorageOperationError(String),
    ConfigLockError(String),
    OtherError(String),
    CallPluginError(String),
}

/// What went wrong in the executor.
#[derive(Debug, PartialEq, Eq)]
pub enum ExecutorError {
    ConfigOpenError(String),
    ConfigReadError(String),
    PluginError(PluginError),
    ParseCronError(String),
    CalculateCronScheduleError,
    InvalidTimestampError,
    InvalidScheduleFormat,
    DurationParseError(String),
    DurationConvertError,
    UnknownPluginError(String),
}

/// The host's error for what a plugin reported.
pub open spec fn host_error_of(error: WitError) -> PluginError {
    match error {
        WitError::Other(text) => PluginError::OtherError(text),
        WitError::ParseBotConfig(text) => PluginError::ParseBotConfigError(text),
        WitError::ParseActionPayload(text) => PluginError::ParseActionPaylodError(text),
        WitError::SendHttpRequest(text) => PluginError::SendHttpRequestError(text),
        WitError::ParseResponse(text) => PluginError::ParseResponseError(text),
        WitError::OpenStorage(text) => PluginError::OpenStorageError(text),
        WitError::ConfigLock(text) => PluginError::ConfigLockError(text),
        WitError::StorageOperation(text) => PluginError::StorageOperationError(text),
    }
}

/// The message of a host error.
pub open spec fn plugin_message_of(error: PluginError) -> Seq<char> {
    match error {
        PluginError::PluginReadError(text) => "Failed to read plugin: "@ + text@,
        PluginError::InitWasmEngineError(text) => "Failed to initialize wasmtime engine: "@ + text@,
        PluginError::ReadComponentError(text) => "Failed to read component: "@ + text@,
        PluginError::InitComponentError(text) => "Failed to initialize component: "@ + text@,
        PluginError::ParseBotConfigError(text) => "Parse bot config error: "@ + text@,
        PluginError::ParseActionPaylodError(text) => "Parse action payload error: "@ + text@,
        PluginError::SendHttpRequestError(text) => "Send http request error: "@ + text@,
        PluginError::ParseResponseError(text) => "Parse response error: "@ + text@,
        PluginError::OpenStorageError(text) => "Can't open keyvalue storage: "@ + text@,
        PluginError::StorageOperationError(text) => "Storage operation error: "@ + text@,
        PluginError::ConfigLockError(text) => "Plugin config lock error: "@ + text@,
        PluginError::OtherError(text) => "Unexpected error: "@ + text@,
        PluginError::CallPluginError(text) => "Error to calling plugin api: "@ + text@,
    }
}

/// The message of an executor error.
pub open spec fn executor_message_of(error: ExecutorError) -> Seq<char> {
    match error {
        ExecutorError::ConfigOpenError(text) => "Failed to open the config file: "@ + text@,
        ExecutorError::ConfigReadError(text) => "Failed to read config file: "@ + text@,
        ExecutorError::PluginError(cause) => "Ocuured plugin error: "@ + plugin_message_of(cause),
        ExecutorError::ParseCronError(text) => "Failed to parse cron schedule: "@ + text@,
        ExecutorError::CalculateCronScheduleError => "Failed to calculate cron schedule"@,
        ExecutorError::InvalidTimestampError => "Failed to parse timestamp"@,
        ExecutorError::InvalidScheduleFormat => "Invalid schedule format: must start with '@every'"@,
        ExecutorError::DurationParseError(text) => "Failed to parse duration: "@ + text@,
        ExecutorError::DurationConvertError => "Failed to convert to chrono duration"@,
        ExecutorError::UnknownPluginError(name) => "Unknown plugin type: "@ + name@,
    }
}

/// `head` followed by `tail`.
pub fn joined(head: &str, tail: &str) -> (text: String)
    ensures
        text@ == head@ + tail@,
{
    String::from_str(head).concat(tail)
}

impl PluginError {
    /// The host's error for what a plugin reported.
    pub fn from(error: WitError) -> (host: PluginError)
        ensures
            host == host_error_of(error),
    {
        match error {
            WitError::Other(text) => PluginError::OtherError(text),
            WitError::ParseBotConfig(text) => PluginError::ParseBotConfigError(text),
            WitError::ParseActionPayload(text) => PluginError::ParseActionPaylodError(text),
            WitError::SendHttpRequest(text) => PluginError::SendHttpRequestError(text),
            WitError::ParseResponse(text) => PluginError::ParseResponseError(text),
            WitError::OpenStorage(text) => PluginError::OpenStorageError(text),
            WitError::ConfigLock(text) => PluginError::ConfigLockError(text),
            WitError::StorageOperation(text) => PluginError::StorageOperationError(text),
        }
    }

    /// The message of the error.
    pub fn to_string(&self) -> (message: String)
        ensures
            message@ == plugin_message_of(*self),
    {
        match self {
            PluginError::PluginReadError(text) => joined("Failed to read plugin: ", text.as_str()),
            PluginError::InitWasmEngineError(text) => joined(
                "Failed to initialize wasmtime engine: ",
                text.as_str(),
            ),
            PluginError::ReadComponentError(text) => joined(
                "Failed to read component: ",
                text.as_str(),
            ),
            PluginError::InitComponentError(text) => joined(
                "Failed to initialize component: ",
                text.as_str(),
            ),
            PluginError::ParseBotConfigError(text) => joined(
                "Parse bot config error: ",
                text.as_str(),
            ),
            PluginError::ParseActionPaylodError(text) => joined(
                "Parse action payload error: ",
                text.as_str(),
            ),
            PluginError::SendHttpRequestError(text) => joined(
                "Send http request error: ",
                text.as_str(),
            ),
            PluginError::ParseResponseError(text) => joined(
                "Parse response error: ",
                text.as_str(),
            ),
            PluginError::OpenStorageError(text) => joined(
                "Can't open keyvalue storage: ",
                text.as_str(),
            ),
            PluginError::StorageOperationError(text) => joined(
                "Storage operation error: ",
                text.as_str(),
            ),
            PluginError::ConfigLockError(text) => joined(
                "Plugin config lock error: ",
                text.as_str(),
            ),
            PluginError::OtherError(text) => joined("Unexpected error: ", text.as_str()),
            PluginError::CallPluginError(text) => joined(
                "Error to calling plugin api: ",
                text.as_str(),
            ),
        }
    }
}

impl ExecutorError {
    /// The message of the error.
    pub fn to_string(&self) -> (message: String)
        ensures
            message@ == executor_message_of(*self),
    {
        match self {
            ExecutorError::ConfigOpenError(text) => joined(
                "Failed to open the config file: ",
                text.as_str(),
            ),
            ExecutorError::ConfigReadError(text) => joined(
                "Failed to read config file: ",
                text.as_str(),
            ),
            ExecutorError::PluginError(cause) => {
                let inner = cause.to_string();
                joined("Ocuured plugin error: ", inner.as_str())
            },
            ExecutorError::ParseCronError(text) => joined(
                "Failed to parse cron schedule: ",
                text.as_str(),
            ),
            ExecutorError::CalculateCronScheduleError => String::from_str(
                "Failed to calculate cron schedule",
            ),
            ExecutorError::InvalidTimestampError => String::from_str("Failed to parse timestamp"),
            ExecutorError::InvalidScheduleFormat => String::from_str(
                "Invalid schedule format: must start with '@every'",
            ),
            ExecutorError::DurationParseError(text) => joined(
                "Failed to parse duration: ",
                text.as_str(),
            ),
            ExecutorError::DurationConvertError => String::from_str(
                "Failed to convert to chrono duration",
            ),
            ExecutorError::UnknownPluginError(name) => joined(
                "Unknown plugin type: ",
                name.as_str(),
            ),
        }
    }
}

} // verus!
