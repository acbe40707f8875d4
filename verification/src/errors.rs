//! One shared error taxonomy for the whole app, plus the DTO the UI renders.

use vstd::prelude::*;
use vstd::string::*;

use crate::ids::{is_uuid_v4_text, new_id};

verus! {

/// The typed error kinds the app understands, grouped by concern.
#[derive(Debug)]
pub enum AppError {
    /// Persistence layer failures (SQLite errors, migration failures).
    Storage(String),
    /// LLM provider failures (network, timeouts, malformed responses).
    Provider(String),
    /// Pure domain violations (invalid dice, unknown campaign, bad args).
    Domain(String),
    /// Configuration / setup failures (missing key, bad settings).
    Config(String),
    /// IPC contract violations (bad command input from the UI).
    Ipc(String),
}

/// Result alias used across the library.
pub type Result<T> = core::result::Result<T, AppError>;

impl AppError {
    /// The detail text carried by the error, whatever its kind.
    pub open spec fn detail(&self) -> Seq<char> {
        match self {
            AppError::Storage(d) => d@,
            AppError::Provider(d) => d@,
            AppError::Domain(d) => d@,
            AppError::Config(d) => d@,
            AppError::Ipc(d) => d@,
        }
    }

    /// The rendered message: a kind prefix followed by the detail.
    pub open spec fn message_text(&self) -> Seq<char> {
        match self {
            AppError::Storage(d) => "storage error: "@ + d@,
            AppError::Provider(d) => "provider error: "@ + d@,
            AppError::Domain(d) => "domain error: "@ + d@,
            AppError::Config(d) => "config error: "@ + d@,
            AppError::Ipc(d) => "ipc error: "@ + d@,
        }
    }

    /// The human-readable message (`"<kind> error: <detail>"`).
    pub fn message(&self) -> (m: String)
        ensures
            m@ == self.message_text(),
    {
        match self {
            AppError::Storage(d) => String::from_str("storage error: ").concat(d.as_str()),
            AppError::Provider(d) => String::from_str("provider error: ").concat(d.as_str()),
            AppError::Domain(d) => String::from_str("domain error: ").concat(d.as_str()),
            AppError::Config(d) => String::from_str("config error: ").concat(d.as_str()),
            AppError::Ipc(d) => String::from_str("ipc error: ").concat(d.as_str()),
        }
    }

    /// Only provider failures are plausibly transient and worth retrying.
    pub fn is_retryable(&self) -> (r: bool)
        ensures
            r <==> self is Provider,
    {
        match self {
            AppError::Provider(_) => true,
            _ => false,
        }
    }
}

/// Maps an arbitrary HTTP/transport failure into the shared taxonomy.
pub fn provider_error(context: &str, detail: &str) -> (e: AppError)
    ensures
        e is Provider,
        e.detail() == context@ + ": "@ + detail@,
{
    AppError::Provider(String::from_str(context).concat(": ").concat(detail))
}

/// A user-facing error the UI can render: the summary of a logged detail.
#[derive(Debug)]
pub struct ErrorDto {
    /// Human-readable summary of what went wrong.
    pub message: String,
    /// Whether retrying the same operation is likely to help.
    pub retryable: bool,
    /// Correlation id that ties this failure to its log entries.
    pub correlation_id: String,
}

impl ErrorDto {
    /// Build the UI DTO from a taxonomy error and a given correlation id.
    pub fn with_correlation_id(error: &AppError, correlation_id: String) -> (dto: ErrorDto)
        ensures
            dto.message@ == error.message_text(),
            dto.retryable <==> error is Provider,
            dto.correlation_id@ == correlation_id@,
    {
        ErrorDto {
            message: error.message(),
            retryable: error.is_retryable(),
            correlation_id,
        }
    }

    /// Build the UI DTO from a taxonomy error with a fresh correlation id.
    pub fn from_error(error: AppError) -> (dto: ErrorDto)
        ensures
            dto.message@ == error.message_text(),
            dto.retryable <==> error is Provider,
            is_uuid_v4_text(dto.correlation_id@),
    {
        let id = new_id();
        ErrorDto::with_correlation_id(&error, id)
    }
}

/// `r` is `Ok` exactly when `error` is `None`, and otherwise a domain error
/// carrying its message.
pub open spec fn checked_by(r: Result<()>, error: Option<Seq<char>>) -> bool {
    match error {
        None => r is Ok,
        Some(msg) => r matches Err(e) && e is Domain && e.detail() == msg,
    }
}

/// A domain error with a fixed message.
pub fn domain_error(message: &str) -> (e: AppError)
    ensures
        e is Domain,
        e.detail() == message@,
{
    AppError::Domain(String::from_str(message))
}

} // verus!
