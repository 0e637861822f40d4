//! Errors that commands report to the caller.
use crate::types::PaneId;
use vstd::prelude::*;

verus! {

/// The machine-readable class of an error.
#[derive(Debug, Clone, Copy, PartialEq, Eq, Structural)]
pub enum ErrorCode {
    InvalidRequest,
    InvalidJson,
    InvalidArgs,
    InvalidDuration,
    InvalidRegex,
    InvalidKeys,
    InvalidMark,
    NoPaneState,
    PaneNotFound,
    AmbiguousPaneName,
    ScrollbackError,
    Unauthorized,
    PermissionRequired,
    PermissionUnavailable,
    PermissionDenied,
    PermissionStatus,
    PermitDisabled,
    PipeRequired,
    UnknownCommand,
    Timeout,
}

pub open spec fn code_text(c: ErrorCode) -> Seq<char> {
    match c {
        ErrorCode::InvalidRequest => "INVALID_REQUEST"@,
        ErrorCode::InvalidJson => "INVALID_JSON"@,
        ErrorCode::InvalidArgs => "INVALID_ARGS"@,
        ErrorCode::InvalidDuration => "INVALID_DURATION"@,
        ErrorCode::InvalidRegex => "INVALID_REGEX"@,
        ErrorCode::InvalidKeys => "INVALID_KEYS"@,
        ErrorCode::InvalidMark => "INVALID_MARK"@,
        ErrorCode::NoPaneState => "NO_PANE_STATE"@,
        ErrorCode::PaneNotFound => "PANE_NOT_FOUND"@,
        ErrorCode::AmbiguousPaneName => "AMBIGUOUS_PANE_NAME"@,
        ErrorCode::ScrollbackError => "SCROLLBACK_ERROR"@,
        ErrorCode::Unauthorized => "UNAUTHORIZED"@,
        ErrorCode::PermissionRequired => "PERMISSION_REQUIRED"@,
        ErrorCode::PermissionUnavailable => "PERMISSION_UNAVAILABLE"@,
        ErrorCode::PermissionDenied => "PERMISSION_DENIED"@,
        ErrorCode::PermissionStatus => "PERMISSION_STATUS"@,
        ErrorCode::PermitDisabled => "PERMIT_DISABLED"@,
        ErrorCode::PipeRequired => "PIPE_REQUIRED"@,
        ErrorCode::UnknownCommand => "UNKNOWN_COMMAND"@,
        ErrorCode::Timeout => "TIMEOUT"@,
    }
}

impl ErrorCode {
    /// The code as it appears in responses.
    pub fn as_str(&self) -> (r: &'static str)
        ensures
            r@ == code_text(*self),
    {
        match self {
            ErrorCode::InvalidRequest => "INVALID_REQUEST",
            ErrorCode::InvalidJson => "INVALID_JSON",
            ErrorCode::InvalidArgs => "INVALID_ARGS",
            ErrorCode::InvalidDuration => "INVALID_DURATION",
            ErrorCode::InvalidRegex => "INVALID_REGEX",
            ErrorCode::InvalidKeys => "INVALID_KEYS",
            ErrorCode::InvalidMark => "INVALID_MARK",
            ErrorCode::NoPaneState => "NO_PANE_STATE",
            ErrorCode::PaneNotFound => "PANE_NOT_FOUND",
            ErrorCode::AmbiguousPaneName => "AMBIGUOUS_PANE_NAME",
            ErrorCode::ScrollbackError => "SCROLLBACK_ERROR",
            ErrorCode::Unauthorized => "UNAUTHORIZED",
            ErrorCode::PermissionRequired => "PERMISSION_REQUIRED",
            ErrorCode::PermissionUnavailable => "PERMISSION_UNAVAILABLE",
            ErrorCode::PermissionDenied => "PERMISSION_DENIED",
            ErrorCode::PermissionStatus => "PERMISSION_STATUS",
            ErrorCode::PermitDisabled => "PERMIT_DISABLED",
            ErrorCode::PipeRequired => "PIPE_REQUIRED",
            ErrorCode::UnknownCommand => "UNKNOWN_COMMAND",
            ErrorCode::Timeout => "TIMEOUT",
        }
    }
}

/// Structured details attached to some errors.
#[derive(Debug, Clone)]
pub enum ErrorMeta {
    /// A pane permission request that awaits approval.
    Permission {
        request_id: String,
        token: String,
        pane_id: PaneId,
        origin_pane_id: Option<PaneId>,
    },
    /// The pane a timed-out wait was watching.
    Pane { pane_id: PaneId },
    /// The request a timed-out exec belonged to.
    Request { request_id: String },
}

/// An error reported to the caller: a code, a message, and an optional hint
/// and details.
#[derive(Debug, Clone)]
pub struct ApiError {
    pub code: ErrorCode,
    pub message: String,
    pub hint: Option<String>,
    pub meta: Option<ErrorMeta>,
}

pub type ApiResult<T> = Result<T, ApiError>;

impl ApiError {
    pub fn new(code: ErrorCode, message: String) -> (r: ApiError)
        ensures
            r.code == code,
            r.message == message,
            r.hint is None,
            r.meta is None,
    {
        ApiError { code, message, hint: None, meta: None }
    }

    /// An error whose message is a fixed text.
    pub fn with_text(code: ErrorCode, message: &str) -> (r: ApiError)
        ensures
            r.code == code,
            r.message@ == message@,
            r.hint is None,
            r.meta is None,
    {
        ApiError { code, message: String::from_str(message), hint: None, meta: None }
    }

    pub fn hint(self, hint: &str) -> (r: ApiError)
        ensures
            r.code == self.code,
            r.message == self.message,
            r.hint matches Some(h) && h@ == hint@,
            r.meta == self.meta,
    {
        ApiError { hint: Some(String::from_str(hint)), ..self }
    }

    pub fn hint_string(self, hint: String) -> (r: ApiError)
        ensures
            r.code == self.code,
            r.message == self.message,
            r.hint == Some(hint),
            r.meta == self.meta,
    {
        ApiError { hint: Some(hint), ..self }
    }

    pub fn meta(self, meta: ErrorMeta) -> (r: ApiError)
        ensures
            r.code == self.code,
            r.message == self.message,
            r.hint == self.hint,
            r.meta == Some(meta),
    {
        ApiError { meta: Some(meta), ..self }
    }

    /// The message, which is what the error displays as.
    pub fn to_string(&self) -> (r: String)
        ensures
            r == self.message,
    {
        self.message.clone()
    }
}

/// `prefix` followed by `value`.
pub fn text_with(prefix: &str, value: &str) -> (r: String)
    ensures
        r@ == prefix@ + value@,
{
    let mut m = String::from_str(prefix);
    m.append(value);
    m
}

/// An error whose message is `prefix` followed by `value`.
pub fn error_with(code: ErrorCode, prefix: &str, value: &str) -> (r: ApiError)
    ensures
        r.code == code,
        r.message@ == prefix@ + value@,
        r.hint is None,
        r.meta is None,
{
    ApiError::new(code, text_with(prefix, value))
}

} // verus!
