//! Error taxonomy of the access-control core.
//!
//! Every fallible operation reports one of the kinds below; the transport
//! layer maps a kind to an HTTP status code and a machine-readable code
//! string.

use vstd::prelude::*;

verus! {

/// The kind of an [`AppError`], the whole error taxonomy of the crate.
#[derive(Debug, Clone, Copy, PartialEq, Eq, Structural)]
pub enum ErrorKind {
    /// A malformed request, rejected before it reached the core.
    BadRequest,
    /// Data that could not be parsed.
    DataParse,
    /// Input that failed a validation rule.
    ValidationFailed,
    /// A parameter outside its allowed range.
    InvalidParameter,
    /// No authenticated session where one is required.
    Unauthorized,
    /// An authenticated caller without sufficient rights.
    PermissionDenied,
    /// A username/password pair that did not verify.
    InvalidCredentials,
    /// An entity that does not exist.
    NotFound,
    /// A uniqueness constraint that would be violated.
    AlreadyExists,
    /// A configuration problem.
    Config,
    /// An internal failure (storage, crypto); not user-actionable.
    Internal,
}

/// The machine-readable code string of an error kind.
pub open spec fn spec_code(k: ErrorKind) -> Seq<char> {
    match k {
        ErrorKind::BadRequest => "data.bad_request"@,
        ErrorKind::DataParse => "data.parse"@,
        ErrorKind::ValidationFailed => "data.validation_failed"@,
        ErrorKind::InvalidParameter => "data.invalid"@,
        ErrorKind::Unauthorized => "auth.unauthorized"@,
        ErrorKind::PermissionDenied => "auth.permission_denied"@,
        ErrorKind::InvalidCredentials => "auth.invalid_credentials"@,
        ErrorKind::NotFound => "res.not_found"@,
        ErrorKind::AlreadyExists => "res.already_exists"@,
        ErrorKind::Config => "sys.config"@,
        ErrorKind::Internal => "err.internal"@,
    }
}

/// The user-facing message shown when an error carries no message of its own.
pub open spec fn spec_default_message(k: ErrorKind) -> Seq<char> {
    match k {
        ErrorKind::BadRequest => "Bad request"@,
        ErrorKind::DataParse => "Data parsing failed"@,
        ErrorKind::ValidationFailed => "Validation failed"@,
        ErrorKind::InvalidParameter => "Invalid parameter"@,
        ErrorKind::Unauthorized => "Unauthorized"@,
        ErrorKind::PermissionDenied => "Permission denied"@,
        ErrorKind::InvalidCredentials => "Invalid credentials"@,
        ErrorKind::NotFound => "Resource not found"@,
        ErrorKind::AlreadyExists => "Resource already exists"@,
        ErrorKind::Config => "Configuration error"@,
        ErrorKind::Internal => "Internal server error"@,
    }
}

/// The HTTP status code an error kind maps to at the boundary.
pub open spec fn spec_status_code(k: ErrorKind) -> u16 {
    match k {
        ErrorKind::BadRequest => 400,
        ErrorKind::DataParse => 400,
        ErrorKind::ValidationFailed => 400,
        ErrorKind::InvalidParameter => 400,
        ErrorKind::Unauthorized => 401,
        ErrorKind::PermissionDenied => 403,
        ErrorKind::InvalidCredentials => 403,
        ErrorKind::NotFound => 404,
        ErrorKind::AlreadyExists => 409,
        ErrorKind::Config => 500,
        ErrorKind::Internal => 500,
    }
}

impl ErrorKind {
    /// The machine-readable code of this kind.
    pub fn code(&self) -> (r: &'static str)
        ensures
            r@ == spec_code(*self),
    {
        match self {
            ErrorKind::BadRequest => "data.bad_request",
            ErrorKind::DataParse => "data.parse",
            ErrorKind::ValidationFailed => "data.validation_failed",
            ErrorKind::InvalidParameter => "data.invalid",
            ErrorKind::Unauthorized => "auth.unauthorized",
            ErrorKind::PermissionDenied => "auth.permission_denied",
            ErrorKind::InvalidCredentials => "auth.invalid_credentials",
            ErrorKind::NotFound => "res.not_found",
            ErrorKind::AlreadyExists => "res.already_exists",
            ErrorKind::Config => "sys.config",
            ErrorKind::Internal => "err.internal",
        }
    }

    /// The HTTP status code this kind maps to.
    pub fn status_code(&self) -> (r: u16)
        ensures
            r == spec_status_code(*self),
    {
        match self {
            ErrorKind::BadRequest => 400,
            ErrorKind::DataParse => 400,
            ErrorKind::ValidationFailed => 400,
            ErrorKind::InvalidParameter => 400,
            ErrorKind::Unauthorized => 401,
            ErrorKind::PermissionDenied => 403,
            ErrorKind::InvalidCredentials => 403,
            ErrorKind::NotFound => 404,
            ErrorKind::AlreadyExists => 409,
            ErrorKind::Config => 500,
            ErrorKind::Internal => 500,
        }
    }

    /// The message used when an error of this kind carries none of its own.
    pub fn default_message(&self) -> (r: &'static str)
        ensures
            r@ == spec_default_message(*self),
    {
        match self {
            ErrorKind::BadRequest => "Bad request",
            ErrorKind::DataParse => "Data parsing failed",
            ErrorKind::ValidationFailed => "Validation failed",
            ErrorKind::InvalidParameter => "Invalid parameter",
            ErrorKind::Unauthorized => "Unauthorized",
            ErrorKind::PermissionDenied => "Permission denied",
            ErrorKind::InvalidCredentials => "Invalid credentials",
            ErrorKind::NotFound => "Resource not found",
            ErrorKind::AlreadyExists => "Resource already exists",
            ErrorKind::Config => "Configuration error",
            ErrorKind::Internal => "Internal server error",
        }
    }

    /// Whether this kind is an internal failure whose detail must stay
    /// server-side.
    pub fn is_internal_error(&self) -> (r: bool)
        ensures
            r == (*self == ErrorKind::Config || *self == ErrorKind::Internal),
    {
        match self {
            ErrorKind::Config => true,
            ErrorKind::Internal => true,
            _ => false,
        }
    }

    /// An error of this kind with no message of its own.
    pub fn to_error(self) -> (r: AppError)
        ensures
            r.kind == self,
            r.message is None,
    {
        AppError { kind: self, message: None }
    }

    /// An error of this kind carrying a specific user-facing message.
    pub fn with_message(self, msg: String) -> (r: AppError)
        ensures
            r.kind == self,
            r.message == Some(msg),
    {
        AppError { kind: self, message: Some(msg) }
    }
}

/// An error of the access-control core: a kind plus an optional
/// user-facing message.
#[derive(Debug)]
pub struct AppError {
    /// The taxonomy kind of this error.
    pub kind: ErrorKind,
    /// An optional message overriding the kind's default.
    pub message: Option<String>,
}

impl AppError {
    /// The taxonomy kind of this error.
    pub fn kind(&self) -> (r: ErrorKind)
        ensures
            r == self.kind,
    {
        self.kind
    }

    /// The machine-readable code of this error.
    pub fn code(&self) -> (r: &'static str)
        ensures
            r@ == spec_code(self.kind),
    {
        self.kind.code()
    }

    /// The HTTP status code of this error.
    pub fn status_code(&self) -> (r: u16)
        ensures
            r == spec_status_code(self.kind),
    {
        self.kind.status_code()
    }

    /// The user-facing message: the error's own if present, else the
    /// kind's default.
    pub fn message(&self) -> (r: String)
        ensures
            self.message is Some ==> r@ == self.message->0@,
            self.message is None ==> r@ == spec_default_message(self.kind),
    {
        match &self.message {
            Some(m) => m.clone(),
            None => String::from_str(self.kind.default_message()),
        }
    }
}

} // verus!
