//! The error values the library returns: an HTTP status, a stable
//! machine-readable code and a human-readable message.
use vstd::prelude::*;
use vstd::string::StringExecFns;

verus! {

/// An error as the API reports it.
#[derive(Debug, Clone, PartialEq, Eq)]
pub struct McpError {
    pub status: u16,
    pub code: String,
    pub message: String,
}

pub const STATUS_BAD_REQUEST: u16 = 400;

pub const STATUS_UNAUTHORIZED: u16 = 401;

pub const STATUS_FORBIDDEN: u16 = 403;

pub const STATUS_NOT_FOUND: u16 = 404;

pub const STATUS_INTERNAL: u16 = 500;

pub const STATUS_SERVICE_UNAVAILABLE: u16 = 503;

impl McpError {
    /// An error with the given status, code and message.
    pub fn new(status: u16, code: &str, message: String) -> (r: McpError)
        ensures
            r.status == status,
            r.code@ == code@,
            r.message@ == message@,
    {
        McpError { status, code: String::from_str(code), message }
    }

    /// A `400 Bad Request` with `code` and `message`.
    pub fn bad_request(code: &str, message: String) -> (r: McpError)
        ensures
            r.status == STATUS_BAD_REQUEST,
            r.code@ == code@,
            r.message@ == message@,
    {
        McpError::new(STATUS_BAD_REQUEST, code, message)
    }

    /// A `500 Internal Server Error` carrying `message`.
    pub fn internal_error(message: String) -> (r: McpError)
        ensures
            r.status == STATUS_INTERNAL,
            r.code@ == "INTERNAL_ERROR"@,
            r.message@ == message@,
    {
        McpError::new(STATUS_INTERNAL, "INTERNAL_ERROR", message)
    }

    /// A `404 Not Found` for `what`.
    pub fn not_found(what: &str) -> (r: McpError)
        ensures
            r.status == STATUS_NOT_FOUND,
            r.code@ == "NOT_FOUND"@,
            r.message@ == what@ + " not found"@,
    {
        let msg = String::from_str(what).concat(" not found");
        McpError::new(STATUS_NOT_FOUND, "NOT_FOUND", msg)
    }

    /// The error's code (`AppError::error_code`).
    pub fn error_code(&self) -> (r: &str)
        ensures
            r@ == self.code@,
    {
        self.code.as_str()
    }

    /// The error rendered as text: its message.
    pub fn to_text(&self) -> (r: String)
        ensures
            r@ == self.message@,
    {
        self.message.clone()
    }
}

} // verus!
