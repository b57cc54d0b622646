//! The error taxonomy and its two wire projections.
//!
//! Every facade failure is one of these kinds. Each transport maps a kind to
//! its own wire representation — an HTTP status with a JSON error envelope,
//! or an RPC status code — through one of the two total projections below.
//! The projections agree on classification, and raw backend error text is
//! never forwarded to the caller: only the caller-supplied message of an
//! invalid request is echoed.

use vstd::prelude::*;

verus! {

/// The failure kinds of the gateway.
#[derive(Debug, Clone)]
pub enum KVStoreError {
    /// Backend connection or protocol failure, with the backend's own text.
    Redis(String),
    /// I/O failure, with the underlying text.
    Io(String),
    /// Credential missing, malformed, or not registered.
    Unauthorized(String),
    /// Logical key absent on a read.
    KeyNotFound(String),
    /// Malformed input; the message is safe to echo to the caller.
    InvalidRequest(String),
    /// Any other failure.
    Internal(String),
    /// Text decoding failure.
    Utf8(String),
}

/// The mathematical value of an error: its kind and its message characters.
pub enum ErrorSpec {
    Redis(Seq<char>),
    Io(Seq<char>),
    Unauthorized(Seq<char>),
    KeyNotFound(Seq<char>),
    InvalidRequest(Seq<char>),
    Internal(Seq<char>),
    Utf8(Seq<char>),
}

impl View for KVStoreError {
    type V = ErrorSpec;

    open spec fn view(&self) -> ErrorSpec {
        match self {
            KVStoreError::Redis(m) => ErrorSpec::Redis(m@),
            KVStoreError::Io(m) => ErrorSpec::Io(m@),
            KVStoreError::Unauthorized(m) => ErrorSpec::Unauthorized(m@),
            KVStoreError::KeyNotFound(k) => ErrorSpec::KeyNotFound(k@),
            KVStoreError::InvalidRequest(m) => ErrorSpec::InvalidRequest(m@),
            KVStoreError::Internal(m) => ErrorSpec::Internal(m@),
            KVStoreError::Utf8(m) => ErrorSpec::Utf8(m@),
        }
    }
}

/// The HTTP error envelope: `{error, status}`.
#[derive(Debug, Clone)]
pub struct ErrorResponse {
    pub error: String,
    pub status: u16,
}

/// The RPC status codes the gateway emits.
#[derive(Debug, Clone, Copy, PartialEq, Eq, Structural)]
pub enum RpcCode {
    Internal,
    Unauthenticated,
    NotFound,
    InvalidArgument,
}

/// An RPC failure: a status code and a message.
#[derive(Debug, Clone)]
pub struct RpcStatus {
    pub code: RpcCode,
    pub message: String,
}

/// The HTTP status an error kind projects to.
pub open spec fn http_status_spec(e: ErrorSpec) -> u16 {
    match e {
        ErrorSpec::Redis(_) => 500,
        ErrorSpec::Io(_) => 500,
        ErrorSpec::Unauthorized(_) => 401,
        ErrorSpec::KeyNotFound(_) => 404,
        ErrorSpec::InvalidRequest(_) => 400,
        ErrorSpec::Internal(_) => 500,
        ErrorSpec::Utf8(_) => 500,
    }
}

/// The HTTP error message an error kind projects to. Generic for every kind
/// except an invalid request, whose caller-supplied message is echoed.
pub open spec fn http_message_spec(e: ErrorSpec) -> Seq<char> {
    match e {
        ErrorSpec::Redis(_) => "Database error"@,
        ErrorSpec::Io(_) => "IO error"@,
        ErrorSpec::Unauthorized(_) => "Unauthorized"@,
        ErrorSpec::KeyNotFound(_) => "Key not found"@,
        ErrorSpec::InvalidRequest(m) => m,
        ErrorSpec::Internal(_) => "Internal error"@,
        ErrorSpec::Utf8(_) => "Encoding error"@,
    }
}

/// The RPC status code an error kind projects to.
pub open spec fn rpc_code_spec(e: ErrorSpec) -> RpcCode {
    match e {
        ErrorSpec::Redis(_) => RpcCode::Internal,
        ErrorSpec::Io(_) => RpcCode::Internal,
        ErrorSpec::Unauthorized(_) => RpcCode::Unauthenticated,
        ErrorSpec::KeyNotFound(_) => RpcCode::NotFound,
        ErrorSpec::InvalidRequest(_) => RpcCode::InvalidArgument,
        ErrorSpec::Internal(_) => RpcCode::Internal,
        ErrorSpec::Utf8(_) => RpcCode::Internal,
    }
}

/// The RPC message an error kind projects to. The gateway's own messages
/// pass through; backend text is replaced by a generic message.
pub open spec fn rpc_message_spec(e: ErrorSpec) -> Seq<char> {
    match e {
        ErrorSpec::Redis(_) => "Database error"@,
        ErrorSpec::Io(_) => "IO error"@,
        ErrorSpec::Unauthorized(m) => m,
        ErrorSpec::KeyNotFound(k) => "Key not found: "@ + k,
        ErrorSpec::InvalidRequest(m) => m,
        ErrorSpec::Internal(m) => m,
        ErrorSpec::Utf8(_) => "Encoding error"@,
    }
}

/// A human-readable description of an error: its kind and its message.
pub open spec fn message_spec(e: ErrorSpec) -> Seq<char> {
    match e {
        ErrorSpec::Redis(m) => "Redis error: "@ + m,
        ErrorSpec::Io(m) => "IO error: "@ + m,
        ErrorSpec::Unauthorized(m) => "Authentication failed: "@ + m,
        ErrorSpec::KeyNotFound(k) => "Key not found: "@ + k,
        ErrorSpec::InvalidRequest(m) => "Invalid request: "@ + m,
        ErrorSpec::Internal(m) => "Internal error: "@ + m,
        ErrorSpec::Utf8(m) => "UTF-8 error: "@ + m,
    }
}

impl KVStoreError {
    /// Projects the error onto its HTTP wire representation: the status code
    /// and the body of the uniform error envelope.
    pub fn into_response(&self) -> (r: ErrorResponse)
        ensures
            r.status == http_status_spec(self@),
            r.error@ == http_message_spec(self@),
    {
        match self {
            KVStoreError::Redis(_) => ErrorResponse {
                error: String::from_str("Database error"),
                status: 500,
            },
            KVStoreError::Io(_) => ErrorResponse { error: String::from_str("IO error"), status: 500 },
            KVStoreError::Unauthorized(_) => ErrorResponse {
                error: String::from_str("Unauthorized"),
                status: 401,
            },
            KVStoreError::KeyNotFound(_) => ErrorResponse {
                error: String::from_str("Key not found"),
                status: 404,
            },
            KVStoreError::InvalidRequest(m) => ErrorResponse { error: m.clone(), status: 400 },
            KVStoreError::Internal(_) => ErrorResponse {
                error: String::from_str("Internal error"),
                status: 500,
            },
            KVStoreError::Utf8(_) => ErrorResponse {
                error: String::from_str("Encoding error"),
                status: 500,
            },
        }
    }

    /// Projects the error onto its RPC status: a code and a message.
    pub fn into_rpc_status(self) -> (r: RpcStatus)
        ensures
            r.code == rpc_code_spec(self@),
            r.message@ == rpc_message_spec(self@),
    {
        match self {
            KVStoreError::Redis(_) => RpcStatus {
                code: RpcCode::Internal,
                message: String::from_str("Database error"),
            },
            KVStoreError::Io(_) => RpcStatus {
                code: RpcCode::Internal,
                message: String::from_str("IO error"),
            },
            KVStoreError::Unauthorized(m) => RpcStatus { code: RpcCode::Unauthenticated, message: m },
            KVStoreError::KeyNotFound(k) => RpcStatus {
                code: RpcCode::NotFound,
                message: String::from_str("Key not found: ").concat(k.as_str()),
            },
            KVStoreError::InvalidRequest(m) => RpcStatus {
                code: RpcCode::InvalidArgument,
                message: m,
            },
            KVStoreError::Internal(m) => RpcStatus { code: RpcCode::Internal, message: m },
            KVStoreError::Utf8(_) => RpcStatus {
                code: RpcCode::Internal,
                message: String::from_str("Encoding error"),
            },
        }
    }

    /// A human-readable description of the error, naming its kind.
    pub fn message(&self) -> (r: String)
        ensures
            r@ == message_spec(self@),
    {
        match self {
            KVStoreError::Redis(m) => String::from_str("Redis error: ").concat(m.as_str()),
            KVStoreError::Io(m) => String::from_str("IO error: ").concat(m.as_str()),
            KVStoreError::Unauthorized(m) => String::from_str("Authentication failed: ").concat(
                m.as_str(),
            ),
            KVStoreError::KeyNotFound(k) => String::from_str("Key not found: ").concat(k.as_str()),
            KVStoreError::InvalidRequest(m) => String::from_str("Invalid request: ").concat(
                m.as_str(),
            ),
            KVStoreError::Internal(m) => String::from_str("Internal error: ").concat(m.as_str()),
            KVStoreError::Utf8(m) => String::from_str("UTF-8 error: ").concat(m.as_str()),
        }
    }
}

} // verus!
