//! Errors reported by the client.
use vstd::prelude::*;

verus! {

/// Error kinds returned by the Memgraph client.
#[derive(Debug, Clone)]
pub enum MgError {
    /// Connection-related errors.
    Connection(String),
    /// Query execution errors.
    QueryExecution(String),
    /// Invalid parameter errors.
    InvalidParameter { parameter: String, reason: String },
    /// Null byte in string parameter.
    NullByte { parameter: String },
    /// Invalid timestamp.
    InvalidTimestamp,
    /// Invalid connection state for operation.
    InvalidState { operation: String, state: String },
    /// Errors from the C client library interface.
    Ffi(String),
}

/// The human-readable text of an error.
pub open spec fn error_text(e: MgError) -> Seq<char> {
    match e {
        MgError::Connection(m) => "Connection error: "@ + m@,
        MgError::QueryExecution(m) => "Query execution error: "@ + m@,
        MgError::InvalidParameter { parameter, reason } => "Invalid parameter '"@ + parameter@
            + "': "@ + reason@,
        MgError::NullByte { parameter } => "Parameter '"@ + parameter@ + "' contains null byte"@,
        MgError::InvalidTimestamp => "Invalid timestamp values"@,
        MgError::InvalidState { operation, state } => "Invalid connection state: "@ + operation@
            + " cannot be called while "@ + state@,
        MgError::Ffi(m) => "FFI error: "@ + m@,
    }
}

impl MgError {
    /// Creates a new connection error.
    pub fn connection(message: &str) -> (e: MgError)
        ensures
            e matches MgError::Connection(m) && m@ == message@,
    {
        MgError::Connection(String::from_str(message))
    }

    /// Creates a new query execution error.
    pub fn query(message: &str) -> (e: MgError)
        ensures
            e matches MgError::QueryExecution(m) && m@ == message@,
    {
        MgError::QueryExecution(String::from_str(message))
    }

    /// Creates a new invalid parameter error.
    pub fn invalid_parameter(parameter: &str, reason: &str) -> (e: MgError)
        ensures
            e matches MgError::InvalidParameter { parameter: p, reason: r } && p@ == parameter@
                && r@ == reason@,
    {
        MgError::InvalidParameter {
            parameter: String::from_str(parameter),
            reason: String::from_str(reason),
        }
    }

    /// Creates a new null byte error.
    pub fn null_byte(parameter: &str) -> (e: MgError)
        ensures
            e matches MgError::NullByte { parameter: p } && p@ == parameter@,
    {
        MgError::NullByte { parameter: String::from_str(parameter) }
    }

    /// Creates a new invalid state error.
    pub fn invalid_state(operation: &str, state: &str) -> (e: MgError)
        ensures
            e matches MgError::InvalidState { operation: o, state: s } && o@ == operation@
                && s@ == state@,
    {
        MgError::InvalidState {
            operation: String::from_str(operation),
            state: String::from_str(state),
        }
    }

    /// Creates a new error of the C client library interface.
    pub fn ffi(message: &str) -> (e: MgError)
        ensures
            e matches MgError::Ffi(m) && m@ == message@,
    {
        MgError::Ffi(String::from_str(message))
    }

    /// Older constructor, kept for callers that predate the specific ones; it builds a
    /// connection error.
    pub fn new(message: String) -> (e: MgError)
        ensures
            e matches MgError::Connection(m) && m@ == message@,
    {
        MgError::Connection(message)
    }

    /// The human-readable text of this error.
    pub fn to_string(&self) -> (s: String)
        ensures
            s@ == error_text(*self),
    {
        match self {
            MgError::Connection(m) => {
                let mut s = String::from_str("Connection error: ");
                s.append(m.as_str());
                s
            },
            MgError::QueryExecution(m) => {
                let mut s = String::from_str("Query execution error: ");
                s.append(m.as_str());
                s
            },
            MgError::InvalidParameter { parameter, reason } => {
                let mut s = String::from_str("Invalid parameter '");
                s.append(parameter.as_str());
                s.append("': ");
                s.append(reason.as_str());
                s
            },
            MgError::NullByte { parameter } => {
                let mut s = String::from_str("Parameter '");
                s.append(parameter.as_str());
                s.append("' contains null byte");
                s
            },
            MgError::InvalidTimestamp => String::from_str("Invalid timestamp values"),
            MgError::InvalidState { operation, state } => {
                let mut s = String::from_str("Invalid connection state: ");
                s.append(operation.as_str());
                s.append(" cannot be called while ");
                s.append(state.as_str());
                s
            },
            MgError::Ffi(m) => {
                let mut s = String::from_str("FFI error: ");
                s.append(m.as_str());
                s
            },
        }
    }
}

} // verus!
