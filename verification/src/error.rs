//! Error kinds of the query surface and how engine failures map onto them.

use vstd::prelude::*;
use vstd::string::StringExecFns;

verus! {

/// What went wrong, as the caller has to tell it apart.
#[derive(Clone, Copy, Debug, PartialEq, Eq, Structural)]
pub enum ErrorKind {
    /// Malformed or out-of-domain input; never retried.
    InvalidArgument,
    /// No connection or session could be had; worth retrying.
    BackendUnavailable,
    /// The engine refuses this shape of query.
    QueryRejected,
}

/// A named capability of the storage engine.
#[derive(Clone, Copy, Debug, PartialEq, Eq, Structural)]
pub enum Operation {
    Insert,
    BatchInsert,
    QueryRecent,
    QueryMaxSpeed,
    QueryMaxSpeedSince,
}

/// How an engine failed, before it is given the operation's name.
#[derive(Clone, Copy, Debug, PartialEq, Eq, Structural)]
pub enum BackendFailure {
    /// Connection or session acquisition failed.
    Unavailable,
    /// The engine rejected the statement.
    Rejected,
}

/// An error of the query surface: its kind and a message for the caller.
#[derive(Clone, Debug, PartialEq, Eq)]
pub struct QueryError {
    pub kind: ErrorKind,
    pub message: String,
}

/// Mathematical content of a [`QueryError`].
pub ghost struct QueryErrorData {
    pub kind: ErrorKind,
    pub message: Seq<char>,
}

impl View for QueryError {
    type V = QueryErrorData;

    open spec fn view(&self) -> QueryErrorData {
        QueryErrorData { kind: self.kind, message: self.message@ }
    }
}

impl ErrorKind {
    /// HTTP status that carries the kind: 400 for the caller's mistakes, 500
    /// for the engine's.
    pub open spec fn spec_status(self) -> u16 {
        match self {
            ErrorKind::InvalidArgument => 400,
            ErrorKind::BackendUnavailable => 500,
            ErrorKind::QueryRejected => 500,
        }
    }

    /// HTTP status that carries the kind.
    pub fn status(self) -> (code: u16)
        ensures
            code == self.spec_status(),
    {
        match self {
            ErrorKind::InvalidArgument => 400,
            ErrorKind::BackendUnavailable => 500,
            ErrorKind::QueryRejected => 500,
        }
    }

    /// Only an unavailable engine is worth a second attempt.
    pub open spec fn spec_is_retryable(self) -> bool {
        self == ErrorKind::BackendUnavailable
    }

    /// Tells whether the same request may succeed if sent again.
    pub fn is_retryable(self) -> (retry: bool)
        ensures
            retry == self.spec_is_retryable(),
    {
        match self {
            ErrorKind::BackendUnavailable => true,
            _ => false,
        }
    }
}

impl Operation {
    /// The operation's name as it appears in messages.
    pub open spec fn spec_name(self) -> Seq<char> {
        match self {
            Operation::Insert => "insert"@,
            Operation::BatchInsert => "batch_insert"@,
            Operation::QueryRecent => "query_recent"@,
            Operation::QueryMaxSpeed => "query_max_speed"@,
            Operation::QueryMaxSpeedSince => "query_max_speed_since"@,
        }
    }

    /// The operation's name as it appears in messages.
    pub fn name(self) -> (text: &'static str)
        ensures
            text@ == self.spec_name(),
    {
        match self {
            Operation::Insert => "insert",
            Operation::BatchInsert => "batch_insert",
            Operation::QueryRecent => "query_recent",
            Operation::QueryMaxSpeed => "query_max_speed",
            Operation::QueryMaxSpeedSince => "query_max_speed_since",
        }
    }
}

impl BackendFailure {
    /// The error kind a failure is surfaced as.
    pub open spec fn spec_kind(self) -> ErrorKind {
        match self {
            BackendFailure::Unavailable => ErrorKind::BackendUnavailable,
            BackendFailure::Rejected => ErrorKind::QueryRejected,
        }
    }

    /// What follows the operation's name in the message.
    pub open spec fn spec_detail(self) -> Seq<char> {
        match self {
            BackendFailure::Unavailable => ": backend unavailable"@,
            BackendFailure::Rejected => ": query rejected by the backend"@,
        }
    }
}

/// Content of the error that wraps `failure` with the name of `operation`.
pub open spec fn backend_error(operation: Operation, failure: BackendFailure) -> QueryErrorData {
    QueryErrorData {
        kind: failure.spec_kind(),
        message: operation.spec_name() + failure.spec_detail(),
    }
}

/// Content of an `InvalidArgument` error with the given message.
pub open spec fn invalid_argument(message: Seq<char>) -> QueryErrorData {
    QueryErrorData { kind: ErrorKind::InvalidArgument, message }
}

impl QueryError {
    /// An `InvalidArgument` error that says `message`.
    pub fn invalid(message: &str) -> (error: QueryError)
        ensures
            error@ == invalid_argument(message@),
    {
        QueryError { kind: ErrorKind::InvalidArgument, message: String::from_str(message) }
    }

    /// Wraps an engine failure with the name of the operation that met it.
    /// The message names the operation and the kind of failure, and nothing
    /// of the engine's own text.
    pub fn from_backend(operation: Operation, failure: BackendFailure) -> (error: QueryError)
        ensures
            error@ == backend_error(operation, failure),
    {
        let mut message = String::from_str(operation.name());
        match failure {
            BackendFailure::Unavailable => {
                message.append(": backend unavailable");
                QueryError { kind: ErrorKind::BackendUnavailable, message }
            },
            BackendFailure::Rejected => {
                message.append(": query rejected by the backend");
                QueryError { kind: ErrorKind::QueryRejected, message }
            },
        }
    }

    /// HTTP status of the error.
    pub fn status(&self) -> (code: u16)
        ensures
            code == self@.kind.spec_status(),
    {
        self.kind.status()
    }

    /// A second error with the same content.
    pub fn duplicate(&self) -> (copy: QueryError)
        ensures
            copy@ == self@,
    {
        QueryError { kind: self.kind, message: self.message.clone() }
    }
}

} // verus!
