//! The error type of the library.

use vstd::prelude::*;

verus! {

/// A migration failed: a configuration or history file could not be used.
#[derive(Debug)]
pub struct MigrationFailed {
    message: String,
}

/// What went wrong.
#[derive(Debug)]
pub enum ErrorKind {
    /// A migration failed.
    MigrationFailed(MigrationFailed),
    /// A conditional write found its condition false.
    ConditionFailed(String),
    /// An operation that requires a record found none.
    RecordNotFound(String),
    /// An expression could not be evaluated.
    ExpressionEvaluationFailed(String),
    /// A value did not have the expected type.
    TypeConversion(String),
    /// The database driver could not carry out an operation.
    DriverOperationFailed(String),
    /// Anything else, described by its message alone.
    Message(String),
}

/// The error type of the library.
#[derive(Debug)]
pub struct Error {
    kind: ErrorKind,
}

/// The text that an error displays.
pub open spec fn display_of(kind: ErrorKind) -> Seq<char> {
    match kind {
        ErrorKind::MigrationFailed(m) => "migration failed: "@ + m.spec_message(),
        ErrorKind::ConditionFailed(m) => "condition failed: "@ + m@,
        ErrorKind::RecordNotFound(m) => "record not found: "@ + m@,
        ErrorKind::ExpressionEvaluationFailed(m) => "expression evaluation failed: "@ + m@,
        ErrorKind::TypeConversion(m) => "type conversion failed: "@ + m@,
        ErrorKind::DriverOperationFailed(m) => "driver operation failed: "@ + m@,
        ErrorKind::Message(m) => m@,
    }
}

/// The text that an error carries, without the kind that `display_of`
/// puts before it.
pub open spec fn detail_of(kind: ErrorKind) -> Seq<char> {
    match kind {
        ErrorKind::MigrationFailed(m) => m.spec_message(),
        ErrorKind::ConditionFailed(m) => m@,
        ErrorKind::RecordNotFound(m) => m@,
        ErrorKind::ExpressionEvaluationFailed(m) => m@,
        ErrorKind::TypeConversion(m) => m@,
        ErrorKind::DriverOperationFailed(m) => m@,
        ErrorKind::Message(m) => m@,
    }
}

impl MigrationFailed {
    pub closed spec fn spec_message(&self) -> Seq<char> {
        self.message@
    }
}

impl Error {
    pub closed spec fn spec_kind(&self) -> ErrorKind {
        self.kind
    }

    /// The text this error displays.
    pub open spec fn spec_display(&self) -> Seq<char> {
        display_of(self.spec_kind())
    }

    pub open spec fn spec_is_migration_failed(&self) -> bool {
        self.spec_kind() is MigrationFailed
    }

    /// Creates a migration failed error.
    pub fn migration_failed(message: String) -> (r: Error)
        ensures
            r.spec_is_migration_failed(),
            r.spec_display() == "migration failed: "@ + message@,
            detail_of(r.spec_kind()) == message@,
    {
        Error { kind: ErrorKind::MigrationFailed(MigrationFailed { message }) }
    }

    /// Returns `true` if this error is a migration failed error.
    pub fn is_migration_failed(&self) -> (r: bool)
        ensures
            r == self.spec_is_migration_failed(),
    {
        match &self.kind {
            ErrorKind::MigrationFailed(_) => true,
            _ => false,
        }
    }

    /// Creates a condition failed error.
    pub fn condition_failed(message: &str) -> (r: Error)
        ensures
            r.spec_kind() matches ErrorKind::ConditionFailed(m) && m@ == message@,
    {
        Error { kind: ErrorKind::ConditionFailed(message.to_owned()) }
    }

    /// Returns `true` if this error is a condition failed error.
    pub fn is_condition_failed(&self) -> (r: bool)
        ensures
            r == (self.spec_kind() is ConditionFailed),
    {
        match &self.kind {
            ErrorKind::ConditionFailed(_) => true,
            _ => false,
        }
    }

    /// Creates a record not found error.
    pub fn record_not_found(message: &str) -> (r: Error)
        ensures
            r.spec_kind() matches ErrorKind::RecordNotFound(m) && m@ == message@,
    {
        Error { kind: ErrorKind::RecordNotFound(message.to_owned()) }
    }

    /// Returns `true` if this error is a record not found error.
    pub fn is_record_not_found(&self) -> (r: bool)
        ensures
            r == (self.spec_kind() is RecordNotFound),
    {
        match &self.kind {
            ErrorKind::RecordNotFound(_) => true,
            _ => false,
        }
    }

    /// Creates an expression evaluation error.
    pub fn expression_evaluation_failed(message: &str) -> (r: Error)
        ensures
            r.spec_kind() matches ErrorKind::ExpressionEvaluationFailed(m) && m@ == message@,
    {
        Error { kind: ErrorKind::ExpressionEvaluationFailed(message.to_owned()) }
    }

    /// Returns `true` if this error is an expression evaluation error.
    pub fn is_expression_evaluation_failed(&self) -> (r: bool)
        ensures
            r == (self.spec_kind() is ExpressionEvaluationFailed),
    {
        match &self.kind {
            ErrorKind::ExpressionEvaluationFailed(_) => true,
            _ => false,
        }
    }

    /// Creates a type conversion error.
    pub fn type_conversion(message: &str) -> (r: Error)
        ensures
            r.spec_kind() matches ErrorKind::TypeConversion(m) && m@ == message@,
    {
        Error { kind: ErrorKind::TypeConversion(message.to_owned()) }
    }

    /// Returns `true` if this error is a type conversion error.
    pub fn is_type_conversion(&self) -> (r: bool)
        ensures
            r == (self.spec_kind() is TypeConversion),
    {
        match &self.kind {
            ErrorKind::TypeConversion(_) => true,
            _ => false,
        }
    }

    /// Creates an error for an operation that the driver could not carry
    /// out, with the driver's own description of what went wrong.
    pub fn driver_operation_failed(message: String) -> (r: Error)
        ensures
            r.spec_kind() == ErrorKind::DriverOperationFailed(message),
    {
        Error { kind: ErrorKind::DriverOperationFailed(message) }
    }

    /// Returns `true` if this error is a driver operation error.
    pub fn is_driver_operation_failed(&self) -> (r: bool)
        ensures
            r == (self.spec_kind() is DriverOperationFailed),
    {
        match &self.kind {
            ErrorKind::DriverOperationFailed(_) => true,
            _ => false,
        }
    }

    /// Creates an error that displays `message` and nothing more.
    pub fn msg(message: String) -> (r: Error)
        ensures
            r.spec_kind() == ErrorKind::Message(message),
            r.spec_display() == message@,
    {
        Error { kind: ErrorKind::Message(message) }
    }

    /// The text this error carries, without its kind.
    pub fn detail(&self) -> (r: String)
        ensures
            r@ == detail_of(self.spec_kind()),
    {
        match &self.kind {
            ErrorKind::MigrationFailed(m) => m.message.clone(),
            ErrorKind::ConditionFailed(m) => m.clone(),
            ErrorKind::RecordNotFound(m) => m.clone(),
            ErrorKind::ExpressionEvaluationFailed(m) => m.clone(),
            ErrorKind::TypeConversion(m) => m.clone(),
            ErrorKind::DriverOperationFailed(m) => m.clone(),
            ErrorKind::Message(m) => m.clone(),
        }
    }

    /// The text this error displays.
    pub fn message(&self) -> (r: String)
        ensures
            r@ == self.spec_display(),
    {
        let (prefix, body) = match &self.kind {
            ErrorKind::MigrationFailed(m) => ("migration failed: ", &m.message),
            ErrorKind::ConditionFailed(m) => ("condition failed: ", m),
            ErrorKind::RecordNotFound(m) => ("record not found: ", m),
            ErrorKind::ExpressionEvaluationFailed(m) => ("expression evaluation failed: ", m),
            ErrorKind::TypeConversion(m) => ("type conversion failed: ", m),
            ErrorKind::DriverOperationFailed(m) => ("driver operation failed: ", m),
            ErrorKind::Message(m) => return m.clone(),
        };
        let mut s = prefix.to_owned();
        s.append(body.as_str());
        s
    }
}

} // verus!
