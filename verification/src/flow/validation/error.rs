//! Validation errors: their kinds, locations and messages.
use vstd::prelude::*;
use crate::text::owned;

verus! {

/// Types of validation errors.
#[derive(Debug, Clone, Copy, PartialEq, Eq, Structural)]
pub enum ValidationErrorKind {
    /// Missing required field.
    MissingField,
    /// Invalid value for a field.
    InvalidValue,
    /// Duplicate identifier.
    DuplicateId,
    /// Reference to non-existent node.
    InvalidReference,
    /// Invalid trigger type.
    InvalidTriggerType,
    /// Invalid node type.
    InvalidNodeType,
    /// Cycle detected (without proper loop declaration).
    CycleDetected,
    /// Unreachable node.
    UnreachableNode,
    /// Invalid selector syntax.
    InvalidSelector,
    /// Validation limit exceeded (size, depth, count).
    LimitExceeded,
    /// Security violation (disallowed path, etc.).
    SecurityViolation,
}

/// The text of an error kind.
pub open spec fn kind_text(k: ValidationErrorKind) -> Seq<char> {
    match k {
        ValidationErrorKind::MissingField => "MISSING_FIELD"@,
        ValidationErrorKind::InvalidValue => "INVALID_VALUE"@,
        ValidationErrorKind::DuplicateId => "DUPLICATE_ID"@,
        ValidationErrorKind::InvalidReference => "INVALID_REFERENCE"@,
        ValidationErrorKind::InvalidTriggerType => "INVALID_TRIGGER_TYPE"@,
        ValidationErrorKind::InvalidNodeType => "INVALID_NODE_TYPE"@,
        ValidationErrorKind::CycleDetected => "CYCLE_DETECTED"@,
        ValidationErrorKind::UnreachableNode => "UNREACHABLE_NODE"@,
        ValidationErrorKind::InvalidSelector => "INVALID_SELECTOR"@,
        ValidationErrorKind::LimitExceeded => "LIMIT_EXCEEDED"@,
        ValidationErrorKind::SecurityViolation => "SECURITY_VIOLATION"@,
    }
}

impl ValidationErrorKind {
    /// The kind's text, as `Display` writes it.
    pub fn as_str(&self) -> (r: &'static str)
        ensures
            r@ == kind_text(*self),
    {
        match self {
            ValidationErrorKind::MissingField => "MISSING_FIELD",
            ValidationErrorKind::InvalidValue => "INVALID_VALUE",
            ValidationErrorKind::DuplicateId => "DUPLICATE_ID",
            ValidationErrorKind::InvalidReference => "INVALID_REFERENCE",
            ValidationErrorKind::InvalidTriggerType => "INVALID_TRIGGER_TYPE",
            ValidationErrorKind::InvalidNodeType => "INVALID_NODE_TYPE",
            ValidationErrorKind::CycleDetected => "CYCLE_DETECTED",
            ValidationErrorKind::UnreachableNode => "UNREACHABLE_NODE",
            ValidationErrorKind::InvalidSelector => "INVALID_SELECTOR",
            ValidationErrorKind::LimitExceeded => "LIMIT_EXCEEDED",
            ValidationErrorKind::SecurityViolation => "SECURITY_VIOLATION",
        }
    }
}

/// A validation error: its kind, where in the flow (e.g. `nodes.fraud_check`), and a message.
#[derive(Debug, Clone)]
pub struct ValidationError {
    /// The type of error.
    pub kind: ValidationErrorKind,
    /// The location in the flow.
    pub location: String,
    /// Human-readable error message.
    pub message: String,
}

/// What an error says, as plain values.
pub open spec fn error_view(e: ValidationError) -> (ValidationErrorKind, Seq<char>, Seq<char>) {
    (e.kind, e.location@, e.message@)
}

impl ValidationError {
    /// An error of `kind` at `location` with `message`.
    pub fn new(kind: ValidationErrorKind, location: &str, message: &str) -> (r: Self)
        ensures
            error_view(r) == (kind, location@, message@),
    {
        ValidationError { kind, location: owned(location), message: owned(message) }
    }

    /// A missing field error: "missing required field '{field}'".
    pub fn missing_field(location: &str, field: &str) -> (r: Self)
        ensures
            error_view(r) == (ValidationErrorKind::MissingField, location@, "missing required field '"@ + field@ + "'"@),
    {
        let mut m = owned("missing required field '");
        m.append(field);
        m.append("'");
        ValidationError { kind: ValidationErrorKind::MissingField, location: owned(location), message: m }
    }

    /// An invalid value error.
    pub fn invalid_value(location: &str, message: &str) -> (r: Self)
        ensures
            error_view(r) == (ValidationErrorKind::InvalidValue, location@, message@),
    {
        ValidationError::new(ValidationErrorKind::InvalidValue, location, message)
    }

    /// A duplicate ID error: "duplicate identifier '{id}'".
    pub fn duplicate_id(location: &str, id: &str) -> (r: Self)
        ensures
            error_view(r) == (ValidationErrorKind::DuplicateId, location@, "duplicate identifier '"@ + id@ + "'"@),
    {
        let mut m = owned("duplicate identifier '");
        m.append(id);
        m.append("'");
        ValidationError { kind: ValidationErrorKind::DuplicateId, location: owned(location), message: m }
    }

    /// An invalid reference error: "reference to non-existent node '{reference}'".
    pub fn invalid_reference(location: &str, reference: &str) -> (r: Self)
        ensures
            error_view(r) == (ValidationErrorKind::InvalidReference, location@, "reference to non-existent node '"@ + reference@ + "'"@),
    {
        let mut m = owned("reference to non-existent node '");
        m.append(reference);
        m.append("'");
        ValidationError { kind: ValidationErrorKind::InvalidReference, location: owned(location), message: m }
    }

    /// The error as text, as `Display` writes it: `[KIND] location: message`.
    pub fn to_text(&self) -> (r: String)
        ensures
            r@ == "["@ + kind_text(self.kind) + "] "@ + self.location@ + ": "@ + self.message@,
    {
        let mut t = owned("[");
        t.append(self.kind.as_str());
        t.append("] ");
        t.append(self.location.as_str());
        t.append(": ");
        t.append(self.message.as_str());
        t
    }
}

} // verus!
