//! A single error type that crosses the native boundary with a stable,
//! discriminated shape so the frontend can branch on `code` instead of
//! pattern-matching prose.

use vstd::prelude::*;

verus! {

#[derive(Debug, Clone, PartialEq, Eq)]
pub enum AppError {
    /// Caller-supplied data is out of bounds or malformed.
    Validation { field: String, message: String },
    /// A referenced entity does not exist (stale or foreign id).
    NotFound { entity: String, id: String },
    /// The request is well-formed but conflicts with current state.
    Conflict { code: String, message: String },
    /// Something failed underneath us; the message is diagnostic, not a promise.
    Internal { message: String },
}

/// The machine-readable discriminant of an error.
pub open spec fn error_code(e: AppError) -> Seq<char> {
    match e {
        AppError::Validation { .. } => "VALIDATION"@,
        AppError::NotFound { .. } => "NOT_FOUND"@,
        AppError::Conflict { .. } => "CONFLICT"@,
        AppError::Internal { .. } => "INTERNAL"@,
    }
}

/// The human-readable message of an error.
pub open spec fn error_message(e: AppError) -> Seq<char> {
    match e {
        AppError::Validation { message, .. } => message@,
        AppError::NotFound { entity, id } => "no "@ + entity@ + " with id "@ + id@,
        AppError::Conflict { message, .. } => message@,
        AppError::Internal { message } => message@,
    }
}

/// The one-line rendering of an error: `[CODE] message`, with the offending
/// field named for a validation error.
pub open spec fn error_display(e: AppError) -> Seq<char> {
    match e {
        AppError::Validation { field, message } => "[VALIDATION] "@ + field@ + ": "@ + message@,
        _ => "["@ + error_code(e) + "] "@ + error_message(e),
    }
}

/// True when `e` is a validation error about `field`.
pub open spec fn is_validation_of(e: AppError, field: Seq<char>) -> bool {
    e matches AppError::Validation { field: f, .. } && f@ == field
}

/// True when `e` is a validation error about `field` with exactly `message`.
pub open spec fn is_validation_error(e: AppError, field: Seq<char>, message: Seq<char>) -> bool {
    e matches AppError::Validation { field: f, message: m } && f@ == field && m@ == message
}

/// True when `e` is a conflict with the given conflict code.
pub open spec fn is_conflict_of(e: AppError, code: Seq<char>) -> bool {
    e matches AppError::Conflict { code: c, .. } && c@ == code
}

/// True when `e` is a conflict with the given code and message.
pub open spec fn is_conflict_error(e: AppError, code: Seq<char>, message: Seq<char>) -> bool {
    e matches AppError::Conflict { code: c, message: m } && c@ == code && m@ == message
}

/// True when `e` is an internal error with exactly `message`.
pub open spec fn is_internal_error(e: AppError, message: Seq<char>) -> bool {
    e matches AppError::Internal { message: m } && m@ == message
}

/// True when `e` says the entity of kind `entity` with `id` does not exist.
pub open spec fn is_not_found_of(e: AppError, entity: Seq<char>, id: Seq<char>) -> bool {
    e matches AppError::NotFound { entity: en, id: i } && en@ == entity && i@ == id
}

impl AppError {
    pub fn validation(field: &str, message: &str) -> (e: AppError)
        ensures
            e matches AppError::Validation { field: f, message: m } && f@ == field@ && m@ == message@,
    {
        AppError::Validation { field: field.to_string(), message: message.to_string() }
    }

    pub fn not_found(entity: &str, id: &str) -> (e: AppError)
        ensures
            e matches AppError::NotFound { entity: en, id: i } && en@ == entity@ && i@ == id@,
    {
        AppError::NotFound { entity: entity.to_string(), id: id.to_string() }
    }

    pub fn conflict(code: &str, message: &str) -> (e: AppError)
        ensures
            e matches AppError::Conflict { code: c, message: m } && c@ == code@ && m@ == message@,
    {
        AppError::Conflict { code: code.to_string(), message: message.to_string() }
    }

    pub fn internal(message: &str) -> (e: AppError)
        ensures
            e matches AppError::Internal { message: m } && m@ == message@,
    {
        AppError::Internal { message: message.to_string() }
    }

    /// Machine-readable discriminant.
    pub fn code(&self) -> (c: &'static str)
        ensures
            c@ == error_code(*self),
    {
        proof {
            reveal_strlit("VALIDATION");
            reveal_strlit("NOT_FOUND");
            reveal_strlit("CONFLICT");
            reveal_strlit("INTERNAL");
        }
        match self {
            AppError::Validation { .. } => "VALIDATION",
            AppError::NotFound { .. } => "NOT_FOUND",
            AppError::Conflict { .. } => "CONFLICT",
            AppError::Internal { .. } => "INTERNAL",
        }
    }

    pub fn message(&self) -> (m: String)
        ensures
            m@ == error_message(*self),
    {
        match self {
            // `field` travels as its own key; keep the message free of it so the
            // UI can place it against the offending control.
            AppError::Validation { message, .. } => message.clone(),
            AppError::NotFound { entity, id } => {
                let mut m = String::from_str("no ");
                m.append(entity.as_str());
                m.append(" with id ");
                m.append(id.as_str());
                m
            },
            AppError::Conflict { message, .. } => message.clone(),
            AppError::Internal { message } => message.clone(),
        }
    }

    /// The one-line rendering used in logs.
    pub fn display_text(&self) -> (t: String)
        ensures
            t@ == error_display(*self),
    {
        match self {
            AppError::Validation { field, message } => {
                let mut t = String::from_str("[VALIDATION] ");
                t.append(field.as_str());
                t.append(": ");
                t.append(message.as_str());
                t
            },
            _ => {
                let mut t = String::from_str("[");
                t.append(self.code());
                t.append("] ");
                let m = self.message();
                t.append(m.as_str());
                t
            },
        }
    }
}

} // verus!
