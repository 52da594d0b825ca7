//! The errors that a request can end in, and the response each one becomes.

use vstd::prelude::*;
use vstd::std_specs::convert::FromSpecImpl;
use vstd::string::*;

verus! {

// The HTTP statuses that the handlers answer with.
pub const STATUS_OK: u16 = 200;

pub const STATUS_CREATED: u16 = 201;

pub const STATUS_NO_CONTENT: u16 = 204;

pub const STATUS_UNAUTHORIZED: u16 = 401;

pub const STATUS_NOT_FOUND: u16 = 404;

pub const STATUS_CONFLICT: u16 = 409;

pub const STATUS_UNPROCESSABLE_ENTITY: u16 = 422;

pub const STATUS_INTERNAL_SERVER_ERROR: u16 = 500;

/// One rule that one field of a request broke.
#[derive(Debug)]
pub struct FieldError {
    /// The field's name.
    pub field: String,
    /// The rule: `email` or `length`.
    pub code: String,
    /// What to tell the caller.
    pub message: String,
}

/// Everything that validation found wrong with a request, in the order of
/// the fields.
#[derive(Debug)]
pub struct ValidationErrors {
    pub errors: Vec<FieldError>,
}

/// How a request can fail.
#[derive(Debug)]
pub enum AppError {
    /// A hashing or signing primitive failed, a token carried a subject that
    /// is no account id, or storage refused a write.
    InternalServerError(String),
    /// Storage was unavailable; the text is for the log, not for the caller.
    DatabaseError(String),
    /// Registration under an e-mail address that is taken.
    Conflict(String),
    /// Bad credentials; a missing, malformed, forged, expired or replayed
    /// token; an account that is gone. One answer for all of them.
    Unauthorized,
    /// The resource does not exist, or is another account's.
    NotFound,
    /// The request's fields broke a rule.
    ValidationError(ValidationErrors),
}

/// What the caller gets to see of an error.
#[derive(Debug)]
pub struct ErrorResponse {
    pub status: u16,
    /// A short message.
    pub error: String,
    /// The fields at fault, for a validation error.
    pub details: Option<ValidationErrors>,
}

/// The line that reports one finding: the field, a colon, the message.
pub open spec fn field_line(finding: FieldError) -> Seq<char> {
    finding.field@ + ": "@ + finding.message@
}

/// The lines of all findings, separated by a comma and a space.
pub open spec fn joined_lines(findings: Seq<FieldError>) -> Seq<char>
    decreases findings.len(),
{
    if findings.len() == 0 {
        Seq::empty()
    } else if findings.len() == 1 {
        field_line(findings[0])
    } else {
        joined_lines(findings.drop_last()) + ", "@ + field_line(findings.last())
    }
}

/// The message of a validation error.
pub open spec fn validation_message(findings: Seq<FieldError>) -> Seq<char> {
    "Input validation failed: "@ + joined_lines(findings)
}

/// The status that an error is answered with.
pub open spec fn status_of(error: AppError) -> u16 {
    match error {
        AppError::InternalServerError(_) => STATUS_INTERNAL_SERVER_ERROR,
        AppError::DatabaseError(_) => STATUS_INTERNAL_SERVER_ERROR,
        AppError::Conflict(_) => STATUS_CONFLICT,
        AppError::Unauthorized => STATUS_UNAUTHORIZED,
        AppError::NotFound => STATUS_NOT_FOUND,
        AppError::ValidationError(_) => STATUS_UNPROCESSABLE_ENTITY,
    }
}

/// The message that an error is answered with. A storage error shows none
/// of its cause, and every authentication failure reads the same.
pub open spec fn message_of(error: AppError) -> Seq<char> {
    match error {
        AppError::InternalServerError(text) => text@,
        AppError::DatabaseError(_) => "Database error"@,
        AppError::Conflict(text) => text@,
        AppError::Unauthorized => "Invalid credentials"@,
        AppError::NotFound => "Resource not found"@,
        AppError::ValidationError(findings) => validation_message(findings.errors@),
    }
}

impl ValidationErrors {
    /// The findings in one line.
    pub fn message(&self) -> (text: String)
        ensures
            text@ == validation_message(self.errors@),
    {
        let mut text = String::from_str("Input validation failed: ");
        let mut i: usize = 0;
        while i < self.errors.len()
            invariant
                i <= self.errors@.len(),
                text@ == "Input validation failed: "@ + joined_lines(self.errors@.take(i as int)),
            decreases self.errors@.len() - i,
        {
            let ghost before = self.errors@.take(i as int);
            let ghost after = self.errors@.take(i + 1);
            let finding = &self.errors[i];
            if i > 0 {
                text.append(", ");
            }
            text.append(finding.field.as_str());
            text.append(": ");
            text.append(finding.message.as_str());
            proof {
                assert(after.drop_last() =~= before);
                assert(after.last() == *finding);
                if i == 0 {
                    assert(before =~= Seq::<FieldError>::empty());
                    assert(after[0] == *finding);
                }
                assert(text@ =~= "Input validation failed: "@ + joined_lines(after));
            }
            i += 1;
        }
        proof {
            assert(self.errors@.take(i as int) =~= self.errors@);
        }
        text
    }
}

impl AppError {
    /// The status that this error is answered with.
    pub fn status_code(&self) -> (status: u16)
        ensures
            status == status_of(*self),
    {
        match self {
            AppError::InternalServerError(_) => STATUS_INTERNAL_SERVER_ERROR,
            AppError::DatabaseError(_) => STATUS_INTERNAL_SERVER_ERROR,
            AppError::Conflict(_) => STATUS_CONFLICT,
            AppError::Unauthorized => STATUS_UNAUTHORIZED,
            AppError::NotFound => STATUS_NOT_FOUND,
            AppError::ValidationError(_) => STATUS_UNPROCESSABLE_ENTITY,
        }
    }

    /// The response that this error becomes: its status, its message, and
    /// for a validation error the findings themselves.
    pub fn into_response(self) -> (response: ErrorResponse)
        ensures
            response.status == status_of(self),
            response.error@ == message_of(self),
            match self {
                AppError::ValidationError(findings) => response.details == Some(findings),
                _ => response.details is None,
            },
    {
        match self {
            AppError::InternalServerError(text) => ErrorResponse {
                status: STATUS_INTERNAL_SERVER_ERROR,
                error: text,
                details: None,
            },
            AppError::DatabaseError(_) => ErrorResponse {
                status: STATUS_INTERNAL_SERVER_ERROR,
                error: String::from_str("Database error"),
                details: None,
            },
            AppError::Conflict(text) => ErrorResponse { status: STATUS_CONFLICT, error: text, details: None },
            AppError::Unauthorized => ErrorResponse {
                status: STATUS_UNAUTHORIZED,
                error: String::from_str("Invalid credentials"),
                details: None,
            },
            AppError::NotFound => ErrorResponse {
                status: STATUS_NOT_FOUND,
                error: String::from_str("Resource not found"),
                details: None,
            },
            AppError::ValidationError(findings) => {
                let error = findings.message();
                ErrorResponse { status: STATUS_UNPROCESSABLE_ENTITY, error, details: Some(findings) }
            },
        }
    }
}

impl From<ValidationErrors> for AppError {
    /// Findings are a validation error.
    fn from(errors: ValidationErrors) -> (error: AppError) {
        AppError::ValidationError(errors)
    }
}

impl FromSpecImpl<ValidationErrors> for AppError {
    open spec fn obeys_from_spec() -> bool {
        true
    }

    open spec fn from_spec(errors: ValidationErrors) -> AppError {
        AppError::ValidationError(errors)
    }
}

} // verus!
