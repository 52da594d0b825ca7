//! The values that travel between a client and the service, and the rules
//! their fields must keep.

use vstd::prelude::*;
use vstd::string::*;

use crate::error::FieldError;
use crate::error::ValidationErrors;
use crate::primitives::email_accepted;
use crate::primitives::email_is_valid;

verus! {

/// The least number of characters in a password.
pub const MIN_PASSWORD_LENGTH: usize = 8;

/// A contact as clients see it.
#[derive(Debug, Clone, PartialEq)]
pub struct ContactDto {
    /// Absent until storage has assigned one.
    pub id: Option<i64>,
    pub name: String,
    pub email: String,
    pub age: i64,
    pub subscribed: bool,
    pub contact_type: String,
}

/// What registration and login are called with.
#[derive(Debug, Clone)]
pub struct Credentials {
    pub email: String,
    pub password: String,
}

/// The pair of tokens that login and refresh answer with.
#[derive(Debug, Clone)]
pub struct LoginResponse {
    /// Short-lived and signed; proves the identity on each request.
    pub access_token: String,
    /// Long-lived and opaque; good for exactly one exchange.
    pub refresh_token: String,
}

/// A finding as plain text: field, rule, message.
pub open spec fn finding_text(finding: FieldError) -> (Seq<char>, Seq<char>, Seq<char>) {
    (finding.field@, finding.code@, finding.message@)
}

/// The findings as plain text.
pub open spec fn findings_text(findings: Seq<FieldError>) -> Seq<(Seq<char>, Seq<char>, Seq<char>)> {
    Seq::new(findings.len(), |i: int| finding_text(findings[i]))
}

/// The finding for a text that is no e-mail address.
pub open spec fn bad_email(field: Seq<char>) -> (Seq<char>, Seq<char>, Seq<char>) {
    (field, "email"@, "Email must be a valid email address"@)
}

/// Credentials are valid where the e-mail address is well-formed and the
/// password has at least eight characters.
pub open spec fn credentials_valid(credentials: Credentials) -> bool {
    email_accepted(credentials.email@) && credentials.password@.len() >= MIN_PASSWORD_LENGTH
}

/// What validation reports of credentials: the e-mail address first.
pub open spec fn credentials_findings(credentials: Credentials) -> Seq<(Seq<char>, Seq<char>, Seq<char>)> {
    (if email_accepted(credentials.email@) {
        Seq::empty()
    } else {
        seq![bad_email("email"@)]
    }) + (if credentials.password@.len() >= MIN_PASSWORD_LENGTH {
        Seq::empty()
    } else {
        seq![("password"@, "length"@, "Password must be at least 8 characters"@)]
    })
}

/// A contact is valid where it has a name, a well-formed e-mail address and
/// a type.
pub open spec fn contact_valid(contact: ContactDto) -> bool {
    contact.name@.len() >= 1 && email_accepted(contact.email@) && contact.contact_type@.len() >= 1
}

/// What validation reports of a contact, in the order of its fields.
pub open spec fn contact_findings(contact: ContactDto) -> Seq<(Seq<char>, Seq<char>, Seq<char>)> {
    (if contact.name@.len() >= 1 {
        Seq::empty()
    } else {
        seq![("name"@, "length"@, "Name cannot be empty"@)]
    }) + (if email_accepted(contact.email@) {
        Seq::empty()
    } else {
        seq![bad_email("email"@)]
    }) + (if contact.contact_type@.len() >= 1 {
        Seq::empty()
    } else {
        seq![("contact_type"@, "length"@, "Contact type cannot be empty"@)]
    })
}

fn finding(field: &str, code: &str, message: &str) -> (made: FieldError)
    ensures
        finding_text(made) == (field@, code@, message@),
{
    FieldError {
        field: String::from_str(field),
        code: String::from_str(code),
        message: String::from_str(message),
    }
}

/// `Ok` for no findings, else the findings as an error.
fn conclude(findings: Vec<FieldError>) -> (verdict: Result<(), ValidationErrors>)
    ensures
        verdict is Ok <==> findings@.len() == 0,
        verdict matches Err(errors) ==> errors.errors == findings,
{
    if findings.len() == 0 {
        Ok(())
    } else {
        Err(ValidationErrors { errors: findings })
    }
}

impl Credentials {
    /// Checks the two fields. Every broken rule is reported, not the first
    /// alone.
    pub fn validate(&self) -> (verdict: Result<(), ValidationErrors>)
        ensures
            verdict is Ok <==> credentials_valid(*self),
            verdict matches Err(errors) ==> findings_text(errors.errors@) == credentials_findings(*self),
    {
        let mut findings: Vec<FieldError> = Vec::new();
        if !email_is_valid(self.email.as_str()) {
            findings.push(finding("email", "email", "Email must be a valid email address"));
        }
        if self.password.as_str().unicode_len() < MIN_PASSWORD_LENGTH {
            findings.push(finding("password", "length", "Password must be at least 8 characters"));
        }
        assert(findings_text(findings@) =~= credentials_findings(*self));
        conclude(findings)
    }
}

impl ContactDto {
    /// Checks the name, the e-mail address and the type. Every broken rule
    /// is reported.
    pub fn validate(&self) -> (verdict: Result<(), ValidationErrors>)
        ensures
            verdict is Ok <==> contact_valid(*self),
            verdict matches Err(errors) ==> findings_text(errors.errors@) == contact_findings(*self),
    {
        let mut findings: Vec<FieldError> = Vec::new();
        if self.name.as_str().unicode_len() < 1 {
            findings.push(finding("name", "length", "Name cannot be empty"));
        }
        if !email_is_valid(self.email.as_str()) {
            findings.push(finding("email", "email", "Email must be a valid email address"));
        }
        if self.contact_type.as_str().unicode_len() < 1 {
            findings.push(finding("contact_type", "length", "Contact type cannot be empty"));
        }
        assert(findings_text(findings@) =~= contact_findings(*self));
        conclude(findings)
    }
}

} // verus!
