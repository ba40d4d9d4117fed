//! The person directory at the boundary: the requests, the closed
//! person kinds, and their checks.

use vstd::prelude::*;
use vstd::string::StringExecFns;
use crate::model::LedgerError;
use crate::text::{lower_of, lowercased, str_eq, trim_of, trimmed};

verus! {

/// Query filtering the person directory.
pub struct ListPeopleQuery {
    pub person_type: Option<String>,
    pub q: Option<String>,
    pub is_active: Option<bool>,
}

/// Request to create a person.
pub struct CreatePersonRequest {
    pub full_name: String,
    pub person_type: String,
    pub email: Option<String>,
    pub phone: Option<String>,
    pub document: Option<String>,
    pub notes: Option<String>,
    pub is_active: Option<bool>,
}

/// Request to update a person.
pub struct UpdatePersonRequest {
    pub full_name: String,
    pub email: Option<String>,
    pub phone: Option<String>,
    pub document: Option<String>,
    pub notes: Option<String>,
    pub is_active: bool,
}

/// Request to grant or revoke one directory role.
pub struct RoleInputRequest {
    pub role_code: String,
}

/// Whether `n` is one of the closed person kinds.
pub open spec fn known_person_type(n: Seq<char>) -> bool {
    n == "student"@ || n == "parent"@ || n == "guardian"@ || n == "teacher"@ || n == "staff"@
        || n == "supplier"@ || n == "financial_guardian"@ || n == "pickup_authorized"@
}

/// Parses a person kind; unknown values are rejected. The normalized
/// kind is returned.
pub fn normalize_person_type(value: &str) -> (r: Result<String, LedgerError>)
    ensures
        ({
            let n = lower_of(trim_of(value@));
            if known_person_type(n) {
                r is Ok && r->Ok_0@ == n
            } else {
                r == Err::<String, LedgerError>(LedgerError::Validation)
            }
        }),
{
    let n = lowercased(trimmed(value));
    if str_eq(n.as_str(), "student") || str_eq(n.as_str(), "parent") || str_eq(
        n.as_str(),
        "guardian",
    ) || str_eq(n.as_str(), "teacher") || str_eq(n.as_str(), "staff") || str_eq(
        n.as_str(),
        "supplier",
    ) || str_eq(n.as_str(), "financial_guardian") || str_eq(n.as_str(), "pickup_authorized") {
        Ok(n)
    } else {
        Err(LedgerError::Validation)
    }
}

/// Checks a person creation request: the full name needs two
/// characters, the raw kind three, and the kind must be a known one.
/// The normalized kind is returned.
pub fn validate_create_person(req: &CreatePersonRequest) -> (r: Result<String, LedgerError>)
    ensures
        req.full_name@.len() < 2 ==> r == Err::<String, LedgerError>(LedgerError::Validation),
        req.full_name@.len() >= 2 && req.person_type@.len() < 3 ==> r == Err::<
            String,
            LedgerError,
        >(LedgerError::Validation),
        req.full_name@.len() >= 2 && req.person_type@.len() >= 3 ==> ({
            let n = lower_of(trim_of(req.person_type@));
            if known_person_type(n) {
                r is Ok && r->Ok_0@ == n
            } else {
                r == Err::<String, LedgerError>(LedgerError::Validation)
            }
        }),
{
    if req.full_name.as_str().unicode_len() < 2 {
        return Err(LedgerError::Validation);
    }
    if req.person_type.as_str().unicode_len() < 3 {
        return Err(LedgerError::Validation);
    }
    normalize_person_type(req.person_type.as_str())
}

/// Checks a role grant or revocation: the role code must be a known
/// person kind; the normalized code is returned.
pub fn validate_role_input(req: &RoleInputRequest) -> (r: Result<String, LedgerError>)
    ensures
        ({
            let n = lower_of(trim_of(req.role_code@));
            if known_person_type(n) {
                r is Ok && r->Ok_0@ == n
            } else {
                r == Err::<String, LedgerError>(LedgerError::Validation)
            }
        }),
{
    normalize_person_type(req.role_code.as_str())
}

/// Checks a person update: the full name needs two characters.
pub fn validate_update_person(req: &UpdatePersonRequest) -> (r: Result<(), LedgerError>)
    ensures
        r == (if req.full_name@.len() >= 2 {
            Ok::<(), LedgerError>(())
        } else {
            Err::<(), LedgerError>(LedgerError::Validation)
        }),
{
    if req.full_name.as_str().unicode_len() >= 2 {
        Ok(())
    } else {
        Err(LedgerError::Validation)
    }
}

} // verus!
