//! Class records at the boundary: the create request and its checks.

use vstd::prelude::*;
use vstd::string::StringExecFns;
use crate::model::LedgerError;
use crate::text::{lower_of, lowercased, str_eq, trim_of, trimmed};

verus! {

/// Request to create a class.
pub struct CreateClassRequest {
    pub name: String,
    pub grade: String,
    pub year: Option<i32>,
    pub period: Option<String>,
}

/// A plain acknowledgement.
pub struct OkResponse {
    pub ok: bool,
}

/// Parses a class period; an absent value defaults to the morning
/// period, an unknown one is rejected.
pub fn normalize_period(input: Option<&str>) -> (r: Result<String, LedgerError>)
    ensures
        input is None ==> r is Ok && r->Ok_0@ == "matutino"@,
        input is Some ==> ({
            let n = lower_of(trim_of(input->0@));
            if n == "matutino"@ || n == "vespertino"@ || n == "noturno"@ || n == "integral"@ {
                r is Ok && r->Ok_0@ == n
            } else {
                r == Err::<String, LedgerError>(LedgerError::Validation)
            }
        }),
{
    match input {
        None => Ok(String::from_str("matutino")),
        Some(v) => {
            let n = lowercased(trimmed(v));
            if str_eq(n.as_str(), "matutino") || str_eq(n.as_str(), "vespertino") || str_eq(
                n.as_str(),
                "noturno",
            ) || str_eq(n.as_str(), "integral") {
                Ok(n)
            } else {
                Err(LedgerError::Validation)
            }
        },
    }
}

/// Checks a class creation request: name and grade must not be empty
/// and the period must be a known one; the resolved period is
/// returned.
pub fn validate_create_class(req: &CreateClassRequest) -> (r: Result<String, LedgerError>)
    ensures
        req.name@.len() < 1 ==> r == Err::<String, LedgerError>(LedgerError::Validation),
        req.name@.len() >= 1 && req.grade@.len() < 1 ==> r == Err::<String, LedgerError>(
            LedgerError::Validation,
        ),
        req.name@.len() >= 1 && req.grade@.len() >= 1 && req.period is None ==> r is Ok
            && r->Ok_0@ == "matutino"@,
        req.name@.len() >= 1 && req.grade@.len() >= 1 && req.period is Some ==> ({
            let n = lower_of(trim_of(req.period->0@));
            if n == "matutino"@ || n == "vespertino"@ || n == "noturno"@ || n == "integral"@ {
                r is Ok && r->Ok_0@ == n
            } else {
                r == Err::<String, LedgerError>(LedgerError::Validation)
            }
        }),
{
    if req.name.as_str().unicode_len() < 1 {
        return Err(LedgerError::Validation);
    }
    if req.grade.as_str().unicode_len() < 1 {
        return Err(LedgerError::Validation);
    }
    match &req.period {
        None => normalize_period(None),
        Some(v) => normalize_period(Some(v.as_str())),
    }
}

} // verus!
