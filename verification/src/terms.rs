//! Academic terms at the boundary: the requests and their checks.

use vstd::prelude::*;
use vstd::string::StringExecFns;
use crate::model::LedgerError;

verus! {

/// Request to create an academic term.
pub struct CreateTermRequest {
    pub name: String,
    pub school_year: i32,
    pub sort_order: Option<i32>,
}

/// Request to rename or reorder an academic term.
pub struct UpdateTermRequest {
    pub name: String,
    pub school_year: i32,
    pub sort_order: Option<i32>,
}

/// Request to activate or deactivate a term.
pub struct UpdateTermStatusRequest {
    pub is_active: bool,
}

/// A plain acknowledgement.
pub struct OkResponse {
    pub ok: bool,
}

/// Checks a term request: the name needs two characters and the school
/// year must lie between 2000 and 2100; the resolved sort order
/// (defaulting to 1) is returned.
pub fn validate_term_fields(name: &String, school_year: i32, sort_order: Option<i32>) -> (r:
    Result<i32, LedgerError>)
    ensures
        name@.len() < 2 ==> r == Err::<i32, LedgerError>(LedgerError::Validation),
        name@.len() >= 2 && !(2000 <= school_year <= 2100) ==> r == Err::<i32, LedgerError>(
            LedgerError::Validation,
        ),
        name@.len() >= 2 && 2000 <= school_year <= 2100 ==> r == Ok::<i32, LedgerError>(
            match sort_order {
                Some(v) => v,
                None => 1,
            },
        ),
{
    if name.as_str().unicode_len() < 2 {
        return Err(LedgerError::Validation);
    }
    if school_year < 2000 || school_year > 2100 {
        return Err(LedgerError::Validation);
    }
    match sort_order {
        Some(v) => Ok(v),
        None => Ok(1),
    }
}

} // verus!
