//! Guardian records at the boundary: the update request and its
//! checks.

use vstd::prelude::*;
use vstd::string::StringExecFns;
use crate::model::LedgerError;

verus! {

/// Request to update a guardian's contact record.
pub struct UpdateGuardianRequest {
    pub full_name: String,
    pub phone: Option<String>,
    pub email: Option<String>,
    pub document: Option<String>,
    pub notes: Option<String>,
    pub is_active: bool,
}

/// A plain acknowledgement.
pub struct OkResponse {
    pub ok: bool,
}

/// Checks a guardian update: the full name needs two characters.
pub fn validate_update_guardian(req: &UpdateGuardianRequest) -> (r: Result<(), LedgerError>)
    ensures
        r == (if req.full_name@.len() >= 2 {
            Ok::<(), LedgerError>(())
        } else {
            Err::<(), LedgerError>(LedgerError::Validation)
        }),
{
    if req.full_name.as_str().unicode_len() >= 2 {
        Ok(())
    } else {
        Err(LedgerError::Validation)
    }
}

} // verus!
