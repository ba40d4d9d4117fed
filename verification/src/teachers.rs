//! Teacher accounts at the boundary: the role-update request and its
//! checks.

use vstd::prelude::*;
use vstd::string::StringExecFns;
use crate::auth::{normalize_role, Role};
use crate::model::LedgerError;
use crate::text::{lower_of, trim_of};

verus! {

/// Request to change a teacher's role.
pub struct UpdateTeacherRoleRequest {
    pub role: String,
}

/// A plain acknowledgement.
pub struct OkResponse {
    pub ok: bool,
}

/// Checks a role-update request: the raw role needs three characters
/// and must normalize to a known role.
pub fn validate_update_teacher_role(req: &UpdateTeacherRoleRequest) -> (r: Result<
    Role,
    LedgerError,
>)
    ensures
        req.role@.len() < 3 ==> r == Err::<Role, LedgerError>(LedgerError::Validation),
        req.role@.len() >= 3 ==> ({
            let n = lower_of(trim_of(req.role@));
            if n == "admin"@ {
                r == Ok::<Role, LedgerError>(Role::Admin)
            } else if n == "teacher"@ {
                r == Ok::<Role, LedgerError>(Role::Teacher)
            } else if n == "staff"@ {
                r == Ok::<Role, LedgerError>(Role::Staff)
            } else if n == "owner"@ {
                r == Ok::<Role, LedgerError>(Role::Owner)
            } else {
                r == Err::<Role, LedgerError>(LedgerError::Validation)
            }
        }),
{
    if req.role.as_str().unicode_len() < 3 {
        return Err(LedgerError::Validation);
    }
    normalize_role(req.role.as_str())
}

} // verus!
