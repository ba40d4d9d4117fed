//! Platform administration sign-in: the configured credentials and the
//! pure credential check.

use vstd::prelude::*;
use vstd::string::StringExecFns;
use crate::auth::{email_is_valid, email_ok};
use crate::model::LedgerError;
use crate::text::{lower_of, lowercased, str_eq, trim_of, trimmed};

verus! {

/// The configured platform credentials and signing secret.
#[derive(Clone, Debug)]
pub struct PlatformAuthState {
    pub jwt_secret: String,
    pub platform_admin_email: String,
    pub platform_admin_password: String,
}

/// Request to sign in to the platform administration.
pub struct PlatformLoginRequest {
    pub email: String,
    pub password: String,
}

/// Checks a platform sign-in: the email must pass the email check and
/// the password must not be empty; then the trimmed, lowercased email
/// must match the configured address and the password must match
/// exactly. A mismatch is reported as forbidden.
pub fn platform_login_check(state: &PlatformAuthState, req: &PlatformLoginRequest) -> (r: Result<
    (),
    LedgerError,
>)
    ensures
        !(email_ok(req.email@) && req.password@.len() >= 1) ==> r == Err::<(), LedgerError>(
            LedgerError::Validation,
        ),
        email_ok(req.email@) && req.password@.len() >= 1 ==> r == (if lower_of(trim_of(req.email@))
            == state.platform_admin_email@ && req.password@ == state.platform_admin_password@ {
            Ok::<(), LedgerError>(())
        } else {
            Err::<(), LedgerError>(LedgerError::Forbidden)
        }),
{
    if !(email_is_valid(req.email.as_str()) && req.password.as_str().unicode_len() >= 1) {
        return Err(LedgerError::Validation);
    }
    let email = lowercased(trimmed(req.email.as_str()));
    if str_eq(email.as_str(), state.platform_admin_email.as_str()) && str_eq(
        req.password.as_str(),
        state.platform_admin_password.as_str(),
    ) {
        Ok(())
    } else {
        Err(LedgerError::Forbidden)
    }
}

} // verus!
