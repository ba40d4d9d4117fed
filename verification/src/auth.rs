//! The authenticated principal the core receives, and the role gating
//! it applies to mutations.

use vstd::prelude::*;
use vstd::string::StringExecFns;
use crate::model::{Id, LedgerError};
use crate::text::{lower_of, lowercased, str_eq, trim_of, trimmed};

verus! {

/// A tenant-scoped user role.
#[derive(Clone, Copy, Debug, PartialEq, Eq, Structural)]
pub enum Role {
    Owner,
    Admin,
    Staff,
    Teacher,
}

/// The already-authenticated principal on whose behalf the core acts.
#[derive(Clone, Copy, Debug, PartialEq, Eq, Structural)]
pub struct Principal {
    pub tenant: Id,
    pub user: Id,
    pub role: Role,
}

/// Whether the role may create reference records and settle
/// obligations: owner or admin.
pub open spec fn can_manage(role: Role) -> bool {
    role == Role::Owner || role == Role::Admin
}

/// Whether the role may read financial data and work with contracts:
/// owner, admin or staff.
pub open spec fn can_operate(role: Role) -> bool {
    can_manage(role) || role == Role::Staff
}

impl Principal {
    /// Decides whether this principal may create reference records and
    /// settle obligations.
    pub fn may_manage(&self) -> (r: bool)
        ensures
            r == can_manage(self.role),
    {
        match self.role {
            Role::Owner => true,
            Role::Admin => true,
            _ => false,
        }
    }

    /// Decides whether this principal may read financial data and work
    /// with contracts.
    pub fn may_operate(&self) -> (r: bool)
        ensures
            r == can_operate(self.role),
    {
        match self.role {
            Role::Owner => true,
            Role::Admin => true,
            Role::Staff => true,
            _ => false,
        }
    }
}

/// The claims carried by an authentication token.
#[derive(Clone, Debug)]
pub struct Claims {
    pub sub: String,
    pub tenant_id: Option<String>,
    pub role: String,
    pub scope: String,
    pub exp: usize,
}

/// Parses a tenant-scoped role name; unknown values are rejected.
pub fn normalize_role(role: &str) -> (r: Result<Role, LedgerError>)
    ensures
        ({
            let n = lower_of(trim_of(role@));
            if n == "admin"@ {
                r == Ok::<Role, LedgerError>(Role::Admin)
            } else if n == "teacher"@ {
                r == Ok::<Role, LedgerError>(Role::Teacher)
            } else if n == "staff"@ {
                r == Ok::<Role, LedgerError>(Role::Staff)
            } else if n == "owner"@ {
                r == Ok::<Role, LedgerError>(Role::Owner)
            } else {
                r == Err::<Role, LedgerError>(LedgerError::Validation)
            }
        }),
{
    let n = lowercased(trimmed(role));
    if str_eq(n.as_str(), "admin") {
        Ok(Role::Admin)
    } else if str_eq(n.as_str(), "teacher") {
        Ok(Role::Teacher)
    } else if str_eq(n.as_str(), "staff") {
        Ok(Role::Staff)
    } else if str_eq(n.as_str(), "owner") {
        Ok(Role::Owner)
    } else {
        Err(LedgerError::Validation)
    }
}

/// The person-directory kind a staff role maps to: teachers stay
/// teachers, every other role is filed as staff.
pub fn role_to_person_type(role: &str) -> (r: &str)
    ensures
        role@ == "teacher"@ ==> r@ == "teacher"@,
        role@ != "teacher"@ ==> r@ == "staff"@,
{
    if str_eq(role, "teacher") {
        "teacher"
    } else {
        "staff"
    }
}

/// Checks the claims of a tenant-scoped token: the scope must be
/// `tenant`, a tenant must be named, and the role must be a known one.
pub fn tenant_claims_role(claims: &Claims) -> (r: Result<Role, LedgerError>)
    ensures
        claims.scope@ != "tenant"@ ==> r == Err::<Role, LedgerError>(LedgerError::Forbidden),
        claims.scope@ == "tenant"@ && claims.tenant_id is None ==> r == Err::<Role, LedgerError>(
            LedgerError::Forbidden,
        ),
        claims.scope@ == "tenant"@ && claims.tenant_id is Some ==> ({
            let n = lower_of(trim_of(claims.role@));
            if n == "admin"@ {
                r == Ok::<Role, LedgerError>(Role::Admin)
            } else if n == "teacher"@ {
                r == Ok::<Role, LedgerError>(Role::Teacher)
            } else if n == "staff"@ {
                r == Ok::<Role, LedgerError>(Role::Staff)
            } else if n == "owner"@ {
                r == Ok::<Role, LedgerError>(Role::Owner)
            } else {
                r == Err::<Role, LedgerError>(LedgerError::Forbidden)
            }
        }),
{
    if !str_eq(claims.scope.as_str(), "tenant") {
        return Err(LedgerError::Forbidden);
    }
    match &claims.tenant_id {
        None => Err(LedgerError::Forbidden),
        Some(_) => match normalize_role(claims.role.as_str()) {
            Ok(role) => Ok(role),
            Err(_) => Err(LedgerError::Forbidden),
        },
    }
}

/// What the outside email check returns for a given character
/// sequence.
pub uninterp spec fn email_ok(s: Seq<char>) -> bool;

/// Relies on validator's `ValidateEmail` for `&str`: the HTML5-style
/// email address check, whose result depends on the characters alone.
#[verifier::external_body]
pub fn email_is_valid(s: &str) -> (r: bool)
    ensures
        r == email_ok(s@),
{
    validator::ValidateEmail::validate_email(&s)
}

/// Request to register a school and its owner account.
pub struct RegisterRequest {
    pub school_name: String,
    pub school_code: String,
    pub email: String,
    pub password: String,
}

/// Request to sign in to a school.
pub struct LoginRequest {
    pub school_code: String,
    pub email: String,
    pub password: String,
}

/// Checks a registration request: the school name needs two
/// characters, the email must pass the email check and the password
/// needs eight characters.
pub fn validate_register(req: &RegisterRequest) -> (r: Result<(), LedgerError>)
    ensures
        r == (if req.school_name@.len() >= 2 && email_ok(req.email@) && req.password@.len() >= 8 {
            Ok::<(), LedgerError>(())
        } else {
            Err::<(), LedgerError>(LedgerError::Validation)
        }),
{
    if req.school_name.as_str().unicode_len() >= 2 && email_is_valid(req.email.as_str())
        && req.password.as_str().unicode_len() >= 8 {
        Ok(())
    } else {
        Err(LedgerError::Validation)
    }
}

/// Checks a sign-in request: the school code needs three characters,
/// the email must pass the email check and the password must not be
/// empty.
pub fn validate_login(req: &LoginRequest) -> (r: Result<(), LedgerError>)
    ensures
        r == (if req.school_code@.len() >= 3 && email_ok(req.email@) && req.password@.len() >= 1 {
            Ok::<(), LedgerError>(())
        } else {
            Err::<(), LedgerError>(LedgerError::Validation)
        }),
{
    if req.school_code.as_str().unicode_len() >= 3 && email_is_valid(req.email.as_str())
        && req.password.as_str().unicode_len() >= 1 {
        Ok(())
    } else {
        Err(LedgerError::Validation)
    }
}

} // verus!
